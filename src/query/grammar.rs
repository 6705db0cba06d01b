//! The meaning of a filter: what the parser must build from each token
//! sequence, stated as spec functions that follow the grammar.

use vstd::prelude::*;

use super::attribute::{
    decimal_text, is_string_prefix, numerical_leaf, user_text, ProcessAttribute, ProcessRecord,
};
use super::lexer::{lex_from, TokenSpec};
use super::matcher::{literal_accepts, normalized_text, regex_finds, regex_accepts, regex_pattern};
use super::number::{eq_ignore_case, operand_value};
use super::parser::{prefix_of, unit_kind_of, Query};
use super::{Capabilities, CompareOp, NumericalQuery, OperandKind, PrefixType, QueryError, QueryOptions, QueryResult, TimeQuery};

verus! {

/// A leaf of a filter as written.
pub enum LeafSpec {
    Empty,
    /// A text attribute and its operand.
    Text(PrefixType, Seq<char>),
    Number(PrefixType, NumericalQuery),
    Time(TimeQuery),
}

/// A filter expression as written.
pub enum ExprSpec {
    And(Box<ExprSpec>, Box<ExprSpec>),
    Or(Box<ExprSpec>, Box<ExprSpec>),
    Not(Box<ExprSpec>),
    Group(Box<ExprSpec>),
    Leaf(LeafSpec),
}

/// The kind of a compile error.
pub enum ErrorKind {
    Lex,
    UnknownPrefix,
    Unsupported(PrefixType, OperandKind),
    InvalidRegex,
    InvalidNumberOrUnit,
}

/// The kind of an error.
pub open spec fn kind_of(e: QueryError) -> ErrorKind {
    match e {
        QueryError::LexError(_) => ErrorKind::Lex,
        QueryError::UnknownPrefix(_) => ErrorKind::UnknownPrefix,
        QueryError::UnsupportedAttributeForPrefix(p, k) => ErrorKind::Unsupported(p, k),
        QueryError::InvalidRegex(_) => ErrorKind::InvalidRegex,
        QueryError::InvalidNumberOrUnit(_) => ErrorKind::InvalidNumberOrUnit,
    }
}

/// What a parse step yields: an expression and the position after it.
pub type Parsed = Result<(ExprSpec, int), ErrorKind>;

/// Whether a token is the word `and` (any ASCII case) or `&&`.
pub open spec fn is_and_spec(t: TokenSpec) -> bool {
    t matches TokenSpec::Word(w) && (eq_ignore_case(w, "and"@) || w == "&&"@)
}

/// Whether a token is the word `or` (any ASCII case) or `||`.
pub open spec fn is_or_spec(t: TokenSpec) -> bool {
    t matches TokenSpec::Word(w) && (eq_ignore_case(w, "or"@) || w == "||"@)
}

/// Whether a token can begin a term.
pub open spec fn starts_term_spec(t: TokenSpec) -> bool {
    match t {
        TokenSpec::Word(_) => !is_and_spec(t) && !is_or_spec(t),
        TokenSpec::Quoted(_) | TokenSpec::LeftParen | TokenSpec::Bang => true,
        _ => false,
    }
}

/// The leaf of a text attribute; fails only on a pattern the regex engine refuses.
pub open spec fn string_leaf(prefix: PrefixType, text: Seq<char>, o: QueryOptions) -> Result<LeafSpec, ErrorKind> {
    if o.use_regex && !regex_accepts(regex_pattern(text, o.ignore_case)) {
        Err(ErrorKind::InvalidRegex)
    } else {
        Ok(LeafSpec::Text(prefix, text))
    }
}

/// The leaf of a prefixed attribute whose operand stands at `pos`;
/// `cond` is the comparison after the prefix, `None` for `:`.
pub open spec fn attribute_spec(
    toks: Seq<TokenSpec>,
    pos: int,
    prefix: PrefixType,
    cond: Option<CompareOp>,
    o: QueryOptions,
) -> Result<LeafSpec, ErrorKind> {
    if is_string_prefix(prefix) {
        if cond is Some && cond != Some(CompareOp::Equal) {
            Err(ErrorKind::Unsupported(prefix, OperandKind::Number))
        } else if pos >= toks.len() {
            Err(ErrorKind::Lex)
        } else {
            match toks[pos] {
                TokenSpec::Word(t) => string_leaf(prefix, t, o),
                TokenSpec::Quoted(t) => string_leaf(prefix, t, o),
                _ => Err(ErrorKind::Lex),
            }
        }
    } else {
        let op = match cond {
            Some(op) => op,
            None => CompareOp::Equal,
        };
        if pos >= toks.len() {
            Err(ErrorKind::InvalidNumberOrUnit)
        } else {
            match toks[pos] {
                TokenSpec::Word(t) => match operand_value(t, unit_kind_of(prefix)) {
                    None => Err(ErrorKind::InvalidNumberOrUnit),
                    Some(v) => if prefix == PrefixType::Time {
                        Ok(LeafSpec::Time(TimeQuery { condition: op, micros: v as i128 }))
                    } else if numerical_leaf(prefix, NumericalQuery { condition: op, value: v as i128 }) is Some {
                        Ok(LeafSpec::Number(prefix, NumericalQuery { condition: op, value: v as i128 }))
                    } else {
                        Err(ErrorKind::Unsupported(prefix, OperandKind::Number))
                    },
                },
                TokenSpec::Quoted(_) => Err(ErrorKind::Unsupported(prefix, OperandKind::Text)),
                _ => Err(ErrorKind::InvalidNumberOrUnit),
            }
        }
    }
}

/// A leaf as a parse step ending at `next`.
pub open spec fn leaf_step(l: Result<LeafSpec, ErrorKind>, next: int) -> Parsed {
    match l {
        Ok(leaf) => Ok((ExprSpec::Leaf(leaf), next)),
        Err(k) => Err(k),
    }
}

/// `factor` from `pos` on.
pub open spec fn factor_spec(toks: Seq<TokenSpec>, pos: int, o: QueryOptions, c: Capabilities) -> Parsed
    decreases toks.len() - pos, 0nat,
{
    if pos < 0 || pos >= toks.len() {
        Err(ErrorKind::Lex)
    } else {
        match toks[pos] {
            TokenSpec::LeftParen => if pos + 1 < toks.len() && toks[pos + 1] is RightParen {
                Ok((ExprSpec::Group(Box::new(ExprSpec::Leaf(LeafSpec::Empty))), pos + 2))
            } else {
                match or_spec(toks, pos + 1, o, c) {
                    Ok((e, p)) => if p < toks.len() && toks[p] is RightParen {
                        Ok((ExprSpec::Group(Box::new(e)), p + 1))
                    } else {
                        Err(ErrorKind::Lex)
                    },
                    Err(k) => Err(k),
                }
            },
            TokenSpec::Quoted(t) => leaf_step(string_leaf(PrefixType::Name, t, o), pos + 1),
            TokenSpec::Word(w) => if is_and_spec(toks[pos]) || is_or_spec(toks[pos]) {
                Err(ErrorKind::Lex)
            } else if pos + 1 < toks.len() && (toks[pos + 1] is Colon || toks[pos + 1] is Op) {
                match prefix_of(w, c) {
                    None => Err(ErrorKind::UnknownPrefix),
                    Some(prefix) => {
                        let cond = match toks[pos + 1] {
                            TokenSpec::Op(op) => Some(op),
                            _ => None,
                        };
                        leaf_step(attribute_spec(toks, pos + 2, prefix, cond, o), pos + 3)
                    },
                }
            } else {
                leaf_step(string_leaf(PrefixType::Name, w, o), pos + 1)
            },
            _ => Err(ErrorKind::Lex),
        }
    }
}

/// `term` from `pos` on.
pub open spec fn unary_spec(toks: Seq<TokenSpec>, pos: int, o: QueryOptions, c: Capabilities) -> Parsed
    decreases toks.len() - pos, 1nat,
{
    if 0 <= pos < toks.len() && toks[pos] is Bang {
        match unary_spec(toks, pos + 1, o, c) {
            Ok((e, p)) => Ok((ExprSpec::Not(Box::new(e)), p)),
            Err(k) => Err(k),
        }
    } else {
        factor_spec(toks, pos, o, c)
    }
}

/// The rest of a `conjunction` after `lhs`, from `p` on.
pub open spec fn and_rest(toks: Seq<TokenSpec>, lhs: ExprSpec, p: int, o: QueryOptions, c: Capabilities) -> Parsed
    decreases toks.len() - p, 2nat,
{
    if 0 <= p < toks.len() && (is_and_spec(toks[p]) || starts_term_spec(toks[p])) {
        let next = if is_and_spec(toks[p]) { p + 1 } else { p };
        match unary_spec(toks, next, o, c) {
            Ok((rhs, q)) => if p < q <= toks.len() {
                and_rest(toks, ExprSpec::And(Box::new(lhs), Box::new(rhs)), q, o, c)
            } else {
                Err(ErrorKind::Lex)
            },
            Err(k) => Err(k),
        }
    } else {
        Ok((lhs, p))
    }
}

/// `conjunction` from `pos` on.
pub open spec fn and_spec(toks: Seq<TokenSpec>, pos: int, o: QueryOptions, c: Capabilities) -> Parsed
    decreases toks.len() - pos, 2nat,
{
    match unary_spec(toks, pos, o, c) {
        Ok((lhs, p)) => if pos < p <= toks.len() {
            and_rest(toks, lhs, p, o, c)
        } else {
            Err(ErrorKind::Lex)
        },
        Err(k) => Err(k),
    }
}

/// The rest of an `expression` after `lhs`, from `p` on.
pub open spec fn or_rest(toks: Seq<TokenSpec>, lhs: ExprSpec, p: int, o: QueryOptions, c: Capabilities) -> Parsed
    decreases toks.len() - p, 3nat,
{
    if 0 <= p < toks.len() && is_or_spec(toks[p]) {
        match and_spec(toks, p + 1, o, c) {
            Ok((rhs, q)) => if p < q <= toks.len() {
                or_rest(toks, ExprSpec::Or(Box::new(lhs), Box::new(rhs)), q, o, c)
            } else {
                Err(ErrorKind::Lex)
            },
            Err(k) => Err(k),
        }
    } else {
        Ok((lhs, p))
    }
}

/// `expression` from `pos` on.
pub open spec fn or_spec(toks: Seq<TokenSpec>, pos: int, o: QueryOptions, c: Capabilities) -> Parsed
    decreases toks.len() - pos, 3nat,
{
    match and_spec(toks, pos, o, c) {
        Ok((lhs, p)) => if pos < p <= toks.len() {
            or_rest(toks, lhs, p, o, c)
        } else {
            Err(ErrorKind::Lex)
        },
        Err(k) => Err(k),
    }
}

/// What a filter compiles to: blank input is the empty leaf, and the whole
/// token sequence must form one expression.
pub open spec fn compile_spec(s: Seq<char>, o: QueryOptions, c: Capabilities) -> Result<ExprSpec, ErrorKind> {
    match lex_from(s, 0) {
        None => Err(ErrorKind::Lex),
        Some(toks) => if toks.len() == 0 {
            Ok(ExprSpec::Leaf(LeafSpec::Empty))
        } else {
            match or_spec(toks, 0, o, c) {
                Ok((e, p)) => if p < toks.len() {
                    Err(ErrorKind::Lex)
                } else {
                    Ok(e)
                },
                Err(k) => Err(k),
            }
        },
    }
}

/// Whether a leaf attribute was built for a written leaf.
pub open spec fn leaf_built(a: ProcessAttribute, l: LeafSpec, o: QueryOptions) -> bool {
    match l {
        LeafSpec::Empty => a is Empty,
        LeafSpec::Text(prefix, t) => match a {
            ProcessAttribute::Pid(m) => prefix == PrefixType::Pid && m.built_from(t, o),
            ProcessAttribute::Name(m) => prefix == PrefixType::Name && m.built_from(t, o),
            ProcessAttribute::State(m) => prefix == PrefixType::State && m.built_from(t, o),
            ProcessAttribute::User(m) => prefix == PrefixType::User && m.built_from(t, o),
            _ => false,
        },
        LeafSpec::Number(prefix, q) => numerical_leaf(prefix, q) == Some(a),
        LeafSpec::Time(q) => a == ProcessAttribute::Time(q),
    }
}

/// Whether a query was built for a written expression.
pub open spec fn built(q: Query, e: ExprSpec, o: QueryOptions) -> bool
    decreases e,
{
    match e {
        ExprSpec::And(a, b) => q matches Query::And(qa, qb) && built(*qa, *a, o) && built(*qb, *b, o),
        ExprSpec::Or(a, b) => q matches Query::Or(qa, qb) && built(*qa, *a, o) && built(*qb, *b, o),
        ExprSpec::Not(a) => q matches Query::Not(qa) && built(*qa, *a, o),
        ExprSpec::Group(a) => q matches Query::Group(qa) && built(*qa, *a, o),
        ExprSpec::Leaf(l) => q matches Query::Attribute(attr) && leaf_built(attr, l, o),
    }
}

/// Whether an exec parse step agrees with the spec step.
pub open spec fn agrees(r: QueryResult<(Query, usize)>, s: Parsed, o: QueryOptions) -> bool {
    match (r, s) {
        (Ok((q, p)), Ok((e, sp))) => p == sp && built(q, e, o),
        (Err(err), Err(k)) => kind_of(err) == k,
        _ => false,
    }
}

/// Whether an exec leaf agrees with the spec leaf.
pub open spec fn leaf_agrees(r: QueryResult<ProcessAttribute>, s: Result<LeafSpec, ErrorKind>, o: QueryOptions) -> bool {
    match (r, s) {
        (Ok(a), Ok(l)) => leaf_built(a, l, o),
        (Err(err), Err(k)) => kind_of(err) == k,
        _ => false,
    }
}

/// Whether a compile result is what the filter compiles to.
pub open spec fn compiled_as(r: QueryResult<Query>, s: Result<ExprSpec, ErrorKind>, o: QueryOptions) -> bool {
    match (r, s) {
        (Ok(q), Ok(e)) => built(q, e, o),
        (Err(err), Err(k)) => kind_of(err) == k,
        _ => false,
    }
}

/// Whether a text operand, under the options, accepts a value.
pub open spec fn text_accepts(t: Seq<char>, o: QueryOptions, v: Seq<char>) -> bool {
    if o.use_regex {
        regex_finds(regex_pattern(t, o.ignore_case), v)
    } else {
        literal_accepts(normalized_text(t, o.ignore_case), o.whole_word, o.ignore_case, v)
    }
}

/// The text of a process that a text attribute reads.
pub open spec fn field_text(prefix: PrefixType, p: &ProcessRecord, is_using_command: bool) -> Seq<char> {
    match prefix {
        PrefixType::Pid => decimal_text(p.pid as nat),
        PrefixType::State => p.process_state@,
        PrefixType::User => user_text(p.user),
        _ => if is_using_command {
            p.command@
        } else {
            p.name@
        },
    }
}

/// Whether a written expression accepts a process.
pub open spec fn expr_accepts(e: ExprSpec, o: QueryOptions, p: &ProcessRecord, is_using_command: bool) -> bool
    decreases e,
{
    match e {
        ExprSpec::And(a, b) => expr_accepts(*a, o, p, is_using_command) && expr_accepts(*b, o, p, is_using_command),
        ExprSpec::Or(a, b) => expr_accepts(*a, o, p, is_using_command) || expr_accepts(*b, o, p, is_using_command),
        ExprSpec::Not(a) => !expr_accepts(*a, o, p, is_using_command),
        ExprSpec::Group(a) => expr_accepts(*a, o, p, is_using_command),
        ExprSpec::Leaf(l) => match l {
            LeafSpec::Empty => true,
            LeafSpec::Text(prefix, t) => text_accepts(t, o, field_text(prefix, p, is_using_command)),
            LeafSpec::Number(prefix, q) => match numerical_leaf(prefix, q) {
                Some(a) => a.accepts(p, is_using_command),
                None => false,
            },
            LeafSpec::Time(q) => q.holds(p.time_millis),
        },
    }
}

/// A query built for an expression accepts exactly what the expression does.
pub proof fn lemma_built_accepts(q: Query, e: ExprSpec, o: QueryOptions, p: &ProcessRecord, is_using_command: bool)
    requires
        built(q, e, o),
    ensures
        q.accepts(p, is_using_command) == expr_accepts(e, o, p, is_using_command),
    decreases e,
{
    match e {
        ExprSpec::And(a, b) => {
            if let Query::And(qa, qb) = q {
                lemma_built_accepts(*qa, *a, o, p, is_using_command);
                lemma_built_accepts(*qb, *b, o, p, is_using_command);
            }
        },
        ExprSpec::Or(a, b) => {
            if let Query::Or(qa, qb) = q {
                lemma_built_accepts(*qa, *a, o, p, is_using_command);
                lemma_built_accepts(*qb, *b, o, p, is_using_command);
            }
        },
        ExprSpec::Not(a) => {
            if let Query::Not(qa) = q {
                lemma_built_accepts(*qa, *a, o, p, is_using_command);
            }
        },
        ExprSpec::Group(a) => {
            if let Query::Group(qa) = q {
                lemma_built_accepts(*qa, *a, o, p, is_using_command);
            }
        },
        ExprSpec::Leaf(l) => {},
    }
}

/// Compiling the same filter twice gives the same outcome: errors of the same
/// kind, or queries built for the same expression that accept exactly the
/// same processes.
pub proof fn lemma_compile_deterministic(
    filter: Seq<char>,
    o: QueryOptions,
    c: Capabilities,
    r1: QueryResult<Query>,
    r2: QueryResult<Query>,
    p: &ProcessRecord,
    is_using_command: bool,
)
    requires
        compiled_as(r1, compile_spec(filter, o, c), o),
        compiled_as(r2, compile_spec(filter, o, c), o),
    ensures
        r1 is Ok <==> r2 is Ok,
        r1 is Err ==> kind_of(r1->Err_0) == kind_of(r2->Err_0),
        r1 is Ok ==> r1->Ok_0.accepts(p, is_using_command) == r2->Ok_0.accepts(p, is_using_command),
{
    if let (Ok(q1), Ok(q2), Ok(e)) = (r1, r2, compile_spec(filter, o, c)) {
        lemma_built_accepts(q1, e, o, p, is_using_command);
        lemma_built_accepts(q2, e, o, p, is_using_command);
    }
}

/// A numeric or duration prefix followed by a comparison and nothing else,
/// such as `cpu >`, is refused as a missing number.
pub proof fn lemma_comparison_needs_number(w: Seq<char>, op: CompareOp, o: QueryOptions, c: Capabilities)
    requires
        prefix_of(w, c) matches Some(prefix) && !is_string_prefix(prefix),
        !is_and_spec(TokenSpec::Word(w)),
        !is_or_spec(TokenSpec::Word(w)),
    ensures
        or_spec(seq![TokenSpec::Word(w), TokenSpec::Op(op)], 0, o, c) == Err::<(ExprSpec, int), ErrorKind>(
            ErrorKind::InvalidNumberOrUnit,
        ),
{
    let toks = seq![TokenSpec::Word(w), TokenSpec::Op(op)];
    assert(factor_spec(toks, 0, o, c) == Err::<(ExprSpec, int), ErrorKind>(ErrorKind::InvalidNumberOrUnit));
    assert(unary_spec(toks, 0, o, c) == Err::<(ExprSpec, int), ErrorKind>(ErrorKind::InvalidNumberOrUnit));
    assert(and_spec(toks, 0, o, c) == Err::<(ExprSpec, int), ErrorKind>(ErrorKind::InvalidNumberOrUnit));
}

} // verus!
