//! The expression tree of a filter, its evaluation, and the parser that
//! builds it from tokens.
//!
//! Grammar, lowest precedence first:
//!
//! ```text
//! expression := conjunction (("or" | "||") conjunction)*
//! conjunction := term ((("and" | "&&") term) | term)*
//! term := "!" term | factor
//! factor := "(" ")" | "(" expression ")" | attribute
//! attribute := (prefix (":" | comparison))? operand
//! ```

use vstd::prelude::*;

use super::attribute::{
    is_string_prefix, new_numerical_attribute, new_string_attribute,
    new_time_attribute, ProcessAttribute, ProcessRecord,
};
use super::grammar::{
    agrees, and_rest, and_spec, attribute_spec, built, compile_spec, compiled_as, factor_spec, is_and_spec,
    is_or_spec, kind_of, leaf_agrees, LeafSpec, or_rest, or_spec, starts_term_spec, unary_spec, ExprSpec,
};
use super::lexer::{token_view, tokens_view, tokenize, Token};
use super::number::{eq_ignore_case, parse_operand, suffix_eq_ignore_case, UnitKind};
use super::{
    Capabilities, CompareOp, NumericalQuery, OperandKind, PrefixType, QueryError, QueryOptions,
    QueryResult, TimeQuery,
};

verus! {

/// A compiled filter.
pub enum Query {
    And(Box<Query>, Box<Query>),
    Or(Box<Query>, Box<Query>),
    Not(Box<Query>),
    /// A parenthesized sub-expression; matches as its content does.
    Group(Box<Query>),
    Attribute(ProcessAttribute),
}

impl Query {
    /// Whether this query accepts a process.
    pub open spec fn accepts(&self, p: &ProcessRecord, is_using_command: bool) -> bool
        decreases self,
    {
        match self {
            Query::And(a, b) => a.accepts(p, is_using_command) && b.accepts(p, is_using_command),
            Query::Or(a, b) => a.accepts(p, is_using_command) || b.accepts(p, is_using_command),
            Query::Not(a) => !a.accepts(p, is_using_command),
            Query::Group(a) => a.accepts(p, is_using_command),
            Query::Attribute(attr) => attr.accepts(p, is_using_command),
        }
    }

    /// Tests a process; `is_using_command` makes untagged searches read the
    /// command line instead of the name.
    pub fn check(&self, process: &ProcessRecord, is_using_command: bool) -> (r: bool)
        ensures
            r == self.accepts(process, is_using_command),
        decreases self,
    {
        match self {
            Query::And(a, b) => a.check(process, is_using_command) && b.check(process, is_using_command),
            Query::Or(a, b) => a.check(process, is_using_command) || b.check(process, is_using_command),
            Query::Not(a) => !a.check(process, is_using_command),
            Query::Group(a) => a.check(process, is_using_command),
            Query::Attribute(attr) => attr.check(process, is_using_command),
        }
    }
}

/// The attribute a keyword names, if it names one available here.
pub open spec fn prefix_of(w: Seq<char>, caps: Capabilities) -> Option<PrefixType> {
    if eq_ignore_case(w, "pid"@) {
        Some(PrefixType::Pid)
    } else if eq_ignore_case(w, "name"@) {
        Some(PrefixType::Name)
    } else if eq_ignore_case(w, "cpu"@) {
        Some(PrefixType::CpuPercentage)
    } else if eq_ignore_case(w, "mem"@) {
        Some(PrefixType::MemPercentage)
    } else if eq_ignore_case(w, "memb"@) {
        Some(PrefixType::MemBytes)
    } else if eq_ignore_case(w, "read"@) {
        Some(PrefixType::ReadPerSecond)
    } else if eq_ignore_case(w, "write"@) {
        Some(PrefixType::WritePerSecond)
    } else if eq_ignore_case(w, "tread"@) {
        Some(PrefixType::TotalRead)
    } else if eq_ignore_case(w, "twrite"@) {
        Some(PrefixType::TotalWrite)
    } else if eq_ignore_case(w, "user"@) {
        Some(PrefixType::User)
    } else if eq_ignore_case(w, "state"@) {
        Some(PrefixType::State)
    } else if eq_ignore_case(w, "time"@) {
        Some(PrefixType::Time)
    } else if eq_ignore_case(w, "pri"@) {
        Some(PrefixType::Priority)
    } else if caps.nice && eq_ignore_case(w, "nice"@) {
        Some(PrefixType::Nice)
    } else if caps.gpu && eq_ignore_case(w, "gpu"@) {
        Some(PrefixType::GpuPercentage)
    } else if caps.gpu && eq_ignore_case(w, "gmem"@) {
        Some(PrefixType::GpuMemoryPercentage)
    } else if caps.gpu && eq_ignore_case(w, "gmemb"@) {
        Some(PrefixType::GpuMemoryBytes)
    } else {
        None
    }
}

/// Resolves a keyword, ignoring ASCII case, to the attribute it names.
pub fn prefix_type_of(w: &Vec<char>, caps: &Capabilities) -> (r: Option<PrefixType>)
    ensures
        r == prefix_of(w@, *caps),
{
    proof {
        assert(w@.subrange(0, w@.len() as int) == w@);
    }
    if suffix_eq_ignore_case(w, 0, "pid") {
        Some(PrefixType::Pid)
    } else if suffix_eq_ignore_case(w, 0, "name") {
        Some(PrefixType::Name)
    } else if suffix_eq_ignore_case(w, 0, "cpu") {
        Some(PrefixType::CpuPercentage)
    } else if suffix_eq_ignore_case(w, 0, "mem") {
        Some(PrefixType::MemPercentage)
    } else if suffix_eq_ignore_case(w, 0, "memb") {
        Some(PrefixType::MemBytes)
    } else if suffix_eq_ignore_case(w, 0, "read") {
        Some(PrefixType::ReadPerSecond)
    } else if suffix_eq_ignore_case(w, 0, "write") {
        Some(PrefixType::WritePerSecond)
    } else if suffix_eq_ignore_case(w, 0, "tread") {
        Some(PrefixType::TotalRead)
    } else if suffix_eq_ignore_case(w, 0, "twrite") {
        Some(PrefixType::TotalWrite)
    } else if suffix_eq_ignore_case(w, 0, "user") {
        Some(PrefixType::User)
    } else if suffix_eq_ignore_case(w, 0, "state") {
        Some(PrefixType::State)
    } else if suffix_eq_ignore_case(w, 0, "time") {
        Some(PrefixType::Time)
    } else if suffix_eq_ignore_case(w, 0, "pri") {
        Some(PrefixType::Priority)
    } else if caps.nice && suffix_eq_ignore_case(w, 0, "nice") {
        Some(PrefixType::Nice)
    } else if caps.gpu && suffix_eq_ignore_case(w, 0, "gpu") {
        Some(PrefixType::GpuPercentage)
    } else if caps.gpu && suffix_eq_ignore_case(w, 0, "gmem") {
        Some(PrefixType::GpuMemoryPercentage)
    } else if caps.gpu && suffix_eq_ignore_case(w, 0, "gmemb") {
        Some(PrefixType::GpuMemoryBytes)
    } else {
        None
    }
}

/// The units a numeric attribute's operand may carry.
pub open spec fn unit_kind_of(prefix: PrefixType) -> UnitKind {
    match prefix {
        PrefixType::CpuPercentage | PrefixType::MemPercentage | PrefixType::GpuPercentage
        | PrefixType::GpuMemoryPercentage => UnitKind::Percent,
        PrefixType::Nice | PrefixType::Priority => UnitKind::Plain,
        PrefixType::Time => UnitKind::Duration,
        _ => UnitKind::Bytes,
    }
}

fn unit_kind(prefix: PrefixType) -> (r: UnitKind)
    ensures
        r == unit_kind_of(prefix),
{
    match prefix {
        PrefixType::CpuPercentage | PrefixType::MemPercentage | PrefixType::GpuPercentage
        | PrefixType::GpuMemoryPercentage => UnitKind::Percent,
        PrefixType::Nice | PrefixType::Priority => UnitKind::Plain,
        PrefixType::Time => UnitKind::Duration,
        _ => UnitKind::Bytes,
    }
}

/// Relies on collecting characters into a `String`: the same characters in order.
#[verifier::external_body]
fn string_of(chars: &Vec<char>) -> (r: String)
    ensures
        r@ == chars@,
{
    chars.iter().collect()
}

fn same_chars(w: &Vec<char>, lit: &str) -> (r: bool)
    ensures
        r == (w@ == lit@),
{
    let n = lit.unicode_len();
    if w.len() != n {
        return false;
    }
    let mut i: usize = 0;
    while i < n
        invariant
            n == lit@.len(),
            w@.len() == n,
            i <= n,
            forall|j: int| 0 <= j < i ==> w@[j] == lit@[j],
        decreases n - i,
    {
        if w[i] != lit.get_char(i) {
            return false;
        }
        i += 1;
    }
    proof {
        assert(w@ =~= lit@);
    }
    true
}

fn is_and(t: &Token) -> (r: bool)
    ensures
        r == is_and_spec(token_view(*t)),
{
    match t {
        Token::Word(w) => {
            proof {
                assert(w@.subrange(0, w@.len() as int) == w@);
            }
            suffix_eq_ignore_case(w, 0, "and") || same_chars(w, "&&")
        },
        _ => false,
    }
}

fn is_or(t: &Token) -> (r: bool)
    ensures
        r == is_or_spec(token_view(*t)),
{
    match t {
        Token::Word(w) => {
            proof {
                assert(w@.subrange(0, w@.len() as int) == w@);
            }
            suffix_eq_ignore_case(w, 0, "or") || same_chars(w, "||")
        },
        _ => false,
    }
}

fn begins_term(t: &Token) -> (r: bool)
    ensures
        r == starts_term_spec(token_view(*t)),
{
    match t {
        Token::Word(_) => !is_and(t) && !is_or(t),
        Token::Quoted(_) | Token::LeftParen | Token::Bang => true,
        _ => false,
    }
}

/// What every parse step promises: it consumes at least one token and stays
/// within the input.
pub open spec fn advances(r: QueryResult<(Query, usize)>, pos: usize, len: usize) -> bool {
    r is Ok ==> pos < r->Ok_0.1 <= len
}

fn lex_error(message: &str) -> (r: QueryError)
    ensures
        r is LexError,
{
    QueryError::LexError(String::from_str(message))
}

/// Parses `expression` from `pos` on.
fn parse_or(tokens: &Vec<Token>, pos: usize, options: &QueryOptions, caps: &Capabilities) -> (r:
    QueryResult<(Query, usize)>)
    requires
        pos <= tokens.len(),
    ensures
        advances(r, pos, tokens.len() as usize),
        agrees(r, or_spec(tokens_view(tokens@), pos as int, *options, *caps), *options),
    decreases tokens.len() - pos, 3nat,
{
    let ghost toks = tokens_view(tokens@);
    let (mut lhs, mut p) = match parse_and(tokens, pos, options, caps) {
        Ok(parsed) => parsed,
        Err(e) => {
            return Err(e);
        },
    };
    let ghost mut lhs_e = and_spec(toks, pos as int, *options, *caps)->Ok_0.0;
    while p < tokens.len() && is_or(&tokens[p])
        invariant
            pos < p <= tokens.len(),
            toks == tokens_view(tokens@),
            built(lhs, lhs_e, *options),
            or_spec(toks, pos as int, *options, *caps) == or_rest(toks, lhs_e, p as int, *options, *caps),
        decreases tokens.len() - p,
    {
        proof {
            assert(toks[p as int] == token_view(tokens@[p as int]));
        }
        let (rhs, q) = match parse_and(tokens, p + 1, options, caps) {
            Ok(parsed) => parsed,
            Err(e) => {
                return Err(e);
            },
        };
        proof {
            lhs_e = ExprSpec::Or(Box::new(lhs_e), Box::new(and_spec(toks, p + 1, *options, *caps)->Ok_0.0));
        }
        lhs = Query::Or(Box::new(lhs), Box::new(rhs));
        p = q;
    }
    proof {
        if p < tokens.len() {
            assert(toks[p as int] == token_view(tokens@[p as int]));
        }
    }
    Ok((lhs, p))
}

/// Parses `conjunction` from `pos` on; terms side by side are joined by AND.
fn parse_and(tokens: &Vec<Token>, pos: usize, options: &QueryOptions, caps: &Capabilities) -> (r:
    QueryResult<(Query, usize)>)
    requires
        pos <= tokens.len(),
    ensures
        advances(r, pos, tokens.len() as usize),
        agrees(r, and_spec(tokens_view(tokens@), pos as int, *options, *caps), *options),
    decreases tokens.len() - pos, 2nat,
{
    let ghost toks = tokens_view(tokens@);
    let (mut lhs, mut p) = match parse_unary(tokens, pos, options, caps) {
        Ok(parsed) => parsed,
        Err(e) => {
            return Err(e);
        },
    };
    let ghost mut lhs_e = unary_spec(toks, pos as int, *options, *caps)->Ok_0.0;
    while p < tokens.len() && (is_and(&tokens[p]) || begins_term(&tokens[p]))
        invariant
            pos < p <= tokens.len(),
            toks == tokens_view(tokens@),
            built(lhs, lhs_e, *options),
            and_spec(toks, pos as int, *options, *caps) == and_rest(toks, lhs_e, p as int, *options, *caps),
        decreases tokens.len() - p,
    {
        proof {
            assert(toks[p as int] == token_view(tokens@[p as int]));
        }
        let next = if is_and(&tokens[p]) { p + 1 } else { p };
        let (rhs, q) = match parse_unary(tokens, next, options, caps) {
            Ok(parsed) => parsed,
            Err(e) => {
                return Err(e);
            },
        };
        proof {
            lhs_e = ExprSpec::And(Box::new(lhs_e), Box::new(unary_spec(toks, next as int, *options, *caps)->Ok_0.0));
        }
        lhs = Query::And(Box::new(lhs), Box::new(rhs));
        p = q;
    }
    proof {
        if p < tokens.len() {
            assert(toks[p as int] == token_view(tokens@[p as int]));
        }
    }
    Ok((lhs, p))
}

/// Parses `term` from `pos` on.
fn parse_unary(tokens: &Vec<Token>, pos: usize, options: &QueryOptions, caps: &Capabilities) -> (r:
    QueryResult<(Query, usize)>)
    requires
        pos <= tokens.len(),
    ensures
        advances(r, pos, tokens.len() as usize),
        agrees(r, unary_spec(tokens_view(tokens@), pos as int, *options, *caps), *options),
    decreases tokens.len() - pos, 1nat,
{
    proof {
        if pos < tokens.len() {
            assert(tokens_view(tokens@)[pos as int] == token_view(tokens@[pos as int]));
        }
    }
    if pos < tokens.len() && matches!(tokens[pos], Token::Bang) {
        match parse_unary(tokens, pos + 1, options, caps) {
            Ok((inner, p)) => Ok((Query::Not(Box::new(inner)), p)),
            Err(e) => Err(e),
        }
    } else {
        parse_factor(tokens, pos, options, caps)
    }
}

/// A parsed leaf that ends before `next`.
fn leaf_result(r: QueryResult<ProcessAttribute>, next: usize) -> (out: QueryResult<(Query, usize)>)
    ensures
        r is Ok ==> out is Ok && out->Ok_0.1 == next && out->Ok_0.0 == Query::Attribute(r->Ok_0),
        r is Err ==> out == Err::<(Query, usize), QueryError>(r->Err_0),
{
    match r {
        Ok(attr) => Ok((Query::Attribute(attr), next)),
        Err(e) => Err(e),
    }
}

/// Parses `factor` from `pos` on.
fn parse_factor(tokens: &Vec<Token>, pos: usize, options: &QueryOptions, caps: &Capabilities) -> (r:
    QueryResult<(Query, usize)>)
    requires
        pos <= tokens.len(),
    ensures
        advances(r, pos, tokens.len() as usize),
        agrees(r, factor_spec(tokens_view(tokens@), pos as int, *options, *caps), *options),
    decreases tokens.len() - pos, 0nat,
{
    let ghost toks = tokens_view(tokens@);
    if pos >= tokens.len() {
        return Err(lex_error("missing operand"));
    }
    proof {
        assert(toks[pos as int] == token_view(tokens@[pos as int]));
        if pos + 1 < tokens.len() {
            assert(toks[pos + 1] == token_view(tokens@[pos + 1]));
        }
    }
    match &tokens[pos] {
        Token::LeftParen => {
            if pos + 1 < tokens.len() && matches!(tokens[pos + 1], Token::RightParen) {
                let empty = Query::Attribute(ProcessAttribute::Empty);
                proof {
                    assert(built(empty, ExprSpec::Leaf(LeafSpec::Empty), *options));
                }
                return Ok((Query::Group(Box::new(empty)), pos + 2));
            }
            let (inner, p) = match parse_or(tokens, pos + 1, options, caps) {
                Ok(parsed) => parsed,
                Err(e) => {
                    return Err(e);
                },
            };
            proof {
                if p < tokens.len() {
                    assert(toks[p as int] == token_view(tokens@[p as int]));
                }
            }
            if p < tokens.len() && matches!(tokens[p], Token::RightParen) {
                Ok((Query::Group(Box::new(inner)), p + 1))
            } else {
                Err(lex_error("missing closing parenthesis"))
            }
        },
        Token::RightParen => Err(lex_error("unexpected closing parenthesis")),
        Token::Bang | Token::Colon | Token::Op(_) => Err(lex_error("stray operator")),
        Token::Quoted(text) => {
            let base = string_of(text);
            leaf_result(new_string_attribute(PrefixType::Name, base.as_str(), options), pos + 1)
        },
        Token::Word(w) => {
            if is_and(&tokens[pos]) || is_or(&tokens[pos]) {
                return Err(lex_error("dangling boolean operator"));
            }
            if pos + 1 < tokens.len() && (matches!(tokens[pos + 1], Token::Colon) || matches!(
                tokens[pos + 1],
                Token::Op(_)
            )) {
                let prefix = match prefix_type_of(w, caps) {
                    Some(prefix) => prefix,
                    None => {
                        return Err(QueryError::UnknownPrefix(string_of(w)));
                    },
                };
                let condition = match &tokens[pos + 1] {
                    Token::Op(op) => Some(*op),
                    _ => None,
                };
                match build_attribute(tokens, pos + 2, prefix, condition, options) {
                    Ok(attr) => Ok((Query::Attribute(attr), pos + 3)),
                    Err(e) => Err(e),
                }
            } else {
                let base = string_of(w);
                leaf_result(new_string_attribute(PrefixType::Name, base.as_str(), options), pos + 1)
            }
        },
    }
}

/// Builds the leaf of a prefixed attribute from its operand at `pos`.
/// `condition` is the comparison after the prefix, `None` for `:`.
fn build_attribute(
    tokens: &Vec<Token>,
    pos: usize,
    prefix: PrefixType,
    condition: Option<CompareOp>,
    options: &QueryOptions,
) -> (r: QueryResult<ProcessAttribute>)
    requires
        pos <= tokens.len(),
    ensures
        leaf_agrees(r, attribute_spec(tokens_view(tokens@), pos as int, prefix, condition, *options), *options),
        r is Ok ==> pos < tokens.len(),
{
    proof {
        if pos < tokens.len() {
            assert(tokens_view(tokens@)[pos as int] == token_view(tokens@[pos as int]));
        }
    }
    if is_string(prefix) {
        match condition {
            Some(CompareOp::Equal) | None => {},
            Some(_) => {
                return Err(QueryError::UnsupportedAttributeForPrefix(prefix, OperandKind::Number));
            },
        }
        if pos >= tokens.len() {
            return Err(lex_error("missing operand"));
        }
        match &tokens[pos] {
            Token::Word(text) | Token::Quoted(text) => {
                let base = string_of(text);
                new_string_attribute(prefix, base.as_str(), options)
            },
            _ => Err(lex_error("missing operand")),
        }
    } else {
        let cond = match condition {
            Some(op) => op,
            None => CompareOp::Equal,
        };
        if pos >= tokens.len() {
            return Err(QueryError::InvalidNumberOrUnit(String::new()));
        }
        let text = match &tokens[pos] {
            Token::Word(text) => text,
            Token::Quoted(text) => {
                return Err(QueryError::UnsupportedAttributeForPrefix(prefix, OperandKind::Text));
            },
            _ => {
                return Err(QueryError::InvalidNumberOrUnit(String::new()));
            },
        };
        let value = match parse_operand(text, unit_kind(prefix)) {
            Some(v) => v,
            None => {
                return Err(QueryError::InvalidNumberOrUnit(string_of(text)));
            },
        };
        if prefix == PrefixType::Time {
            new_time_attribute(prefix, TimeQuery { condition: cond, micros: value })
        } else {
            new_numerical_attribute(prefix, NumericalQuery { condition: cond, value })
        }
    }
}

fn is_string(prefix: PrefixType) -> (r: bool)
    ensures
        r == is_string_prefix(prefix),
{
    match prefix {
        PrefixType::Pid | PrefixType::Name | PrefixType::State | PrefixType::User => true,
        _ => false,
    }
}

/// Compiles a filter into a query. Blank input gives the query that matches
/// everything; input that is not a whole expression is an error.
pub fn compile(filter: &str, options: &QueryOptions, caps: &Capabilities) -> (r: QueryResult<Query>)
    ensures
        compiled_as(r, compile_spec(filter@, *options, *caps), *options),
        (forall|j: int| 0 <= j < filter@.len() ==> #[trigger] super::lexer::is_space(filter@[j]))
            ==> (r matches Ok(Query::Attribute(ProcessAttribute::Empty)) && forall|p: &ProcessRecord, c: bool|
            r->Ok_0.accepts(p, c)),
{
    proof {
        if forall|j: int| 0 <= j < filter@.len() ==> #[trigger] super::lexer::is_space(filter@[j]) {
            assert forall|k: int| 0 <= k < filter@.len() implies filter@[k] != '"' by {
                assert(super::lexer::is_space(filter@[k]));
            }
            super::lexer::lemma_no_quotes(filter@);
        }
    }
    let tokens = match tokenize(filter) {
        Ok(tokens) => tokens,
        Err(e) => {
            return Err(e);
        },
    };
    if tokens.len() == 0 {
        return Ok(Query::Attribute(ProcessAttribute::Empty));
    }
    match parse_or(&tokens, 0, options, caps) {
        Ok((query, p)) => {
            if p < tokens.len() {
                Err(lex_error("unexpected token"))
            } else {
                Ok(query)
            }
        },
        Err(e) => Err(e),
    }
}

/// Makes a newly typed filter the active query. When it does not compile,
/// the active query stays in effect and the error is returned.
pub fn update_query(active: &mut Query, filter: &str, options: &QueryOptions, caps: &Capabilities) -> (r:
    Option<QueryError>)
    ensures
        match compile_spec(filter@, *options, *caps) {
            Ok(e) => r is None && built(*final(active), e, *options),
            Err(k) => r matches Some(err) && kind_of(err) == k && *final(active) == *old(active),
        },
{
    match compile(filter, options, caps) {
        Ok(query) => {
            *active = query;
            None
        },
        Err(e) => Some(e),
    }
}

} // verus!
