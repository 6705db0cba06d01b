//! Splits a filter string into tokens.

use vstd::prelude::*;

use super::{CompareOp, QueryError, QueryResult};

verus! {

/// A lexical token of a filter.
#[derive(Debug, Clone)]
pub enum Token {
    /// A run of characters up to whitespace or a delimiter.
    Word(Vec<char>),
    /// The text between a pair of double quotes.
    Quoted(Vec<char>),
    LeftParen,
    RightParen,
    Bang,
    Colon,
    Op(CompareOp),
}

/// What a token holds, with its text as a sequence of characters.
pub enum TokenSpec {
    Word(Seq<char>),
    Quoted(Seq<char>),
    LeftParen,
    RightParen,
    Bang,
    Colon,
    Op(CompareOp),
}

/// The content of a token.
pub open spec fn token_view(t: Token) -> TokenSpec {
    match t {
        Token::Word(w) => TokenSpec::Word(w@),
        Token::Quoted(q) => TokenSpec::Quoted(q@),
        Token::LeftParen => TokenSpec::LeftParen,
        Token::RightParen => TokenSpec::RightParen,
        Token::Bang => TokenSpec::Bang,
        Token::Colon => TokenSpec::Colon,
        Token::Op(op) => TokenSpec::Op(op),
    }
}

/// The contents of a sequence of tokens.
pub open spec fn tokens_view(ts: Seq<Token>) -> Seq<TokenSpec> {
    ts.map_values(|t: Token| token_view(t))
}

/// The position of the first double quote in `s` at or after `i`, or the
/// length of `s` when there is none.
pub open spec fn quote_end(s: Seq<char>, i: int) -> int
    decreases s.len() - i,
{
    if i >= s.len() || s[i] == '"' {
        i
    } else {
        quote_end(s, i + 1)
    }
}

/// The position of the first delimiter in `s` at or after `i`, or the
/// length of `s` when there is none.
pub open spec fn word_end(s: Seq<char>, i: int) -> int
    decreases s.len() - i,
{
    if i >= s.len() || is_delimiter(s[i]) {
        i
    } else {
        word_end(s, i + 1)
    }
}

/// `rest` with `t` in front, when there is a rest.
pub open spec fn cons_token(t: TokenSpec, rest: Option<Seq<TokenSpec>>) -> Option<Seq<TokenSpec>> {
    match rest {
        Some(r) => Some(seq![t] + r),
        None => None,
    }
}

/// The tokens of `s` from position `i` on; `None` when a quote is left open.
pub open spec fn lex_from(s: Seq<char>, i: int) -> Option<Seq<TokenSpec>>
    decreases s.len() - i,
{
    if i < 0 || i >= s.len() {
        Some(Seq::empty())
    } else {
        let c = s[i];
        if is_space(c) {
            lex_from(s, i + 1)
        } else if c == '(' {
            cons_token(TokenSpec::LeftParen, lex_from(s, i + 1))
        } else if c == ')' {
            cons_token(TokenSpec::RightParen, lex_from(s, i + 1))
        } else if c == '!' {
            cons_token(TokenSpec::Bang, lex_from(s, i + 1))
        } else if c == ':' {
            cons_token(TokenSpec::Colon, lex_from(s, i + 1))
        } else if c == '=' {
            cons_token(TokenSpec::Op(CompareOp::Equal), lex_from(s, i + 1))
        } else if c == '<' || c == '>' {
            let or_equal = i + 1 < s.len() && s[i + 1] == '=';
            let op = if c == '<' {
                if or_equal { CompareOp::LessOrEqual } else { CompareOp::Less }
            } else {
                if or_equal { CompareOp::GreaterOrEqual } else { CompareOp::Greater }
            };
            cons_token(TokenSpec::Op(op), lex_from(s, if or_equal { i + 2 } else { i + 1 }))
        } else if c == '"' {
            let j = quote_end(s, i + 1);
            if j >= s.len() || j <= i {
                None
            } else {
                cons_token(TokenSpec::Quoted(s.subrange(i + 1, j)), lex_from(s, j + 1))
            }
        } else {
            let j = word_end(s, i);
            if j <= i || j > s.len() {
                None
            } else {
                cons_token(TokenSpec::Word(s.subrange(i, j)), lex_from(s, j))
            }
        }
    }
}

/// `rest` after the tokens `done`, when there is a rest.
pub open spec fn after_tokens(done: Seq<TokenSpec>, rest: Option<Seq<TokenSpec>>) -> Option<Seq<TokenSpec>> {
    match rest {
        Some(r) => Some(done + r),
        None => None,
    }
}

proof fn lemma_quote_end(s: Seq<char>, i: int)
    requires
        0 <= i <= s.len(),
    ensures
        i <= quote_end(s, i) <= s.len(),
        forall|k: int| i <= k < quote_end(s, i) ==> s[k] != '"',
        quote_end(s, i) < s.len() ==> s[quote_end(s, i)] == '"',
    decreases s.len() - i,
{
    if i < s.len() && s[i] != '"' {
        lemma_quote_end(s, i + 1);
    }
}

proof fn lemma_word_end(s: Seq<char>, i: int)
    requires
        0 <= i <= s.len(),
    ensures
        i <= word_end(s, i) <= s.len(),
        forall|k: int| i <= k < word_end(s, i) ==> !is_delimiter(s[k]),
        word_end(s, i) < s.len() ==> is_delimiter(s[word_end(s, i)]),
    decreases s.len() - i,
{
    if i < s.len() && !is_delimiter(s[i]) {
        lemma_word_end(s, i + 1);
    }
}

proof fn lemma_push_view(before: Seq<Token>, t: Token)
    ensures
        tokens_view(before.push(t)) == tokens_view(before).push(token_view(t)),
{
    assert(tokens_view(before.push(t)) =~= tokens_view(before).push(token_view(t)));
}

proof fn lemma_after_cons(done: Seq<TokenSpec>, t: TokenSpec, rest: Option<Seq<TokenSpec>>)
    ensures
        after_tokens(done, cons_token(t, rest)) == after_tokens(done.push(t), rest),
{
    if let Some(r) = rest {
        assert(done + (seq![t] + r) == done.push(t) + r);
    }
}

/// Whether a character separates tokens without being one.
pub open spec fn is_space(c: char) -> bool {
    c == ' ' || c == '\t' || c == '\n' || c == '\r'
}

/// Whether a character ends a word.
pub open spec fn is_delimiter(c: char) -> bool {
    is_space(c) || c == '(' || c == ')' || c == '"' || c == '!' || c == ':' || c == '<' || c == '>'
        || c == '='
}

fn space(c: char) -> (r: bool)
    ensures
        r == is_space(c),
{
    c == ' ' || c == '\t' || c == '\n' || c == '\r'
}

fn delimiter(c: char) -> (r: bool)
    ensures
        r == is_delimiter(c),
{
    space(c) || c == '(' || c == ')' || c == '"' || c == '!' || c == ':' || c == '<' || c == '>' || c
        == '='
}

/// Relies on `str::chars`, collected: the characters of a string in order.
#[verifier::external_body]
pub fn chars_of(s: &str) -> (r: Vec<char>)
    ensures
        r@ == s@,
{
    s.chars().collect()
}

/// Whether a token is a word that is well formed: not empty, with no
/// delimiter in it.
pub open spec fn token_well_formed(t: Token) -> bool {
    match t {
        Token::Word(w) => w@.len() > 0 && forall|i: int| 0 <= i < w@.len() ==> !is_delimiter(#[trigger] w@[i]),
        Token::Quoted(q) => forall|i: int| 0 <= i < q@.len() ==> q@[i] != '"',
        _ => true,
    }
}

/// One for a double quote, zero for any other character.
pub open spec fn quote_of(c: char) -> nat {
    if c == '"' {
        1
    } else {
        0
    }
}

/// The number of double quotes in `s`.
pub open spec fn quote_count(s: Seq<char>) -> nat
    decreases s.len(),
{
    if s.len() == 0 {
        0
    } else {
        quote_count(s.drop_last()) + quote_of(s.last())
    }
}

proof fn lemma_quote_count_split(s: Seq<char>, i: int)
    requires
        0 <= i <= s.len(),
    ensures
        quote_count(s) == quote_count(s.subrange(0, i)) + quote_count(s.subrange(i, s.len() as int)),
    decreases s.len() - i,
{
    if i < s.len() {
        lemma_quote_count_split(s, i + 1);
        let a = s.subrange(0, i + 1);
        assert(a.drop_last() == s.subrange(0, i));
        let b = s.subrange(i, s.len() as int);
        lemma_quote_count_front(b);
        assert(b.subrange(1, b.len() as int) == s.subrange(i + 1, s.len() as int));
    } else {
        assert(s.subrange(0, i) == s);
        assert(s.subrange(i, s.len() as int).len() == 0);
    }
}

proof fn lemma_quote_count_front(s: Seq<char>)
    requires
        s.len() > 0,
    ensures
        quote_count(s) == quote_count(s.subrange(1, s.len() as int)) + quote_of(s[0]),
    decreases s.len(),
{
    if s.len() > 1 {
        lemma_quote_count_front(s.drop_last());
        let t = s.subrange(1, s.len() as int);
        assert(s.drop_last().subrange(1, s.len() - 1) == t.drop_last());
        assert(t.last() == s.last());
        assert(s.drop_last()[0] == s[0]);
        assert(quote_count(t) == quote_count(t.drop_last()) + quote_of(t.last()));
    } else {
        assert(s.drop_last().len() == 0);
        assert(quote_count(s.drop_last()) == 0);
        assert(s.subrange(1, s.len() as int).len() == 0);
        assert(quote_count(s.subrange(1, s.len() as int)) == 0);
    }
}

/// Splits a filter into tokens. Fails exactly when a double quote is left
/// unterminated, that is, when the filter holds an odd number of them.
#[verifier::rlimit(100)]
pub fn tokenize(input: &str) -> (r: QueryResult<Vec<Token>>)
    ensures
        r is Err <==> quote_count(input@) % 2 == 1,
        r is Err <==> lex_from(input@, 0) is None,
        r is Ok ==> lex_from(input@, 0) == Some(tokens_view(r->Ok_0@)),
        r is Err ==> r->Err_0 is LexError,
        r is Ok ==> forall|k: int| 0 <= k < r->Ok_0@.len() ==> token_well_formed(#[trigger] r->Ok_0@[k]),
        (r is Ok && forall|j: int| 0 <= j < input@.len() ==> is_space(#[trigger] input@[j])) ==> r->Ok_0@.len()
            == 0,
{
    let cs = chars_of(input);
    let n = cs.len();
    let mut tokens: Vec<Token> = Vec::new();
    let mut i: usize = 0;
    proof {
        assert(tokens_view(tokens@) =~= Seq::<TokenSpec>::empty());
        if let Some(r) = lex_from(cs@, 0) {
            assert(Seq::<TokenSpec>::empty() + r =~= r);
        }
    }
    while i < n
        invariant
            n == cs.len(),
            cs@ == input@,
            i <= n,
            quote_count(cs@.subrange(0, i as int)) % 2 == 0,
            forall|k: int| 0 <= k < tokens@.len() ==> token_well_formed(#[trigger] tokens@[k]),
            (forall|j: int| 0 <= j < i ==> is_space(#[trigger] cs@[j])) ==> tokens@.len() == 0,
            lex_from(cs@, 0) == after_tokens(tokens_view(tokens@), lex_from(cs@, i as int)),
        decreases n - i,
    {
        let c = cs[i];
        let ghost before = tokens@;
        proof {
            lemma_quote_count_split(cs@.subrange(0, i + 1), i as int);
            assert(cs@.subrange(0, i + 1).subrange(0, i as int) == cs@.subrange(0, i as int));
            assert(cs@.subrange(0, i + 1).subrange(i as int, i + 1) =~= seq![c]);
            assert(seq![c].drop_last().len() == 0);
        }
        if space(c) {
            i += 1;
        } else if c == '(' {
            tokens.push(Token::LeftParen);
            proof {
                lemma_push_view(before, tokens@.last());
                lemma_after_cons(tokens_view(before), token_view(tokens@.last()), lex_from(cs@, i + 1));
            }
            i += 1;
        } else if c == ')' {
            tokens.push(Token::RightParen);
            proof {
                lemma_push_view(before, tokens@.last());
                lemma_after_cons(tokens_view(before), token_view(tokens@.last()), lex_from(cs@, i + 1));
            }
            i += 1;
        } else if c == '!' {
            tokens.push(Token::Bang);
            proof {
                lemma_push_view(before, tokens@.last());
                lemma_after_cons(tokens_view(before), token_view(tokens@.last()), lex_from(cs@, i + 1));
            }
            i += 1;
        } else if c == ':' {
            tokens.push(Token::Colon);
            proof {
                lemma_push_view(before, tokens@.last());
                lemma_after_cons(tokens_view(before), token_view(tokens@.last()), lex_from(cs@, i + 1));
            }
            i += 1;
        } else if c == '=' {
            tokens.push(Token::Op(CompareOp::Equal));
            proof {
                lemma_push_view(before, tokens@.last());
                lemma_after_cons(tokens_view(before), token_view(tokens@.last()), lex_from(cs@, i + 1));
            }
            i += 1;
        } else if c == '<' || c == '>' {
            let or_equal = i + 1 < n && cs[i + 1] == '=';
            let op = if c == '<' {
                if or_equal { CompareOp::LessOrEqual } else { CompareOp::Less }
            } else {
                if or_equal { CompareOp::GreaterOrEqual } else { CompareOp::Greater }
            };
            tokens.push(Token::Op(op));
            proof {
                lemma_push_view(before, tokens@.last());
                lemma_after_cons(tokens_view(before), token_view(tokens@.last()), lex_from(cs@, if or_equal { i + 2 } else { i + 1 }));
            }
            if or_equal {
                proof {
                    lemma_quote_count_split(cs@.subrange(0, i + 2), i + 1);
                    assert(cs@.subrange(0, i + 2).subrange(0, i + 1) == cs@.subrange(0, i + 1));
                    assert(cs@.subrange(0, i + 2).subrange(i + 1, i + 2) =~= seq!['=']);
                    assert(seq!['='].drop_last().len() == 0);
                }
                i += 2;
            } else {
                i += 1;
            }
        } else if c == '"' {
            let mut text: Vec<char> = Vec::new();
            let mut j = i + 1;
            while j < n && cs[j] != '"'
                invariant
                    n == cs.len(),
                    i < j <= n,
                    text@ == cs@.subrange(i + 1, j as int),
                    forall|k: int| i < k < j ==> cs@[k] != '"',
                decreases n - j,
            {
                text.push(cs[j]);
                j += 1;
            }
            proof {
                lemma_quote_count_split(cs@.subrange(0, j as int), i + 1);
                assert(cs@.subrange(0, j as int).subrange(0, i + 1) == cs@.subrange(0, i + 1));
                lemma_no_quotes(cs@.subrange(i + 1, j as int));
                assert(cs@.subrange(0, j as int).subrange(i + 1, j as int) == cs@.subrange(i + 1, j as int));
            }
            if j == n {
                proof {
                    assert(cs@.subrange(0, j as int) == input@);
                    lemma_quote_end(cs@, i + 1);
                    assert(quote_end(cs@, i + 1) == j);
                }
                return Err(QueryError::LexError(String::from_str("unterminated quote")));
            }
            proof {
                let t = cs@.subrange(0, j + 1);
                assert(t.drop_last() == cs@.subrange(0, j as int));
            }
            proof {
                lemma_quote_end(cs@, i + 1);
                assert(quote_end(cs@, i + 1) == j);
            }
            tokens.push(Token::Quoted(text));
            proof {
                lemma_push_view(before, tokens@.last());
                lemma_after_cons(tokens_view(before), token_view(tokens@.last()), lex_from(cs@, j + 1));
            }
            i = j + 1;
        } else {
            let mut word: Vec<char> = Vec::new();
            let mut j = i;
            while j < n && !delimiter(cs[j])
                invariant
                    n == cs.len(),
                    i <= j <= n,
                    word@ == cs@.subrange(i as int, j as int),
                    forall|k: int| i <= k < j ==> !is_delimiter(cs@[k]),
                decreases n - j,
            {
                word.push(cs[j]);
                j += 1;
            }
            proof {
                lemma_quote_count_split(cs@.subrange(0, j as int), i as int);
                assert(cs@.subrange(0, j as int).subrange(0, i as int) == cs@.subrange(0, i as int));
                lemma_no_quotes(cs@.subrange(i as int, j as int));
                assert(cs@.subrange(0, j as int).subrange(i as int, j as int) == cs@.subrange(i as int, j as int));
                assert(word@[0] == c);
            }
            proof {
                lemma_word_end(cs@, i as int);
                assert(word_end(cs@, i as int) == j);
            }
            tokens.push(Token::Word(word));
            proof {
                lemma_push_view(before, tokens@.last());
                lemma_after_cons(tokens_view(before), token_view(tokens@.last()), lex_from(cs@, j as int));
            }
            i = j;
        }
    }
    proof {
        assert(cs@.subrange(0, n as int) == input@);
        assert(tokens_view(tokens@) + Seq::<TokenSpec>::empty() =~= tokens_view(tokens@));
    }
    Ok(tokens)
}

pub proof fn lemma_no_quotes(s: Seq<char>)
    requires
        forall|k: int| 0 <= k < s.len() ==> s[k] != '"',
    ensures
        quote_count(s) == 0,
    decreases s.len(),
{
    if s.len() > 0 {
        lemma_no_quotes(s.drop_last());
    }
}

} // verus!
