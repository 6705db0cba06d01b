//! String matchers: a compiled regular expression, or a normalized literal.

use unicode_normalization::UnicodeNormalization;
use vstd::prelude::*;

use super::QueryOptions;

verus! {

#[verifier::external_type_specification]
#[verifier::external_body]
pub struct ExRegex(regex::Regex);

/// The NFKC form of a string.
pub uninterp spec fn nfkc_of(s: Seq<char>) -> Seq<char>;

/// The lowercase form of a string, by Unicode's case mapping.
pub uninterp spec fn lower_of(s: Seq<char>) -> Seq<char>;

/// Whether the regex crate accepts a pattern.
pub uninterp spec fn regex_accepts(pattern: Seq<char>) -> bool;

/// Whether a regular expression finds a match anywhere in a text.
pub uninterp spec fn regex_finds(pattern: Seq<char>, text: Seq<char>) -> bool;

/// Relies on `unicode_normalization::UnicodeNormalization::nfkc`: the result
/// depends on the characters alone.
#[verifier::external_body]
fn nfkc(s: &str) -> (r: String)
    ensures
        r@ == nfkc_of(s@),
{
    s.nfkc().collect::<String>()
}

/// Relies on `str::to_lowercase`: the result depends on the characters alone.
#[verifier::external_body]
pub(crate) fn lowercase(s: &str) -> (r: String)
    ensures
        r@ == lower_of(s@),
{
    s.to_lowercase()
}

/// Whether `needle` occurs as a contiguous run of characters in `hay`.
pub open spec fn seq_contains(hay: Seq<char>, needle: Seq<char>) -> bool {
    exists|i: int|
        0 <= i && i + needle.len() <= hay.len() && #[trigger] hay.subrange(i, i + needle.len())
            == needle
}

/// Relies on `str::contains` with a string pattern: true exactly when the
/// pattern occurs in the text.
#[verifier::external_body]
pub(crate) fn str_contains(hay: &str, needle: &str) -> (r: bool)
    ensures
        r == seq_contains(hay@, needle@),
{
    hay.contains(needle)
}

/// A regular expression together with the pattern it was compiled from.
pub struct CompiledRegex {
    re: regex::Regex,
    source: String,
}

impl CompiledRegex {
    /// The pattern this expression was compiled from.
    pub closed spec fn pattern(&self) -> Seq<char> {
        self.source@
    }

    /// Relies on `regex::Regex::new`: `Ok` exactly for the patterns the regex
    /// crate accepts; the error becomes its message.
    #[verifier::external_body]
    pub fn compile(pattern: &str) -> (r: Result<CompiledRegex, String>)
        ensures
            r is Ok <==> regex_accepts(pattern@),
            r is Ok ==> r->Ok_0.pattern() == pattern@,
    {
        match regex::Regex::new(pattern) {
            Ok(re) => Ok(CompiledRegex { re, source: pattern.to_string() }),
            Err(e) => Err(e.to_string()),
        }
    }

    /// Relies on `regex::Regex::is_match`: an unanchored search of the text.
    #[verifier::external_body]
    pub fn is_match(&self, text: &str) -> (r: bool)
        ensures
            r == regex_finds(self.pattern(), text@),
    {
        self.re.is_match(text)
    }
}

/// The comparison form of a text: NFKC, then lowercase when case is ignored.
pub open spec fn normalized_text(s: Seq<char>, ignore_case: bool) -> Seq<char> {
    if ignore_case {
        lower_of(nfkc_of(s))
    } else {
        nfkc_of(s)
    }
}

/// Whether a literal matcher accepts a value.
pub open spec fn literal_accepts(
    normalized: Seq<char>,
    whole_word: bool,
    ignore_case: bool,
    value: Seq<char>,
) -> bool {
    let v = normalized_text(value, ignore_case);
    if whole_word {
        v == normalized
    } else {
        seq_contains(v, normalized)
    }
}

/// The pattern handed to the regex crate: the operand, behind the
/// case-insensitive flag when case is ignored.
pub open spec fn regex_pattern(base: Seq<char>, ignore_case: bool) -> Seq<char> {
    if ignore_case {
        "(?i)"@ + base
    } else {
        base
    }
}

/// Matches one text field of a process.
pub enum StringMatcher {
    Regex(CompiledRegex),
    Literal { normalized: String, whole_word: bool, ignore_case: bool },
}

impl StringMatcher {
    /// Whether this matcher accepts a value.
    pub open spec fn accepts(&self, value: Seq<char>) -> bool {
        match self {
            StringMatcher::Regex(re) => regex_finds(re.pattern(), value),
            StringMatcher::Literal { normalized, whole_word, ignore_case } => literal_accepts(
                normalized@,
                *whole_word,
                *ignore_case,
                value,
            ),
        }
    }

    /// Brings a text to its comparison form.
    pub fn normalize(value: &str, ignore_case: bool) -> (r: String)
        ensures
            r@ == normalized_text(value@, ignore_case),
    {
        let normalized = nfkc(value);
        if ignore_case {
            lowercase(normalized.as_str())
        } else {
            normalized
        }
    }

    /// Whether this matcher is the one built for an operand under the given options.
    pub open spec fn built_from(&self, base: Seq<char>, options: QueryOptions) -> bool {
        if options.use_regex {
            self matches StringMatcher::Regex(re) && re.pattern() == regex_pattern(
                base,
                options.ignore_case,
            )
        } else {
            self matches StringMatcher::Literal { normalized, whole_word, ignore_case }
                && normalized@ == normalized_text(base, options.ignore_case) && whole_word
                == options.whole_word && ignore_case == options.ignore_case
        }
    }

    /// Builds the matcher for an operand under the given options; an error
    /// carries the regex engine's message.
    pub fn from_query(base: &str, regex_options: &QueryOptions) -> (r: Result<StringMatcher, String>)
        ensures
            r is Err <==> regex_options.use_regex && !regex_accepts(
                regex_pattern(base@, regex_options.ignore_case),
            ),
            r is Ok ==> r->Ok_0.built_from(base@, *regex_options),
    {
        let use_regex = regex_options.use_regex;
        let ignore_case = regex_options.ignore_case;
        let whole_word = regex_options.whole_word;
        if use_regex {
            let re = if ignore_case {
                let flagged = String::from_str("(?i)").concat(base);
                CompiledRegex::compile(flagged.as_str())
            } else {
                CompiledRegex::compile(base)
            };
            match re {
                Ok(re) => Ok(StringMatcher::Regex(re)),
                Err(e) => Err(e),
            }
        } else {
            Ok(
                StringMatcher::Literal {
                    normalized: Self::normalize(base, ignore_case),
                    whole_word,
                    ignore_case,
                },
            )
        }
    }

    /// Whether this matcher accepts a value.
    pub fn is_match(&self, value: &str) -> (r: bool)
        ensures
            r == self.accepts(value@),
    {
        match self {
            StringMatcher::Regex(re) => re.is_match(value),
            StringMatcher::Literal { normalized, whole_word, ignore_case } => {
                let normalized_value = Self::normalize(value, *ignore_case);
                if *whole_word {
                    normalized_value == *normalized
                } else {
                    str_contains(normalized_value.as_str(), normalized.as_str())
                }
            },
        }
    }
}

} // verus!
