//! Display width of text in a terminal, and truncation to a width.

use unicode_segmentation::UnicodeSegmentation;
use unicode_width::UnicodeWidthStr;
use vstd::prelude::*;

use crate::strings::{ascii_lower_of, str_eq, to_ascii_lowercase, trim, trim_of};

verus! {

/// How the width of a character on screen is reckoned.
#[derive(Debug, Clone, Copy, Eq, PartialEq, Structural)]
pub enum TextWidthMode {
    Normal,
    /// East Asian ambiguous characters take two columns.
    Cjk,
    /// Unicode widths, with at least one column per grapheme.
    UnicodeApprox,
}

/// The graphemes (extended grapheme clusters) of a text.
pub uninterp spec fn graphemes_of(s: Seq<char>) -> Seq<Seq<char>>;

/// The width of a grapheme by `unicode_ellipsis`.
pub uninterp spec fn ellipsis_width_of(g: Seq<char>) -> nat;

/// The width of a text by `unicode_width`, East Asian ambiguous characters wide.
pub uninterp spec fn cjk_width_of(s: Seq<char>) -> nat;

/// The width of a text by `unicode_width`.
pub uninterp spec fn unicode_width_of(s: Seq<char>) -> nat;

/// A text truncated to a width by `unicode_ellipsis`.
pub uninterp spec fn ellipsis_truncated_of(s: Seq<char>, width: nat) -> Seq<char>;

/// The texts of a sequence, one after another.
pub open spec fn concat(gs: Seq<Seq<char>>) -> Seq<char>
    decreases gs.len(),
{
    if gs.len() == 0 {
        Seq::empty()
    } else {
        concat(gs.drop_last()) + gs.last()
    }
}

/// Relies on `UnicodeSegmentation::graphemes` with extended clusters: the
/// clusters of the text in order, which make up the text.
#[verifier::external_body]
fn graphemes(s: &str) -> (r: Vec<String>)
    ensures
        r@.map_values(|g: String| g@) == graphemes_of(s@),
        concat(r@.map_values(|g: String| g@)) == s@,
{
    UnicodeSegmentation::graphemes(s, true).map(|g| g.to_string()).collect()
}

/// Relies on `unicode_ellipsis::grapheme_width`.
#[verifier::external_body]
fn ellipsis_grapheme_width(g: &str) -> (r: usize)
    ensures
        r == ellipsis_width_of(g@),
{
    unicode_ellipsis::grapheme_width(g)
}

/// Relies on `UnicodeWidthStr::width_cjk`.
#[verifier::external_body]
fn cjk_width(s: &str) -> (r: usize)
    ensures
        r == cjk_width_of(s@),
{
    UnicodeWidthStr::width_cjk(s)
}

/// Relies on `UnicodeWidthStr::width`.
#[verifier::external_body]
fn unicode_width(s: &str) -> (r: usize)
    ensures
        r == unicode_width_of(s@),
{
    UnicodeWidthStr::width(s)
}

/// Relies on `unicode_ellipsis::truncate_str`.
#[verifier::external_body]
fn ellipsis_truncate(s: &str, width: usize) -> (r: String)
    ensures
        r@ == ellipsis_truncated_of(s@, width as nat),
{
    unicode_ellipsis::truncate_str(s, width).to_string()
}

/// The width of one grapheme under a mode.
pub open spec fn grapheme_width_spec(g: Seq<char>, mode: TextWidthMode) -> nat {
    match mode {
        TextWidthMode::Normal => ellipsis_width_of(g),
        TextWidthMode::Cjk => cjk_width_of(g),
        TextWidthMode::UnicodeApprox => if unicode_width_of(g) >= 1 {
            unicode_width_of(g)
        } else {
            1
        },
    }
}

/// The summed width of a run of graphemes.
pub open spec fn widths_sum(gs: Seq<Seq<char>>, mode: TextWidthMode) -> nat
    decreases gs.len(),
{
    if gs.len() == 0 {
        0
    } else {
        widths_sum(gs.drop_last(), mode) + grapheme_width_spec(gs.last(), mode)
    }
}

/// The width of a text: its graphemes' widths added, capped at `usize::MAX`.
pub open spec fn display_width_spec(s: Seq<char>, mode: TextWidthMode) -> nat {
    let total = widths_sum(graphemes_of(s), mode);
    if total <= usize::MAX {
        total
    } else {
        usize::MAX as nat
    }
}

impl TextWidthMode {
    /// The name of the mode in configuration.
    pub fn as_str(&self) -> (r: &'static str)
        ensures
            r == (match *self {
                TextWidthMode::Normal => "normal",
                TextWidthMode::Cjk => "cjk",
                TextWidthMode::UnicodeApprox => "unicode-approx",
            }),
    {
        match self {
            TextWidthMode::Normal => "normal",
            TextWidthMode::Cjk => "cjk",
            TextWidthMode::UnicodeApprox => "unicode-approx",
        }
    }

    /// The mode a configuration name stands for.
    pub open spec fn named(name: Seq<char>) -> Option<TextWidthMode> {
        if name == "normal"@ {
            Some(TextWidthMode::Normal)
        } else if name == "cjk"@ {
            Some(TextWidthMode::Cjk)
        } else if name == "unicode-approx"@ || name == "unicode_approx"@ {
            Some(TextWidthMode::UnicodeApprox)
        } else {
            None
        }
    }

    /// The mode an exact, already normalized configuration name stands for.
    pub fn from_name(name: &str) -> (r: Option<TextWidthMode>)
        ensures
            r == Self::named(name@),
    {
        if str_eq(name, "normal") {
            Some(TextWidthMode::Normal)
        } else if str_eq(name, "cjk") {
            Some(TextWidthMode::Cjk)
        } else if str_eq(name, "unicode-approx") || str_eq(name, "unicode_approx") {
            Some(TextWidthMode::UnicodeApprox)
        } else {
            None
        }
    }

    /// Reads a mode from configuration text, ignoring ASCII case and
    /// surrounding whitespace.
    pub fn parse(value: &str) -> (r: Option<TextWidthMode>)
        ensures
            r == Self::named(trim_of(ascii_lower_of(value@))),
    {
        let lowered = to_ascii_lowercase(value);
        Self::from_name(trim(lowered.as_str()))
    }
}

/// The display width of one grapheme.
pub fn grapheme_display_width(grapheme: &str, mode: TextWidthMode) -> (r: usize)
    ensures
        r == grapheme_width_spec(grapheme@, mode),
{
    match mode {
        TextWidthMode::Normal => ellipsis_grapheme_width(grapheme),
        TextWidthMode::Cjk => cjk_width(grapheme),
        TextWidthMode::UnicodeApprox => {
            let w = unicode_width(grapheme);
            if w >= 1 {
                w
            } else {
                1
            }
        },
    }
}

/// Adds the widths of graphemes, capped at `usize::MAX`.
fn sum_widths(gs: &Vec<String>, mode: TextWidthMode) -> (r: usize)
    ensures
        r == (if widths_sum(gs@.map_values(|g: String| g@), mode) <= usize::MAX {
            widths_sum(gs@.map_values(|g: String| g@), mode)
        } else {
            usize::MAX as nat
        }),
{
    let ghost views = gs@.map_values(|g: String| g@);
    let mut total: usize = 0;
    let mut i: usize = 0;
    while i < gs.len()
        invariant
            i <= gs.len(),
            views == gs@.map_values(|g: String| g@),
            total == (if widths_sum(views.take(i as int), mode) <= usize::MAX {
                widths_sum(views.take(i as int), mode)
            } else {
                usize::MAX as nat
            }),
        decreases gs.len() - i,
    {
        let w = grapheme_display_width(gs[i].as_str(), mode);
        proof {
            assert(views.take(i + 1).drop_last() == views.take(i as int));
            assert(views.take(i + 1).last() == gs@[i as int]@);
        }
        total = total.saturating_add(w);
        i += 1;
    }
    proof {
        assert(views.take(gs.len() as int) == views);
    }
    total
}

/// The display width of a text.
pub fn display_width(content: &str, mode: TextWidthMode) -> (r: usize)
    ensures
        r == display_width_spec(content@, mode),
{
    let gs = graphemes(content);
    sum_widths(&gs, mode)
}

/// How many leading graphemes fit in a budget of columns.
pub open spec fn fit_count(gs: Seq<Seq<char>>, mode: TextWidthMode, budget: int) -> nat
    decreases gs.len(),
{
    if gs.len() == 0 || grapheme_width_spec(gs[0], mode) > budget {
        0
    } else {
        1 + fit_count(gs.drop_first(), mode, budget - grapheme_width_spec(gs[0], mode))
    }
}

/// A text cut to a width, with an ellipsis where it was cut.
pub open spec fn truncated_spec(s: Seq<char>, width: nat, mode: TextWidthMode) -> Seq<char> {
    if mode == TextWidthMode::Normal {
        ellipsis_truncated_of(s, width)
    } else if width == 0 {
        Seq::empty()
    } else if display_width_spec(s, mode) <= width {
        s
    } else {
        let ellipsis_width = if display_width_spec("…"@, mode) >= 1 {
            display_width_spec("…"@, mode)
        } else {
            1
        };
        if width <= ellipsis_width {
            "…"@
        } else {
            let gs = graphemes_of(s);
            concat(gs.take(fit_count(gs, mode, width - ellipsis_width) as int)) + "…"@
        }
    }
}

/// Cuts a text to at most `width` columns, ending it with an ellipsis when
/// anything was cut.
pub fn truncate_to_width(content: &str, width: usize, mode: TextWidthMode) -> (r: String)
    ensures
        r@ == truncated_spec(content@, width as nat, mode),
{
    if mode == TextWidthMode::Normal {
        return ellipsis_truncate(content, width);
    }
    if width == 0 {
        return String::new();
    }
    if display_width(content, mode) <= width {
        return String::from_str(content);
    }
    let ellipsis = "…";
    let ew = display_width(ellipsis, mode);
    let ellipsis_width = if ew >= 1 { ew } else { 1 };
    if width <= ellipsis_width {
        return String::from_str(ellipsis);
    }
    let max_content_width = width - ellipsis_width;
    let gs = graphemes(content);
    let ghost views = gs@.map_values(|g: String| g@);
    proof {
        assert(views.skip(0) == views);
        assert(views.take(0).len() == 0);
    }
    let mut used_width: usize = 0;
    let mut truncated = String::new();
    let mut i: usize = 0;
    while i < gs.len()
        invariant
            i <= gs.len(),
            views == gs@.map_values(|g: String| g@),
            used_width <= max_content_width,
            fit_count(views, mode, max_content_width as int) == i + fit_count(
                views.skip(i as int),
                mode,
                max_content_width - used_width,
            ),
            truncated@ == concat(views.take(i as int)),
        ensures
            truncated@ == concat(views.take(i as int)),
            i == fit_count(views, mode, max_content_width as int),
        decreases gs.len() - i,
    {
        let grapheme_width = grapheme_display_width(gs[i].as_str(), mode);
        proof {
            let rest = views.skip(i as int);
            assert(rest[0] == gs@[i as int]@);
            assert(rest.drop_first() == views.skip(i + 1));
        }
        if grapheme_width > max_content_width - used_width {
            proof {
                assert(fit_count(views.skip(i as int), mode, max_content_width - used_width) == 0);
            }
            break;
        }
        used_width += grapheme_width;
        proof {
            assert(views.take(i + 1).drop_last() == views.take(i as int));
            assert(views.take(i + 1).last() == gs@[i as int]@);
        }
        truncated.append(gs[i].as_str());
        i += 1;
    }
    proof {
        assert(views == graphemes_of(content@));
    }
    truncated.append(ellipsis);
    truncated
}

impl Default for TextWidthMode {
    fn default() -> (r: TextWidthMode)
        ensures
            r == TextWidthMode::Normal,
    {
        TextWidthMode::Normal
    }
}

impl std::str::FromStr for TextWidthMode {
    type Err = ();

    fn from_str(value: &str) -> Result<Self, Self::Err> {
        match Self::parse(value) {
            Some(mode) => Ok(mode),
            None => Err(()),
        }
    }
}

} // verus!
