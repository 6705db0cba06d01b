//! User-facing labels in the two supported UI languages.
//!
//! The active language is passed explicitly to every lookup, so the library
//! holds no global state.

use vstd::prelude::*;

use crate::strings::{ascii_lower_of, str_eq, to_ascii_lowercase, trim, trim_of};

verus! {

/// The language that UI text is shown in.
#[derive(Debug, Clone, Copy, PartialEq, Eq, Structural)]
pub enum UiLanguage {
    English,
    Japanese,
}

/// The language that a raw byte stands for.
pub open spec fn language_of_raw(raw: u8) -> UiLanguage {
    if raw == 0 {
        UiLanguage::English
    } else {
        UiLanguage::Japanese
    }
}

impl UiLanguage {
    /// The short language code.
    pub fn as_str(self) -> (r: &'static str)
        ensures
            r == (match self {
                UiLanguage::English => "en",
                UiLanguage::Japanese => "ja",
            }),
    {
        match self {
            UiLanguage::English => "en",
            UiLanguage::Japanese => "ja",
        }
    }

    /// The language stored as a raw byte: `0` is English, anything else Japanese.
    pub fn from_raw(raw: u8) -> (r: UiLanguage)
        ensures
            r == language_of_raw(raw),
    {
        match raw {
            0 => UiLanguage::English,
            _ => UiLanguage::Japanese,
        }
    }

    /// The language a name stands for.
    pub open spec fn named(name: Seq<char>) -> Option<UiLanguage> {
        if name == "en"@ || name == "english"@ {
            Some(UiLanguage::English)
        } else if name == "ja"@ || name == "jp"@ || name == "japanese"@ {
            Some(UiLanguage::Japanese)
        } else {
            None
        }
    }

    /// The language an exact, already normalized name stands for.
    pub fn from_name(name: &str) -> (r: Option<UiLanguage>)
        ensures
            r == Self::named(name@),
    {
        if str_eq(name, "en") || str_eq(name, "english") {
            Some(UiLanguage::English)
        } else if str_eq(name, "ja") || str_eq(name, "jp") || str_eq(name, "japanese") {
            Some(UiLanguage::Japanese)
        } else {
            None
        }
    }

    /// Reads a language from configuration text, ignoring surrounding
    /// whitespace and ASCII case.
    pub fn parse(value: &str) -> (r: Option<UiLanguage>)
        ensures
            r == Self::named(ascii_lower_of(trim_of(value@))),
    {
        let lowered = to_ascii_lowercase(trim(value));
        Self::from_name(lowered.as_str())
    }

    /// The raw byte that [`UiLanguage::from_raw`] maps back to this language.
    pub fn to_raw(self) -> (r: u8)
        ensures
            language_of_raw(r) == self,
            r == (if self == UiLanguage::English { 0u8 } else { 1u8 }),
    {
        match self {
            UiLanguage::English => 0,
            UiLanguage::Japanese => 1,
        }
    }
}

/// Whether text is shown in Japanese.
pub fn is_japanese(lang: UiLanguage) -> (r: bool)
    ensures
        r == (lang == UiLanguage::Japanese),
{
    lang == UiLanguage::Japanese
}

/// Title of the CPU widget, the same in every language.
pub fn title_cpu(lang: UiLanguage) -> (r: &'static str)
    ensures
        r == " CPU ",
{
    " CPU "
}

/// Title of the help dialog.
pub fn help_title(lang: UiLanguage) -> (r: &'static str)
    ensures
        r == (if lang == UiLanguage::Japanese { " ヘルプ " } else { " Help " }),
{
    if is_japanese(lang) {
        " ヘルプ "
    } else {
        " Help "
    }
}

/// Hint shown on dialogs that close with Esc.
pub fn esc_to_close(lang: UiLanguage) -> (r: &'static str)
    ensures
        r == (if lang == UiLanguage::Japanese { " Escで閉じる " } else { " Esc to close " }),
{
    if is_japanese(lang) {
        " Escで閉じる "
    } else {
        " Esc to close "
    }
}

/// Hint shown on dialogs that go back with Esc.
pub fn esc_to_go_back(lang: UiLanguage) -> (r: &'static str)
    ensures
        r == (if lang == UiLanguage::Japanese { " Escで戻る " } else { " Esc to go back " }),
{
    if is_japanese(lang) {
        " Escで戻る "
    } else {
        " Esc to go back "
    }
}

/// Placeholder for a widget with nothing to show.
pub fn no_data(lang: UiLanguage) -> (r: &'static str)
    ensures
        r == (if lang == UiLanguage::Japanese { "データなし" } else { "No data" }),
{
    if is_japanese(lang) {
        "データなし"
    } else {
        "No data"
    }
}

/// Status line shown while updates are frozen.
pub fn status_frozen(lang: UiLanguage) -> (r: &'static str)
    ensures
        r == (if lang == UiLanguage::Japanese { "更新停止中。'f' で再開" } else { "Frozen, press 'f' to unfreeze" }),
{
    if is_japanese(lang) {
        "更新停止中。'f' で再開"
    } else {
        "Frozen, press 'f' to unfreeze"
    }
}

/// Short label of the environment section.
pub fn environment_label(lang: UiLanguage) -> (r: &'static str)
    ensures
        r == (if lang == UiLanguage::Japanese { "環境" } else { "Env" }),
{
    if is_japanese(lang) {
        "環境"
    } else {
        "Env"
    }
}

/// Long label of the environment section.
pub fn environment_label_verbose(lang: UiLanguage) -> (r: &'static str)
    ensures
        r == (if lang == UiLanguage::Japanese { "環境情報" } else { "Environment" }),
{
    if is_japanese(lang) {
        "環境情報"
    } else {
        "Environment"
    }
}

/// Title of the memory widget.
pub fn title_memory(lang: UiLanguage) -> (r: &'static str)
    ensures
        r == (if lang == UiLanguage::Japanese { " メモリ " } else { " Memory " }),
{
    if is_japanese(lang) {
        " メモリ "
    } else {
        " Memory "
    }
}

/// Title of the network widget.
pub fn title_network(lang: UiLanguage) -> (r: &'static str)
    ensures
        r == (if lang == UiLanguage::Japanese { " ネットワーク " } else { " Network " }),
{
    if is_japanese(lang) {
        " ネットワーク "
    } else {
        " Network "
    }
}

/// Title of the disk widget.
pub fn title_disks(lang: UiLanguage) -> (r: &'static str)
    ensures
        r == (if lang == UiLanguage::Japanese { " ディスク " } else { " Disks " }),
{
    if is_japanese(lang) {
        " ディスク "
    } else {
        " Disks "
    }
}

/// Title of the temperature widget.
pub fn title_temperatures(lang: UiLanguage) -> (r: &'static str)
    ensures
        r == (if lang == UiLanguage::Japanese { " 温度センサー " } else { " Temperatures " }),
{
    if is_japanese(lang) {
        " 温度センサー "
    } else {
        " Temperatures "
    }
}

/// Title of the battery widget.
pub fn title_battery(lang: UiLanguage) -> (r: &'static str)
    ensures
        r == (if lang == UiLanguage::Japanese { " バッテリー " } else { " Battery " }),
{
    if is_japanese(lang) {
        " バッテリー "
    } else {
        " Battery "
    }
}

/// Label of the sort menu.
pub fn sort_by_label(lang: UiLanguage) -> (r: &'static str)
    ensures
        r == (if lang == UiLanguage::Japanese { "並び替え" } else { "Sort By" }),
{
    if is_japanese(lang) {
        "並び替え"
    } else {
        "Sort By"
    }
}

/// Affirmative answer of a confirmation dialog.
pub fn yes_label(lang: UiLanguage) -> (r: &'static str)
    ensures
        r == (if lang == UiLanguage::Japanese { "はい" } else { "Yes" }),
{
    if is_japanese(lang) {
        "はい"
    } else {
        "Yes"
    }
}

/// Negative answer of a confirmation dialog.
pub fn no_label(lang: UiLanguage) -> (r: &'static str)
    ensures
        r == (if lang == UiLanguage::Japanese { "いいえ" } else { "No" }),
{
    if is_japanese(lang) {
        "いいえ"
    } else {
        "No"
    }
}

/// Title of the error dialog.
pub fn error_title(lang: UiLanguage) -> (r: &'static str)
    ensures
        r == (if lang == UiLanguage::Japanese { " エラー " } else { " Error " }),
{
    if is_japanese(lang) {
        " エラー "
    } else {
        " Error "
    }
}

/// Title of the signal selection dialog.
pub fn select_signal_title(lang: UiLanguage) -> (r: &'static str)
    ensures
        r == (if lang == UiLanguage::Japanese { " シグナル選択 " } else { " Select Signal " }),
{
    if is_japanese(lang) {
        " シグナル選択 "
    } else {
        " Select Signal "
    }
}

/// Title of the kill confirmation dialog.
pub fn confirm_kill_title(lang: UiLanguage) -> (r: &'static str)
    ensures
        r == (if lang == UiLanguage::Japanese { " プロセス終了の確認 " } else { " Confirm Kill Process " }),
{
    if is_japanese(lang) {
        " プロセス終了の確認 "
    } else {
        " Confirm Kill Process "
    }
}

impl Default for UiLanguage {
    fn default() -> (r: UiLanguage)
        ensures
            r == UiLanguage::Japanese,
    {
        UiLanguage::Japanese
    }
}

impl std::str::FromStr for UiLanguage {
    type Err = ();

    fn from_str(value: &str) -> Result<Self, Self::Err> {
        match Self::parse(value) {
            Some(language) => Ok(language),
            None => Err(()),
        }
    }
}

} // verus!
