//! Rows and columns of the disk table.

use vstd::prelude::*;

use crate::localization::UiLanguage;
use crate::query::lexer::chars_of;
use crate::query::matcher::{lower_of, lowercase};
use crate::strings::str_eq;
use crate::text_width::{display_width, display_width_spec, TextWidthMode};

verus! {

/// One row of the disk table.
#[derive(Clone, Debug)]
pub struct DiskWidgetData {
    pub name: String,
    pub mount_point: String,
    pub free_bytes: Option<u64>,
    pub used_bytes: Option<u64>,
    pub total_bytes: Option<u64>,
    pub summed_total_bytes: Option<u64>,
    pub io_read_rate_bytes: Option<u64>,
    pub io_write_rate_bytes: Option<u64>,
}

/// A part of a whole as a fraction, when both are known and the whole is not zero.
pub open spec fn fraction_of(part: Option<u64>, whole: Option<u64>) -> Option<(u64, u64)> {
    match (part, whole) {
        (Some(p), Some(w)) => if w > 0 {
            Some((p, w))
        } else {
            None
        },
        _ => None,
    }
}

impl DiskWidgetData {
    /// Free space over the summed total, as numerator and denominator.
    pub fn free_fraction(&self) -> (r: Option<(u64, u64)>)
        ensures
            r == fraction_of(self.free_bytes, self.summed_total_bytes),
    {
        match (self.free_bytes, self.summed_total_bytes) {
            (Some(free), Some(total)) => if total > 0 {
                Some((free, total))
            } else {
                None
            },
            _ => None,
        }
    }

    /// Used space over the summed total, as numerator and denominator.
    pub fn used_fraction(&self) -> (r: Option<(u64, u64)>)
        ensures
            r == fraction_of(self.used_bytes, self.summed_total_bytes),
    {
        match (self.used_bytes, self.summed_total_bytes) {
            (Some(used), Some(total)) => if total > 0 {
                Some((used, total))
            } else {
                None
            },
            _ => None,
        }
    }
}

/// A column of the disk table.
#[derive(Debug, Clone, Copy, PartialEq, Eq, Structural)]
pub enum DiskColumn {
    Disk,
    Mount,
    Used,
    Free,
    Total,
    UsedPercent,
    FreePercent,
    IoRead,
    IoWrite,
}

/// The text that stands for a missing value.
pub fn not_available(lang: UiLanguage) -> (r: &'static str)
    ensures
        r == (if lang == UiLanguage::Japanese { "該当なし" } else { "N/A" }),
{
    if lang == UiLanguage::Japanese {
        "該当なし"
    } else {
        "N/A"
    }
}

impl DiskColumn {
    /// The column a lowercase configuration name stands for.
    pub open spec fn named(name: Seq<char>) -> Option<DiskColumn> {
        if name == "disk"@ {
            Some(DiskColumn::Disk)
        } else if name == "mount"@ {
            Some(DiskColumn::Mount)
        } else if name == "used"@ {
            Some(DiskColumn::Used)
        } else if name == "free"@ {
            Some(DiskColumn::Free)
        } else if name == "total"@ {
            Some(DiskColumn::Total)
        } else if name == "usedpercent"@ || name == "used%"@ {
            Some(DiskColumn::UsedPercent)
        } else if name == "freepercent"@ || name == "free%"@ {
            Some(DiskColumn::FreePercent)
        } else if name == "r/s"@ {
            Some(DiskColumn::IoRead)
        } else if name == "w/s"@ {
            Some(DiskColumn::IoWrite)
        } else {
            None
        }
    }

    /// The column an exact lowercase name stands for.
    pub fn from_name(name: &str) -> (r: Option<DiskColumn>)
        ensures
            r == Self::named(name@),
    {
        if str_eq(name, "disk") {
            Some(DiskColumn::Disk)
        } else if str_eq(name, "mount") {
            Some(DiskColumn::Mount)
        } else if str_eq(name, "used") {
            Some(DiskColumn::Used)
        } else if str_eq(name, "free") {
            Some(DiskColumn::Free)
        } else if str_eq(name, "total") {
            Some(DiskColumn::Total)
        } else if str_eq(name, "usedpercent") || str_eq(name, "used%") {
            Some(DiskColumn::UsedPercent)
        } else if str_eq(name, "freepercent") || str_eq(name, "free%") {
            Some(DiskColumn::FreePercent)
        } else if str_eq(name, "r/s") {
            Some(DiskColumn::IoRead)
        } else if str_eq(name, "w/s") {
            Some(DiskColumn::IoWrite)
        } else {
            None
        }
    }

    /// Reads a column from configuration text, ignoring case.
    pub fn parse(value: &str) -> (r: Option<DiskColumn>)
        ensures
            r == Self::named(lower_of(value@)),
    {
        let lowered = lowercase(value);
        Self::from_name(lowered.as_str())
    }

    /// The names under which the column appears in the configuration schema.
    pub fn get_schema_names(&self) -> (r: Vec<&'static str>)
        ensures
            r@ == (match *self {
                DiskColumn::Disk => seq!["Disk"],
                DiskColumn::Mount => seq!["Mount"],
                DiskColumn::Used => seq!["Used"],
                DiskColumn::Free => seq!["Free"],
                DiskColumn::Total => seq!["Total"],
                DiskColumn::UsedPercent => seq!["Used%"],
                DiskColumn::FreePercent => seq!["Free%"],
                DiskColumn::IoRead => seq!["R/s", "Read", "Rps"],
                DiskColumn::IoWrite => seq!["W/s", "Write", "Wps"],
            }),
    {
        match self {
            DiskColumn::Disk => vec!["Disk"],
            DiskColumn::Mount => vec!["Mount"],
            DiskColumn::Used => vec!["Used"],
            DiskColumn::Free => vec!["Free"],
            DiskColumn::Total => vec!["Total"],
            DiskColumn::UsedPercent => vec!["Used%"],
            DiskColumn::FreePercent => vec!["Free%"],
            DiskColumn::IoRead => vec!["R/s", "Read", "Rps"],
            DiskColumn::IoWrite => vec!["W/s", "Write", "Wps"],
        }
    }

    /// The header of the column, with the key that sorts by it.
    pub fn text(&self, lang: UiLanguage) -> (r: &'static str)
        ensures
            r == (match *self {
                DiskColumn::Disk => if lang == UiLanguage::Japanese { "ディスク(d)" } else { "Disk(d)" },
                DiskColumn::Mount => if lang == UiLanguage::Japanese { "マウント(m)" } else { "Mount(m)" },
                DiskColumn::Used => if lang == UiLanguage::Japanese { "使用量(u)" } else { "Used(u)" },
                DiskColumn::Free => if lang == UiLanguage::Japanese { "空き(n)" } else { "Free(n)" },
                DiskColumn::Total => if lang == UiLanguage::Japanese { "合計(t)" } else { "Total(t)" },
                DiskColumn::UsedPercent => if lang == UiLanguage::Japanese { "使用率%(p)" } else { "Used%(p)" },
                DiskColumn::FreePercent => if lang == UiLanguage::Japanese { "空き%" } else { "Free%" },
                DiskColumn::IoRead => "R/s(r)",
                DiskColumn::IoWrite => "W/s(w)",
            }),
    {
        let ja = lang == UiLanguage::Japanese;
        match self {
            DiskColumn::Disk => if ja { "ディスク(d)" } else { "Disk(d)" },
            DiskColumn::Mount => if ja { "マウント(m)" } else { "Mount(m)" },
            DiskColumn::Used => if ja { "使用量(u)" } else { "Used(u)" },
            DiskColumn::Free => if ja { "空き(n)" } else { "Free(n)" },
            DiskColumn::Total => if ja { "合計(t)" } else { "Total(t)" },
            DiskColumn::UsedPercent => if ja { "使用率%(p)" } else { "Used%(p)" },
            DiskColumn::FreePercent => if ja { "空き%" } else { "Free%" },
            DiskColumn::IoRead => "R/s(r)",
            DiskColumn::IoWrite => "W/s(w)",
        }
    }
}

/// The widest of some texts, each width cut to `u16` as a column width is.
pub open spec fn widest(texts: Seq<Seq<char>>, mode: TextWidthMode) -> u16
    decreases texts.len(),
{
    if texts.len() == 0 {
        0
    } else {
        let w = display_width_spec(texts.last(), mode) as u16;
        let m = widest(texts.drop_last(), mode);
        if w > m {
            w
        } else {
            m
        }
    }
}

/// The widths of the disk table's columns: the disk and mount columns as
/// wide as their widest entry, the others left to the layout.
pub fn disk_column_widths(data: &[DiskWidgetData], mode: TextWidthMode) -> (r: Vec<u16>)
    ensures
        r@.len() == 7,
        r@[0] == widest(data@.map_values(|d: DiskWidgetData| d.name@), mode),
        r@[1] == widest(data@.map_values(|d: DiskWidgetData| d.mount_point@), mode),
        forall|i: int| 2 <= i < 7 ==> r@[i] == 0,
{
    let ghost names = data@.map_values(|d: DiskWidgetData| d.name@);
    let ghost mounts = data@.map_values(|d: DiskWidgetData| d.mount_point@);
    let mut name_width: u16 = 0;
    let mut mount_width: u16 = 0;
    let mut i: usize = 0;
    while i < data.len()
        invariant
            i <= data.len(),
            names == data@.map_values(|d: DiskWidgetData| d.name@),
            mounts == data@.map_values(|d: DiskWidgetData| d.mount_point@),
            name_width == widest(names.take(i as int), mode),
            mount_width == widest(mounts.take(i as int), mode),
        decreases data.len() - i,
    {
        proof {
            assert(names.take(i + 1).drop_last() == names.take(i as int));
            assert(mounts.take(i + 1).drop_last() == mounts.take(i as int));
            assert(names.take(i + 1).last() == data@[i as int].name@);
            assert(mounts.take(i + 1).last() == data@[i as int].mount_point@);
        }
        let w = display_width(data[i].name.as_str(), mode) as u16;
        if w > name_width {
            name_width = w;
        }
        let m = display_width(data[i].mount_point.as_str(), mode) as u16;
        if m > mount_width {
            mount_width = m;
        }
        i += 1;
    }
    proof {
        assert(names.take(data.len() as int) == names);
        assert(mounts.take(data.len() as int) == mounts);
    }
    let mut widths: Vec<u16> = Vec::new();
    widths.push(name_width);
    widths.push(mount_width);
    let mut k: usize = 2;
    while k < 7
        invariant
            2 <= k <= 7,
            widths@.len() == k,
            widths@[0] == name_width,
            widths@[1] == mount_width,
            forall|j: int| 2 <= j < k ==> widths@[j] == 0,
        decreases 7 - k,
    {
        widths.push(0);
        k += 1;
    }
    widths
}

/// Whether `a` comes no later than `b` in code-point order.
pub open spec fn text_le(a: Seq<char>, b: Seq<char>) -> bool
    decreases a.len(),
{
    if a.len() == 0 {
        true
    } else if b.len() == 0 {
        false
    } else if (a[0] as u32) < (b[0] as u32) {
        true
    } else if (a[0] as u32) > (b[0] as u32) {
        false
    } else {
        text_le(a.drop_first(), b.drop_first())
    }
}

proof fn lemma_text_le_total(a: Seq<char>, b: Seq<char>)
    ensures
        text_le(a, b) || text_le(b, a),
    decreases a.len(),
{
    if a.len() > 0 && b.len() > 0 && (a[0] as u32) == (b[0] as u32) {
        lemma_text_le_total(a.drop_first(), b.drop_first());
    }
}

/// Compares two texts in code-point order.
fn text_le_exec(a: &str, b: &str) -> (r: bool)
    ensures
        r == text_le(a@, b@),
{
    let x = chars_of(a);
    let y = chars_of(b);
    let mut i: usize = 0;
    proof {
        assert(x@.skip(0) == a@);
        assert(y@.skip(0) == b@);
    }
    while i < x.len() && i < y.len() && (x[i] as u32) == (y[i] as u32)
        invariant
            i <= x.len(),
            i <= y.len(),
            text_le(a@, b@) == text_le(x@.skip(i as int), y@.skip(i as int)),
        decreases x.len() - i,
    {
        proof {
            assert(x@.skip(i as int).drop_first() == x@.skip(i + 1));
            assert(y@.skip(i as int).drop_first() == y@.skip(i + 1));
        }
        i += 1;
    }
    proof {
        if i < x.len() {
            assert(x@.skip(i as int)[0] == x@[i as int]);
        }
        if i < y.len() {
            assert(y@.skip(i as int)[0] == y@[i as int]);
        }
    }
    if i == x.len() {
        true
    } else if i == y.len() {
        false
    } else {
        (x[i] as u32) < (y[i] as u32)
    }
}

/// Whether one optional count comes no later than another; a missing one
/// comes first.
pub open spec fn count_le(a: Option<u64>, b: Option<u64>) -> bool {
    match (a, b) {
        (None, _) => true,
        (Some(_), None) => false,
        (Some(x), Some(y)) => x <= y,
    }
}

/// Whether one optional fraction is no larger than another, compared
/// exactly; a missing one comes first.
pub open spec fn fraction_le(a: Option<(u64, u64)>, b: Option<(u64, u64)>) -> bool {
    match (a, b) {
        (None, _) => true,
        (Some(_), None) => false,
        (Some((p, q)), Some((r, s))) => p as int * s as int <= r as int * q as int,
    }
}

fn count_le_exec(a: Option<u64>, b: Option<u64>) -> (r: bool)
    ensures
        r == count_le(a, b),
{
    match (a, b) {
        (None, _) => true,
        (Some(_), None) => false,
        (Some(x), Some(y)) => x <= y,
    }
}

fn fraction_le_exec(a: Option<(u64, u64)>, b: Option<(u64, u64)>) -> (r: bool)
    ensures
        r == fraction_le(a, b),
{
    match (a, b) {
        (None, _) => true,
        (Some(_), None) => false,
        (Some((p, q)), Some((r, s))) => {
            proof {
                assert(p as int * s as int <= u64::MAX as int * u64::MAX as int) by (nonlinear_arith)
                    requires p <= u64::MAX, s <= u64::MAX;
                assert(r as int * q as int <= u64::MAX as int * u64::MAX as int) by (nonlinear_arith)
                    requires r <= u64::MAX, q <= u64::MAX;
            }
            (p as u128) * (s as u128) <= (r as u128) * (q as u128)
        },
    }
}

impl DiskColumn {
    /// Whether row `a` comes no later than row `b` when sorting ascending by
    /// this column.
    pub open spec fn row_le(self, a: DiskWidgetData, b: DiskWidgetData) -> bool {
        match self {
            DiskColumn::Disk => text_le(a.name@, b.name@),
            DiskColumn::Mount => text_le(a.mount_point@, b.mount_point@),
            DiskColumn::Used => count_le(a.used_bytes, b.used_bytes),
            DiskColumn::UsedPercent => fraction_le(
                fraction_of(a.used_bytes, a.summed_total_bytes),
                fraction_of(b.used_bytes, b.summed_total_bytes),
            ),
            DiskColumn::Free => count_le(a.free_bytes, b.free_bytes),
            DiskColumn::FreePercent => fraction_le(
                fraction_of(a.free_bytes, a.summed_total_bytes),
                fraction_of(b.free_bytes, b.summed_total_bytes),
            ),
            DiskColumn::Total => count_le(a.total_bytes, b.total_bytes),
            DiskColumn::IoRead => count_le(a.io_read_rate_bytes, b.io_read_rate_bytes),
            DiskColumn::IoWrite => count_le(a.io_write_rate_bytes, b.io_write_rate_bytes),
        }
    }

    /// Whether row `a` may stand before row `b` in the chosen direction.
    pub open spec fn in_order(self, a: DiskWidgetData, b: DiskWidgetData, descending: bool) -> bool {
        if descending {
            self.row_le(b, a)
        } else {
            self.row_le(a, b)
        }
    }

    proof fn lemma_in_order_total(self, a: DiskWidgetData, b: DiskWidgetData, descending: bool)
        ensures
            self.in_order(a, b, descending) || self.in_order(b, a, descending),
    {
        lemma_text_le_total(a.name@, b.name@);
        lemma_text_le_total(a.mount_point@, b.mount_point@);
    }

    fn row_le_exec(&self, a: &DiskWidgetData, b: &DiskWidgetData) -> (r: bool)
        ensures
            r == self.row_le(*a, *b),
    {
        match self {
            DiskColumn::Disk => text_le_exec(a.name.as_str(), b.name.as_str()),
            DiskColumn::Mount => text_le_exec(a.mount_point.as_str(), b.mount_point.as_str()),
            DiskColumn::Used => count_le_exec(a.used_bytes, b.used_bytes),
            DiskColumn::UsedPercent => fraction_le_exec(a.used_fraction(), b.used_fraction()),
            DiskColumn::Free => count_le_exec(a.free_bytes, b.free_bytes),
            DiskColumn::FreePercent => fraction_le_exec(a.free_fraction(), b.free_fraction()),
            DiskColumn::Total => count_le_exec(a.total_bytes, b.total_bytes),
            DiskColumn::IoRead => count_le_exec(a.io_read_rate_bytes, b.io_read_rate_bytes),
            DiskColumn::IoWrite => count_le_exec(a.io_write_rate_bytes, b.io_write_rate_bytes),
        }
    }

    /// Sorts rows by this column, ascending or descending; rows that compare
    /// equal keep their order.
    pub fn sort_data(&self, data: &mut Vec<DiskWidgetData>, descending: bool)
        ensures
            final(data)@.to_multiset() == old(data)@.to_multiset(),
            forall|i: int|
                0 <= i < final(data)@.len() - 1 ==> self.in_order(
                    #[trigger] final(data)@[i],
                    final(data)@[i + 1],
                    descending,
                ),
    {
        let ghost original = data@;
        if data.len() == 0 {
            return;
        }
        let mut i: usize = 1;
        while i < data.len()
            invariant
                1 <= i <= data@.len(),
                data@.len() == original.len(),
                data@.to_multiset() == original.to_multiset(),
                forall|k: int| 0 <= k < i - 1 ==> self.in_order(#[trigger] data@[k], data@[k + 1], descending),
            decreases data.len() - i,
        {
            let mut j: usize = i;
            while j > 0 && !self.sorted_pair(&data[j - 1], &data[j], descending)
                invariant
                    0 <= j <= i < data@.len(),
                    data@.len() == original.len(),
                    data@.to_multiset() == original.to_multiset(),
                    forall|k: int| 0 <= k < j - 1 ==> self.in_order(#[trigger] data@[k], data@[k + 1], descending),
                    forall|k: int| j <= k < i ==> self.in_order(#[trigger] data@[k], data@[k + 1], descending),
                    0 < j < i ==> self.in_order(data@[j - 1], data@[j + 1], descending),
                decreases j,
            {
                proof {
                    self.lemma_in_order_total(data@[j - 1], data@[j as int], descending);
                }
                let ghost before = data@;
                let moved = data.remove(j);
                data.insert(j - 1, moved);
                proof {
                    let removed = before.remove(j as int);
                    vstd::seq_lib::to_multiset_remove(before, j as int);
                    vstd::seq_lib::to_multiset_insert(removed, j - 1, moved);
                    vstd::seq_lib::to_multiset_contains(before, moved);
                    assert(before.contains(moved)) by {
                        assert(before[j as int] == moved);
                    };
                    assert(data@.to_multiset() =~= before.to_multiset()) by {
                        broadcast use vstd::multiset::group_multiset_axioms;
                    };
                    assert(data@ =~= before.update(j - 1, before[j as int]).update(j as int, before[j - 1]));
                }
                j -= 1;
            }
            i += 1;
        }
    }

    fn sorted_pair(&self, a: &DiskWidgetData, b: &DiskWidgetData, descending: bool) -> (r: bool)
        ensures
            r == self.in_order(*a, *b, descending),
    {
        if descending {
            self.row_le_exec(b, a)
        } else {
            self.row_le_exec(a, b)
        }
    }
}

/// The header of the sort menu's one column.
pub struct SortTableColumn;

impl SortTableColumn {
    /// The header text.
    pub fn text(&self) -> (r: &'static str)
        ensures
            r == "Sort By",
    {
        "Sort By"
    }

    /// The width of the column: its widest entry.
    pub fn column_widths(data: &[&str], mode: TextWidthMode) -> (r: Vec<u16>)
        ensures
            r@ == seq![widest(data@.map_values(|d: &str| d@), mode)],
    {
        let ghost texts = data@.map_values(|d: &str| d@);
        let mut widest_width: u16 = 0;
        let mut i: usize = 0;
        while i < data.len()
            invariant
                i <= data.len(),
                texts == data@.map_values(|d: &str| d@),
                widest_width == widest(texts.take(i as int), mode),
            decreases data.len() - i,
        {
            proof {
                assert(texts.take(i + 1).drop_last() == texts.take(i as int));
                assert(texts.take(i + 1).last() == data@[i as int]@);
            }
            let w = display_width(data[i], mode) as u16;
            if w > widest_width {
                widest_width = w;
            }
            i += 1;
        }
        proof {
            assert(texts.take(data.len() as int) == texts);
        }
        let mut widths: Vec<u16> = Vec::new();
        widths.push(widest_width);
        proof {
            assert(widths@ =~= seq![widest(texts, mode)]);
        }
        widths
    }
}

} // verus!
