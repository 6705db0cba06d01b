use bottom::disk_table::{disk_column_widths, not_available, DiskColumn, DiskWidgetData, SortTableColumn};
use bottom::text_width::TextWidthMode;
use bottom::localization::{help_title, is_japanese, title_cpu, yes_label, UiLanguage};

#[test]
fn labels_follow_the_language() {
    assert_eq!(help_title(UiLanguage::English), " Help ");
    assert_eq!(help_title(UiLanguage::Japanese), " ヘルプ ");
    assert_eq!(yes_label(UiLanguage::Japanese), "はい");
    assert_eq!(title_cpu(UiLanguage::Japanese), " CPU ");
    assert!(is_japanese(UiLanguage::default()));
}

#[test]
fn languages_round_trip_through_raw_bytes() {
    assert_eq!(UiLanguage::from_raw(UiLanguage::English.to_raw()), UiLanguage::English);
    assert_eq!(UiLanguage::from_raw(7), UiLanguage::Japanese);
    assert_eq!("  English ".parse::<UiLanguage>(), Ok(UiLanguage::English));
    assert_eq!("JP".parse::<UiLanguage>(), Ok(UiLanguage::Japanese));
    assert!("fr".parse::<UiLanguage>().is_err());
    assert_eq!(UiLanguage::Japanese.as_str(), "ja");
}

#[test]
fn disk_columns_parse_and_name_themselves() {
    assert_eq!(DiskColumn::parse("Used%"), Some(DiskColumn::UsedPercent));
    assert_eq!(DiskColumn::parse("R/S"), Some(DiskColumn::IoRead));
    assert_eq!(DiskColumn::parse("size"), None);
    assert_eq!(DiskColumn::IoWrite.get_schema_names(), vec!["W/s", "Write", "Wps"]);
    assert_eq!(DiskColumn::Free.text(UiLanguage::English), "Free(n)");
    assert_eq!(DiskColumn::Free.text(UiLanguage::Japanese), "空き(n)");
    assert_eq!(not_available(UiLanguage::English), "N/A");
    assert_eq!(SortTableColumn.text(), "Sort By");
}

#[test]
fn disk_fractions_need_a_nonzero_total() {
    let mut row = DiskWidgetData {
        name: "sda".to_string(),
        mount_point: "/".to_string(),
        free_bytes: Some(25),
        used_bytes: Some(75),
        total_bytes: Some(100),
        summed_total_bytes: Some(100),
        io_read_rate_bytes: None,
        io_write_rate_bytes: None,
    };
    assert_eq!(row.used_fraction(), Some((75, 100)));
    assert_eq!(row.free_fraction(), Some((25, 100)));
    row.summed_total_bytes = Some(0);
    assert_eq!(row.used_fraction(), None);
}

#[test]
fn column_widths_follow_the_widest_entry() {
    assert_eq!(SortTableColumn::column_widths(&["ab", "日本語"], TextWidthMode::Cjk), vec![6]);
    assert_eq!(SortTableColumn::column_widths(&[], TextWidthMode::Normal), vec![0]);
    let row = |name: &str, mount: &str| DiskWidgetData {
        name: name.to_string(),
        mount_point: mount.to_string(),
        free_bytes: None,
        used_bytes: None,
        total_bytes: None,
        summed_total_bytes: None,
        io_read_rate_bytes: None,
        io_write_rate_bytes: None,
    };
    let rows = [row("sda", "/"), row("nvme0n1", "/home")];
    assert_eq!(disk_column_widths(&rows, TextWidthMode::Normal), vec![7, 5, 0, 0, 0, 0, 0]);
}

#[test]
fn disk_rows_sort_by_column() {
    let row = |name: &str, used: Option<u64>, total: Option<u64>| DiskWidgetData {
        name: name.to_string(),
        mount_point: "/".to_string(),
        free_bytes: None,
        used_bytes: used,
        total_bytes: total,
        summed_total_bytes: total,
        io_read_rate_bytes: None,
        io_write_rate_bytes: None,
    };
    let mut rows = vec![
        row("sdb", Some(50), Some(100)),
        row("sda", None, None),
        row("sdc", Some(30), Some(40)),
    ];
    DiskColumn::Disk.sort_data(&mut rows, false);
    let names: Vec<&str> = rows.iter().map(|r| r.name.as_str()).collect();
    assert_eq!(names, vec!["sda", "sdb", "sdc"]);

    DiskColumn::UsedPercent.sort_data(&mut rows, true);
    let names: Vec<&str> = rows.iter().map(|r| r.name.as_str()).collect();
    assert_eq!(names, vec!["sdc", "sdb", "sda"]);

    DiskColumn::Used.sort_data(&mut rows, false);
    let names: Vec<&str> = rows.iter().map(|r| r.name.as_str()).collect();
    assert_eq!(names, vec!["sda", "sdc", "sdb"]);
}
