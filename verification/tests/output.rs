use fsx::collect_stats::FsStats;
use fsx::find::FindEntry;
use fsx::output::{convert_to_human_readable, find_lines, stats_lines, OutputFormat};
use fsx::text::{decimal_string, split_lines, trimmed};

#[test]
fn sizes_get_a_unit_prefix() {
    assert_eq!(convert_to_human_readable(0), "0B");
    assert_eq!(convert_to_human_readable(999), "999B");
    assert_eq!(convert_to_human_readable(1000), "1000B");
    assert_eq!(convert_to_human_readable(1001), "1kB");
    assert_eq!(convert_to_human_readable(1_999_999), "1MB");
    assert_eq!(convert_to_human_readable(999_999), "999kB");
    assert_eq!(convert_to_human_readable(1_000_000), "1000kB");
    assert_eq!(convert_to_human_readable(1_000_001), "1000kB");
    assert_eq!(convert_to_human_readable(1_001_000), "1MB");
    assert_eq!(convert_to_human_readable(5_000_000_000), "5GB");
    assert_eq!(convert_to_human_readable(7_000_000_000_000), "7TB");
    assert_eq!(convert_to_human_readable(u64::MAX), "18446744TB");
}

#[test]
fn numbers_are_written_in_decimal() {
    assert_eq!(decimal_string(0), "0");
    assert_eq!(decimal_string(7), "7");
    assert_eq!(decimal_string(10), "10");
    assert_eq!(decimal_string(1203), "1203");
    assert_eq!(decimal_string(u64::MAX), "18446744073709551615");
}

fn sample_stats() -> FsStats {
    FsStats {
        total_files: 3,
        total_dirs: 2,
        total_symlinks: 1,
        total_size: 23_000,
        largest_file: Some(("root/big.bin".to_string(), 12_345)),
        max_depth: 3,
    }
}

#[test]
fn raw_report_gives_sizes_in_bytes() {
    let lines = stats_lines(&sample_stats(), false);
    assert_eq!(
        lines,
        vec![
            "Files: 3",
            "Dirs: 2",
            "Symlinks: 1",
            "Size: 23000 bytes",
            "Largest file: root/big.bin (12345 bytes)",
            "Max depth: 3",
        ]
    );
}

#[test]
fn human_report_gives_sizes_with_a_prefix() {
    let lines = stats_lines(&sample_stats(), true);
    assert_eq!(
        lines,
        vec![
            "Files: 3",
            "Dirs: 2",
            "Symlinks: 1",
            "Size: 23kB",
            "Largest file: root/big.bin (12kB)",
            "Max depth: 3",
        ]
    );
}

#[test]
fn report_without_files_has_no_line_on_the_largest() {
    let lines = stats_lines(&FsStats::default(), false);
    assert_eq!(
        lines,
        vec!["Files: 0", "Dirs: 0", "Symlinks: 0", "Size: 0 bytes", "Max depth: 0"]
    );
}

#[test]
fn formats_say_how_sizes_are_written() {
    assert_eq!(OutputFormat::Human.human(), Some(true));
    assert_eq!(OutputFormat::Raw.human(), Some(false));
    assert_eq!(OutputFormat::Debug.human(), None);
}

#[test]
fn found_files_are_listed_by_path() {
    let entries = vec![
        FindEntry { name: "root/a.txt".to_string(), size: 1, depth: 1 },
        FindEntry { name: "root/sub/b.txt".to_string(), size: 2, depth: 2 },
    ];
    assert_eq!(find_lines(&entries), vec!["root/a.txt", "root/sub/b.txt"]);
    assert!(find_lines(&[]).is_empty());
}

#[test]
fn default_entry_is_empty() {
    let entry = FindEntry::default();
    assert_eq!(entry.name, "");
    assert_eq!(entry.size, 0);
    assert_eq!(entry.depth, 0);
}

#[test]
fn trimming_takes_off_white_space_at_both_ends() {
    assert_eq!(trimmed("  a b \t\r\n"), "a b");
    assert_eq!(trimmed("\u{00A0}\u{3000}x\u{2003}"), "x");
    assert_eq!(trimmed("   "), "");
    assert_eq!(trimmed(""), "");
    assert_eq!(trimmed("x"), "x");
    assert_eq!(trimmed("\u{200B}x"), "\u{200B}x");
    for text in [" \u{1680}a\u{85}", "\u{2028}\u{2029}b\u{202F}\u{205F}", "\u{0B}\u{0C}c"] {
        assert_eq!(trimmed(text), text.trim());
    }
}

#[test]
fn text_is_split_at_line_feeds() {
    assert_eq!(split_lines("a\nb"), vec!["a", "b"]);
    assert_eq!(split_lines("a\nb\n"), vec!["a", "b"]);
    assert_eq!(split_lines("\n\nx"), vec!["", "", "x"]);
    assert_eq!(split_lines("a\r\nb"), vec!["a\r", "b"]);
    assert!(split_lines("").is_empty());
    assert_eq!(split_lines("\n"), vec![""]);
}
