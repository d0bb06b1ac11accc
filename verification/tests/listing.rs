use cal2::holidays::{comes_before, Holiday, HolidayEntry, HolidayKind, HolidayMap};
use cal2::listing::{
    format_date, label_of, markdown_line_of, plain_line_of, render_json, render_list,
    render_markdown, render_plain, rows_for, widths_of, ListRow, OutputFormat,
};
use cal2::text::{byte_len, chars_of, digit_of, join, push_decimal, push_padded};

fn sample() -> HolidayMap {
    let mut hm = HolidayMap::new();
    hm.insert((10, 5), HolidayEntry::official("Later Holiday".to_string()));
    hm.insert((25, 12), HolidayEntry::official("Navidad".to_string()));
    hm.insert((1, 5), HolidayEntry::custom("Día del trabajador".to_string()));
    hm.insert((31, 1), HolidayEntry::custom("x".to_string()));
    hm
}

fn row(date: &str, name: &str, kind: &str) -> ListRow {
    ListRow { date: date.to_string(), name: name.to_string(), kind: kind.to_string() }
}

#[test]
fn list_of_nothing_says_so_in_every_format() {
    for format in [OutputFormat::Table, OutputFormat::Json, OutputFormat::Markdown] {
        assert_eq!(render_list(2024, &HolidayMap::new(), format).expect("list"), "No holidays found");
    }
}

#[test]
fn list_is_in_order_of_month_then_day() {
    let text = render_list(2024, &sample(), OutputFormat::Table).expect("list");
    let expected = [
        "2024-01-31  x [custom]",
        "2024-05-01  Día del trabajador [custom]",
        "2024-05-10  Later Holiday [official]",
        "2024-12-25  Navidad [official]",
    ]
    .join("\n");
    assert_eq!(text, expected);
}

#[test]
fn sorted_by_date_orders_and_keeps_all() {
    let hm = sample();
    let sorted = hm.sorted_by_date();
    let keys: Vec<(u32, u32)> = sorted.iter().map(|h| (h.day, h.month)).collect();
    assert_eq!(keys, vec![(31, 1), (1, 5), (10, 5), (25, 12)]);
    assert_eq!(sorted[1].entry.name, "Día del trabajador");
    assert_eq!(sorted[1].entry.kind, HolidayKind::Custom);
    // the map itself keeps the order of insertion
    let kept: Vec<(u32, u32)> = hm.to_vec().iter().map(|h| (h.day, h.month)).collect();
    assert_eq!(kept, vec![(10, 5), (25, 12), (1, 5), (31, 1)]);
    assert!(comes_before((31, 1), (1, 2)));
    assert!(comes_before((1, 2), (2, 2)));
    assert!(!comes_before((1, 2), (1, 2)));
    assert!(!comes_before((1, 2), (31, 1)));
}

#[test]
fn list_as_json_is_an_array_of_objects() {
    let mut hm = HolidayMap::new();
    hm.insert((6, 1), HolidayEntry::custom("Say \"hi\"".to_string()));
    hm.insert((1, 1), HolidayEntry::official("New Year's Day".to_string()));
    let text = render_list(2024, &hm, OutputFormat::Json).expect("list");
    let expected = "[\n  {\n    \"date\": \"2024-01-01\",\n    \"name\": \"New Year's Day\",\n    \"kind\": \"official\"\n  },\n  {\n    \"date\": \"2024-01-06\",\n    \"name\": \"Say \\\"hi\\\"\",\n    \"kind\": \"custom\"\n  }\n]";
    assert_eq!(text, expected);
    let value: serde_json::Value = serde_json::from_str(&text).expect("valid json");
    assert_eq!(value.as_array().expect("array").len(), 2);
    assert_eq!(value[1]["name"], "Say \"hi\"");
    assert_eq!(value[1]["date"], "2024-01-06");
    assert_eq!(value[1]["kind"], "custom");
}

#[test]
fn list_as_markdown_pads_the_columns() {
    let mut hm = HolidayMap::new();
    hm.insert((6, 1), HolidayEntry::custom("Test custom holiday".to_string()));
    hm.insert((1, 1), HolidayEntry::official("New Year's Day".to_string()));
    let text = render_list(2024, &hm, OutputFormat::Markdown).expect("list");
    let expected = [
        "| Date       | Name                | Kind     |",
        "| ---------- | ------------------- | -------- |",
        "| 2024-01-01 | New Year's Day      | official |",
        "| 2024-01-06 | Test custom holiday | custom   |",
    ]
    .join("\n");
    assert_eq!(text, expected);
}

#[test]
fn markdown_columns_are_no_narrower_than_their_headings() {
    let rows = vec![row("1", "ab", "c")];
    assert_eq!(widths_of(&rows), (4, 4, 4));
    let expected = ["| Date | Name | Kind |", "| ---- | ---- | ---- |", "| 1    | ab   | c    |"]
        .join("\n");
    assert_eq!(render_markdown(&rows), expected);
    assert_eq!(widths_of(&Vec::new()), (4, 4, 4));
}

#[test]
fn markdown_widths_count_bytes_and_padding_counts_characters() {
    // five characters in six bytes
    let rows = vec![row("2024-01-01", "Añejo", "custom"), row("2024-01-02", "Sol", "official")];
    assert_eq!(widths_of(&rows), (10, 6, 8));
    let expected = [
        "| Date       | Name   | Kind     |",
        "| ---------- | ------ | -------- |",
        "| 2024-01-01 | Añejo  | custom   |",
        "| 2024-01-02 | Sol    | official |",
    ]
    .join("\n");
    assert_eq!(render_markdown(&rows), expected);
    assert_eq!(
        markdown_line_of("a", "b", "c", (1, 2, 3), '.'),
        "| a | b. | c.. |"
    );
}

#[test]
fn rows_hold_date_name_and_kind() {
    let holidays = vec![
        Holiday { day: 7, month: 3, entry: HolidayEntry::official("Seventh".to_string()) },
        Holiday { day: 17, month: 11, entry: HolidayEntry::custom("Mine".to_string()) },
    ];
    let rows = rows_for(-12, &holidays);
    assert_eq!(rows.len(), 2);
    assert_eq!((rows[0].date.as_str(), rows[0].name.as_str(), rows[0].kind.as_str()), ("-12-03-07", "Seventh", "official"));
    assert_eq!((rows[1].date.as_str(), rows[1].name.as_str(), rows[1].kind.as_str()), ("-12-11-17", "Mine", "custom"));
    assert_eq!(plain_line_of(&rows[1]), "-12-11-17  Mine [custom]");
    assert_eq!(render_plain(&rows), "-12-03-07  Seventh [official]\n-12-11-17  Mine [custom]");
    assert_eq!(render_plain(&Vec::new()), "");
    assert_eq!(label_of(HolidayKind::Official), "official");
    assert_eq!(label_of(HolidayKind::Custom), "custom");
    assert_eq!(render_json(&Vec::new()).expect("json"), "[]");
}

#[test]
fn format_date_pads_month_and_day() {
    assert_eq!(format_date(2024, 1, 1), "2024-01-01");
    assert_eq!(format_date(2024, 31, 12), "2024-12-31");
    assert_eq!(format_date(5, 9, 10), "5-10-09");
    assert_eq!(format_date(0, 0, 0), "0-00-00");
    assert_eq!(format_date(-1, 100, 13), "-1-13-100");
    assert_eq!(format_date(i32::MIN, u32::MAX, 7), "-2147483648-07-4294967295");
    assert_eq!(format_date(i32::MAX, 1, 1), "2147483647-01-01");
}

#[test]
fn text_helpers() {
    let mut out = String::from("n=");
    push_decimal(&mut out, 0);
    push_decimal(&mut out, 90210);
    push_decimal(&mut out, u64::MAX);
    assert_eq!(out, "n=09021018446744073709551615");
    assert_eq!((0..10).map(digit_of).collect::<String>(), "0123456789");

    let mut out = String::new();
    push_padded(&mut out, "ab", 5, '*');
    push_padded(&mut out, "abcdef", 3, '*');
    push_padded(&mut out, "", 2, '-');
    push_padded(&mut out, "é", 2, '.');
    assert_eq!(out, "ab***abcdef--é.");

    let lines = vec!["a".to_string(), String::new(), "c".to_string()];
    assert_eq!(join(&lines, ", "), "a, , c");
    assert_eq!(join(&lines[..1].to_vec(), ", "), "a");
    assert_eq!(join(&Vec::new(), ", "), "");

    assert_eq!(byte_len("Añejo"), 6);
    assert_eq!(chars_of("Añejo"), vec!['A', 'ñ', 'e', 'j', 'o']);
}

#[test]
fn map_holds_one_entry_per_day() {
    let mut hm = HolidayMap::new();
    assert!(hm.is_empty());
    assert!(hm.insert((31, 2), HolidayEntry::official("No such day".to_string())).is_none());
    let previous = hm.insert((31, 2), HolidayEntry::custom("Still none".to_string()));
    assert_eq!(previous.expect("previous").name, "No such day");
    assert_eq!(hm.len(), 1);
    assert_eq!(hm.position(&(31, 2)), Some(0));
    assert_eq!(hm.key_at(0), (31, 2));
    assert_eq!(hm.entry_at(0).name, "Still none");
    assert!(hm.contains_key(&(31, 2)));
    assert!(!hm.contains_key(&(2, 31)));
    assert!(hm.remove(&(2, 31)).is_none());
    assert_eq!(hm.remove(&(31, 2)).expect("removed").kind, HolidayKind::Custom);
    assert!(hm.is_empty());
    assert_eq!(hm, HolidayMap::default());
}

#[test]
fn maps_are_equal_whatever_the_order() {
    let mut a = HolidayMap::new();
    a.insert((1, 1), HolidayEntry::official("One".to_string()));
    a.insert((2, 2), HolidayEntry::official("Two".to_string()));
    let mut b = HolidayMap::new();
    b.insert((2, 2), HolidayEntry::official("Two".to_string()));
    b.insert((1, 1), HolidayEntry::official("One".to_string()));
    assert_eq!(a, b);
    b.insert((1, 1), HolidayEntry::custom("One".to_string()));
    assert_ne!(a, b);
    b.insert((1, 1), HolidayEntry::official("one".to_string()));
    assert_ne!(a, b);
    b.remove(&(1, 1));
    assert_ne!(a, b);
    b.insert((3, 3), HolidayEntry::official("One".to_string()));
    assert_ne!(a, b);
}
