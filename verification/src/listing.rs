//! The holiday listing: one row per holiday in ascending order of date, as
//! plain lines, as pretty-printed JSON or as a Markdown table of fixed width.

use crate::error::CalError;
use crate::holidays::{keyed, EntryView, Holiday, HolidayKind, HolidayMap};
use crate::model::{date_ordered, in_date_order, lemma_in_date_order, map_of, DateKey, KeyedEntry};
use crate::text::{
    byte_len, join, joined, padded, push_char, push_padded, push_signed_decimal, push_two_digits,
    signed_decimal, texts, two_digits, utf8_len,
};
use vstd::prelude::*;
use vstd::string::*;

verus! {

/// How the listing is rendered.
#[derive(Clone, Copy, Debug, PartialEq, Eq, Structural)]
pub enum OutputFormat {
    /// One line per holiday.
    Table,
    /// A JSON array of objects.
    Json,
    /// A Markdown table whose columns are padded to a common width.
    Markdown,
}

/// One row of the listing: the date, the name and the kind, as text.
#[derive(Debug)]
pub struct ListRow {
    pub date: String,
    pub name: String,
    pub kind: String,
}

/// The view of a row: date, name and kind.
pub type RowView = (Seq<char>, Seq<char>, Seq<char>);

impl View for ListRow {
    type V = RowView;

    open spec fn view(&self) -> RowView {
        (self.date@, self.name@, self.kind@)
    }
}

/// The views of a vector of rows.
pub open spec fn row_views(rows: Seq<ListRow>) -> Seq<RowView> {
    rows.map_values(|row: ListRow| row@)
}

/// A date as `YYYY-MM-DD`: the year as it is, month and day in two digits.
pub open spec fn date_text(year: int, key: DateKey) -> Seq<char> {
    signed_decimal(year) + seq!['-'] + two_digits(key.1 as nat) + seq!['-'] + two_digits(
        key.0 as nat,
    )
}

/// The label of a kind.
pub open spec fn kind_label(kind: HolidayKind) -> Seq<char> {
    match kind {
        HolidayKind::Official => "official"@,
        HolidayKind::Custom => "custom"@,
    }
}

/// The row of one holiday.
pub open spec fn row_of(year: int, holiday: KeyedEntry) -> RowView {
    (date_text(year, holiday.0), holiday.1.name, kind_label(holiday.1.kind))
}

/// The rows of a map: its holidays in ascending order of month, then day.
pub open spec fn rows_of(year: int, holidays: Map<DateKey, EntryView>) -> Seq<RowView> {
    in_date_order(holidays).map_values(|holiday: KeyedEntry| row_of(year, holiday))
}

/// A plain line: the date, two spaces, the name, and the kind in square brackets.
pub open spec fn plain_line(row: RowView) -> Seq<char> {
    row.0 + "  "@ + row.1 + " ["@ + row.2 + "]"@
}

/// The plain listing: one line per row, joined by line feeds.
pub open spec fn plain_text(rows: Seq<RowView>) -> Seq<char> {
    joined(rows.map_values(|row: RowView| plain_line(row)), seq!['\n'])
}

/// The width of a column: the largest number of UTF-8 bytes that a cell of
/// it takes, and at least `floor`.
pub open spec fn column_width(cells: Seq<Seq<char>>, floor: nat) -> nat
    decreases cells.len(),
{
    if cells.len() == 0 {
        floor
    } else {
        let rest = column_width(cells.drop_last(), floor);
        if utf8_len(cells.last()) > rest {
            utf8_len(cells.last())
        } else {
            rest
        }
    }
}

/// The widths of the date, name and kind columns: none narrower than its
/// four-letter heading.
pub open spec fn column_widths(rows: Seq<RowView>) -> (nat, nat, nat) {
    (
        column_width(rows.map_values(|row: RowView| row.0), 4),
        column_width(rows.map_values(|row: RowView| row.1), 4),
        column_width(rows.map_values(|row: RowView| row.2), 4),
    )
}

/// A Markdown row: each cell padded with `fill` to its column's width,
/// between bars.
pub open spec fn markdown_line(row: RowView, widths: (nat, nat, nat), fill: char) -> Seq<char> {
    "| "@ + padded(row.0, widths.0, fill) + " | "@ + padded(row.1, widths.1, fill) + " | "@
        + padded(row.2, widths.2, fill) + " |"@
}

/// The Markdown listing: the headings, a row of dashes, then one row per
/// holiday, joined by line feeds.
pub open spec fn markdown_text(rows: Seq<RowView>) -> Seq<char> {
    let widths = column_widths(rows);
    let head = seq![
        markdown_line(("Date"@, "Name"@, "Kind"@), widths, ' '),
        markdown_line((Seq::empty(), Seq::empty(), Seq::empty()), widths, '-'),
    ];
    joined(head + rows.map_values(|row: RowView| markdown_line(row, widths, ' ')), seq!['\n'])
}

/// The members of the JSON object of one row, in the order in which they are written.
pub open spec fn json_members(row: RowView) -> Seq<(Seq<char>, Seq<char>)> {
    seq![("date"@, row.0), ("name"@, row.1), ("kind"@, row.2)]
}

/// What `serde_json::to_string_pretty` returns for an array of objects whose
/// members are strings: the text, or `None` where it reports an error. Each
/// object is given as its members, name and value, in order.
pub uninterp spec fn pretty_json(objects: Seq<Seq<(Seq<char>, Seq<char>)>>) -> Option<Seq<char>>;

/// The views of a vector of objects given by their members.
pub open spec fn object_views(objects: Seq<Vec<(String, String)>>) -> Seq<
    Seq<(Seq<char>, Seq<char>)>,
> {
    objects.map_values(
        |members: Vec<(String, String)>|
            members@.map_values(|member: (String, String)| (member.0@, member.1@)),
    )
}

/// The listing of a year's holidays in the given format, or `None` where
/// the JSON serializer reports an error. An empty map gives one line that
/// says so, whatever the format.
pub open spec fn list_text(
    year: int,
    holidays: Map<DateKey, EntryView>,
    format: OutputFormat,
) -> Option<Seq<char>> {
    let rows = rows_of(year, holidays);
    if holidays == Map::<DateKey, EntryView>::empty() {
        Some("No holidays found"@)
    } else {
        match format {
            OutputFormat::Table => Some(plain_text(rows)),
            OutputFormat::Json => pretty_json(rows.map_values(|row: RowView| json_members(row))),
            OutputFormat::Markdown => Some(markdown_text(rows)),
        }
    }
}

#[verifier::external_type_specification]
#[verifier::external_body]
pub struct ExJsonError(serde_json::Error);

/// `serde_json::to_string_pretty` on a `serde_json::Value`: an array with
/// one object per element of `objects`, each holding its members as strings.
/// The result is the one that `pretty_json` names.
#[verifier::external_body]
fn to_pretty_json(objects: &Vec<Vec<(String, String)>>) -> (out: Result<String, serde_json::Error>)
    ensures
        match out {
            Ok(text) => pretty_json(object_views(objects@)) == Some(text@),
            Err(_) => pretty_json(object_views(objects@)) is None,
        },
{
    let array: Vec<serde_json::Value> = objects
        .iter()
        .map(|members| {
            let text = |v: &String| serde_json::Value::String(v.clone());
            serde_json::Value::Object(members.iter().map(|(k, v)| (k.clone(), text(v))).collect())
        })
        .collect();
    serde_json::to_string_pretty(&serde_json::Value::Array(array))
}

/// The text of a serializer's error.
#[verifier::external_body]
fn json_error_text(error: &serde_json::Error) -> (text: String) {
    error.to_string()
}

/// The label of a kind, as a string.
pub fn label_of(kind: HolidayKind) -> (label: String)
    ensures
        label@ == kind_label(kind),
{
    match kind {
        HolidayKind::Official => String::from_str("official"),
        HolidayKind::Custom => String::from_str("custom"),
    }
}

/// A date as `YYYY-MM-DD`.
pub fn format_date(year: i32, day: u32, month: u32) -> (out: String)
    ensures
        out@ == date_text(year as int, (day, month)),
{
    let mut out = String::new();
    push_signed_decimal(&mut out, year);
    push_char(&mut out, '-');
    push_two_digits(&mut out, month);
    push_char(&mut out, '-');
    push_two_digits(&mut out, day);
    proof {
        assert(out@ =~= date_text(year as int, (day, month)));
    }
    out
}

/// The rows of the holidays, in their order.
pub fn rows_for(year: i32, holidays: &Vec<Holiday>) -> (rows: Vec<ListRow>)
    ensures
        row_views(rows@) == keyed(holidays@).map_values(
            |holiday: KeyedEntry| row_of(year as int, holiday),
        ),
{
    let mut rows: Vec<ListRow> = Vec::new();
    let mut i: usize = 0;
    while i < holidays.len()
        invariant
            i <= holidays.len(),
            rows@.len() == i,
            forall|j: int|
                0 <= j < i ==> (#[trigger] rows@[j])@ == row_of(year as int, holidays@[j]@),
        decreases holidays.len() - i,
    {
        let holiday = &holidays[i];
        rows.push(
            ListRow {
                date: format_date(year, holiday.day, holiday.month),
                name: holiday.entry.name.clone(),
                kind: label_of(holiday.entry.kind),
            },
        );
        i += 1;
    }
    proof {
        assert(row_views(rows@) =~= keyed(holidays@).map_values(
            |holiday: KeyedEntry| row_of(year as int, holiday),
        ));
    }
    rows
}

/// The plain line of one row.
pub fn plain_line_of(row: &ListRow) -> (line: String)
    ensures
        line@ == plain_line(row@),
{
    let mut line = row.date.clone();
    line.append("  ");
    line.append(row.name.as_str());
    line.append(" [");
    line.append(row.kind.as_str());
    line.append("]");
    line
}

/// The plain listing of the rows.
pub fn render_plain(rows: &Vec<ListRow>) -> (out: String)
    ensures
        out@ == plain_text(row_views(rows@)),
{
    let mut lines: Vec<String> = Vec::new();
    let mut i: usize = 0;
    while i < rows.len()
        invariant
            i <= rows.len(),
            lines@.len() == i,
            forall|j: int| 0 <= j < i ==> (#[trigger] lines@[j])@ == plain_line(rows@[j]@),
        decreases rows.len() - i,
    {
        lines.push(plain_line_of(&rows[i]));
        i += 1;
    }
    proof {
        reveal_strlit("\n");
        assert("\n"@ =~= seq!['\n']);
        assert(texts(lines@) =~= row_views(rows@).map_values(|row: RowView| plain_line(row)));
    }
    join(&lines, "\n")
}

/// The larger of two widths.
fn wider(a: usize, b: usize) -> (w: usize)
    ensures
        w == if b > a {
            b
        } else {
            a
        },
{
    if b > a {
        b
    } else {
        a
    }
}

/// The widths of the three columns.
pub fn widths_of(rows: &Vec<ListRow>) -> (widths: (usize, usize, usize))
    ensures
        (widths.0 as nat, widths.1 as nat, widths.2 as nat) == column_widths(row_views(rows@)),
{
    let mut date: usize = 4;
    let mut name: usize = 4;
    let mut kind: usize = 4;
    let mut i: usize = 0;
    let ghost views = row_views(rows@);
    let ghost dates = views.map_values(|row: RowView| row.0);
    let ghost names = views.map_values(|row: RowView| row.1);
    let ghost kinds = views.map_values(|row: RowView| row.2);
    while i < rows.len()
        invariant
            i <= rows.len(),
            views == row_views(rows@),
            dates == views.map_values(|row: RowView| row.0),
            names == views.map_values(|row: RowView| row.1),
            kinds == views.map_values(|row: RowView| row.2),
            date == column_width(dates.take(i as int), 4),
            name == column_width(names.take(i as int), 4),
            kind == column_width(kinds.take(i as int), 4),
        decreases rows.len() - i,
    {
        let row = &rows[i];
        proof {
            assert(dates.take(i + 1).drop_last() =~= dates.take(i as int));
            assert(names.take(i + 1).drop_last() =~= names.take(i as int));
            assert(kinds.take(i + 1).drop_last() =~= kinds.take(i as int));
            assert(dates.take(i + 1).last() == row.date@);
            assert(names.take(i + 1).last() == row.name@);
            assert(kinds.take(i + 1).last() == row.kind@);
        }
        date = wider(date, byte_len(row.date.as_str()));
        name = wider(name, byte_len(row.name.as_str()));
        kind = wider(kind, byte_len(row.kind.as_str()));
        i += 1;
    }
    proof {
        assert(dates.take(i as int) =~= dates);
        assert(names.take(i as int) =~= names);
        assert(kinds.take(i as int) =~= kinds);
    }
    (date, name, kind)
}

/// One Markdown row from three cells.
pub fn markdown_line_of(
    date: &str,
    name: &str,
    kind: &str,
    widths: (usize, usize, usize),
    fill: char,
) -> (line: String)
    ensures
        line@ == markdown_line(
            (date@, name@, kind@),
            (widths.0 as nat, widths.1 as nat, widths.2 as nat),
            fill,
        ),
{
    let mut line = String::from_str("| ");
    push_padded(&mut line, date, widths.0, fill);
    line.append(" | ");
    push_padded(&mut line, name, widths.1, fill);
    line.append(" | ");
    push_padded(&mut line, kind, widths.2, fill);
    line.append(" |");
    line
}

/// The Markdown listing of the rows.
pub fn render_markdown(rows: &Vec<ListRow>) -> (out: String)
    ensures
        out@ == markdown_text(row_views(rows@)),
{
    let widths = widths_of(rows);
    let ghost spec_widths = (widths.0 as nat, widths.1 as nat, widths.2 as nat);
    let mut lines: Vec<String> = Vec::new();
    lines.push(markdown_line_of("Date", "Name", "Kind", widths, ' '));
    lines.push(markdown_line_of("", "", "", widths, '-'));
    proof {
        reveal_strlit("");
        assert(""@ =~= Seq::<char>::empty());
    }
    let mut i: usize = 0;
    while i < rows.len()
        invariant
            i <= rows.len(),
            lines@.len() == i + 2,
            spec_widths == (widths.0 as nat, widths.1 as nat, widths.2 as nat),
            lines@[0]@ == markdown_line(("Date"@, "Name"@, "Kind"@), spec_widths, ' '),
            lines@[1]@ == markdown_line(
                (Seq::empty(), Seq::empty(), Seq::empty()),
                spec_widths,
                '-',
            ),
            forall|j: int|
                0 <= j < i ==> (#[trigger] lines@[j + 2])@ == markdown_line(
                    rows@[j]@,
                    spec_widths,
                    ' ',
                ),
        decreases rows.len() - i,
    {
        let row = &rows[i];
        lines.push(
            markdown_line_of(row.date.as_str(), row.name.as_str(), row.kind.as_str(), widths, ' '),
        );
        i += 1;
    }
    proof {
        reveal_strlit("\n");
        assert("\n"@ =~= seq!['\n']);
        let views = row_views(rows@);
        let head = seq![
            markdown_line(("Date"@, "Name"@, "Kind"@), spec_widths, ' '),
            markdown_line((Seq::empty(), Seq::empty(), Seq::empty()), spec_widths, '-'),
        ];
        let all = head + views.map_values(|row: RowView| markdown_line(row, spec_widths, ' '));
        assert(texts(lines@).len() == all.len());
        assert forall|j: int| 0 <= j < all.len() implies texts(lines@)[j] == all[j] by {
            if j >= 2 {
                assert(lines@[(j - 2) + 2]@ == markdown_line(rows@[j - 2]@, spec_widths, ' '));
            }
        }
        assert(texts(lines@) =~= all);
    }
    join(&lines, "\n")
}

/// The JSON listing of the rows, where the serializer gives one.
pub fn render_json(rows: &Vec<ListRow>) -> (out: Result<String, CalError>)
    ensures
        match out {
            Ok(text) => pretty_json(row_views(rows@).map_values(|row: RowView| json_members(row)))
                == Some(text@),
            Err(e) => e is Json && pretty_json(
                row_views(rows@).map_values(|row: RowView| json_members(row)),
            ) is None,
        },
{
    let mut objects: Vec<Vec<(String, String)>> = Vec::new();
    let mut i: usize = 0;
    while i < rows.len()
        invariant
            i <= rows.len(),
            objects@.len() == i,
            forall|j: int|
                0 <= j < i ==> (#[trigger] objects@[j])@.map_values(
                    |member: (String, String)| (member.0@, member.1@),
                ) == json_members(rows@[j]@),
        decreases rows.len() - i,
    {
        let row = &rows[i];
        let mut members: Vec<(String, String)> = Vec::new();
        members.push((String::from_str("date"), row.date.clone()));
        members.push((String::from_str("name"), row.name.clone()));
        members.push((String::from_str("kind"), row.kind.clone()));
        proof {
            assert(members@.map_values(|member: (String, String)| (member.0@, member.1@))
                =~= json_members(row@));
        }
        objects.push(members);
        i += 1;
    }
    proof {
        assert(object_views(objects@) =~= row_views(rows@).map_values(
            |row: RowView| json_members(row),
        ));
    }
    match to_pretty_json(&objects) {
        Ok(text) => Ok(text),
        Err(error) => Err(CalError::Json(json_error_text(&error))),
    }
}

/// The listing of a year's holidays in the given format.
pub fn render_list(year: i32, holidays: &HolidayMap, format: OutputFormat) -> (out: Result<
    String,
    CalError,
>)
    ensures
        match out {
            Ok(text) => list_text(year as int, holidays@, format) == Some(text@),
            Err(e) => e is Json && list_text(year as int, holidays@, format) is None,
        },
        date_ordered(in_date_order(holidays@)),
        map_of(in_date_order(holidays@)) == holidays@,
{
    if holidays.is_empty() {
        proof {
            let none = Seq::<KeyedEntry>::empty();
            assert(map_of(none) =~= holidays@);
            lemma_in_date_order(none);
        }
        return Ok(String::from_str("No holidays found"));
    }
    let sorted = holidays.sorted_by_date();
    let rows = rows_for(year, &sorted);
    match format {
        OutputFormat::Table => Ok(render_plain(&rows)),
        OutputFormat::Json => render_json(&rows),
        OutputFormat::Markdown => Ok(render_markdown(&rows)),
    }
}

} // verus!
