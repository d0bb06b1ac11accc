//! One month of the calendar: its place among the months, its grid of
//! day cells in weeks that start on Monday, and its rendering as a table.

use crate::error::CalError;
use crate::gregorian::{days_in_month, following, next_of, preceding, prev_of, weekday_of_first};
use crate::holidays::{EntryView, HolidayMap};
use crate::model::DateKey;
use crate::text::{
    decimal, lemma_decimal_digits, push_char, push_decimal, push_signed_decimal, signed_decimal,
    texts,
};
use vstd::utf8::is_ascii_chars;
use vstd::prelude::*;
use vstd::string::*;

verus! {

/// The first year that a month can be built for.
pub const MIN_YEAR: i32 = -262143;

/// The last year that a month can be built for.
pub const MAX_YEAR: i32 = 262142;

/// A calendar date, with no time zone.
#[derive(Clone, Copy, Debug, PartialEq, Eq, Structural)]
pub struct Date {
    pub year: i32,
    pub month: u32,
    pub day: u32,
}

/// How a day cell of the grid is shown.
#[derive(Clone, Copy, Debug, PartialEq, Eq, Structural)]
pub enum CellStyle {
    /// The cell of today: black on white.
    Today,
    /// A Saturday or Sunday: green.
    Weekend,
    /// A day that the holiday map holds: red.
    Holiday,
    /// Any other day: no colour.
    Plain,
}

/// The first day of this month and year is a date that `chrono` represents.
pub open spec fn representable(year: int, month: int) -> bool {
    1 <= month <= 12 && MIN_YEAR <= year <= MAX_YEAR
}

/// A month can be built for this month and year: its first day and the
/// first day of the month after it are both representable.
pub open spec fn constructible(year: int, month: int) -> bool {
    representable(year, month) && !(month == 12 && year == MAX_YEAR)
}

/// The English name of a month.
pub open spec fn month_name(month: int) -> Seq<char> {
    if month == 1 {
        "January"@
    } else if month == 2 {
        "February"@
    } else if month == 3 {
        "March"@
    } else if month == 4 {
        "April"@
    } else if month == 5 {
        "May"@
    } else if month == 6 {
        "June"@
    } else if month == 7 {
        "July"@
    } else if month == 8 {
        "August"@
    } else if month == 9 {
        "September"@
    } else if month == 10 {
        "October"@
    } else if month == 11 {
        "November"@
    } else {
        "December"@
    }
}

/// The heading of a month: its name, a space and the year.
pub open spec fn month_title(month: int, year: int) -> Seq<char> {
    month_name(month) + seq![' '] + signed_decimal(year)
}

/// The heading of a month is ASCII.
pub proof fn lemma_title_ascii(month: int, year: int)
    ensures
        is_ascii_chars(month_title(month, year)),
{
    reveal_strlit("January");
    reveal_strlit("February");
    reveal_strlit("March");
    reveal_strlit("April");
    reveal_strlit("May");
    reveal_strlit("June");
    reveal_strlit("July");
    reveal_strlit("August");
    reveal_strlit("September");
    reveal_strlit("October");
    reveal_strlit("November");
    reveal_strlit("December");
    let name = month_name(month);
    assert(is_ascii_chars(name));
    let numeral = signed_decimal(year);
    if year < 0 {
        lemma_decimal_digits((-year) as nat);
        let digits = decimal((-year) as nat);
        assert forall|i: int| 0 <= i < numeral.len() implies '\0' <= #[trigger] numeral[i]
            <= '\u{7f}' by {
            if i > 0 {
                assert(numeral[i] == digits[i - 1]);
            }
        }
    } else {
        lemma_decimal_digits(year as nat);
    }
    assert(is_ascii_chars(numeral));
    let title = month_title(month, year);
    assert forall|i: int| 0 <= i < title.len() implies '\0' <= #[trigger] title[i] <= '\u{7f}' by {
        if i < name.len() {
            assert(title[i] == name[i]);
        } else if i == name.len() {
            assert(title[i] == ' ');
        } else {
            assert(title[i] == numeral[i - name.len() - 1]);
        }
    }
}

/// The detail of the error for a month that cannot be built.
pub open spec fn invalid_month_text(month: nat) -> Seq<char> {
    "invalid month "@ + decimal(month)
}

/// The day before the first day of this month is representable too.
pub open spec fn has_day_before(year: int, month: int) -> bool {
    representable(year, month) && !(year == MIN_YEAR && month == 1)
}

/// The number of days of the month before this one.
pub open spec fn length_of_month_before(year: int, month: int) -> int {
    days_in_month(prev_of(month, year).1, prev_of(month, year).0)
}

/// `chrono::NaiveDate::from_ymd_opt(year, month, 1)`, then `weekday()` and
/// `number_from_monday()`. The date exists exactly for a month from 1 to 12
/// in a year from `MIN_YEAR` to `MAX_YEAR`; the number is that of its
/// weekday in the proleptic Gregorian calendar, from 1 for Monday.
#[verifier::external_body]
fn first_weekday(year: i32, month: u32) -> (number: Option<u32>)
    ensures
        number is Some <==> representable(year as int, month as int),
        number matches Some(n) ==> n == weekday_of_first(year as int, month as int),
{
    let first = chrono::NaiveDate::from_ymd_opt(year, month, 1)?;
    Some(chrono::Datelike::weekday(&first).number_from_monday())
}

/// `chrono::NaiveDate::from_ymd_opt(year, month, 1)`, then `pred_opt()` and
/// `day()`: the day of the month of the day before the first of the month,
/// which is the length of the month before. There is no such day before the
/// first month of `MIN_YEAR`.
#[verifier::external_body]
fn day_before_first(year: i32, month: u32) -> (day: Option<u32>)
    ensures
        day is Some <==> has_day_before(year as int, month as int),
        day matches Some(d) ==> d == length_of_month_before(year as int, month as int),
{
    let before = chrono::NaiveDate::from_ymd_opt(year, month, 1)?.pred_opt()?;
    Some(chrono::Datelike::day(&before))
}

/// `chrono::Month::try_from(month)`, then `name()`: the English name of a
/// month from 1 to 12, and nothing for another number.
#[verifier::external_body]
fn english_name(month: u8) -> (name: Option<String>)
    ensures
        name is Some <==> 1 <= month <= 12,
        name matches Some(text) ==> text@ == month_name(month as int),
{
    let named = chrono::Month::try_from(month).ok()?;
    Some(named.name().to_string())
}

/// The error for a month that cannot be built.
pub fn invalid_month(month: u32) -> (error: CalError)
    ensures
        error@ == crate::error::ErrorView::InvalidDate(invalid_month_text(month as nat)),
{
    let mut detail = String::from_str("invalid month ");
    push_decimal(&mut detail, month as u64);
    CalError::InvalidDate(detail)
}

/// What the layout of a month depends on.
pub struct MonthModel {
    pub year: int,
    pub month: int,
    /// The number of empty cells before the first day.
    pub lead: int,
    /// The number of days.
    pub days: int,
    pub holidays: Map<DateKey, EntryView>,
}

/// The model of a month of a year, shown with `holidays`.
pub open spec fn month_model(
    year: int,
    month: int,
    holidays: Map<DateKey, EntryView>,
) -> MonthModel {
    MonthModel {
        year,
        month,
        lead: weekday_of_first(year, month) - 1,
        days: days_in_month(year, month),
        holidays,
    }
}

/// The escape sequence that switches a style on; none for a plain cell.
pub open spec fn style_code(style: CellStyle) -> Seq<char> {
    match style {
        CellStyle::Today => seq!['\u{1b}', '[', '4', '7', ';', '3', '0', 'm'],
        CellStyle::Weekend => seq!['\u{1b}', '[', '3', '2', 'm'],
        CellStyle::Holiday => seq!['\u{1b}', '[', '3', '1', 'm'],
        CellStyle::Plain => Seq::empty(),
    }
}

/// The escape sequence that switches every style off.
pub open spec fn reset_code() -> Seq<char> {
    seq!['\u{1b}', '[', '0', 'm']
}

/// `out` is `text` as `colored` may render it in `style`: unchanged where
/// colours are off; between the style's code and the reset code where they
/// are on; and followed by the reset code alone where colours were switched
/// off while the text was being rendered.
pub open spec fn painted(out: Seq<char>, text: Seq<char>, style: CellStyle) -> bool {
    ||| out == text
    ||| style != CellStyle::Plain && out == style_code(style) + text + reset_code()
    ||| style != CellStyle::Plain && out == text + reset_code()
}

/// The text holds no escape character.
pub open spec fn escape_free(text: Seq<char>) -> bool {
    forall|i: int| 0 <= i < text.len() ==> #[trigger] text[i] != '\u{1b}'
}

/// The style of the cell at `position` of the grid, counted from 0 along
/// the weeks. Today wins over the weekend, and the weekend over a holiday.
pub open spec fn style_at(model: MonthModel, today: Date, position: int) -> CellStyle {
    let day = position - model.lead + 1;
    if today.year == model.year && today.month == model.month && today.day == day {
        CellStyle::Today
    } else if position % 7 >= 5 {
        CellStyle::Weekend
    } else if model.holidays.dom().contains((day as u32, model.month as u32)) {
        CellStyle::Holiday
    } else {
        CellStyle::Plain
    }
}

/// `text` can stand in the cell at `position`: nothing before the first
/// day, and from there on the day's number in the cell's style.
pub open spec fn cell_fits(model: MonthModel, today: Date, position: int, text: Seq<char>) -> bool {
    if position < model.lead {
        text == Seq::<char>::empty()
    } else {
        painted(text, decimal((position - model.lead + 1) as nat), style_at(model, today, position))
    }
}

/// `grid` is a grid of the month: its cells, in weeks of seven from Monday
/// with a shorter last week where the cells run out, each fitting its place.
pub open spec fn is_grid(model: MonthModel, today: Date, grid: Seq<Seq<Seq<char>>>) -> bool {
    let cells = model.lead + model.days;
    &&& grid.len() == (cells + 6) / 7
    &&& forall|w: int|
        0 <= w < grid.len() ==> (#[trigger] grid[w]).len() == if cells - 7 * w < 7 {
            cells - 7 * w
        } else {
            7
        }
    &&& forall|w: int, c: int|
        0 <= w < grid.len() && 0 <= c < grid[w].len() ==> cell_fits(
            model,
            today,
            7 * w + c,
            #[trigger] grid[w][c],
        )
}

/// The texts of a grid of strings.
pub open spec fn grid_texts(grid: Seq<Vec<String>>) -> Seq<Seq<Seq<char>>> {
    grid.map_values(|row: Vec<String>| texts(row@))
}

/// Every cell of the grid is ASCII.
pub open spec fn ascii_grid(grid: Seq<Seq<Seq<char>>>) -> bool {
    forall|r: int, c: int|
        0 <= r < grid.len() && 0 <= c < grid[r].len() ==> is_ascii_chars(#[trigger] grid[r][c])
}

/// The headings of the seven columns, from Monday.
pub open spec fn weekday_labels() -> Seq<Seq<char>> {
    seq!["Mo"@, "Tu"@, "We"@, "Th"@, "Fr"@, "Sa"@, "Su"@]
}

/// What `prettytable` renders for a table of these rows of cells in the
/// format of a month: columns parted by one space, a space for each
/// border, a line of spaces above and below, and no padding.
pub uninterp spec fn month_table_text(rows: Seq<Seq<Seq<char>>>) -> Seq<char>;

/// `colored`: `text.red()` rendered by `to_string()`. Whether colours are
/// on is for the crate to find out, so the result is one of the renderings
/// that `painted` allows. A text with an escape character in it, which the
/// crate might rewrite, is not asked for.
#[verifier::external_body]
fn paint_red(text: &str) -> (out: String)
    requires
        escape_free(text@),
    ensures
        painted(out@, text@, CellStyle::Holiday),
{
    colored::Colorize::red(text).to_string()
}

/// `colored`: `text.green()` rendered by `to_string()`; one of the
/// renderings that `painted` allows, as for `paint_red`.
#[verifier::external_body]
fn paint_green(text: &str) -> (out: String)
    requires
        escape_free(text@),
    ensures
        painted(out@, text@, CellStyle::Weekend),
{
    colored::Colorize::green(text).to_string()
}

/// `colored`: `text.black().on_white()` rendered by `to_string()`; one of
/// the renderings that `painted` allows, as for `paint_red`.
#[verifier::external_body]
fn paint_black_on_white(text: &str) -> (out: String)
    requires
        escape_free(text@),
    ensures
        painted(out@, text@, CellStyle::Today),
{
    colored::Colorize::on_white(colored::Colorize::black(text)).to_string()
}

/// `prettytable`: a `Table` in the format of a month, with one `Row` of
/// `Cell::new` cells per row of `rows`, rendered by `to_string()`. The
/// result is the one that `month_table_text` names. Cells of ASCII text are
/// asked for, on which the crate's measure of a cell's width does not fail;
/// the rendering of such cells holds their text, spaces and line feeds, so
/// it is ASCII too.
#[verifier::external_body]
fn month_table(rows: &Vec<Vec<String>>) -> (out: String)
    requires
        ascii_grid(grid_texts(rows@)),
    ensures
        out@ == month_table_text(grid_texts(rows@)),
        is_ascii_chars(out@),
{
    let mut table = prettytable::Table::new();
    let edges = [prettytable::format::LinePosition::Top, prettytable::format::LinePosition::Bottom];
    let blank = prettytable::format::LineSeparator::new(' ', ' ', ' ', ' ');
    let format = prettytable::format::FormatBuilder::new().column_separator(' ').borders(' ');
    table.set_format(format.separators(&edges, blank).padding(0, 0).build());
    for row in rows {
        let cells = row.iter().map(|cell| prettytable::Cell::new(cell));
        table.add_row(prettytable::Row::new(cells.collect()));
    }
    table.to_string()
}

/// The text in the given style.
pub fn paint(text: &str, style: CellStyle) -> (out: String)
    requires
        escape_free(text@),
    ensures
        painted(out@, text@, style),
{
    match style {
        CellStyle::Today => paint_black_on_white(text),
        CellStyle::Weekend => paint_green(text),
        CellStyle::Holiday => paint_red(text),
        CellStyle::Plain => String::from_str(text),
    }
}

/// A painted numeral is ASCII.
pub proof fn lemma_painted_ascii(out: Seq<char>, n: nat, style: CellStyle)
    requires
        painted(out, decimal(n), style),
    ensures
        is_ascii_chars(out),
{
    lemma_decimal_digits(n);
    let text = decimal(n);
    assert(is_ascii_chars(text));
    assert(is_ascii_chars(reset_code()));
    assert(is_ascii_chars(style_code(style)));
    assert forall|i: int| 0 <= i < out.len() implies '\0' <= #[trigger] out[i] <= '\u{7f}' by {
        if out == text {
        } else if out == text + reset_code() {
            if i >= text.len() {
                assert(out[i] == reset_code()[i - text.len()]);
            }
        } else {
            let code = style_code(style);
            if i < code.len() {
                assert(out[i] == code[i]);
            } else if i < code.len() + text.len() {
                assert(out[i] == text[i - code.len()]);
            } else {
                assert(out[i] == reset_code()[i - code.len() - text.len()]);
            }
        }
    }
}

/// One month, ready to be laid out, with the holidays of its year.
pub struct DisplayMonth<'a> {
    /// The month's number, from 1.
    pub month: u32,
    /// The heading: the month's English name and the year.
    pub month_name: String,
    pub year: i32,
    /// The weekday of the first day: 1 for Monday up to 7 for Sunday.
    pub first_weekday: u32,
    /// The day of the month of the last day.
    pub last_day: u32,
    /// The holidays that the month is shown with.
    pub hm: &'a HolidayMap,
}

impl<'a> View for DisplayMonth<'a> {
    type V = MonthModel;

    open spec fn view(&self) -> MonthModel {
        MonthModel {
            year: self.year as int,
            month: self.month as int,
            lead: self.first_weekday - 1,
            days: self.last_day as int,
            holidays: self.hm@,
        }
    }
}

impl<'a> Clone for DisplayMonth<'a> {
    fn clone(&self) -> (copy: Self)
        ensures
            copy@ == self@,
            copy.month_name@ == self.month_name@,
            copy.wf() == self.wf(),
    {
        DisplayMonth {
            month: self.month,
            month_name: self.month_name.clone(),
            year: self.year,
            first_weekday: self.first_weekday,
            last_day: self.last_day,
            hm: self.hm,
        }
    }
}

impl<'a> DisplayMonth<'a> {
    /// The month is one that `new` builds: a month from 1 to 12 of a year in
    /// range, with the weekday of its first day, its length and its heading.
    pub open spec fn wf(&self) -> bool {
        &&& constructible(self.year as int, self.month as int)
        &&& self.first_weekday == weekday_of_first(self.year as int, self.month as int)
        &&& self.last_day == days_in_month(self.year as int, self.month as int)
        &&& self.month_name@ == month_title(self.month as int, self.year as int)
    }

    /// The month `month` of `year`, shown with the holidays `hm`.
    ///
    /// Fails with `InvalidDate` where the month is not from 1 to 12, or its
    /// first day or the first day of the month after it is out of range.
    pub fn new(month: u32, year: i32, hm: &'a HolidayMap) -> (built: Result<Self, CalError>)
        ensures
            built is Ok <==> constructible(year as int, month as int),
            built matches Ok(dm) ==> dm.wf() && dm.month == month && dm.year == year
                && dm.hm@ == hm@,
            built matches Err(e) ==> e@ == crate::error::ErrorView::InvalidDate(
                invalid_month_text(month as nat),
            ),
    {
        let first_weekday = match first_weekday(year, month) {
            Some(number) => number,
            None => {
                return Err(invalid_month(month));
            },
        };
        let (next_month, next_year) = following(month, year);
        let last_day = match day_before_first(next_year, next_month) {
            Some(day) => day,
            None => {
                return Err(invalid_month(month));
            },
        };
        let mut month_name = match english_name(month as u8) {
            Some(name) => name,
            None => {
                return Err(invalid_month(month));
            },
        };
        push_char(&mut month_name, ' ');
        push_signed_decimal(&mut month_name, year);
        proof {
            assert(month_name@ =~= month_title(month as int, year as int));
        }
        Ok(DisplayMonth { month, month_name, year, first_weekday, last_day, hm })
    }

    /// The month after this one, with the same holidays.
    pub fn next(&self) -> (built: Result<Self, CalError>)
        requires
            self.wf(),
        ensures
            built is Ok <==> constructible(
                next_of(self.month as int, self.year as int).1,
                next_of(self.month as int, self.year as int).0,
            ),
            built matches Ok(dm) ==> dm.wf() && (dm.month as int, dm.year as int) == next_of(
                self.month as int,
                self.year as int,
            ) && dm.hm@ == self.hm@,
            built matches Err(e) ==> e@ == crate::error::ErrorView::InvalidDate(
                invalid_month_text(next_of(self.month as int, self.year as int).0 as nat),
            ),
    {
        let (month, year) = following(self.month, self.year);
        Self::new(month, year, self.hm)
    }

    /// The month before this one, with the same holidays.
    pub fn prev(&self) -> (built: Result<Self, CalError>)
        requires
            self.wf(),
        ensures
            built is Ok <==> constructible(
                prev_of(self.month as int, self.year as int).1,
                prev_of(self.month as int, self.year as int).0,
            ),
            built matches Ok(dm) ==> dm.wf() && (dm.month as int, dm.year as int) == prev_of(
                self.month as int,
                self.year as int,
            ) && dm.hm@ == self.hm@,
            built matches Err(e) ==> e@ == crate::error::ErrorView::InvalidDate(
                invalid_month_text(prev_of(self.month as int, self.year as int).0 as nat),
            ),
    {
        let (month, year) = preceding(self.month, self.year);
        Self::new(month, year, self.hm)
    }

    /// The style of the cell at `position` of the grid.
    pub fn style_for(&self, today: Date, position: u32) -> (style: CellStyle)
        requires
            self.wf(),
            self.first_weekday - 1 <= position < self.first_weekday - 1 + self.last_day,
        ensures
            style == style_at(self@, today, position as int),
    {
        let day = position - (self.first_weekday - 1) + 1;
        if today.year == self.year && today.month == self.month && today.day == day {
            CellStyle::Today
        } else if position % 7 >= 5 {
            CellStyle::Weekend
        } else if self.hm.contains_key(&(day, self.month)) {
            CellStyle::Holiday
        } else {
            CellStyle::Plain
        }
    }

    /// The text of the cell at `position` of the grid.
    pub fn cell_at(&self, today: Date, position: u32) -> (cell: String)
        requires
            self.wf(),
            position < self.first_weekday - 1 + self.last_day,
        ensures
            cell_fits(self@, today, position as int, cell@),
            is_ascii_chars(cell@),
    {
        let lead = self.first_weekday - 1;
        if position < lead {
            return String::new();
        }
        let day = position - lead + 1;
        let mut numeral = String::new();
        push_decimal(&mut numeral, day as u64);
        proof {
            lemma_decimal_digits(day as nat);
            assert(numeral@ =~= decimal(day as nat));
        }
        let style = self.style_for(today, position);
        let cell = paint(numeral.as_str(), style);
        proof {
            lemma_painted_ascii(cell@, day as nat, style);
        }
        cell
    }

    /// The grid of the month: one row per week from Monday to Sunday, empty
    /// cells before the first day, and each day's number in the style of
    /// its cell.
    pub fn get_matrix(&self, today: Date) -> (grid: Vec<Vec<String>>)
        requires
            self.wf(),
        ensures
            is_grid(self@, today, grid_texts(grid@)),
            ascii_grid(grid_texts(grid@)),
    {
        let lead = self.first_weekday - 1;
        let cells = lead + self.last_day;
        let mut grid: Vec<Vec<String>> = Vec::new();
        let mut row: Vec<String> = Vec::new();
        let mut position: u32 = 0;
        while position < cells
            invariant
                self.wf(),
                lead == self.first_weekday - 1,
                cells == lead + self.last_day,
                position <= cells,
                grid@.len() == position / 7,
                row@.len() == position % 7,
                forall|w: int| 0 <= w < grid@.len() ==> (#[trigger] grid@[w])@.len() == 7,
                forall|w: int, c: int|
                    0 <= w < grid@.len() && 0 <= c < 7 ==> cell_fits(
                        self@,
                        today,
                        7 * w + c,
                        #[trigger] grid@[w]@[c]@,
                    ) && is_ascii_chars(grid@[w]@[c]@),
                forall|c: int|
                    0 <= c < row@.len() ==> cell_fits(
                        self@,
                        today,
                        7 * grid@.len() + c,
                        #[trigger] row@[c]@,
                    ) && is_ascii_chars(row@[c]@),
            decreases cells - position,
        {
            let cell = self.cell_at(today, position);
            row.push(cell);
            position += 1;
            if row.len() == 7 {
                grid.push(row);
                row = Vec::new();
            }
        }
        if row.len() > 0 {
            grid.push(row);
        }
        proof {
            let texts_grid = grid_texts(grid@);
            assert forall|w: int| 0 <= w < texts_grid.len() implies (#[trigger] texts_grid[w]).len()
                == if cells - 7 * w < 7 {
                cells - 7 * w
            } else {
                7
            } by {
                assert(texts_grid[w] == texts(grid@[w]@));
            }
            assert forall|w: int, c: int|
                0 <= w < texts_grid.len() && 0 <= c < texts_grid[w].len() implies cell_fits(
                self@,
                today,
                7 * w + c,
                #[trigger] texts_grid[w][c],
            ) && is_ascii_chars(texts_grid[w][c]) by {
                assert(texts_grid[w] == texts(grid@[w]@));
                assert(texts_grid[w][c] == grid@[w]@[c]@);
            }
        }
        grid
    }

    /// The month as a table: the headings of the weekdays, then the grid.
    pub fn format(&self, today: Date) -> (out: String)
        requires
            self.wf(),
        ensures
            is_month_text(self@, today, out@),
            is_ascii_chars(out@),
    {
        let mut rows: Vec<Vec<String>> = Vec::new();
        rows.push(weekday_row());
        let mut grid = self.get_matrix(today);
        let ghost cells = grid_texts(grid@);
        rows.append(&mut grid);
        proof {
            reveal_strlit("Mo");
            reveal_strlit("Tu");
            reveal_strlit("We");
            reveal_strlit("Th");
            reveal_strlit("Fr");
            reveal_strlit("Sa");
            reveal_strlit("Su");
            let all = grid_texts(rows@);
            assert(all =~= seq![weekday_labels()] + cells);
            assert forall|r: int, c: int|
                0 <= r < all.len() && 0 <= c < all[r].len() implies is_ascii_chars(
                #[trigger] all[r][c],
            ) by {
                if r > 0 {
                    assert(all[r] == cells[r - 1]);
                }
            }
        }
        month_table(&rows)
    }
}

/// The row of the weekdays' headings.
pub fn weekday_row() -> (row: Vec<String>)
    ensures
        texts(row@) == weekday_labels(),
{
    let mut row: Vec<String> = Vec::new();
    row.push(String::from_str("Mo"));
    row.push(String::from_str("Tu"));
    row.push(String::from_str("We"));
    row.push(String::from_str("Th"));
    row.push(String::from_str("Fr"));
    row.push(String::from_str("Sa"));
    row.push(String::from_str("Su"));
    proof {
        assert(texts(row@) =~= weekday_labels());
    }
    row
}

/// `text` is a rendering of the month as a table: the weekdays' headings
/// above one of the month's grids.
pub open spec fn is_month_text(model: MonthModel, today: Date, text: Seq<char>) -> bool {
    exists|grid: Seq<Seq<Seq<char>>>| #[trigger]
        is_grid(model, today, grid) && text == month_table_text(seq![weekday_labels()] + grid)
}

} // verus!
