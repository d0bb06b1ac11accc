//! The calendar of one, three or twelve months: which months a mode shows,
//! and their rendering side by side in rows of three.

use crate::cli::Mode;
use crate::display_month::{
    constructible, invalid_month_text, is_month_text, lemma_title_ascii, month_model, month_title,
    Date, DisplayMonth, MAX_YEAR, MIN_YEAR,
};
use crate::error::{CalError, ErrorView};
use crate::gregorian::{next_of, prev_of};
use crate::holidays::{EntryView, HolidayMap};
use crate::model::DateKey;
use crate::text::texts;
use vstd::prelude::*;
use vstd::string::*;
use vstd::utf8::is_ascii_chars;

verus! {

/// The months that a mode shows around `(month, year)`, each as `(month, year)`.
pub open spec fn months_of(mode: Mode, month: int, year: int) -> Seq<(int, int)> {
    match mode {
        Mode::Q => seq![prev_of(month, year), (month, year), next_of(month, year)],
        Mode::Month => seq![(month, year)],
        Mode::Year => Seq::new(12, |i: int| (i + 1, year)),
    }
}

/// The number of the first month that cannot be built, in the order in
/// which a mode builds its months: for the quarter the current month, then
/// the month before, then the month after; for the year January to December.
pub open spec fn first_failure(mode: Mode, month: int, year: int) -> Option<int> {
    match mode {
        Mode::Q => if !constructible(year, month) {
            Some(month)
        } else if !constructible(prev_of(month, year).1, prev_of(month, year).0) {
            Some(prev_of(month, year).0)
        } else if !constructible(next_of(month, year).1, next_of(month, year).0) {
            Some(next_of(month, year).0)
        } else {
            None
        },
        Mode::Month => if !constructible(year, month) {
            Some(month)
        } else {
            None
        },
        Mode::Year => if !(MIN_YEAR <= year <= MAX_YEAR) {
            Some(1)
        } else if year == MAX_YEAR {
            Some(12)
        } else {
            None
        },
    }
}

/// One row of months: their headings, and their tables below them.
pub type Band = (Seq<Seq<char>>, Seq<Seq<char>>);

/// The headings and the tables in rows of at most three months.
pub open spec fn bands_of(titles: Seq<Seq<char>>, bodies: Seq<Seq<char>>) -> Seq<Band> {
    Seq::new(
        ((titles.len() + 2) / 3) as nat,
        |k: int|
            (
                titles.subrange(3 * k, end_of_band(titles.len() as int, k)),
                bodies.subrange(3 * k, end_of_band(titles.len() as int, k)),
            ),
    )
}

/// Where the row `k` of months ends among `count` months.
pub open spec fn end_of_band(count: int, k: int) -> int {
    if 3 * k + 3 < count {
        3 * k + 3
    } else {
        count
    }
}

/// What `prettytable` renders for these rows of months in its default
/// format without padding: for each row of months a row of the headings,
/// each centred in its column, and a row of the tables below.
pub uninterp spec fn calendar_table_text(bands: Seq<Band>) -> Seq<char>;

/// The texts of rows of months held as strings.
pub open spec fn band_texts(bands: Seq<(Vec<String>, Vec<String>)>) -> Seq<Band> {
    bands.map_values(|band: (Vec<String>, Vec<String>)| (texts(band.0@), texts(band.1@)))
}

/// Every heading and every table of the rows is ASCII.
pub open spec fn ascii_bands(bands: Seq<Band>) -> bool {
    forall|k: int, i: int|
        #![trigger bands[k].0[i]]
        #![trigger bands[k].1[i]]
        0 <= k < bands.len() ==> (0 <= i < bands[k].0.len() ==> is_ascii_chars(bands[k].0[i])) && (0
            <= i < bands[k].1.len() ==> is_ascii_chars(bands[k].1[i]))
}

/// The headings of the months.
pub open spec fn titles_of(months: Seq<(int, int)>) -> Seq<Seq<char>> {
    months.map_values(|m: (int, int)| month_title(m.0, m.1))
}

/// `text` is a rendering of these months with these holidays: the table of
/// their headings and of one rendering of each month.
pub open spec fn is_calendar_text(
    months: Seq<(int, int)>,
    holidays: Map<DateKey, EntryView>,
    today: Date,
    text: Seq<char>,
) -> bool {
    exists|bodies: Seq<Seq<char>>| #[trigger]
        are_month_texts(months, holidays, today, bodies) && text == calendar_table_text(
            bands_of(titles_of(months), bodies),
        )
}

/// `bodies` holds one rendering of each month, in order.
pub open spec fn are_month_texts(
    months: Seq<(int, int)>,
    holidays: Map<DateKey, EntryView>,
    today: Date,
    bodies: Seq<Seq<char>>,
) -> bool {
    &&& bodies.len() == months.len()
    &&& forall|i: int|
        0 <= i < months.len() ==> is_month_text(
            month_model(months[i].1, months[i].0, holidays),
            today,
            #[trigger] bodies[i],
        )
}

/// `prettytable`: a `Table` in the default format with no padding, with two
/// `Row`s per row of months: the headings as `Cell::new_align` cells that
/// are centred, and the tables as `Cell::new` cells; rendered by
/// `to_string()`. The result is the one that `calendar_table_text` names.
/// Cells of ASCII text are asked for, on which the crate's measure of a
/// cell's width does not fail.
#[verifier::external_body]
fn calendar_table(bands: &Vec<(Vec<String>, Vec<String>)>) -> (out: String)
    requires
        ascii_bands(band_texts(bands@)),
    ensures
        out@ == calendar_table_text(band_texts(bands@)),
{
    let mut table = prettytable::Table::new();
    table.set_format(prettytable::format::FormatBuilder::new().padding(0, 0).build());
    let centre = prettytable::format::Alignment::CENTER;
    for (titles, bodies) in bands {
        let heads = titles.iter().map(|title| prettytable::Cell::new_align(title, centre));
        table.add_row(prettytable::Row::new(heads.collect()));
        let tables = bodies.iter().map(|body| prettytable::Cell::new(body));
        table.add_row(prettytable::Row::new(tables.collect()));
    }
    table.to_string()
}

/// The months that a mode shows around today, built in the mode's order.
pub fn months_for<'a>(mode: Mode, today: Date, hm: &'a HolidayMap) -> (built: Result<
    Vec<DisplayMonth<'a>>,
    CalError,
>)
    ensures
        built is Ok <==> first_failure(mode, today.month as int, today.year as int) is None,
        built matches Ok(months) ==> shows(
            months@,
            months_of(mode, today.month as int, today.year as int),
            hm@,
        ),
        built matches Err(e) ==> e@ == ErrorView::InvalidDate(
            invalid_month_text(
                first_failure(mode, today.month as int, today.year as int).unwrap() as nat,
            ),
        ),
{
    let mut months: Vec<DisplayMonth<'a>> = Vec::new();
    match mode {
        Mode::Q => {
            let current = match DisplayMonth::new(today.month, today.year, hm) {
                Ok(m) => m,
                Err(e) => {
                    return Err(e);
                },
            };
            let before = match current.prev() {
                Ok(m) => m,
                Err(e) => {
                    return Err(e);
                },
            };
            let after = match current.next() {
                Ok(m) => m,
                Err(e) => {
                    return Err(e);
                },
            };
            months.push(before);
            months.push(current);
            months.push(after);
        },
        Mode::Month => {
            match DisplayMonth::new(today.month, today.year, hm) {
                Ok(m) => {
                    months.push(m);
                },
                Err(e) => {
                    return Err(e);
                },
            }
        },
        Mode::Year => {
            let mut month: u32 = 1;
            while month <= 12
                invariant
                    mode == Mode::Year,
                    1 <= month <= 13,
                    months@.len() == month - 1,
                    forall|k: int| 1 <= k < month ==> constructible(today.year as int, k),
                    forall|i: int|
                        0 <= i < months@.len() ==> (#[trigger] months@[i]).wf() && months@[i].month
                            == i + 1 && months@[i].year == today.year && months@[i].hm@ == hm@,
                decreases 13 - month,
            {
                match DisplayMonth::new(month, today.year, hm) {
                    Ok(m) => {
                        months.push(m);
                    },
                    Err(e) => {
                        proof {
                            if month > 1 {
                                assert(constructible(today.year as int, 1));
                            }
                            if month < 12 {
                                assert(!constructible(today.year as int, 12));
                            }
                        }
                        return Err(e);
                    },
                }
                month += 1;
            }
            proof {
                assert(constructible(today.year as int, 1));
                assert(constructible(today.year as int, 12));
            }
        },
    }
    Ok(months)
}

/// The built months are the months `wanted`, in order, each well formed
/// and shown with `holidays`.
pub open spec fn shows(
    months: Seq<DisplayMonth>,
    wanted: Seq<(int, int)>,
    holidays: Map<DateKey, EntryView>,
) -> bool {
    &&& months.len() == wanted.len()
    &&& forall|i: int|
        0 <= i < months.len() ==> (#[trigger] months[i]).wf() && (
            months[i].month as int,
            months[i].year as int,
        ) == wanted[i] && months[i].hm@ == holidays
}

/// The headings and the tables in rows of at most three months.
pub fn in_bands(titles: &Vec<String>, bodies: &Vec<String>) -> (bands: Vec<
    (Vec<String>, Vec<String>),
>)
    requires
        titles@.len() == bodies@.len(),
    ensures
        band_texts(bands@) == bands_of(texts(titles@), texts(bodies@)),
{
    let count = titles.len();
    let ghost all_titles = texts(titles@);
    let ghost all_bodies = texts(bodies@);
    let mut bands: Vec<(Vec<String>, Vec<String>)> = Vec::new();
    let mut heads: Vec<String> = Vec::new();
    let mut tables: Vec<String> = Vec::new();
    let mut i: usize = 0;
    while i < count
        invariant
            i <= count,
            count == titles@.len(),
            count == bodies@.len(),
            all_titles == texts(titles@),
            all_bodies == texts(bodies@),
            bands@.len() == i / 3,
            heads@.len() == i % 3,
            tables@.len() == i % 3,
            forall|k: int|
                0 <= k < bands@.len() ==> texts((#[trigger] bands@[k]).0@) == all_titles.subrange(
                    3 * k,
                    3 * k + 3,
                ) && texts(bands@[k].1@) == all_bodies.subrange(3 * k, 3 * k + 3),
            texts(heads@) == all_titles.subrange(3 * (i / 3), i as int),
            texts(tables@) == all_bodies.subrange(3 * (i / 3), i as int),
        decreases count - i,
    {
        heads.push(titles[i].clone());
        tables.push(bodies[i].clone());
        proof {
            assert(texts(heads@) =~= all_titles.subrange(3 * (i / 3), i + 1));
            assert(texts(tables@) =~= all_bodies.subrange(3 * (i / 3), i + 1));
        }
        i += 1;
        if heads.len() == 3 {
            bands.push((heads, tables));
            heads = Vec::new();
            tables = Vec::new();
            proof {
                assert(texts(heads@) =~= all_titles.subrange(3 * (i / 3), i as int));
                assert(texts(tables@) =~= all_bodies.subrange(3 * (i / 3), i as int));
            }
        }
    }
    if heads.len() > 0 {
        bands.push((heads, tables));
    }
    proof {
        let got = band_texts(bands@);
        let want = bands_of(all_titles, all_bodies);
        assert(got.len() == want.len());
        assert forall|k: int| 0 <= k < got.len() implies got[k] == want[k] by {
            assert(got[k] == (texts(bands@[k].0@), texts(bands@[k].1@)));
        }
        assert(got =~= want);
    }
    bands
}

/// The calendar of a mode around today, with the holidays marked.
///
/// Fails with `InvalidDate` where one of the mode's months cannot be
/// built, naming the first such month.
pub fn render_display(today: Date, mode: Mode, hm: &HolidayMap) -> (out: Result<String, CalError>)
    ensures
        out is Ok <==> first_failure(mode, today.month as int, today.year as int) is None,
        out matches Ok(text) ==> is_calendar_text(
            months_of(mode, today.month as int, today.year as int),
            hm@,
            today,
            text@,
        ),
        out matches Err(e) ==> e@ == ErrorView::InvalidDate(
            invalid_month_text(
                first_failure(mode, today.month as int, today.year as int).unwrap() as nat,
            ),
        ),
{
    let months = match months_for(mode, today, hm) {
        Ok(months) => months,
        Err(e) => {
            return Err(e);
        },
    };
    let ghost wanted = months_of(mode, today.month as int, today.year as int);
    let mut titles: Vec<String> = Vec::new();
    let mut bodies: Vec<String> = Vec::new();
    let mut i: usize = 0;
    while i < months.len()
        invariant
            i <= months@.len(),
            shows(months@, wanted, hm@),
            titles@.len() == i,
            bodies@.len() == i,
            forall|j: int|
                0 <= j < i ==> (#[trigger] titles@[j])@ == month_title(wanted[j].0, wanted[j].1)
                    && is_ascii_chars(titles@[j]@),
            forall|j: int|
                0 <= j < i ==> is_month_text(
                    month_model(wanted[j].1, wanted[j].0, hm@),
                    today,
                    (#[trigger] bodies@[j])@,
                ) && is_ascii_chars(bodies@[j]@),
        decreases months@.len() - i,
    {
        let month = &months[i];
        proof {
            assert(months@[i as int].wf());
            lemma_title_ascii(wanted[i as int].0, wanted[i as int].1);
            assert(month@ == month_model(wanted[i as int].1, wanted[i as int].0, hm@));
        }
        titles.push(month.month_name.clone());
        bodies.push(month.format(today));
        i += 1;
    }
    let bands = in_bands(&titles, &bodies);
    proof {
        let all = band_texts(bands@);
        assert(texts(titles@) =~= titles_of(wanted));
        assert(are_month_texts(wanted, hm@, today, texts(bodies@)));
        assert forall|k: int, j: int|
            #![trigger all[k].0[j]]
            #![trigger all[k].1[j]]
            0 <= k < all.len() implies (0 <= j < all[k].0.len() ==> is_ascii_chars(all[k].0[j]))
            && (0 <= j < all[k].1.len() ==> is_ascii_chars(all[k].1[j])) by {
            if 0 <= j < all[k].0.len() {
                assert(all[k].0[j] == titles@[3 * k + j]@);
            }
            if 0 <= j < all[k].1.len() {
                assert(all[k].1[j] == bodies@[3 * k + j]@);
            }
        }
    }
    Ok(calendar_table(&bands))
}

} // verus!
