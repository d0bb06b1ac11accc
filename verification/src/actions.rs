//! The commands: what each asks of its environment, and what it makes of
//! the answers.

use crate::cache::{get_filename, tilde_expanded, unexpanded_path};
use crate::calendar::{first_failure, is_calendar_text, months_of, render_display};
use crate::cli::Mode;
use crate::display_month::{invalid_month_text, Date};
use crate::error::{CalError, ErrorView};
use crate::holidays::{EntryView, HolidayEntry, HolidayKind, HolidayMap};
use crate::model::DateKey;
use crate::listing::{list_text, render_list, OutputFormat};
use crate::provider::{Provider, ProviderView};
use crate::text::{push_char, push_two_digits, two_digits};
use vstd::prelude::*;
use vstd::string::*;

verus! {

/// What a command needs from the world around it: the date, the holidays
/// of a year, the stored holidays of a year, and a place to print to.
pub trait ActionEnvironment {
    /// Today's date.
    fn now(&self) -> Date;

    /// The holidays of a year, from the cache or from the provider.
    fn holidays(&self, year: i32) -> Result<HolidayMap, CalError>;

    /// The stored holidays of a year; an empty map where none are stored.
    fn load(&self, year: i32) -> Result<HolidayMap, CalError>;

    /// Stores the holidays of a year, in place of what was stored.
    fn save(&self, year: i32, hm: &HolidayMap) -> Result<(), CalError>;

    /// Prints the text as it is.
    fn print(&self, msg: &str) -> Result<(), CalError>;

    /// Prints the text and ends the line.
    fn println(&self, msg: &str) -> Result<(), CalError>;
}

/// The settings of the environment that works on the user's files and
/// asks the provider: so far, the provider.
#[derive(Debug)]
pub struct RealEnvironment {
    provider: Provider,
}

impl RealEnvironment {
    /// The provider of this environment.
    pub closed spec fn provider_view(&self) -> ProviderView {
        self.provider@
    }

    /// The environment that asks `provider`.
    pub fn new(provider: Provider) -> (env: Self)
        ensures
            env.provider_view() == provider@,
    {
        RealEnvironment { provider }
    }

    /// The provider that the environment asks.
    pub fn provider(&self) -> (provider: &Provider)
        ensures
            provider@ == self.provider_view(),
    {
        &self.provider
    }

    /// The path of the cache file of a year.
    pub fn cache_file(&self, year: i32) -> (path: String)
        ensures
            tilde_expanded(path@, unexpanded_path(year as int, self.provider_view())),
    {
        get_filename(year, &self.provider)
    }
}

impl Default for RealEnvironment {
    fn default() -> (env: Self)
        ensures
            env.provider_view() == ProviderView::ArgentinaDatos,
    {
        RealEnvironment { provider: Provider::ArgentinaDatos }
    }
}

/// The name of a holiday that the user added.
pub open spec fn custom_name(key: DateKey) -> Seq<char> {
    "Custom holiday ("@ + two_digits(key.0 as nat) + seq!['/'] + two_digits(key.1 as nat) + seq![
        ')',
    ]
}

/// The map after the user added a day: a day that already holds an entry
/// keeps it; another day gets a custom entry named after the date.
pub open spec fn with_custom(holidays: Map<DateKey, EntryView>, key: DateKey) -> Map<
    DateKey,
    EntryView,
> {
    if holidays.dom().contains(key) {
        holidays
    } else {
        holidays.insert(key, EntryView { name: custom_name(key), kind: HolidayKind::Custom })
    }
}

/// Adds a custom holiday on a day, unless the day holds an entry already.
pub fn add_custom(hm: &mut HolidayMap, day: u32, month: u32)
    ensures
        final(hm)@ == with_custom(old(hm)@, (day, month)),
{
    if !hm.contains_key(&(day, month)) {
        let mut name = String::from_str("Custom holiday (");
        push_two_digits(&mut name, day);
        push_char(&mut name, '/');
        push_two_digits(&mut name, month);
        push_char(&mut name, ')');
        proof {
            assert(name@ =~= custom_name((day, month)));
        }
        hm.insert((day, month), HolidayEntry::custom(name));
    }
}

/// `done` is what comes of showing the calendar of a mode in `env`: the
/// environment is asked for today's date and for the holidays of today's
/// year; its error ends the command; so does the first month of the mode
/// that cannot be built; else a rendering of the mode's months around
/// today, with those holidays, is handed to the environment to print as it
/// is, and the environment's answer is the result.
pub open spec fn display_outcome<E: ActionEnvironment>(
    env: &E,
    mode: Mode,
    done: Result<(), CalError>,
) -> bool {
    exists|now: Date, found: Result<HolidayMap, CalError>|
        #[trigger] call_ensures(E::now, (env,), now) && #[trigger] call_ensures(
            E::holidays,
            (env, now.year),
            found,
        ) && match found {
            Err(e) => done == Err::<(), CalError>(e),
            Ok(hm) => match first_failure(mode, now.month as int, now.year as int) {
                Some(month) => done matches Err(e) && e@ == ErrorView::InvalidDate(
                    invalid_month_text(month as nat),
                ),
                None => exists|msg: &str|
                    is_calendar_text(
                        months_of(mode, now.month as int, now.year as int),
                        hm@,
                        now,
                        msg@,
                    ) && #[trigger] call_ensures(E::print, (env, msg), done),
            },
        }
}

/// `done` is what comes of listing the holidays in `env`: the environment
/// is asked for today's date and for the holidays of today's year; its
/// error ends the command; else the listing of those holidays in the
/// format is handed to the environment to print as a line, and the
/// environment's answer is the result. Where the serializer gives no JSON
/// text, the command ends with a `Json` error.
pub open spec fn list_outcome<E: ActionEnvironment>(
    env: &E,
    format: OutputFormat,
    done: Result<(), CalError>,
) -> bool {
    exists|now: Date, found: Result<HolidayMap, CalError>|
        #[trigger] call_ensures(E::now, (env,), now) && #[trigger] call_ensures(
            E::holidays,
            (env, now.year),
            found,
        ) && match found {
            Err(e) => done == Err::<(), CalError>(e),
            Ok(hm) => match list_text(now.year as int, hm@, format) {
                None => done matches Err(e) && e is Json,
                Some(text) => exists|msg: &str|
                    msg@ == text && #[trigger] call_ensures(E::println, (env, msg), done),
            },
        }
}

/// `done` is what comes of storing `stored` for `year` and confirming it:
/// the environment's error where it cannot store the map, and else its
/// answer to printing the line `OK`.
pub open spec fn stored_and_confirmed<E: ActionEnvironment>(
    env: &E,
    year: i32,
    stored: Map<DateKey, EntryView>,
    done: Result<(), CalError>,
) -> bool {
    exists|hm: HolidayMap, saved: Result<(), CalError>|
        hm@ == stored && #[trigger] call_ensures(E::save, (env, year, &hm), saved) && match saved {
            Err(e) => done == Err::<(), CalError>(e),
            Ok(_) => exists|msg: &str|
                msg@ == "OK"@ && #[trigger] call_ensures(E::println, (env, msg), done),
        }
}

/// `done` is what comes of adding a day in `env`: the environment is asked
/// for today's date and for the stored holidays of today's year; its error
/// ends the command; else the holidays with the day added, unless the day
/// holds an entry already, are stored for that year, and the line `OK` is
/// printed.
pub open spec fn add_outcome<E: ActionEnvironment>(
    env: &E,
    key: DateKey,
    done: Result<(), CalError>,
) -> bool {
    exists|now: Date, loaded: Result<HolidayMap, CalError>|
        #[trigger] call_ensures(E::now, (env,), now) && #[trigger] call_ensures(
            E::load,
            (env, now.year),
            loaded,
        ) && match loaded {
            Err(e) => done == Err::<(), CalError>(e),
            Ok(hm) => stored_and_confirmed(env, now.year, with_custom(hm@, key), done),
        }
}

/// Shows the calendar of a mode around today, with the holidays of
/// today's year.
pub fn display<E: ActionEnvironment>(env: &E, mode: Mode) -> (done: Result<(), CalError>)
    ensures
        display_outcome(env, mode, done),
{
    let now = env.now();
    let hm = match env.holidays(now.year) {
        Ok(hm) => hm,
        Err(e) => {
            return Err(e);
        },
    };
    match render_display(now, mode, &hm) {
        Ok(text) => env.print(text.as_str()),
        Err(e) => Err(e),
    }
}

/// Lists the holidays of today's year in the given format.
pub fn list<E: ActionEnvironment>(env: &E, format: OutputFormat) -> (done: Result<(), CalError>)
    ensures
        list_outcome(env, format, done),
{
    let now = env.now();
    let hm = match env.holidays(now.year) {
        Ok(hm) => hm,
        Err(e) => {
            return Err(e);
        },
    };
    match render_list(now.year, &hm, format) {
        Ok(text) => env.println(text.as_str()),
        Err(e) => Err(e),
    }
}

/// Adds a custom holiday on a day of today's year to the stored
/// holidays, and confirms it.
pub fn add<E: ActionEnvironment>(env: &E, day: u32, month: u32) -> (done: Result<(), CalError>)
    ensures
        add_outcome(env, (day, month), done),
{
    let now = env.now();
    let mut hm = match env.load(now.year) {
        Ok(hm) => hm,
        Err(e) => {
            return Err(e);
        },
    };
    add_custom(&mut hm, day, month);
    match env.save(now.year, &hm) {
        Ok(()) => env.println("OK"),
        Err(e) => Err(e),
    }
}

/// `done` is what comes of deleting a day in `env`: the environment is
/// asked for today's date and for the stored holidays of today's year; its
/// error ends the command; else the holidays without the day are stored
/// for that year, and the line `OK` is printed.
pub open spec fn delete_outcome<E: ActionEnvironment>(
    env: &E,
    key: DateKey,
    done: Result<(), CalError>,
) -> bool {
    exists|now: Date, loaded: Result<HolidayMap, CalError>|
        #[trigger] call_ensures(E::now, (env,), now) && #[trigger] call_ensures(
            E::load,
            (env, now.year),
            loaded,
        ) && match loaded {
            Err(e) => done == Err::<(), CalError>(e),
            Ok(hm) => stored_and_confirmed(env, now.year, hm@.remove(key), done),
        }
}

/// Deletes the holiday on a day of today's year from the stored
/// holidays, if there is one, and confirms it.
pub fn delete<E: ActionEnvironment>(env: &E, day: u32, month: u32) -> (done: Result<(), CalError>)
    ensures
        delete_outcome(env, (day, month), done),
{
    let now = env.now();
    let mut hm = match env.load(now.year) {
        Ok(hm) => hm,
        Err(e) => {
            return Err(e);
        },
    };
    hm.remove(&(day, month));
    match env.save(now.year, &hm) {
        Ok(()) => env.println("OK"),
        Err(e) => Err(e),
    }
}

} // verus!
