//! The cache of a year's holidays: the name of its file, what a load makes
//! of the file's size and bytes, and the retrieval that asks the cache
//! before the provider.
//!
//! Nothing here touches a file or the network. A caller does that, tells
//! what came of it as an event, and is told the next step.

use crate::codec::{
    decode, decode_legacy, decoded, decoded_legacy, encode, encoded, lemma_encoded_size,
    lemma_save_load_round_trip,
};
use crate::error::{CalError, ErrorView};
use crate::fetch::{
    argentina_entries, built_map, fetch_argentina, fetch_openholidays, openholidays_entries,
    ArgentinaResp, OpenHolidayResp,
};
use crate::holidays::{EntryView, HolidayMap};
use crate::model::{map_of, unique_keys, DateKey, KeyedEntry};
use crate::provider::{endpoint_text, slug_text, Provider, ProviderView};
use crate::text::{decimal, push_char, push_decimal, push_signed_decimal, signed_decimal};
use vstd::prelude::*;
use vstd::string::*;

verus! {

/// The largest size of a cache file that is read: ten mebibytes.
pub const MAX_CACHE_BYTES: u64 = 10 * 1024 * 1024;

/// The name of the cache file of a year and a provider, without its
/// directory: the year alone for the default provider, and the provider's
/// slug before the year for another.
pub open spec fn basename_text(year: int, provider: ProviderView) -> Seq<char> {
    match provider {
        ProviderView::ArgentinaDatos => "hm-"@ + signed_decimal(year),
        ProviderView::OpenHolidays { .. } => "hm-"@ + slug_text(provider) + seq!['-']
            + signed_decimal(year),
    }
}

/// The path of the cache file, before the home directory is filled in.
pub open spec fn unexpanded_path(year: int, provider: ProviderView) -> Seq<char> {
    "~/.config/"@ + basename_text(year, provider)
}

/// `out` is `path` after tilde expansion: the path with a home directory in
/// place of a tilde at its start, or the path as it is.
pub open spec fn tilde_expanded(out: Seq<char>, path: Seq<char>) -> bool {
    out == path || (path.len() >= 1 && path[0] == '~' && exists|home: Seq<char>|
        out == #[trigger] home.add(path.skip(1)))
}

/// `shellexpand::tilde`: a tilde at the start of the path is replaced by
/// the home directory where there is one to be found; otherwise the path
/// comes back as it is.
#[verifier::external_body]
fn expand_tilde(path: &str) -> (out: String)
    ensures
        tilde_expanded(out@, path@),
{
    shellexpand::tilde(path).to_string()
}

/// The name of the cache file of a year and a provider, without its directory.
pub fn cache_basename(year: i32, provider: &Provider) -> (name: String)
    ensures
        name@ == basename_text(year as int, provider@),
{
    let mut name = String::from_str("hm-");
    if !provider.is_default() {
        let slug = provider.slug();
        name.append(slug.as_str());
        push_char(&mut name, '-');
    }
    push_signed_decimal(&mut name, year);
    proof {
        assert(name@ =~= basename_text(year as int, provider@));
    }
    name
}

/// The path of the cache file of a year and a provider, under the
/// configuration directory of the user's home.
pub fn get_filename(year: i32, provider: &Provider) -> (path: String)
    ensures
        tilde_expanded(path@, unexpanded_path(year as int, provider@)),
{
    let mut path = String::from_str("~/.config/");
    let name = cache_basename(year, provider);
    path.append(name.as_str());
    expand_tilde(path.as_str())
}

/// What a caller found out about the cache file.
#[derive(Debug)]
pub enum FileEvent {
    /// Nothing yet: the load begins.
    Start,
    /// There is no such file.
    NotFound,
    /// The file system reported an error, with this text.
    Failed(String),
    /// The file has this size in bytes.
    Size(u64),
    /// The file holds these bytes.
    Contents(Vec<u8>),
    /// This map was written back to the file.
    Written(HolidayMap),
}

/// What a load does next.
#[derive(Debug)]
pub enum LoadStep {
    /// Ask for the file's size.
    Stat,
    /// Read the file.
    Read,
    /// Write this map back to the file, in the current format, and tell
    /// that it was written.
    Rewrite(HolidayMap),
    /// The load has ended: with a map, with none where there is no file, or
    /// with an error.
    Done(Result<Option<HolidayMap>, CalError>),
}

/// The view of an event.
pub enum FileEventView {
    Start,
    NotFound,
    Failed(Seq<char>),
    Size(u64),
    Contents(Seq<u8>),
    Written(Map<DateKey, EntryView>),
}

/// The view of a step.
pub enum LoadStepView {
    Stat,
    Read,
    Rewrite(Map<DateKey, EntryView>),
    Hit(Map<DateKey, EntryView>),
    Miss,
    Failed(ErrorView),
}

impl View for FileEvent {
    type V = FileEventView;

    open spec fn view(&self) -> FileEventView {
        match *self {
            FileEvent::Start => FileEventView::Start,
            FileEvent::NotFound => FileEventView::NotFound,
            FileEvent::Failed(text) => FileEventView::Failed(text@),
            FileEvent::Size(size) => FileEventView::Size(size),
            FileEvent::Contents(bytes) => FileEventView::Contents(bytes@),
            FileEvent::Written(map) => FileEventView::Written(map@),
        }
    }
}

impl View for LoadStep {
    type V = LoadStepView;

    open spec fn view(&self) -> LoadStepView {
        match *self {
            LoadStep::Stat => LoadStepView::Stat,
            LoadStep::Read => LoadStepView::Read,
            LoadStep::Rewrite(map) => LoadStepView::Rewrite(map@),
            LoadStep::Done(Ok(Some(map))) => LoadStepView::Hit(map@),
            LoadStep::Done(Ok(None)) => LoadStepView::Miss,
            LoadStep::Done(Err(error)) => LoadStepView::Failed(error@),
        }
    }
}

/// The detail of the error for a file that is too large.
pub open spec fn oversize_text(fname: Seq<char>) -> Seq<char> {
    "cache "@ + fname + " exceeds "@ + decimal(MAX_CACHE_BYTES as nat) + " bytes"@
}

/// The detail of the error for a file in neither format.
pub open spec fn undecodable_text(fname: Seq<char>) -> Seq<char> {
    "failed to deserialize cache "@ + fname
}

/// The step that follows an event in the load of the file `fname`.
///
/// A missing file is a miss, not an error. A file of more than
/// `MAX_CACHE_BYTES` bytes is refused before it is read. The bytes are
/// read in the current format first and in the earlier one next; a file of
/// the earlier format is to be written back in the current one. Bytes in
/// neither format are an error. Once a map is written back, it is the
/// result.
pub open spec fn load_step(fname: Seq<char>, event: FileEventView) -> LoadStepView {
    match event {
        FileEventView::Start => LoadStepView::Stat,
        FileEventView::NotFound => LoadStepView::Miss,
        FileEventView::Failed(text) => LoadStepView::Failed(ErrorView::Io(text)),
        FileEventView::Size(size) => if size > MAX_CACHE_BYTES {
            LoadStepView::Failed(ErrorView::Cache(oversize_text(fname)))
        } else {
            LoadStepView::Read
        },
        FileEventView::Contents(bytes) => if decoded(bytes) is Some {
            LoadStepView::Hit(decoded(bytes)->0)
        } else if decoded_legacy(bytes) is Some {
            LoadStepView::Rewrite(decoded_legacy(bytes)->0)
        } else {
            LoadStepView::Failed(ErrorView::Cache(undecodable_text(fname)))
        },
        FileEventView::Written(map) => LoadStepView::Hit(map),
    }
}

/// The next step of the load of the file `fname`, after `event`.
pub fn load(fname: &str, event: FileEvent) -> (step: LoadStep)
    ensures
        step@ == load_step(fname@, event@),
{
    match event {
        FileEvent::Start => LoadStep::Stat,
        FileEvent::NotFound => LoadStep::Done(Ok(None)),
        FileEvent::Failed(text) => LoadStep::Done(Err(CalError::Io(text))),
        FileEvent::Size(size) => {
            if size > MAX_CACHE_BYTES {
                let mut detail = String::from_str("cache ");
                detail.append(fname);
                detail.append(" exceeds ");
                push_decimal(&mut detail, MAX_CACHE_BYTES);
                detail.append(" bytes");
                LoadStep::Done(Err(CalError::Cache(detail)))
            } else {
                LoadStep::Read
            }
        },
        FileEvent::Contents(bytes) => {
            match decode(bytes.as_slice()) {
                Some(map) => LoadStep::Done(Ok(Some(map))),
                None => match decode_legacy(bytes.as_slice()) {
                    Some(map) => LoadStep::Rewrite(map),
                    None => {
                        let mut detail = String::from_str("failed to deserialize cache ");
                        detail.append(fname);
                        LoadStep::Done(Err(CalError::Cache(detail)))
                    },
                },
            }
        },
        FileEvent::Written(map) => LoadStep::Done(Ok(Some(map))),
    }
}

/// The bytes to write to a cache file for this map: the map in the
/// current format. They replace whatever the file held.
pub fn save(hm: &HolidayMap) -> (contents: Vec<u8>)
    ensures
        contents@ == encoded(hm.entries()),
        decoded(contents@) == Some(hm@),
{
    let contents = encode(hm);
    proof {
        lemma_save_load_round_trip(hm.entries(), Seq::empty());
        assert(contents@ + Seq::<u8>::empty() =~= contents@);
    }
    contents
}

/// What is saved is what is loaded: the file that `save` writes for a map
/// is read in full, unless it is larger than `MAX_CACHE_BYTES`, and its
/// bytes are loaded as the map that was saved.
pub proof fn lemma_load_after_save(fname: Seq<char>, entries: Seq<KeyedEntry>)
    requires
        unique_keys(entries),
        encoded(entries).len() <= MAX_CACHE_BYTES,
    ensures
        load_step(fname, FileEventView::Size(encoded(entries).len() as u64)) == LoadStepView::Read,
        load_step(fname, FileEventView::Contents(encoded(entries))) == LoadStepView::Hit(
            map_of(entries),
        ),
{
    lemma_encoded_size(entries);
    lemma_save_load_round_trip(entries, Seq::empty());
    assert(encoded(entries) + Seq::<u8>::empty() =~= encoded(entries));
}

/// A file of more than `MAX_CACHE_BYTES` bytes is refused on its size
/// alone, whatever it holds.
pub proof fn lemma_oversize_refused(fname: Seq<char>, size: u64)
    requires
        size > MAX_CACHE_BYTES,
    ensures
        load_step(fname, FileEventView::Size(size)) == LoadStepView::Failed(
            ErrorView::Cache(oversize_text(fname)),
        ),
{
}

/// What a provider answered, decoded.
#[derive(Debug)]
pub enum Response {
    /// The answer of the default provider.
    Argentina(Vec<ArgentinaResp>),
    /// The answer of a country provider.
    OpenHolidays(Vec<OpenHolidayResp>),
}

/// The holiday map that a provider's answer holds.
pub open spec fn response_map(response: Response) -> Map<DateKey, EntryView> {
    match response {
        Response::Argentina(holidays) => built_map(argentina_entries(holidays@)),
        Response::OpenHolidays(holidays) => built_map(openholidays_entries(holidays@)),
    }
}

/// What a caller found out during the retrieval of a year's holidays.
#[derive(Debug)]
pub enum HolidaysEvent {
    /// Nothing yet: the retrieval begins.
    Start,
    /// The load of the cache file ended without an error: with a map, or
    /// with none where there is no file.
    Loaded(Option<HolidayMap>),
    /// The provider answered.
    Fetched(Response),
    /// These holidays were written to the cache file.
    Stored(HolidayMap),
    /// The load, the request or the write ended with this error.
    Failed(CalError),
}

/// What the retrieval does next.
#[derive(Debug)]
pub enum HolidaysStep {
    /// Load the cache file at this path.
    Load { path: String },
    /// Fetch the provider's answer from this address.
    Fetch { url: String },
    /// Write these bytes to the cache file at this path, and tell that
    /// these holidays were stored.
    Store { path: String, contents: Vec<u8>, holidays: HolidayMap },
    /// The retrieval has ended: with the holidays, or with an error.
    Done(Result<HolidayMap, CalError>),
}

/// The next step of the retrieval of the holidays of `year` from
/// `provider`, after `event`: the cache is asked first; what it holds is
/// the result; where it holds nothing the provider is asked, and its answer
/// is stored in the cache and is the result. An error of the load, of the
/// request or of the write ends the retrieval with that error; no older
/// data stands in for the result.
pub fn get_holidays(year: i32, provider: &Provider, event: HolidaysEvent) -> (step: HolidaysStep)
    ensures
        match event {
            HolidaysEvent::Start => step matches HolidaysStep::Load { path } && tilde_expanded(
                path@,
                unexpanded_path(year as int, provider@),
            ),
            HolidaysEvent::Loaded(Some(cached)) => step matches HolidaysStep::Done(Ok(holidays))
                && holidays@ == cached@,
            HolidaysEvent::Loaded(None) => step matches HolidaysStep::Fetch { url } && url@
                == endpoint_text(provider@, year as int),
            HolidaysEvent::Fetched(response) => step matches HolidaysStep::Store {
                path,
                contents,
                holidays,
            } && tilde_expanded(path@, unexpanded_path(year as int, provider@)) && holidays@
                == response_map(response) && contents@ == encoded(holidays.entries()) && decoded(
                contents@,
            ) == Some(holidays@),
            HolidaysEvent::Stored(stored) => step matches HolidaysStep::Done(Ok(holidays))
                && holidays@ == stored@,
            HolidaysEvent::Failed(error) => step matches HolidaysStep::Done(Err(e)) && e@
                == error@,
        },
{
    match event {
        HolidaysEvent::Start => HolidaysStep::Load { path: get_filename(year, provider) },
        HolidaysEvent::Loaded(Some(cached)) => HolidaysStep::Done(Ok(cached)),
        HolidaysEvent::Loaded(None) => HolidaysStep::Fetch { url: provider.endpoint(year) },
        HolidaysEvent::Fetched(response) => {
            let holidays = match response {
                Response::Argentina(answer) => fetch_argentina(answer),
                Response::OpenHolidays(answer) => fetch_openholidays(answer),
            };
            let contents = save(&holidays);
            HolidaysStep::Store { path: get_filename(year, provider), contents, holidays }
        },
        HolidaysEvent::Stored(holidays) => HolidaysStep::Done(Ok(holidays)),
        HolidaysEvent::Failed(error) => HolidaysStep::Done(Err(error)),
    }
}

} // verus!
