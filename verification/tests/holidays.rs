use cal2::cache::{
    cache_basename, get_filename, get_holidays, load, save, FileEvent, HolidaysEvent, HolidaysStep,
    LoadStep, Response, MAX_CACHE_BYTES,
};
use cal2::error::CalError;
use cal2::fetch::{
    build_holidays, choose_name, fetch_argentina, fetch_openholidays, parse_date, ArgentinaResp,
    OpenHolidayName, OpenHolidayResp,
};
use cal2::holidays::{HolidayEntry, HolidayKind, HolidayMap};
use cal2::provider::Provider;
use std::collections::HashMap;

fn loaded(step: LoadStep) -> Option<HolidayMap> {
    match step {
        LoadStep::Done(Ok(found)) => found,
        other => panic!("load did not end without an error: {other:?}"),
    }
}

#[test]
fn load_returns_none_for_missing_file() {
    let fname = "/tmp/cal2-missing";
    assert!(matches!(load(fname, FileEvent::Start), LoadStep::Stat));
    let result = loaded(load(fname, FileEvent::NotFound));
    assert!(result.is_none());
}

#[test]
fn save_and_load_roundtrip_preserves_holidays() {
    let mut hm = HolidayMap::new();
    hm.insert((1, 1), HolidayEntry::official("New Year's Day".to_string()));
    hm.insert((25, 12), HolidayEntry::official("Christmas Day".to_string()));

    let fname = "/tmp/cal2-roundtrip";
    let raw_bytes = save(&hm);
    let raw_result: Result<HashMap<(u32, u32), (String, u32)>, _> = bincode::deserialize(&raw_bytes);
    assert!(raw_result.is_ok(), "raw deserialize failed: {:?}", raw_result.err());
    assert!(matches!(load(fname, FileEvent::Size(raw_bytes.len() as u64)), LoadStep::Read));
    let loaded = loaded(load(fname, FileEvent::Contents(raw_bytes)))
        .expect("cache should exist after saving");

    assert_eq!(loaded, hm);
}

#[test]
fn load_migrates_legacy_boolean_cache() {
    let legacy_fname = "/tmp/cal2-legacy";
    let mut legacy_map = HashMap::new();
    legacy_map.insert((1u32, 1u32), true);
    legacy_map.insert((2u32, 1u32), false);

    let raw_bytes = bincode::serialize(&legacy_map).expect("serialize legacy cache");
    let legacy_raw: Result<HashMap<(u32, u32), bool>, _> = bincode::deserialize(&raw_bytes);
    assert!(legacy_raw.is_ok(), "legacy raw deserialize failed: {:?}", legacy_raw.err());

    let migrated = match load(legacy_fname, FileEvent::Contents(raw_bytes)) {
        LoadStep::Rewrite(map) => map,
        other => panic!("legacy cache should migrate: {other:?}"),
    };
    assert_eq!(migrated.len(), 1);
    let entry = migrated.get(&(1, 1)).expect("holiday should be present after migration");
    assert_eq!(entry.kind, HolidayKind::Custom);
    assert!(entry.name.contains("Legacy"), "unexpected migrated name: {}", entry.name);
    assert_eq!(entry.name, "Legacy holiday (01/01)");

    // what is written back is in the current format
    let rewritten = save(&migrated);
    let again = loaded(load(legacy_fname, FileEvent::Contents(rewritten)))
        .expect("migrated cache should exist");
    assert_eq!(again, migrated);
}

#[test]
fn get_filename_places_cache_under_config_directory_for_default_provider() {
    let year = 2030;
    let fname = get_filename(year, &Provider::default());
    assert!(fname.ends_with(&format!("hm-{year}")), "unexpected cache filename: {fname}");
    assert!(fname.ends_with("/.config/hm-2030"), "unexpected cache filename: {fname}");
}

#[test]
fn get_filename_includes_provider_slug_when_not_default() {
    let provider = Provider::OpenHolidays { country_code: "US".to_string() };
    let year = 2030;
    let fname = get_filename(year, &provider);
    assert!(fname.ends_with("hm-openholidays-us-2030"), "unexpected cache filename: {fname}");
}

#[test]
fn provider_from_country_rejects_invalid_codes() {
    for invalid in ["", " ", "1", "U1", "UNIT", "U_S"] {
        assert!(
            Provider::from_country(Some(invalid.to_string())).is_err(),
            "expected error for invalid country: {invalid:?}"
        );
    }
}

#[test]
fn provider_from_country_accepts_valid_iso_codes() {
    let provider =
        Provider::from_country(Some("us".to_string())).expect("valid country should work");
    assert_eq!(provider, Provider::OpenHolidays { country_code: "US".to_string() });
}

#[test]
fn provider_from_country_uses_argentina_for_ar() {
    let provider = Provider::from_country(Some("ar".to_string())).expect("AR should be accepted");
    assert_eq!(provider, Provider::ArgentinaDatos);
}

#[test]
fn load_rejects_cache_larger_than_limit() {
    let fname = "/tmp/cal2-too-big";
    let oversize: u64 = (10 * 1024 * 1024) + 1;

    let result = load(fname, FileEvent::Size(oversize));
    match result {
        LoadStep::Done(Err(CalError::Cache(detail))) => {
            assert_eq!(detail, "cache /tmp/cal2-too-big exceeds 10485760 bytes");
        }
        other => panic!("expected oversized cache to be rejected: {other:?}"),
    }
    assert!(matches!(load(fname, FileEvent::Size(MAX_CACHE_BYTES)), LoadStep::Read));
}

#[test]
fn get_holidays_uses_cached_file_when_present() {
    let provider = Provider::default();
    let year = 2035;
    let fname = get_filename(year, &provider);

    let mut hm = HolidayMap::new();
    hm.insert((2, 1), HolidayEntry::official("Test cached holiday".to_string()));
    let contents = save(&hm);

    let path = match get_holidays(year, &provider, HolidaysEvent::Start) {
        HolidaysStep::Load { path } => path,
        other => panic!("the cache is asked first: {other:?}"),
    };
    assert_eq!(path, fname);
    let cached = loaded(load(&path, FileEvent::Contents(contents)));
    let outcome = match get_holidays(year, &provider, HolidaysEvent::Loaded(cached)) {
        HolidaysStep::Done(Ok(holidays)) => holidays,
        other => panic!("load cached holidays: {other:?}"),
    };
    assert_eq!(outcome, hm);
}

#[test]
fn provider_slug_and_default_behavior() {
    let argentina = Provider::default();
    assert!(argentina.is_default());
    assert_eq!(argentina.slug(), "argentina-datos");

    let open = Provider::OpenHolidays { country_code: "CA".to_string() };
    assert!(!open.is_default());
    assert_eq!(open.slug(), "openholidays-ca");
}

#[test]
fn build_holidays_filters_invalid_dates() {
    let entries = vec![
        ("2024-05-01".to_string(), "Valid".to_string()),
        ("2024-13-01".to_string(), "Invalid".to_string()),
        ("not-a-date".to_string(), "Bad".to_string()),
    ];

    let hm = build_holidays(entries);
    let valid = hm.get(&(1, 5)).expect("expected valid date to be recorded");
    assert_eq!(valid.name, "Valid");
    assert!(hm.get(&(1, 13)).is_some());
    assert!(hm.to_vec().iter().all(|holiday| holiday.entry.name != "Bad"));
}

#[test]
fn from_country_without_option_is_default() {
    assert_eq!(Provider::from_country(None).expect("no option"), Provider::ArgentinaDatos);
}

#[test]
fn from_country_trims_and_uppercases() {
    let provider = Provider::from_country(Some("  deu\t".to_string())).expect("trimmed code");
    assert_eq!(provider, Provider::OpenHolidays { country_code: "DEU".to_string() });
    let provider = Provider::from_country(Some(" Ar ".to_string())).expect("trimmed code");
    assert_eq!(provider, Provider::ArgentinaDatos);
}

#[test]
fn from_country_names_the_fault() {
    let message = |text: &str| match Provider::from_country(Some(text.to_string())) {
        Err(CalError::Config(detail)) => detail,
        other => panic!("expected a configuration error: {other:?}"),
    };
    assert_eq!(message("   "), "--country cannot be empty");
    assert_eq!(message("U"), "--country must be a 2- or 3-letter ISO code");
    assert_eq!(message("UNIT"), "--country must be a 2- or 3-letter ISO code");
    assert_eq!(message("U1"), "--country must contain only ASCII letters");
    assert_eq!(message("U_S"), "--country must contain only ASCII letters");
    // two bytes, but one letter that is not ASCII
    assert_eq!(message("é"), "--country must contain only ASCII letters");
}

#[test]
fn from_country_goes_by_the_uppercase_form() {
    // the sharp s has two capital letters as its uppercase form
    let provider = Provider::from_country(Some("ß".to_string())).expect("two letters");
    assert_eq!(provider, Provider::OpenHolidays { country_code: "SS".to_string() });
}

#[test]
fn from_code_takes_the_code_as_it_is() {
    assert_eq!(Provider::from_code("AR".to_string()).expect("AR"), Provider::ArgentinaDatos);
    assert_eq!(
        Provider::from_code("BRA".to_string()).expect("BRA"),
        Provider::OpenHolidays { country_code: "BRA".to_string() }
    );
    assert!(Provider::from_code("".to_string()).is_err());
    assert!(Provider::from_code("ABCD".to_string()).is_err());
}

#[test]
fn endpoint_embeds_year_and_country() {
    assert_eq!(
        Provider::default().endpoint(2024),
        "https://api.argentinadatos.com/v1/feriados/2024"
    );
    let open = Provider::OpenHolidays { country_code: "US".to_string() };
    assert_eq!(
        open.endpoint(2024),
        "https://openholidaysapi.org/PublicHolidays?countryIsoCode=US&languageIsoCode=EN&validFrom=2024-01-01&validTo=2024-12-31"
    );
}

#[test]
fn cache_basename_by_provider() {
    assert_eq!(cache_basename(2030, &Provider::default()), "hm-2030");
    let open = Provider::OpenHolidays { country_code: "US".to_string() };
    assert_eq!(cache_basename(2030, &open), "hm-openholidays-us-2030");
    assert_eq!(cache_basename(-5, &Provider::default()), "hm--5");
}

#[test]
fn parse_date_reads_month_and_day() {
    assert_eq!(parse_date("2024-05-01"), Some((1, 5)));
    assert_eq!(parse_date("2024-12-25"), Some((25, 12)));
    assert_eq!(parse_date("-7-9"), Some((9, 7)));
    assert_eq!(parse_date("x-+7-+09"), Some((9, 7)));
    assert_eq!(parse_date("2024-13-45"), Some((45, 13)));
    assert_eq!(parse_date("2024-0-4294967295"), Some((4294967295, 0)));
}

#[test]
fn parse_date_drops_what_is_no_date() {
    assert_eq!(parse_date(""), None);
    assert_eq!(parse_date("2024"), None);
    assert_eq!(parse_date("2024-05"), None);
    assert_eq!(parse_date("not-a-date"), None);
    assert_eq!(parse_date("2024-05-01-02"), None);
    assert_eq!(parse_date("2024--01"), None);
    assert_eq!(parse_date("2024-05-"), None);
    assert_eq!(parse_date("2024-+-1"), None);
    assert_eq!(parse_date("2024- 5-01"), None);
    assert_eq!(parse_date("2024-05-4294967296"), None);
    assert_eq!(parse_date("2024-05-99999999999999999999999999"), None);
    assert_eq!(parse_date("2024-٥-01"), None);
}

#[test]
fn parse_date_agrees_with_the_standard_parser() {
    for text in ["0", "00012", "+3", "-3", "+", "", "4294967295", "4294967296", "1a", " 1", "１"] {
        let date = format!("y-{text}-1");
        let expected = text.parse::<u32>().ok().map(|month| (1, month));
        assert_eq!(parse_date(&date), expected, "month text {text:?}");
    }
}

#[test]
fn build_holidays_keeps_the_later_of_two() {
    let entries = vec![
        ("2024-05-01".to_string(), "First".to_string()),
        ("2024-05-01".to_string(), "Second".to_string()),
    ];
    let hm = build_holidays(entries);
    assert_eq!(hm.len(), 1);
    let entry = hm.get(&(1, 5)).expect("entry");
    assert_eq!(entry.name, "Second");
    assert_eq!(entry.kind, HolidayKind::Official);
}

fn named(language: &str, text: &str) -> OpenHolidayName {
    OpenHolidayName { language: language.to_string(), text: text.to_string() }
}

#[test]
fn choose_name_prefers_english() {
    let names = vec![named("DE", "Neujahr"), named("en", "New Year"), named("EN", "Other")];
    assert_eq!(choose_name(&names), "New Year");
    let names = vec![named("DE", "Neujahr"), named("FR", "Nouvel an")];
    assert_eq!(choose_name(&names), "Neujahr");
    let names = vec![named("ENG", "Long tag"), named("E", "Short tag")];
    assert_eq!(choose_name(&names), "Long tag");
    assert_eq!(choose_name(&Vec::new()), "Public holiday");
}

#[test]
fn fetch_argentina_marks_entries_official() {
    let response = vec![
        ArgentinaResp { fecha: "2024-01-01".to_string(), nombre: "Año nuevo".to_string() },
        ArgentinaResp { fecha: "broken".to_string(), nombre: "Dropped".to_string() },
    ];
    let hm = fetch_argentina(response);
    assert_eq!(hm.len(), 1);
    let entry = hm.get(&(1, 1)).expect("entry");
    assert_eq!(entry.name, "Año nuevo");
    assert_eq!(entry.kind, HolidayKind::Official);
}

#[test]
fn fetch_openholidays_chooses_names() {
    let response = vec![
        OpenHolidayResp {
            start_date: "2024-07-04".to_string(),
            name: vec![named("ES", "Día de la Independencia"), named("EN", "Independence Day")],
        },
        OpenHolidayResp { start_date: "2024-12-25".to_string(), name: Vec::new() },
    ];
    let hm = fetch_openholidays(response);
    assert_eq!(hm.len(), 2);
    assert_eq!(hm.get(&(4, 7)).expect("entry").name, "Independence Day");
    assert_eq!(hm.get(&(25, 12)).expect("entry").name, "Public holiday");
}

#[test]
fn get_holidays_fetches_on_a_miss_and_stores() {
    let provider = Provider::OpenHolidays { country_code: "US".to_string() };
    let url = match get_holidays(2024, &provider, HolidaysEvent::Loaded(None)) {
        HolidaysStep::Fetch { url } => url,
        other => panic!("a miss asks the provider: {other:?}"),
    };
    assert_eq!(url, provider.endpoint(2024));

    let response = Response::OpenHolidays(vec![OpenHolidayResp {
        start_date: "2024-07-04".to_string(),
        name: vec![named("EN", "Independence Day")],
    }]);
    match get_holidays(2024, &provider, HolidaysEvent::Fetched(response)) {
        HolidaysStep::Store { path, contents, holidays } => {
            assert_eq!(path, get_filename(2024, &provider));
            assert_eq!(holidays.len(), 1);
            assert_eq!(holidays.get(&(4, 7)).expect("entry").name, "Independence Day");
            let again = loaded(load(&path, FileEvent::Contents(contents))).expect("stored");
            assert_eq!(again, holidays);
            match get_holidays(2024, &provider, HolidaysEvent::Stored(holidays)) {
                HolidaysStep::Done(Ok(result)) => assert_eq!(result, again),
                other => panic!("what is stored is the result: {other:?}"),
            }
        }
        other => panic!("the answer is stored: {other:?}"),
    }
}

#[test]
fn get_holidays_ends_with_the_error_it_is_told() {
    let provider = Provider::default();
    for error in [
        CalError::Cache("failed to deserialize cache f".to_string()),
        CalError::Http("no route to host".to_string()),
        CalError::Json("expected value".to_string()),
        CalError::Io("disk full".to_string()),
    ] {
        let message = error.message();
        match get_holidays(2024, &provider, HolidaysEvent::Failed(error)) {
            HolidaysStep::Done(Err(passed_on)) => assert_eq!(passed_on.message(), message),
            other => panic!("an error ends the retrieval: {other:?}"),
        }
    }
}

#[test]
fn load_ends_with_the_map_that_was_written_back() {
    let mut legacy_map = HashMap::new();
    legacy_map.insert((14u32, 2u32), true);
    let raw_bytes = bincode::serialize(&legacy_map).expect("serialize legacy cache");
    let migrated = match load("f", FileEvent::Contents(raw_bytes)) {
        LoadStep::Rewrite(map) => map,
        other => panic!("legacy cache should migrate: {other:?}"),
    };
    let expected = migrated.clone();
    let result = loaded(load("f", FileEvent::Written(migrated))).expect("migrated map");
    assert_eq!(result, expected);
    assert_eq!(result.get(&(14, 2)).expect("entry").name, "Legacy holiday (14/02)");
}

#[test]
fn load_reports_what_the_file_system_said() {
    match load("f", FileEvent::Failed("permission denied".to_string())) {
        LoadStep::Done(Err(error)) => {
            assert!(matches!(error, CalError::Io(_)));
            assert_eq!(error.message(), "I/O error: permission denied");
        }
        other => panic!("expected an error: {other:?}"),
    }
}

#[test]
fn load_refuses_bytes_in_neither_format() {
    for bytes in [vec![], vec![1u8, 2, 3], vec![1u8, 0, 0, 0, 0, 0, 0, 0, 9, 9]] {
        match load("some/file", FileEvent::Contents(bytes)) {
            LoadStep::Done(Err(error)) => {
                assert_eq!(error.message(), "cache error: failed to deserialize cache some/file");
            }
            other => panic!("expected an error: {other:?}"),
        }
    }
}

#[test]
fn error_messages_name_the_kind() {
    assert_eq!(CalError::Io("a".to_string()).message(), "I/O error: a");
    assert_eq!(CalError::Json("b".to_string()).message(), "JSON error: b");
    assert_eq!(CalError::Http("c".to_string()).message(), "HTTP error: c");
    assert_eq!(CalError::InvalidDate("d".to_string()).message(), "invalid date: d");
    assert_eq!(CalError::Config("e".to_string()).message(), "configuration error: e");
    assert_eq!(CalError::Cache("f".to_string()).message(), "cache error: f");
}

#[test]
fn get_filename_puts_the_home_directory_for_the_tilde() {
    let home = shellexpand::tilde("~").to_string();
    let provider = Provider::OpenHolidays { country_code: "DE".to_string() };
    assert_eq!(get_filename(2031, &Provider::default()), format!("{home}/.config/hm-2031"));
    assert_eq!(get_filename(2031, &provider), format!("{home}/.config/hm-openholidays-de-2031"));
}

#[test]
fn accepted_codes_are_capital_letters_whatever_the_input() {
    let mut accepted = 0;
    for c in (0..=0x10ffff_u32).filter_map(char::from_u32) {
        for text in [format!("{c}"), format!("{c}x")] {
            match Provider::from_country(Some(text.clone())) {
                Ok(Provider::OpenHolidays { country_code }) => {
                    accepted += 1;
                    assert!((2..=3).contains(&country_code.len()), "{text:?} gave {country_code:?}");
                    assert!(
                        country_code.chars().all(|letter| letter.is_ascii_uppercase()),
                        "{text:?} gave {country_code:?}"
                    );
                    assert_ne!(country_code, "AR");
                }
                Ok(Provider::ArgentinaDatos) => accepted += 1,
                Err(CalError::Config(_)) => {}
                Err(other) => panic!("{text:?} gave {other:?}"),
            }
        }
    }
    assert!(accepted > 52);
}
