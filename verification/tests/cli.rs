use cal2::actions::ActionEnvironment;
use cal2::cli::{Action, Args, Commands, Mode};
use cal2::display_month::Date;
use cal2::error::CalError;
use cal2::holidays::{HolidayEntry, HolidayKind, HolidayMap};
use cal2::listing::OutputFormat;
use cal2::provider::Provider;
use std::cell::RefCell;
use std::collections::HashMap;

struct RecordingEnv {
    now: Date,
    holidays: RefCell<HashMap<i32, HolidayMap>>,
    output: RefCell<Vec<String>>,
    store: RefCell<HashMap<i32, HolidayMap>>,
}

impl RecordingEnv {
    fn new(now: Date) -> Self {
        Self {
            now,
            holidays: RefCell::new(HashMap::new()),
            output: RefCell::new(Vec::new()),
            store: RefCell::new(HashMap::new()),
        }
    }

    fn with_holidays(self, year: i32, hm: HolidayMap) -> Self {
        self.holidays.borrow_mut().insert(year, hm);
        self
    }

    fn outputs(&self) -> Vec<String> {
        self.output.borrow().clone()
    }

    fn stored(&self, year: i32) -> Option<HolidayMap> {
        self.store.borrow().get(&year).cloned()
    }
}

impl ActionEnvironment for RecordingEnv {
    fn now(&self) -> Date {
        self.now
    }

    fn holidays(&self, year: i32) -> Result<HolidayMap, CalError> {
        Ok(self.holidays.borrow().get(&year).cloned().unwrap_or_default())
    }

    fn load(&self, year: i32) -> Result<HolidayMap, CalError> {
        Ok(self.store.borrow().get(&year).cloned().unwrap_or_default())
    }

    fn save(&self, year: i32, hm: &HolidayMap) -> Result<(), CalError> {
        self.store.borrow_mut().insert(year, hm.clone());
        Ok(())
    }

    fn print(&self, msg: &str) -> Result<(), CalError> {
        self.output.borrow_mut().push(msg.to_string());
        Ok(())
    }

    fn println(&self, msg: &str) -> Result<(), CalError> {
        self.output.borrow_mut().push(msg.to_string());
        Ok(())
    }
}

fn jan_first(year: i32) -> Date {
    Date { year, month: 1, day: 1 }
}

#[test]
fn dispatch_defaults_to_quarter_display() {
    let mut hm = HolidayMap::new();
    hm.insert((1, 1), HolidayEntry::official("New Year's Day".to_string()));
    let env = RecordingEnv::new(jan_first(2024)).with_holidays(2024, hm);
    let args = Args { country: None, action: None };

    args.dispatch(&env).expect("dispatch succeeds");

    let outputs = env.outputs();
    assert_eq!(outputs.len(), 1);
    assert!(outputs[0].contains("January 2024"));
}

#[test]
fn dispatch_list_invokes_list_handler() {
    let env = RecordingEnv::new(jan_first(2024));
    let args = Args { country: None, action: Some(Commands::List { format: None }) };

    args.dispatch(&env).expect("dispatch succeeds");

    assert_eq!(env.outputs(), vec!["No holidays found".to_string()]);
}

#[test]
fn dispatch_display_forwards_mode() {
    let env = RecordingEnv::new(jan_first(2024));
    let args =
        Args { country: None, action: Some(Commands::Display { mode: Some(Mode::Year) }) };

    args.dispatch(&env).expect("dispatch succeeds");

    let outputs = env.outputs();
    assert_eq!(outputs.len(), 1);
    assert!(outputs[0].contains("December 2024"));
}

#[test]
fn dispatch_add_forwards_to_actions() {
    let env = RecordingEnv::new(jan_first(2024));
    let args = Args { country: None, action: Some(Commands::Add { day: 1, month: 5 }) };

    args.dispatch(&env).expect("dispatch succeeds");

    let stored = env.stored(2024).expect("expected stored holidays");
    let entry = stored.get(&(1, 5)).expect("expected entry for added holiday");
    assert_eq!(entry.kind, HolidayKind::Custom);
}

#[test]
fn dispatch_delete_forwards_to_actions() {
    let env = RecordingEnv::new(jan_first(2024));
    let add = Args { country: None, action: Some(Commands::Add { day: 1, month: 5 }) };
    add.dispatch(&env).expect("dispatch succeeds");
    let delete = Args { country: None, action: Some(Commands::Delete { day: 1, month: 5 }) };
    delete.dispatch(&env).expect("dispatch succeeds");

    let stored = env.stored(2024).expect("expected stored holidays");
    assert!(stored.is_empty());
    assert_eq!(env.outputs(), vec!["OK".to_string(), "OK".to_string()]);
}

#[test]
fn dispatch_list_forwards_format() {
    let mut hm = HolidayMap::new();
    hm.insert((1, 1), HolidayEntry::official("New Year's Day".to_string()));
    let env = RecordingEnv::new(jan_first(2024)).with_holidays(2024, hm);
    let args = Args {
        country: None,
        action: Some(Commands::List { format: Some(OutputFormat::Markdown) }),
    };

    args.dispatch(&env).expect("dispatch succeeds");

    let outputs = env.outputs();
    assert_eq!(outputs.len(), 1);
    assert!(outputs[0].starts_with("| Date"));
}

#[test]
fn dispatch_display_without_mode_shows_the_quarter() {
    let env = RecordingEnv::new(jan_first(2024));
    let args = Args { country: None, action: Some(Commands::Display { mode: None }) };

    args.dispatch(&env).expect("dispatch succeeds");

    let outputs = env.outputs();
    assert!(outputs[0].contains("December 2023"));
    assert!(outputs[0].contains("February 2024"));
}

#[test]
fn requested_fills_in_what_is_left_open() {
    let requested = |action: Option<Commands>| Args { country: None, action }.requested();
    assert_eq!(requested(None), Action::Display { mode: Mode::Q });
    assert_eq!(requested(Some(Commands::Display { mode: None })), Action::Display { mode: Mode::Q });
    assert_eq!(
        requested(Some(Commands::Display { mode: Some(Mode::Month) })),
        Action::Display { mode: Mode::Month }
    );
    assert_eq!(
        requested(Some(Commands::List { format: None })),
        Action::List { format: OutputFormat::Table }
    );
    assert_eq!(
        requested(Some(Commands::List { format: Some(OutputFormat::Json) })),
        Action::List { format: OutputFormat::Json }
    );
    assert_eq!(requested(Some(Commands::Add { day: 3, month: 4 })), Action::Add { day: 3, month: 4 });
    assert_eq!(
        requested(Some(Commands::Delete { day: 3, month: 4 })),
        Action::Delete { day: 3, month: 4 }
    );
}

#[test]
fn invoke_validates_the_country_first() {
    let args = Args { country: Some("us".to_string()), action: None };
    let env = args.invoke().expect("valid country");
    assert_eq!(env.provider(), &Provider::OpenHolidays { country_code: "US".to_string() });

    let args = Args { country: None, action: Some(Commands::Add { day: 1, month: 1 }) };
    assert_eq!(args.invoke().expect("no country").provider(), &Provider::ArgentinaDatos);

    let args = Args { country: Some("U_S".to_string()), action: None };
    match args.invoke() {
        Err(error) => assert_eq!(
            error.message(),
            "configuration error: --country must contain only ASCII letters"
        ),
        Ok(_) => panic!("an invalid country was accepted"),
    }
}
