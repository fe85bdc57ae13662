use nonblock_logger::formater::{decimal_text, render};
use nonblock_logger::lifecycle::{step, Action, Event, Phase};
use nonblock_logger::text::{compare_bytes, starts_with_bytes, Placement};
use nonblock_logger::formater::format_stamped;
use nonblock_logger::{
    thread_label, thread_number, BaseFormater, Error, FixedLevel, Formater, Level, Record,
};

#[test]
fn numbers_are_rendered_in_decimal() {
    assert_eq!(decimal_text(0), "0");
    assert_eq!(decimal_text(7), "7");
    assert_eq!(decimal_text(10), "10");
    assert_eq!(decimal_text(1234567890), "1234567890");
    assert_eq!(decimal_text(u64::MAX), "18446744073709551615");
}

#[test]
fn thread_labels_hold_number_and_name() {
    assert_eq!(thread_label(1, Some("main")), "1.main");
    assert_eq!(thread_label(42, None), "42.****");
    assert_eq!(thread_label(0, Some("")), "0.");
}

#[test]
fn level_tags_have_five_characters() {
    assert_eq!(FixedLevel::new(Level::Trace).as_str(), "TRACE");
    assert_eq!(FixedLevel::new(Level::Debug).as_str(), "DEBUG");
    assert_eq!(FixedLevel::new(Level::Info).as_str(), "INFO ");
    assert_eq!(FixedLevel::new(Level::Warn).as_str(), "WARN ");
    assert_eq!(FixedLevel::new(Level::Error).as_str(), "ERROR");
}

#[test]
fn level_tags_are_cut_to_the_length() {
    assert_eq!(FixedLevel::new(Level::Error).length(1).as_str(), "E");
    assert_eq!(FixedLevel::new(Level::Info).length(4).as_str(), "INFO");
    assert_eq!(FixedLevel::new(Level::Warn).length(0).as_str(), "");
    assert_eq!(FixedLevel::new(Level::Warn).length(5).as_str(), "WARN ");
}

#[test]
fn a_line_holds_all_the_fields_in_order() {
    let line = render("2024-01-02 03:04:05.678", "INFO ", "1.main", "src/a.rs", 12, "app::db", "ready");
    assert_eq!(line, "2024-01-02 03:04:05.678 INFO  [1.main] (src/a.rs:12) [app::db] -- ready\n");
}

#[test]
fn unknown_file_and_line_are_a_star_and_zero() {
    let record = Record::new(Level::Warn, "t".to_string(), None, None, "b".to_string());
    let base = BaseFormater::new().level(1);
    assert_eq!(base.format_at(&record, "S", "2.****"), "S W [2.****] (*:0) [t] -- b\n");
    assert_eq!(base.level_get(), 1);
}

#[test]
fn the_formatter_reads_the_clock() {
    let record = Record::new(
        Level::Error,
        "app".to_string(),
        Some("f.rs".to_string()),
        Some(3),
        "body".to_string(),
    );
    let base = BaseFormater::default();
    assert!(!base.local_get());
    assert_eq!(base.datetime_get(), "%Y-%m-%d %H:%M:%S.%3f");
    let line = nonblock_logger::formater::format(&base, &record, "1.main").unwrap();
    let tail = " ERROR [1.main] (f.rs:3) [app] -- body\n";
    assert!(line.ends_with(tail));
    let stamp = &line[..line.len() - tail.len()];
    assert_eq!(stamp.len(), 23);
    assert_eq!(&stamp[4..5], "-");
    assert_eq!(&stamp[10..11], " ");
    assert_eq!(&stamp[19..20], ".");
    assert!(stamp[..4].parse::<u32>().unwrap() >= 2024);
    let year = base.clone().datetime("%Y");
    let utc = year.format(&record, "t").unwrap();
    let local = year.local(true).format(&record, "t").unwrap();
    assert_eq!(utc.len(), local.len());
    assert!(local.ends_with(" ERROR [t] (f.rs:3) [app] -- body\n"));
}

#[test]
fn a_pattern_without_fields_is_copied() {
    let record = Record::new(Level::Info, "t".to_string(), None, Some(9), "b".to_string());
    let base = BaseFormater::new().datetime("now").boxed();
    assert_eq!(base.format(&record, "x").unwrap(), "now INFO  [x] (*:9) [t] -- b\n");
    let local = BaseFormater::new().datetime("").local(true);
    assert!(local.local_get());
    assert_eq!(local.format(&record, "x").unwrap(), " INFO  [x] (*:9) [t] -- b\n");
}

#[test]
fn a_refused_pattern_is_an_error() {
    let record = Record::new(Level::Info, "t".to_string(), None, None, "b".to_string());
    for base in [BaseFormater::new().datetime("%Q"), BaseFormater::new().datetime("%Q").local(true)] {
        match base.format(&record, "x") {
            Err(Error::Desc(text)) => assert_eq!(text, "invalid datetime format"),
            _ => panic!("the pattern was accepted"),
        }
    }
}

#[test]
fn errors_show_their_text() {
    assert_eq!(Error::desc("why").to_string(), "why");
    assert_eq!(Error::from("because".to_string()).to_string(), "because");
    let io = std::io::Error::new(std::io::ErrorKind::Other, "no space");
    match Error::from(io) {
        Error::Io(inner) => assert_eq!(Error::Io(inner).to_string(), "no space"),
        _ => panic!("not an i/o error"),
    }
}

#[test]
fn bytes_compare_as_in_a_dictionary() {
    assert_eq!(compare_bytes(b"", b""), Placement::Same);
    assert_eq!(compare_bytes(b"", b"a"), Placement::Before);
    assert_eq!(compare_bytes(b"a", b""), Placement::After);
    assert_eq!(compare_bytes(b"ab", b"abc"), Placement::Before);
    assert_eq!(compare_bytes(b"abd", b"abc"), Placement::After);
    assert_eq!(compare_bytes(b"b", b"abc"), Placement::After);
    assert_eq!(compare_bytes(b"abc", b"abc"), Placement::Same);
    assert_eq!(compare_bytes("é".as_bytes(), b"z"), Placement::After);
    for (a, b) in [("", "x"), ("net", "net.http"), ("a", "b"), ("ab", "b"), ("é", "z"), ("z", "é")] {
        let expected = match a.cmp(b) {
            std::cmp::Ordering::Less => Placement::Before,
            std::cmp::Ordering::Equal => Placement::Same,
            std::cmp::Ordering::Greater => Placement::After,
        };
        assert_eq!(compare_bytes(a.as_bytes(), b.as_bytes()), expected);
        assert_eq!(starts_with_bytes(b.as_bytes(), a.as_bytes()), b.starts_with(a));
    }
    assert!(starts_with_bytes(b"abc", b""));
    assert!(starts_with_bytes(b"abc", b"abc"));
    assert!(!starts_with_bytes(b"ab", b"abc"));
    assert!(!starts_with_bytes(b"abc", b"b"));
}

#[test]
fn the_phases_follow_one_another() {
    assert_eq!(step(Phase::Constructing, Event::Install), (Phase::Installed, Action::Spawn));
    assert_eq!(step(Phase::Installed, Event::Join), (Phase::Stopping, Action::SendStop));
    assert_eq!(step(Phase::Stopping, Event::Drained), (Phase::Exited, Action::MarkExited));
    assert_eq!(step(Phase::Stopping, Event::Join), (Phase::Stopping, Action::Nothing));
    assert_eq!(step(Phase::Installed, Event::Drained), (Phase::Installed, Action::Nothing));
    assert_eq!(step(Phase::Constructing, Event::Join), (Phase::Constructing, Action::Nothing));
    for event in [Event::Install, Event::Join, Event::Drained] {
        assert_eq!(step(Phase::Exited, event), (Phase::Exited, Action::Nothing));
    }
    assert_eq!(Phase::Constructing.rank(), 0);
    assert_eq!(Phase::Exited.rank(), 3);
}

struct Silent;

impl log::Log for Silent {
    fn enabled(&self, _metadata: &log::Metadata) -> bool {
        false
    }

    fn log(&self, _record: &log::Record) {}

    fn flush(&self) {}
}

#[test]
fn a_second_registration_shows_the_text_of_the_facade() {
    let first = log::set_logger(&Silent);
    let second = log::set_logger(&Silent).unwrap_err();
    let expected = second.to_string();
    assert_eq!(expected, "attempted to set a logger after the logging system was already initialized");
    assert_eq!(Error::from(second).to_string(), expected);
    assert!(first.is_ok());
}

#[test]
fn the_number_of_a_thread_is_what_its_digits_spell() {
    assert_eq!(thread_number("ThreadId(1)"), 1);
    assert_eq!(thread_number("ThreadId(42)"), 42);
    assert_eq!(thread_number("ThreadId()"), 0);
    assert_eq!(thread_number(""), 0);
    assert_eq!(thread_number("a1b2c3"), 123);
    assert_eq!(thread_number("007"), 7);
    assert_eq!(thread_number("18446744073709551615"), u64::MAX);
    assert_eq!(thread_number("18446744073709551616"), 0);
    assert_eq!(thread_number("184467440737095516150"), 0);
    assert_eq!(thread_number("é9"), 9);
}

#[test]
fn a_line_is_rendered_exactly_where_a_timestamp_was_read() {
    let record = Record::new(Level::Info, "t".to_string(), None, Some(9), "b".to_string());
    let base = BaseFormater::new();
    assert_eq!(
        format_stamped(&base, &record, Some("S".to_string()), "x").unwrap(),
        "S INFO  [x] (*:9) [t] -- b\n"
    );
    match format_stamped(&base, &record, None, "x") {
        Err(Error::Desc(text)) => assert_eq!(text, "invalid datetime format"),
        _ => panic!("rendered without a timestamp"),
    }
}
