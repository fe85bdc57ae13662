use nonblock_logger::{BaseFilter, Error, Filter, Level, LevelFilter, Record};

fn record(level: Level, target: &str) -> Record {
    Record::new(level, target.to_string(), None, None, String::new())
}

#[test]
fn it_works() {
    assert_eq!(2 + 2, 4);
}

#[test]
fn prefix_of_another_rule_is_refused() {
    let f = BaseFilter::new()
        .starts_with(true)
        .chain("net", LevelFilter::Info)
        .chain("net.http", LevelFilter::Debug);
    match f.built() {
        Err(Error::Desc(text)) => assert_eq!(text, "dedup token effect"),
        _ => panic!("overlapping rules were accepted"),
    }
}

#[test]
fn prefix_of_another_rule_is_refused_in_any_order() {
    let f = BaseFilter::new()
        .starts_with(true)
        .chain("net.http", LevelFilter::Debug)
        .chain("db", LevelFilter::Warn)
        .chain("net", LevelFilter::Info);
    assert!(f.built().is_err());
    let g = BaseFilter::new()
        .starts_with(true)
        .chain("a", LevelFilter::Debug)
        .chain("b", LevelFilter::Warn)
        .chain("a-b", LevelFilter::Info);
    assert!(g.built().is_err());
}

#[test]
fn prefix_rules_are_accepted_in_exact_mode() {
    let f = BaseFilter::new()
        .chain("net", LevelFilter::Info)
        .chain("net.http", LevelFilter::Debug)
        .built()
        .unwrap();
    assert!(f.check("net", Level::Info));
    assert!(!f.check("net", Level::Debug));
    assert!(f.check("net.http", Level::Debug));
    assert!(!f.check("net.http", Level::Trace));
    assert!(f.check("net.ftp", Level::Trace));
}

#[test]
fn equal_rules_are_refused_in_both_modes() {
    let exact = BaseFilter::new().chain("a", LevelFilter::Info).chain("a", LevelFilter::Warn);
    assert!(exact.built().is_err());
    let prefix = BaseFilter::new()
        .starts_with(true)
        .chain("a", LevelFilter::Info)
        .chain("a", LevelFilter::Info);
    assert!(prefix.boxed().is_err());
}

#[test]
fn prefix_mode_matches_by_prefix() {
    let f = BaseFilter::new()
        .starts_with(true)
        .notfound(false)
        .chain("tokio", LevelFilter::Warn)
        .chain("app::db", LevelFilter::Debug)
        .chain("app::web", LevelFilter::Off)
        .chain("hyper", LevelFilter::Error)
        .built()
        .unwrap();
    assert!(f.starts_with_get());
    assert!(f.check("tokio::runtime", Level::Warn));
    assert!(f.check("tokio", Level::Error));
    assert!(!f.check("tokio::runtime", Level::Info));
    assert!(f.check("app::db::pool", Level::Debug));
    assert!(!f.check("app::db::pool", Level::Trace));
    assert!(!f.check("app::web", Level::Error));
    assert!(f.check("hyper::client", Level::Error));
    assert!(!f.check("hyper::client", Level::Warn));
    assert!(!f.check("app", Level::Error));
    assert!(!f.check("zzz", Level::Error));
    assert!(!f.check("", Level::Error));
    assert!(!f.check("toki", Level::Error));
}

#[test]
fn unmatched_targets_follow_the_policy() {
    let pass = BaseFilter::new().chain("a", LevelFilter::Off).built().unwrap();
    assert!(pass.check("b", Level::Trace));
    assert!(!pass.check("a", Level::Error));
    let deny = BaseFilter::new().notfound(false).chain("a", LevelFilter::Trace).built().unwrap();
    assert!(!deny.check("b", Level::Error));
    assert!(deny.check("a", Level::Trace));
}

#[test]
fn the_decision_does_not_depend_on_the_order_of_the_rules() {
    let names = ["m", "c", "x", "a", "k", "e", "ma", "é", "ab"];
    let levels = [
        LevelFilter::Off,
        LevelFilter::Error,
        LevelFilter::Warn,
        LevelFilter::Info,
        LevelFilter::Debug,
        LevelFilter::Trace,
        LevelFilter::Warn,
        LevelFilter::Info,
        LevelFilter::Error,
    ];
    let mut forward = BaseFilter::new();
    let mut backward = BaseFilter::new();
    for i in 0..names.len() {
        forward = forward.chain(names[i], levels[i]);
        let j = names.len() - 1 - i;
        backward = backward.chain(names[j], levels[j]);
    }
    let forward = forward.built().unwrap();
    let backward = backward.built().unwrap();
    let all = [Level::Error, Level::Warn, Level::Info, Level::Debug, Level::Trace];
    for target in ["m", "c", "x", "a", "k", "e", "ma", "é", "ab", "b", "", "zz", "mab"] {
        for level in all {
            let first = forward.check(target, level);
            assert_eq!(first, backward.check(target, level));
            assert_eq!(first, forward.check(target, level));
        }
    }
    assert!(forward.check("é", Level::Info));
    assert!(!forward.check("é", Level::Debug));
}

#[test]
fn ceiling_without_rules_is_the_base() {
    assert_eq!(BaseFilter::new().max_level_get(), LevelFilter::Trace);
    assert_eq!(BaseFilter::new().max_level(LevelFilter::Warn).max_level_get(), LevelFilter::Warn);
    assert_eq!(
        BaseFilter::new().max_level(LevelFilter::Warn).notfound(false).max_level_get(),
        LevelFilter::Warn
    );
    assert_eq!(BaseFilter::default().max_level_get(), LevelFilter::Trace);
}

#[test]
fn ceiling_with_rules_is_the_most_verbose_rule() {
    let f = BaseFilter::new()
        .max_level(LevelFilter::Error)
        .chain("a", LevelFilter::Info)
        .chain("b", LevelFilter::Debug)
        .chain("c", LevelFilter::Warn);
    assert_eq!(f.max_level_get(), LevelFilter::Debug);
    let f = f.notfound(false);
    assert_eq!(f.max_level_get(), LevelFilter::Debug);
}

#[test]
fn ceiling_takes_the_base_in_only_where_unmatched_targets_pass() {
    let f = BaseFilter::new().max_level(LevelFilter::Trace).chain("a", LevelFilter::Info);
    assert_eq!(f.max_level_get(), LevelFilter::Trace);
    let f = f.notfound(false);
    assert_eq!(f.max_level_get(), LevelFilter::Info);
}

#[test]
fn building_stores_the_ceiling() {
    let f = BaseFilter::new()
        .max_level(LevelFilter::Error)
        .chain("a", LevelFilter::Info)
        .boxed()
        .unwrap();
    assert_eq!(f.maxlevel(), LevelFilter::Info);
    assert_eq!(f.max_level_get(), LevelFilter::Info);
}

#[test]
fn chain_iter_adds_all_rules() {
    let f = BaseFilter::new()
        .chain_iter(vec![("b".to_string(), LevelFilter::Warn), ("a".to_string(), LevelFilter::Info)])
        .built()
        .unwrap();
    assert!(f.check("a", Level::Info));
    assert!(!f.check("b", Level::Info));
    assert!(f.check("b", Level::Warn));
}

#[test]
fn filter_trait_reads_the_record() {
    let f = BaseFilter::new()
        .starts_with(true)
        .chain("net", LevelFilter::Warn)
        .boxed()
        .unwrap();
    assert!(f.log(&record(Level::Error, "net::tcp")));
    assert!(!f.log(&record(Level::Info, "net::tcp")));
    assert!(f.log(&record(Level::Trace, "other")));
    assert!(f.enabled("net", Level::Warn));
    assert!(!f.enabled("net", Level::Debug));
}

#[test]
fn levels_are_ordered_by_verbosity() {
    assert!(LevelFilter::Warn.allows(Level::Error));
    assert!(LevelFilter::Warn.allows(Level::Warn));
    assert!(!LevelFilter::Warn.allows(Level::Info));
    assert!(!LevelFilter::Off.allows(Level::Error));
    assert!(LevelFilter::Trace.allows(Level::Trace));
    assert_eq!(Level::Error.rank(), 1);
    assert_eq!(Level::Trace.rank(), 5);
    assert_eq!(LevelFilter::Off.rank(), 0);
    assert_eq!(LevelFilter::Info.max(LevelFilter::Debug), LevelFilter::Debug);
    assert_eq!(LevelFilter::Info.max(LevelFilter::Off), LevelFilter::Info);
    assert!(Level::Error < Level::Trace);
    assert!(LevelFilter::Off < LevelFilter::Error);
}
