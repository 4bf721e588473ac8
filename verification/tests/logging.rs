use materialist::ansi::Ansi;
use materialist::logging::alt;
use materialist::logging::clean_journal_key;
use materialist::logging::dbg;
use materialist::logging::err;
use materialist::logging::fmt_kv_slice;
use materialist::logging::opt;
use materialist::logging::result;
use materialist::logging::time;
use materialist::logging::Event;
use materialist::logging::FileLineNo;
use materialist::logging::JournalLogger;
use materialist::logging::KeyValue;
use materialist::logging::Level;
use materialist::logging::WriteLogger;

fn event(lvl: Level, what: &str, kv: Vec<KeyValue>) -> Event {
    Event {
        lvl,
        wher: FileLineNo("src/main.rs", 42),
        when: "28 Oct 2026 12:00:00.000".to_string(),
        what: what.to_string(),
        kv,
    }
}

#[test]
fn test() {
    let plain = WriteLogger { use_colors: false };
    let colors = WriteLogger { use_colors: true };
    let journal = JournalLogger { prefix: "LOG".to_string() };
    let events = vec![
        Event::now(Level::Butt, &format!("wow: {}", 420), FileLineNo("tests/logging.rs", 1), vec![]),
        Event::now(Level::Info, "hello world", FileLineNo("tests/logging.rs", 2), vec![]),
        Event::now(Level::Warn, "yikes", FileLineNo("tests/logging.rs", 3), vec![]),
        Event::now(
            Level::Crit,
            "oof",
            FileLineNo("tests/logging.rs", 4),
            vec![
                KeyValue { k: "happy", v: dbg(&vec!["ducks"]) },
                KeyValue { k: "owo", v: 69.to_string() },
            ],
        ),
    ];
    for e in &events {
        assert!(e.when.len() >= 20 && e.when.contains(':'));
        assert!(plain.line(e).ends_with('\n'));
        assert!(colors.line(e).contains(&e.what));
        assert!(journal.fields(e).len() >= 4);
    }
    assert!(plain.line(&events[0]).contains(" butt tests/logging.rs:1\twow: 420"));
    assert!(plain.line(&events[3]).ends_with("\toof\n\t» happy [\"ducks\"]\n\t» owo 69\n"));
}

#[test]
fn a_plain_line() {
    let e = event(Level::Warn, "yikes", vec![KeyValue { k: "why", v: "because".to_string() }]);
    assert_eq!(
        WriteLogger { use_colors: false }.line(&e),
        "28 Oct 2026 12:00:00.000 warn src/main.rs:42\tyikes\n\t» why because\n"
    );
}

#[test]
fn a_coloured_line() {
    let e = event(Level::Crit, "oof", vec![KeyValue { k: "owo", v: "69".to_string() }]);
    assert_eq!(
        WriteLogger { use_colors: true }.line(&e),
        "\x1b[38;5;8m28 Oct 2026 12:00:00.000\x1b[0m \x1b[38;5;9mcrit\x1b[0m \x1b[3msrc/main.rs:42\x1b[0m  oof\n\t» \x1b[38;5;13mowo\x1b[0m 69\n"
    );
}

#[test]
fn the_fields_of_the_journal() {
    let e = event(
        Level::Info,
        "hello",
        vec![
            KeyValue { k: "item.pk", v: "7".to_string() },
            KeyValue { k: "--", v: "dropped".to_string() },
            KeyValue { k: "owo", v: "69".to_string() },
        ],
    );
    assert_eq!(
        JournalLogger { prefix: "LOG".to_string() }.fields(&e),
        vec![
            "MESSAGE=hello\n\t» item.pk 7\n\t» -- dropped\n\t» owo 69".to_string(),
            "PRIORITY=6".to_string(),
            "CODE_FILE=src/main.rs".to_string(),
            "CODE_LINE=42".to_string(),
            "LOG_ITEM_PK=7".to_string(),
            "LOG_OWO=69".to_string(),
        ]
    );
}

#[test]
fn keys_for_the_journal() {
    assert_eq!(clean_journal_key("owo"), "OWO");
    assert_eq!(clean_journal_key("__item.pk"), "ITEM_PK");
    assert_eq!(clean_journal_key("A1-b2"), "A1_B2");
    assert_eq!(clean_journal_key("aé€😀z"), "A_________Z");
    assert_eq!(clean_journal_key("é€x_"), "X_");
    assert_eq!(clean_journal_key("_-."), "");
    assert_eq!(clean_journal_key(""), "");
}

#[test]
fn levels() {
    assert_eq!(Level::Butt.as_str(), "butt");
    assert_eq!(Level::Info.as_str(), "info");
    assert_eq!(Level::Warn.as_str(), "warn");
    assert_eq!(Level::Crit.as_str(), "crit");
    assert_eq!(Level::Butt.as_priority(), 7);
    assert_eq!(Level::Info.as_priority(), 6);
    assert_eq!(Level::Warn.as_priority(), 4);
    assert_eq!(Level::Crit.as_priority(), 3);
    assert_eq!(Level::Butt.color().0, Ansi::blue().0);
    assert_eq!(Level::Info.color().0, Ansi::green().0);
    assert_eq!(Level::Warn.color().0, Ansi::yellow().0);
    assert_eq!(Level::Crit.color().0, Ansi::red().0);
}

#[test]
fn places_and_colours() {
    let p = FileLineNo("a/b.rs", 0);
    assert_eq!(p.file(), "a/b.rs");
    assert_eq!(p.line(), 0);
    assert_eq!(p.to_string(), "a/b.rs:0");
    assert_eq!(FileLineNo("x", 4_294_967_295).to_string(), "x:4294967295");
    assert_eq!(Ansi::red().fg("stop").to_string(), "\x1b[38;5;9mstop\x1b[0m");
    assert_eq!(Ansi::black().fg("").to_string(), "\x1b[38;5;0m\x1b[0m");
    assert_eq!(Ansi::white().0, "\x1b[38;5;15m");
}

#[test]
fn keys_and_values() {
    let kv = vec![
        KeyValue { k: "a", v: "1".to_string() },
        KeyValue { k: "b", v: String::new() },
    ];
    assert_eq!(fmt_kv_slice(&kv, false), "\n\t» a 1\n\t» b ");
    assert_eq!(
        fmt_kv_slice(&kv, true),
        "\n\t» \x1b[38;5;13ma\x1b[0m 1\n\t» \x1b[38;5;13mb\x1b[0m "
    );
    assert_eq!(fmt_kv_slice(&vec![], true), "");
}

#[test]
fn values_as_they_are_shown() {
    assert_eq!(result(&Ok("fine".to_string())), "Ok#fine");
    assert_eq!(result(&Err("bad".to_string())), "Err#bad");
    assert_eq!(opt(&Some("x".to_string())), "x");
    assert_eq!(opt(&None), "None");
    assert_eq!(dbg("a\"b"), "\"a\\\"b\"");
    assert_eq!(time(std::time::Duration::from_millis(1500)), "1.5s");
    assert_eq!(err(Some(3)), "Some(3)");
    assert_eq!(alt(5), "5");
}
