use materialist::errslop::oof;
use materialist::errslop::AuxItem;
use materialist::errslop::Oof;
use materialist::logging::FileLineNo;
use materialist::misc::CompletedProcess;
use materialist::misc::Error;
use materialist::no_args::from_args;
use materialist::no_args::usage;
use materialist::no_args::NoArgs;
use materialist::no_args::Outcome;
use materialist::steamapi::find_collection;
use materialist::steamapi::new_session_string;
use materialist::steamapi::request_collection_details;
use materialist::steamapi::request_many_published_file_details;
use materialist::steamapi::request_published_file_details;
use materialist::steamapi::CollectionDetails;
use materialist::supervisor::on_interrupt;
use materialist::supervisor::on_service_exit;
use materialist::supervisor::Escalation;
use materialist::supervisor::Exit;
use materialist::supervisor::Happening;
use materialist::supervisor::Loudness;
use materialist::supervisor::QuitLevel;
use materialist::supervisor::Reaction;
use materialist::supervisor::Signal;
use materialist::supervisor::Supervisor;
use materialist::supervisor::SystemMsg;
use materialist::supervisor::Task;

fn args(list: &[&str]) -> Vec<String> {
    list.iter().map(|s| s.to_string()).collect()
}

fn asked(list: &[&str]) -> (Outcome, String) {
    let r = from_args(&args(list), "materialist.toml");
    (r.outcome, r.text)
}

#[test]
fn the_command_line() {
    assert_eq!(asked(&[]), (Outcome::Run, "materialist.toml".to_string()));
    assert_eq!(asked(&["a.kdl"]), (Outcome::Run, "a.kdl".to_string()));
    assert_eq!(asked(&["--check"]), (Outcome::Check, "materialist.toml".to_string()));
    assert_eq!(asked(&["a.kdl", "--check"]), (Outcome::Check, "a.kdl".to_string()));
    assert_eq!(asked(&["--check", "a.kdl"]), (Outcome::Check, "a.kdl".to_string()));
    assert_eq!(asked(&["-h", "--bogus"]), (Outcome::Help, "-h".to_string()));
    assert_eq!(asked(&["a", "--help"]), (Outcome::Help, "--help".to_string()));
    assert_eq!(asked(&["--show-default", "-h"]), (Outcome::ShowDefault, "--show-default".to_string()));
    assert_eq!(asked(&["--bogus", "-h"]), (Outcome::UnexpectedOption, "--bogus".to_string()));
    assert_eq!(asked(&["-"]), (Outcome::UnexpectedOption, "-".to_string()));
    assert_eq!(asked(&["a", "b"]), (Outcome::UnexpectedPositional, "b".to_string()));
    assert_eq!(asked(&["a", "b", "-h"]), (Outcome::UnexpectedPositional, "b".to_string()));
    assert_eq!(asked(&["--", "--check"]), (Outcome::Run, "--check".to_string()));
    assert_eq!(asked(&["--check", "--", "-h"]), (Outcome::Check, "-h".to_string()));
    assert_eq!(asked(&["--", "--"]), (Outcome::Run, "--".to_string()));
    assert_eq!(asked(&["--", "a", "-h"]), (Outcome::UnexpectedPositional, "-h".to_string()));
    assert_eq!(asked(&[""]), (Outcome::Run, "".to_string()));
    assert_eq!(NoArgs { path: "x".to_string() }.path(), "x");
}

#[test]
fn how_the_process_exits() {
    assert_eq!(Outcome::Run.exit_code(false), None);
    assert_eq!(Outcome::ShowDefault.exit_code(false), Some(0));
    assert_eq!(Outcome::Check.exit_code(true), Some(0));
    assert_eq!(Outcome::Check.exit_code(false), Some(2));
    assert_eq!(Outcome::Help.exit_code(true), Some(2));
    assert_eq!(Outcome::UnexpectedOption.exit_code(true), Some(2));
    assert_eq!(Outcome::UnexpectedPositional.exit_code(true), Some(2));
    assert_eq!(
        usage("materialist", "materialist.toml"),
        "\x1b[38;5;12musage\x1b[0m » materialist [--show-default] (or) [--check] [materialist.toml]\n\t--check       \tread the config & exit.\n\t              \tfails when config can't be read or is busted\n\t--show-default\tshow default config file to stdout and exit"
    );
}

#[test]
fn a_shutdown_escalates() {
    assert_eq!(QuitLevel::default(), QuitLevel::PoliteQuit);
    assert_eq!(QuitLevel::PoliteQuit.next(), QuitLevel::UnpoliteQuit);
    assert_eq!(QuitLevel::UnpoliteQuit.next(), QuitLevel::Kill);
    assert_eq!(QuitLevel::Kill.next(), QuitLevel::Kill);
    assert_eq!(QuitLevel::PoliteQuit.patience_secs(), 10);
    assert_eq!(QuitLevel::UnpoliteQuit.patience_secs(), 5);
    assert_eq!(QuitLevel::Kill.patience_secs(), 5);
    assert_eq!(QuitLevel::signal(Some(QuitLevel::PoliteQuit)), Signal::Int);
    assert_eq!(QuitLevel::signal(Some(QuitLevel::UnpoliteQuit)), Signal::Term);
    assert_eq!(QuitLevel::signal(Some(QuitLevel::Kill)), Signal::Kill);
    assert_eq!(QuitLevel::signal(None), Signal::Kill);
    assert_eq!(SystemMsg::from(QuitLevel::Kill), SystemMsg::QuitLevel(QuitLevel::Kill));
    assert_eq!(
        on_interrupt(None),
        (Some(QuitLevel::PoliteQuit), Escalation::Announce(QuitLevel::PoliteQuit))
    );
    assert_eq!(
        on_interrupt(Some(QuitLevel::PoliteQuit)),
        (Some(QuitLevel::UnpoliteQuit), Escalation::Announce(QuitLevel::UnpoliteQuit))
    );
    assert_eq!(
        on_interrupt(Some(QuitLevel::UnpoliteQuit)),
        (Some(QuitLevel::Kill), Escalation::Announce(QuitLevel::Kill))
    );
    assert_eq!(on_interrupt(Some(QuitLevel::Kill)), (Some(QuitLevel::Kill), Escalation::Leave));
    assert_eq!(on_service_exit(None), (Some(QuitLevel::PoliteQuit), Some(QuitLevel::PoliteQuit)));
    assert_eq!(on_service_exit(Some(QuitLevel::Kill)), (Some(QuitLevel::Kill), None));
}

#[test]
fn the_supervisor_signals_once_and_waits_for_every_task() {
    let mut s = Supervisor::start();
    assert!(s.busy() && !s.signalled);
    let r = s.step(Happening::Interrupt);
    assert_eq!(r, Reaction { loudness: Loudness::Warn, signal_shutdown: true, finished: false });
    let r = s.step(Happening::Interrupt);
    assert_eq!(r, Reaction { loudness: Loudness::Warn, signal_shutdown: false, finished: false });
    let r = s.step(Happening::Exited(Task::Www, Exit::Clean));
    assert_eq!(r, Reaction { loudness: Loudness::Butt, signal_shutdown: false, finished: false });
    let r = s.step(Happening::Exited(Task::Publish, Exit::Failed));
    assert_eq!(r, Reaction { loudness: Loudness::Crit, signal_shutdown: false, finished: false });
    let r = s.step(Happening::Exited(Task::Db, Exit::Panicked));
    assert_eq!(r, Reaction { loudness: Loudness::Crit, signal_shutdown: false, finished: true });
    assert!(!s.busy());

    let mut s = Supervisor::start();
    let r = s.step(Happening::Exited(Task::Db, Exit::Clean));
    assert_eq!(r, Reaction { loudness: Loudness::Butt, signal_shutdown: true, finished: false });
    assert!(s.signalled && !s.db_running && s.www_running && s.publish_running);
}

#[test]
fn forms_for_the_web_api() {
    let pair = |k: &str, v: &str| (k.to_string(), v.to_string());
    let f = request_published_file_details("1234");
    assert_eq!(f.url, "https://api.steampowered.com/ISteamRemoteStorage/GetPublishedFileDetails/v1/");
    assert_eq!(f.params, vec![pair("itemcount", "1"), pair("publishedfileids[0]", "1234")]);
    let f = request_collection_details("77");
    assert_eq!(f.url, "https://api.steampowered.com/ISteamRemoteStorage/GetCollectionDetails/v1/");
    assert_eq!(f.params, vec![pair("collectioncount", "1"), pair("publishedfileids[0]", "77")]);
    let f = request_many_published_file_details(&args(&["5", "6", "7"]));
    assert_eq!(
        f.params,
        vec![
            pair("publishedfileids[0]", "5"),
            pair("publishedfileids[1]", "6"),
            pair("publishedfileids[2]", "7"),
            pair("itemcount", "3"),
        ]
    );
    let f = request_many_published_file_details(&vec![]);
    assert_eq!(f.params, vec![pair("itemcount", "0")]);
    let many: Vec<String> = (0..150).map(|n| n.to_string()).collect();
    let f = request_many_published_file_details(&many);
    assert_eq!(f.params.len(), 101);
    assert_eq!(f.params[99], pair("publishedfileids[99]", "99"));
    assert_eq!(f.params[100], pair("itemcount", "100"));
}

#[test]
fn the_collection_that_was_asked_for() {
    let c = |id: &str| CollectionDetails { result: 1, publishedfileid: id.to_string(), children: None };
    let found = vec![c("1"), c("2"), c("2")];
    assert_eq!(find_collection(&found, "2"), Some(1));
    assert_eq!(find_collection(&found, "1"), Some(0));
    assert_eq!(find_collection(&found, "3"), None);
    assert_eq!(find_collection(&vec![], "3"), None);
}

#[test]
fn session_strings() {
    let chars = "0123456789ABCDEFGHJKMNPQRSTVWXYZabcdefghjkmnpqrstvwxyz";
    let mut seen = std::collections::BTreeSet::new();
    for _ in 0..50 {
        let s = new_session_string();
        assert_eq!(s.0.chars().count(), 12);
        assert!(s.0.chars().all(|c| chars.contains(c)));
        seen.insert(s.0);
    }
    assert!(seen.len() > 1);
}

#[test]
fn the_context_of_an_error() {
    let place = FileLineNo("src/db.rs", 7);
    let first = vec![AuxItem { label: "sql", value: "SELECT 1".to_string() }];
    let o = Oof::at(place.clone(), first);
    assert_eq!(o.to_string(), "\x1b[3msrc/db.rs:7\x1b[0m\n«\x1b[38;5;12msql\x1b[0m» SELECT 1");
    let o = o.and(vec![
        AuxItem { label: "params", value: "(1,)".to_string() },
        AuxItem { label: "url", value: String::new() },
    ]);
    assert_eq!(o.loc.to_string(), "src/db.rs:7");
    assert_eq!(o.aux.iter().map(|a| a.label).collect::<Vec<_>>(), vec!["sql", "params", "url"]);
    assert_eq!(
        o.to_string(),
        "\x1b[3msrc/db.rs:7\x1b[0m\n«\x1b[38;5;12msql\x1b[0m» SELECT 1\n«\x1b[38;5;12mparams\x1b[0m» (1,)\n«\x1b[38;5;12murl\x1b[0m» "
    );
    assert_eq!(Oof::at(place.clone(), vec![]).to_string(), "\x1b[3msrc/db.rs:7\x1b[0m");
    let fine: Result<u8, &str> = Ok(3);
    assert_eq!(oof(fine, place.clone(), vec![]).unwrap(), 3);
    let bad: Result<u8, &str> = Err("no");
    let wrapped = oof(bad, place, vec![AuxItem { label: "s", value: "v".to_string() }]).unwrap_err();
    assert_eq!(wrapped.err, "no");
    assert_eq!(wrapped.oof.loc.line(), 7);
    assert_eq!(wrapped.oof.aux[0].value, "v");
}

fn process(success: bool, stdout: Result<&str, &str>) -> CompletedProcess {
    CompletedProcess {
        success,
        exit: if success { "exit status: 0" } else { "exit status: 2" }.to_string(),
        stdin: Ok(()),
        stdout: stdout.map(|s| s.to_string()).map_err(|s| s.to_string()),
        stderr: Ok("warned".to_string()),
    }
}

#[test]
fn what_a_subprocess_wrote() {
    assert_eq!(process(true, Ok("out")).successful_output().unwrap(), "out");
    assert!(process(false, Ok("out")).successful_output().is_err());
    assert!(process(true, Err("unread")).successful_output().is_err());
    assert_eq!(process(true, Ok("out")).into_stdout().unwrap(), "out");
    let Err(Error::BadExitOrOutputError { aux }) = process(false, Ok("out")).into_stdout() else {
        panic!("taken")
    };
    let shown: Vec<(&str, &str)> = aux.iter().map(|a| (a.label, a.value.as_str())).collect();
    assert_eq!(
        shown,
        vec![("exit", "exit status: 2"), ("stdout", "Ok#out"), ("stderr", "Ok#warned")]
    );
    let Err(Error::BadExitOrOutputError { aux }) = process(true, Err("unread")).into_stdout() else {
        panic!("taken")
    };
    assert_eq!(aux[1].value, "Err#unread");
}
