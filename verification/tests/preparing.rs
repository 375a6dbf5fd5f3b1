use std::sync::Arc;

use gemlite::config::CfgEntry;
use gemlite::files::ReadFile;
use gemlite::preflight::{rotation_order, valid_positions, Preflight, PreflightError};
use gemlite::preparation::{
    begin_preflight, run_preflight, start_preflight, try_preflight, FileStat, PreflightEvent,
    PreflightRun, PreflightStep,
};
use gemlite::reading::{
    check_file_size, name_list_error, parse_file_paths, read_file, MAX_FILE_BYTES,
    MAX_TOTAL_FILE_BYTES,
};

fn cfg(api_key: &str, model: &str) -> CfgEntry {
    CfgEntry {
        api_key: api_key.to_string(),
        system_prompt: String::new(),
        model: model.to_string(),
        enable_grounding: false,
    }
}

fn stat(len: u64, modified: Option<u64>) -> PreflightEvent {
    PreflightEvent::Stat(Ok(FileStat { len, modified }))
}

fn bytes(data: &[u8]) -> PreflightEvent {
    PreflightEvent::Data(Ok(data.to_vec()))
}

fn keys(list: Vec<CfgEntry>) -> PreflightEvent {
    PreflightEvent::Configs(Some(Arc::new(list)))
}

fn failed(status: &'static str, message: &str) -> PreflightStep {
    PreflightStep::Failed(PreflightError::new(status, message.to_string()))
}

fn run(start: PreflightStep, events: Vec<PreflightEvent>) -> PreflightStep {
    let mut step = start;
    for event in events {
        step = match step {
            PreflightStep::Next(run) => run_preflight(run, event),
            over => panic!("told {event:?} after {over:?}"),
        };
    }
    step
}

#[test]
fn no_list_names_no_files() {
    assert_eq!(parse_file_paths(""), Ok(Vec::new()));
    assert_eq!(parse_file_paths("[]"), Ok(Vec::new()));
}

#[test]
fn listed_paths_are_read() {
    assert_eq!(
        parse_file_paths(r#"["a.txt", "b \"c\".png"]"#),
        Ok(vec!["a.txt".to_string(), "b \"c\".png".to_string()])
    );
}

#[test]
fn bad_list_is_named() {
    let message = parse_file_paths("notes.txt").unwrap_err();
    assert_eq!(message, "bad file_path JSON: expected ident at line 1 column 2");
    assert!(parse_file_paths("[1]").unwrap_err().starts_with("bad file_path JSON: invalid type"));
    assert_eq!(name_list_error(Err("why".to_string())), Err("bad file_path JSON: why".to_string()));
    assert_eq!(
        start_preflight("notes.txt"),
        failed("BAD_FILE_PATH_JSON", "bad file_path JSON: expected ident at line 1 column 2")
    );
}

#[test]
fn size_limit_is_inclusive() {
    assert_eq!(MAX_FILE_BYTES, 209_715_200);
    assert_eq!(MAX_TOTAL_FILE_BYTES, 524_288_000);
    assert_eq!(check_file_size("p", MAX_FILE_BYTES), Ok(()));
    assert_eq!(
        check_file_size("p", MAX_FILE_BYTES + 1),
        Err("'p' exceeds max upload size of 209715200 bytes".to_string())
    );
}

#[test]
fn files_are_taken_or_refused() {
    assert_eq!(
        read_file("a.txt", Ok(vec![65, 66]), 9),
        Ok(ReadFile {
            path: "a.txt".to_string(),
            data: vec![65, 66],
            mime: "text/plain".to_string(),
            size: 2,
            modified: 9,
        })
    );
    assert_eq!(read_file("a.txt", Ok(vec![]), 9), Err("'a.txt' is empty".to_string()));
    assert_eq!(
        read_file("a.txt", Err("no such file".to_string()), 9),
        Err("cannot read 'a.txt': no such file".to_string())
    );
}

#[test]
fn usable_configurations_are_found() {
    let list = vec![cfg("", "m"), cfg("a", "m"), cfg("b", ""), cfg("c", "m")];
    assert_eq!(valid_positions(&list), vec![1, 3]);
    assert_eq!(valid_positions(&Vec::new()), Vec::<usize>::new());
}

#[test]
fn order_goes_round() {
    assert_eq!(rotation_order(4, 0), vec![0, 1, 2, 3]);
    assert_eq!(rotation_order(4, 6), vec![2, 3, 0, 1]);
    assert_eq!(rotation_order(1, 7), vec![0]);
    assert_eq!(rotation_order(3, usize::MAX).len(), 3);
    assert_eq!(rotation_order(3, usize::MAX)[0], usize::MAX % 3);
}

#[test]
fn everything_is_settled_in_turn() {
    let list = vec![cfg("a", "m1"), cfg("", "m"), cfg("b", "m2")];
    let step = run(
        start_preflight(r#"["a.txt", "b.png"]"#),
        vec![
            stat(2, Some(1)),
            stat(3, None),
            stat(2, Some(7)),
            bytes(b"hi"),
            stat(3, None),
            bytes(b"abc"),
            keys(list),
            PreflightEvent::Network(true),
            PreflightEvent::Rotation(3),
        ],
    );
    let PreflightStep::Ready(pre) = step else { panic!("not settled") };
    assert_eq!(
        pre,
        Preflight {
            read_files: vec![
                ReadFile {
                    path: "a.txt".to_string(),
                    data: b"hi".to_vec(),
                    mime: "text/plain".to_string(),
                    size: 2,
                    modified: 7,
                },
                ReadFile {
                    path: "b.png".to_string(),
                    data: b"abc".to_vec(),
                    mime: "image/png".to_string(),
                    size: 3,
                    modified: 0,
                },
            ],
            cfg_snapshot: Arc::new(vec![cfg("a", "m1"), cfg("", "m"), cfg("b", "m2")]),
            valid: vec![0, 2],
            order: vec![1, 0],
        }
    );
    assert_eq!(pre.cfg_at(0), &cfg("a", "m1"));
    assert_eq!(pre.cfg_at(1), &cfg("b", "m2"));
}

#[test]
fn without_files_the_keys_come_first() {
    assert_eq!(
        start_preflight(""),
        PreflightStep::Next(PreflightRun::Snapshot { read_files: Vec::new() })
    );
}

#[test]
fn missing_metadata_is_refused() {
    let list = || begin_preflight(Ok(vec!["p".to_string()]));
    let missing = || PreflightEvent::Stat(Err("gone".to_string()));
    let refusal = || failed("FILE_READ_ERROR", "cannot stat 'p': gone");
    assert_eq!(run(list(), vec![missing()]), refusal());
    assert_eq!(run(list(), vec![stat(1, None), missing()]), refusal());
}

#[test]
fn sizes_are_added_before_any_file_is_read() {
    let list = || begin_preflight(Ok(vec!["p".to_string(), "q".to_string()]));
    assert_eq!(
        run(list(), vec![stat(MAX_TOTAL_FILE_BYTES, None), stat(1, None)]),
        failed(
            "TOTAL_FILE_SIZE_EXCEEDED",
            "combined size of all files (524288001 bytes) exceeds max total upload size of \
             524288000 bytes"
        )
    );
    let step = run(list(), vec![stat(MAX_TOTAL_FILE_BYTES - 1, None), stat(1, None)]);
    assert!(matches!(step, PreflightStep::Next(PreflightRun::Checking { .. })));
}

#[test]
fn bad_files_are_refused() {
    let list = || begin_preflight(Ok(vec!["p".to_string()]));
    assert_eq!(
        run(list(), vec![stat(MAX_FILE_BYTES + 1, None), stat(MAX_FILE_BYTES + 1, None)]),
        failed("FILE_READ_ERROR", "'p' exceeds max upload size of 209715200 bytes")
    );
    assert_eq!(
        run(list(), vec![stat(1, None), stat(1, None), bytes(b"")]),
        failed("FILE_READ_ERROR", "'p' is empty")
    );
    assert_eq!(
        run(
            list(),
            vec![stat(1, None), stat(1, None), PreflightEvent::Data(Err("denied".to_string()))]
        ),
        failed("FILE_READ_ERROR", "cannot read 'p': denied")
    );
}

#[test]
fn keys_and_network_are_needed() {
    assert_eq!(
        run(start_preflight(""), vec![PreflightEvent::Configs(None)]),
        failed("LOCK_POISONED", "configuration lock is poisoned")
    );
    assert_eq!(
        run(start_preflight(""), vec![keys(vec![cfg("", "m")])]),
        failed("NO_VALID_CONFIG", "no valid configuration found")
    );
    assert_eq!(
        run(start_preflight(""), vec![keys(vec![cfg("k", "m")]), PreflightEvent::Network(false)]),
        failed(
            "NETWORK_UNAVAILABLE",
            "no network connection, aborting before trying api keys"
        )
    );
}

#[test]
fn tellable_files_are_taken() {
    let list = || begin_preflight(Ok(vec!["p.txt".to_string()]));
    let reading = || match run(list(), vec![stat(1, None), stat(1, None)]) {
        PreflightStep::Next(run) => run,
        over => panic!("{over:?}"),
    };
    assert_eq!(
        try_preflight(reading(), bytes(b"x")),
        Some(run_preflight(reading(), bytes(b"x")))
    );
    assert_eq!(
        try_preflight(reading(), bytes(b"")),
        Some(failed("FILE_READ_ERROR", "'p.txt' is empty"))
    );
}

#[test]
fn windows_path_gets_its_type() {
    let path = r"C:\Users\me\notes.txt";
    let file = read_file(path, Ok(vec![65]), 9).unwrap();
    assert_eq!(file.mime, "text/plain");
    assert_eq!(file.path, path);
}
