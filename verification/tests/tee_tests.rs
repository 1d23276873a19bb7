use tee::config::{plan_run, Config, RunAction};
use tee::copy::{append_fan_out, chunk_prefix, open_contents, tee, Destinations, CHUNK_SIZE};
use tee::help::help_text;
use tee::parse::parse_args;

fn args_of(tokens: &[&str]) -> Vec<String> {
    tokens.iter().map(|t| t.to_string()).collect()
}

#[test]
fn new_config_is_empty() {
    let c = Config::new();
    assert!(!c.is_help_set());
    assert!(!c.is_append_set());
    assert!(c.files.is_empty());
}

#[test]
fn parse_append_and_file() {
    let r = parse_args(&args_of(&["tee", "-a", "out.txt"]));
    assert!(r.config.is_append_set());
    assert!(!r.config.is_help_set());
    assert_eq!(r.config.files, vec!["out.txt".to_string()]);
    assert!(r.unknown.is_empty());
}

#[test]
fn parse_help_long() {
    let r = parse_args(&args_of(&["tee", "--help"]));
    assert!(r.config.is_help_set());
}

#[test]
fn parse_help_short() {
    let r = parse_args(&args_of(&["tee", "-h", "x.txt"]));
    assert!(r.config.is_help_set());
    assert_eq!(r.config.files, vec!["x.txt".to_string()]);
}

#[test]
fn parse_help_anywhere_in_list() {
    let r = parse_args(&args_of(&["tee", "out.txt", "--help", "-a"]));
    assert!(r.config.is_help_set());
    let r = parse_args(&args_of(&["tee", "out.txt"]));
    assert!(!r.config.is_help_set());
}

#[test]
fn parse_unknown_option_is_warned_and_skipped() {
    let r = parse_args(&args_of(&["tee", "-x", "out.txt"]));
    assert_eq!(r.unknown, vec!["-x".to_string()]);
    assert_eq!(r.config.files, vec!["out.txt".to_string()]);
    assert!(!r.config.is_help_set());
    assert!(!r.config.is_append_set());
}

#[test]
fn parse_unknown_option_keeps_later_flags() {
    let r = parse_args(&args_of(&["tee", "--verbose", "-a", "a.txt"]));
    assert_eq!(r.unknown, vec!["--verbose".to_string()]);
    assert!(r.config.is_append_set());
    assert_eq!(r.config.files, vec!["a.txt".to_string()]);
}

#[test]
fn parse_duplicate_paths_kept_in_order() {
    let r = parse_args(&args_of(&["tee", "a.txt", "b.txt", "a.txt"]));
    assert_eq!(
        r.config.files,
        vec!["a.txt".to_string(), "b.txt".to_string(), "a.txt".to_string()]
    );
}

#[test]
fn parse_flags_are_idempotent() {
    let r = parse_args(&args_of(&["tee", "-a", "-a", "--help", "-h"]));
    assert!(r.config.is_append_set());
    assert!(r.config.is_help_set());
    assert!(r.config.files.is_empty());
    assert!(r.unknown.is_empty());
}

#[test]
fn parse_lone_dash_is_unknown() {
    let r = parse_args(&args_of(&["tee", "-"]));
    assert_eq!(r.unknown, vec!["-".to_string()]);
    assert!(r.config.files.is_empty());
}

#[test]
fn parse_empty_token_is_a_file() {
    let r = parse_args(&args_of(&["tee", ""]));
    assert_eq!(r.config.files, vec![String::new()]);
}

#[test]
fn parse_program_name_alone() {
    let r = parse_args(&args_of(&["tee"]));
    assert!(!r.config.is_help_set());
    assert!(!r.config.is_append_set());
    assert!(r.config.files.is_empty());
    assert!(r.unknown.is_empty());
}

#[test]
fn plan_help_suppresses_copy() {
    let r = parse_args(&args_of(&["tee", "--help", "out.txt"]));
    assert_eq!(plan_run(&r.config), RunAction::ShowHelp);
}

#[test]
fn plan_without_help_copies() {
    let r = parse_args(&args_of(&["tee", "-a", "out.txt"]));
    assert_eq!(plan_run(&r.config), RunAction::CopyInput);
}

#[test]
fn usage_text_is_the_fixed_block() {
    assert_eq!(
        help_text(),
        "Usage: tee [-a] [-h|--help] [file ...]\n  -a          Append to any file listed rather than truncating\n  -h  --help  This help\n  <file>      Zero or more files to write the output to\n"
    );
}

#[test]
fn chunk_size_is_fixed() {
    assert_eq!(CHUNK_SIZE, 4096);
}

#[test]
fn chunk_prefix_takes_read_bytes_only() {
    let buf = vec![1u8, 2, 3, 4];
    assert_eq!(chunk_prefix(&buf, 2), vec![1u8, 2]);
    assert_eq!(chunk_prefix(&buf, 0), Vec::<u8>::new());
    assert_eq!(chunk_prefix(&buf, 4), buf);
}

#[test]
fn open_truncate_discards_prior_content() {
    let priors = vec![b"prev\n".to_vec(), b"other".to_vec()];
    let opened = open_contents(&priors, false);
    assert_eq!(opened, vec![Vec::<u8>::new(), Vec::<u8>::new()]);
}

#[test]
fn open_append_keeps_prior_content() {
    let priors = vec![b"prev\n".to_vec(), b"other".to_vec()];
    let opened = open_contents(&priors, true);
    assert_eq!(opened, priors);
}

#[test]
fn append_scenario_hello() {
    // Input "hello\n" with `-a out.txt` and pre-existing content "prev\n":
    // stdout gets "hello\n", the file ends as "prev\nhello\n".
    let r = parse_args(&args_of(&["tee", "-a", "out.txt"]));
    assert!(r.config.is_append_set());
    assert_eq!(plan_run(&r.config), RunAction::CopyInput);
    let opened = open_contents(&vec![b"prev\n".to_vec()], r.config.is_append_set());
    let mut dest = Destinations { stdout: Vec::new(), files: opened };
    tee(&mut dest, &vec![b"hello\n".to_vec()]);
    assert_eq!(dest.stdout, b"hello\n".to_vec());
    assert_eq!(dest.files, vec![b"prev\nhello\n".to_vec()]);
}

#[test]
fn truncate_scenario_abc() {
    // Input "abc" with an unknown option "-x" and file out.txt: a warning
    // for "-x", stdout "abc", file content "abc".
    let r = parse_args(&args_of(&["tee", "-x", "out.txt"]));
    assert_eq!(r.unknown, vec!["-x".to_string()]);
    assert!(!r.config.is_append_set());
    let opened = open_contents(&vec![b"stale".to_vec()], r.config.is_append_set());
    let mut dest = Destinations { stdout: Vec::new(), files: opened };
    tee(&mut dest, &vec![b"abc".to_vec()]);
    assert_eq!(dest.stdout, b"abc".to_vec());
    assert_eq!(dest.files, vec![b"abc".to_vec()]);
}

#[test]
fn stdout_equals_input_across_chunkings() {
    let chunkings: [&[&[u8]]; 3] = [
        &[b"he", b"llo world"],
        &[b"hello ", b"world"],
        &[b"hello world"],
    ];
    for chunks in chunkings {
        let owned: Vec<Vec<u8>> = chunks.iter().map(|c| c.to_vec()).collect();
        let mut dest = Destinations { stdout: Vec::new(), files: vec![Vec::new()] };
        tee(&mut dest, &owned);
        assert_eq!(dest.stdout, b"hello world".to_vec());
        assert_eq!(dest.files[0], b"hello world".to_vec());
    }
}

#[test]
fn empty_input_writes_nothing() {
    let mut dest = Destinations { stdout: Vec::new(), files: vec![Vec::new(), b"kept".to_vec()] };
    tee(&mut dest, &Vec::new());
    assert_eq!(dest.stdout, Vec::<u8>::new());
    assert_eq!(dest.files, vec![Vec::<u8>::new(), b"kept".to_vec()]);
}

#[test]
fn every_destination_gets_every_chunk() {
    let mut dest = Destinations {
        stdout: Vec::new(),
        files: vec![Vec::new(), Vec::new(), Vec::new()],
    };
    tee(&mut dest, &vec![b"ab".to_vec(), b"cd".to_vec()]);
    for f in &dest.files {
        assert_eq!(f, &b"abcd".to_vec());
    }
    assert_eq!(dest.stdout, b"abcd".to_vec());
}

#[test]
fn duplicate_append_writers_double_the_input() {
    // Two handles on one underlying file, both in append mode, input in a
    // single chunk: the input lands twice in a row after the prior bytes.
    let mut file = b"prev\n".to_vec();
    append_fan_out(&mut file, &b"hello\n".to_vec(), 2);
    assert_eq!(file, b"prev\nhello\nhello\n".to_vec());
}

#[test]
fn fan_out_to_no_writer_changes_nothing() {
    let mut file = b"prev".to_vec();
    append_fan_out(&mut file, &b"x".to_vec(), 0);
    assert_eq!(file, b"prev".to_vec());
}
