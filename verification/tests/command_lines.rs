use latency_lab::arguments::{complaint, is_text, parse_u64, parse_usize};
use latency_lab::dense_book::config as dense;
use latency_lab::false_sharing::config as sharing;

fn list(arguments: &[&str]) -> Vec<String> {
    arguments.iter().map(|argument| argument.to_string()).collect()
}

fn read_dense(arguments: &[&str]) -> Result<dense::Request, String> {
    dense::Config::parse(&list(arguments))
}

fn read_sharing(arguments: &[&str]) -> Result<sharing::Request, String> {
    sharing::Config::parse(&list(arguments))
}

#[test]
fn numbers_are_read_as_std_reads_them() {
    let samples = [
        "", "0", "7", "+7", "-7", "-0", "+", "-", "++1", "1+", " 1", "1 ", "1_000", "0x10", "007",
        "00000000000000000000000000000000001", "18446744073709551615", "18446744073709551616",
        "+18446744073709551615", "99999999999999999999", "184467440737095516150", "12a", "٣", "1٣",
        "4294967295", "4294967296",
    ];
    for sample in samples {
        assert_eq!(parse_u64(sample), sample.parse::<u64>().ok(), "{sample:?}");
        assert_eq!(parse_usize(sample), sample.parse::<usize>().ok(), "{sample:?}");
    }
    assert_eq!(parse_u64("18446744073709551615"), Some(u64::MAX));
    assert_eq!(parse_u64("18446744073709551616"), None);
}

#[test]
fn texts_are_compared_and_joined() {
    assert!(is_text(&"both".to_string(), "both"));
    assert!(!is_text(&"both".to_string(), "bot"));
    assert!(!is_text(&"Both".to_string(), "both"));
    assert_eq!(complaint("unknown argument: ", &"é".to_string()), "unknown argument: é");
}

#[test]
fn dense_defaults_without_arguments() {
    assert_eq!(
        read_dense(&[]),
        Ok(dense::Request::Run(dense::Config {
            runs: 7,
            selection: dense::Selection::Both,
            warmup: true
        }))
    );
}

#[test]
fn dense_options_are_read() {
    assert_eq!(
        read_dense(&["--runs", "3", "--book", "dense", "--no-warmup"]),
        Ok(dense::Request::Run(dense::Config {
            runs: 3,
            selection: dense::Selection::Dense,
            warmup: false
        }))
    );
    assert_eq!(
        read_dense(&["--book", "dense", "--runs", "3", "--book", "tree", "--runs", "+4"]),
        Ok(dense::Request::Run(dense::Config {
            runs: 4,
            selection: dense::Selection::Tree,
            warmup: true
        }))
    );
    assert_eq!(
        read_dense(&["--book", "tree", "--book", "both"]),
        Ok(dense::Request::Run(dense::Config {
            runs: 7,
            selection: dense::Selection::Both,
            warmup: true
        }))
    );
}

#[test]
fn dense_complaints() {
    let cases: [(&[&str], &str); 11] = [
        (&["--runs"], "--runs requires a positive integer"),
        (&["--runs", "x"], "invalid --runs value: x"),
        (&["--runs", "-1"], "invalid --runs value: -1"),
        (&["--runs", ""], "invalid --runs value: "),
        (&["--runs", "99999999999999999999"], "invalid --runs value: 99999999999999999999"),
        (&["--runs", "0"], "--runs must be greater than zero"),
        (&["--runs", "--book"], "invalid --runs value: --book"),
        (&["--book"], "--book requires both, tree, or dense"),
        (&["--book", "Tree"], "invalid --book value: Tree"),
        (&["--layout"], "unknown argument: --layout"),
        (&["--no-warmup", "7"], "unknown argument: 7"),
    ];
    for (arguments, message) in cases {
        assert_eq!(read_dense(arguments), Err(message.to_string()));
    }
}

#[test]
fn dense_help_and_faults_end_the_reading() {
    assert_eq!(read_dense(&["--help"]), Ok(dense::Request::Help));
    assert_eq!(read_dense(&["-h"]), Ok(dense::Request::Help));
    assert_eq!(read_dense(&["--no-warmup", "-h", "nonsense"]), Ok(dense::Request::Help));
    assert_eq!(read_dense(&["nonsense", "-h"]), Err("unknown argument: nonsense".to_string()));
    assert_eq!(read_dense(&["--runs", "-h"]), Err("invalid --runs value: -h".to_string()));
    assert_eq!(
        read_dense(&["--runs", "0", "--runs", "5"]),
        Err("--runs must be greater than zero".to_string())
    );
}

#[test]
fn sharing_defaults_without_arguments() {
    assert_eq!(
        read_sharing(&[]),
        Ok(sharing::Request::Run(sharing::Config {
            iterations: 50_000_000,
            runs: 7,
            selection: sharing::Selection::Both,
            warmup: true
        }))
    );
}

#[test]
fn sharing_options_are_read() {
    assert_eq!(
        read_sharing(&[
            "--layout",
            "padded",
            "--iterations",
            "18446744073709551615",
            "--no-warmup",
            "--runs",
            "2"
        ]),
        Ok(sharing::Request::Run(sharing::Config {
            iterations: u64::MAX,
            runs: 2,
            selection: sharing::Selection::Padded,
            warmup: false
        }))
    );
    assert_eq!(
        read_sharing(&["--layout", "padded", "--layout", "shared", "--iterations", "9"]),
        Ok(sharing::Request::Run(sharing::Config {
            iterations: 9,
            runs: 7,
            selection: sharing::Selection::Shared,
            warmup: true
        }))
    );
    assert_eq!(
        read_sharing(&["--layout", "padded", "--layout", "both"]),
        read_sharing(&[]),
    );
}

#[test]
fn sharing_complaints() {
    let cases: [(&[&str], &str); 10] = [
        (&["--iterations"], "--iterations requires a positive integer"),
        (&["--iterations", "1.5"], "invalid --iterations value: 1.5"),
        (&["--iterations", "0"], "--iterations must be greater than zero"),
        (&["--runs"], "--runs requires a positive integer"),
        (&["--runs", "many"], "invalid --runs value: many"),
        (&["--runs", "00"], "--runs must be greater than zero"),
        (&["--layout"], "--layout requires both, shared, or padded"),
        (&["--layout", "tree"], "invalid --layout value: tree"),
        (&["--book"], "unknown argument: --book"),
        (&[""], "unknown argument: "),
    ];
    for (arguments, message) in cases {
        assert_eq!(read_sharing(arguments), Err(message.to_string()));
    }
}

#[test]
fn sharing_help_ends_the_reading() {
    assert_eq!(read_sharing(&["--runs", "2", "--help", "--runs"]), Ok(sharing::Request::Help));
    assert_eq!(read_sharing(&["-h"]), Ok(sharing::Request::Help));
    assert_eq!(
        read_sharing(&["--layout", "none", "-h"]),
        Err("invalid --layout value: none".to_string())
    );
}
