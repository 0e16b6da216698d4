use wsp::completion::{build_cases, build_cd_into_body, build_cd_out_body, zsh_wrapper};
use wsp::fetch::{fetch_banner, fetch_plan, progress_line};
use wsp::identity::split_repo_ref;
use wsp::log::{parse_commit_line, parse_commit_log, parse_i64};

#[test]
fn commit_log_parses_lines() {
    let out = "aaaa\x001700000000\x00commit 2\nbbbb\x001699999999\x00commit 1\n";
    let commits = parse_commit_log(out);
    assert_eq!(commits.len(), 2);
    assert_eq!(commits[0].hash, "aaaa");
    assert_eq!(commits[0].timestamp, 1700000000);
    assert_eq!(commits[0].subject, "commit 2");
    assert_eq!(commits[1].subject, "commit 1");
}

#[test]
fn commit_log_empty_and_malformed() {
    assert!(parse_commit_log("").is_empty());
    assert!(parse_commit_log("no separators here\n").is_empty());
    let commits = parse_commit_log("h\x00notanumber\x00subject with \x00 nul\r\nx\x001\x00");
    assert_eq!(commits.len(), 2);
    assert_eq!(commits[0].timestamp, 0);
    assert_eq!(commits[0].subject, "subject with \x00 nul");
    assert_eq!(commits[1].subject, "");
}

#[test]
fn commit_line_needs_two_separators() {
    assert!(parse_commit_line("abc\x00123").is_none());
    let c = parse_commit_line("abc\x00-5\x00").unwrap();
    assert_eq!(c.timestamp, -5);
}

#[test]
fn i64_parsing_matches_std() {
    for s in ["0", "42", "-42", "+7", "", "-", "+", "1a", "9223372036854775807", "9223372036854775808", "-9223372036854775808", "-9223372036854775809", "00012"] {
        assert_eq!(parse_i64(s), s.parse::<i64>().ok(), "{:?}", s);
    }
}

#[test]
fn repo_ref_arguments() {
    assert_eq!(split_repo_ref("github.com/a/b@v1.0"), ("github.com/a/b".to_string(), "v1.0".to_string()));
    assert_eq!(split_repo_ref("github.com/a/b"), ("github.com/a/b".to_string(), String::new()));
    assert_eq!(split_repo_ref("x@y@z"), ("x".to_string(), "y@z".to_string()));
}

#[test]
fn fetch_messages() {
    assert_eq!(fetch_banner(&vec!["api".to_string()]), "Fetching api...");
    assert_eq!(fetch_banner(&vec!["api".to_string(), "web".to_string()]), "Fetching 2 repos...");
    assert_eq!(progress_line("api", None), "  ok    api");
    assert_eq!(progress_line("api", Some("timeout")), "  FAIL  api (timeout)");
}

#[test]
fn fetch_plan_resolves_mirrors() {
    let (targets, bad) = fetch_plan(&vec!["h/o/a".to_string(), "bogus".to_string()], "/m");
    assert_eq!(targets.len(), 1);
    assert_eq!(targets[0].mirror, "/m/h/o/a.git");
    assert_eq!(targets[0].short_name, "a");
    assert_eq!(bad, vec!["bogus".to_string()]);
}

#[test]
fn zsh_cases() {
    let cases = build_cases();
    let patterns: Vec<&str> = cases.iter().map(|c| c.pattern.as_str()).collect();
    assert_eq!(patterns, vec!["new", "remove", "rm"]);
    assert_eq!(cases[0].body, build_cd_into_body("new"));
    assert_eq!(cases[2].body, build_cd_out_body("remove"));
    assert!(build_cd_into_body("new").starts_with("shift\n      command \"$ws_bin\" new \"$@\" || return"));
    let w = zsh_wrapper("/usr/bin/ws");
    assert!(w.contains("  local ws_bin=/usr/bin/ws\n"));
    assert!(w.contains("    rm)\n      shift\n"));
    assert!(w.ends_with("  esac\n}\n\n"));
}
