use runner_dashboard::runner::{slot_name, Runner, RunnerStatus};
use runner_dashboard::text::{join_path, parent_name, parse_u32, split_fields, split_lines};

#[test]
fn lines_follow_std_rules() {
    let text = "a\r\nb\n\nc";
    let std_lines: Vec<String> = text.lines().map(|s| s.to_string()).collect();
    assert_eq!(split_lines(text), std_lines);
    assert_eq!(split_lines("x\n"), vec!["x".to_string()]);
    assert!(split_lines("").is_empty());
    assert_eq!(split_lines("\n"), vec!["".to_string()]);
    assert_eq!(split_lines("tail\r"), vec!["tail\r".to_string()]);
}

#[test]
fn fields_split_on_spaces_and_tabs() {
    let f = split_fields("  123\t0 \tcom.example.agent ");
    let words: Vec<String> = f.iter().map(|w| w.iter().collect()).collect();
    assert_eq!(words, vec!["123", "0", "com.example.agent"]);
    assert!(split_fields(" \t ").is_empty());
}

#[test]
fn parse_u32_matches_std() {
    for s in ["0", "007", "+1", "4294967295", "4294967296", "", "+", "-0", "1a", " 1", "99999999999"] {
        assert_eq!(parse_u32(s), s.parse::<u32>().ok(), "input {:?}", s);
    }
}

#[test]
fn status_names_and_symbols() {
    assert_eq!(RunnerStatus::Active.as_str(), "active");
    assert_eq!(RunnerStatus::Inactive.as_str(), "inactive");
    assert_eq!(RunnerStatus::Failed.as_str(), "failed");
    assert_eq!(RunnerStatus::NotFound.as_str(), "not-found");
    assert_eq!(RunnerStatus::Active.symbol(), "●");
    assert_eq!(RunnerStatus::Inactive.symbol(), "○");
    assert_eq!(RunnerStatus::Failed.symbol(), "✗");
    assert_eq!(RunnerStatus::NotFound.symbol(), "?");
}

#[test]
fn display_and_slot_names() {
    let r = Runner {
        name: "runner-12".to_string(),
        number: 12,
        repo: "web".to_string(),
        status: RunnerStatus::Active,
        service_name: "actions.runner.u.web-runner-12".to_string(),
        path: "/p".to_string(),
    };
    assert_eq!(r.display_name(), "web-runner-12");
    assert_eq!(slot_name(0), "runner-0");
    assert_eq!(join_path("/a", "b"), "/a/b");
    assert_eq!(join_path("/a/", "b"), "/a/b");
}

#[test]
fn fields_split_on_unicode_whitespace_like_std() {
    let line = "a\u{a0}b\u{2003}\u{3000}c\u{b}d\u{85}e\u{200b}f";
    let f = split_fields(line);
    let words: Vec<String> = f.iter().map(|w| w.iter().collect()).collect();
    let std_words: Vec<String> = line.split_whitespace().map(|s| s.to_string()).collect();
    assert_eq!(words, std_words);
}

#[test]
fn parent_directory_names() {
    let name = |p: &str| parent_name(p).map(|v| v.into_iter().collect::<String>());
    for p in ["/a/b/c", "/a/b/c/", "a/./b", "./a", "/c", "c", "a/../b", "/a/..", "a//b"] {
        let std_name = std::path::Path::new(p)
            .parent()
            .and_then(|q| q.file_name())
            .and_then(|n| n.to_str())
            .map(|s| s.to_string());
        assert_eq!(name(p), std_name, "path {:?}", p);
    }
}
