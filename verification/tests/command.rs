use kaeo::command::{find_case, marker_of, Case, Command, InvariantViolation, ParseError};
use kaeo::header::Banner;

fn strings(items: &[&str]) -> Vec<String> {
    items.iter().map(|s| s.to_string()).collect()
}

#[test]
fn braces_win_over_later_percent() {
    let tokens = strings(&["run", "{}", "%", "%%"]);
    assert_eq!(find_case(&tokens), (Case::OnePath, 1));
}

#[test]
fn braces_win_inside_one_token() {
    let tokens = strings(&["run", "--out=%%{}%"]);
    assert_eq!(find_case(&tokens), (Case::OnePath, 1));
}

#[test]
fn doubled_percent_before_braces() {
    let tokens = strings(&["run", "-x", "%%", "{}", "%"]);
    assert_eq!(find_case(&tokens), (Case::AllPathsQuoted, 2));
}

#[test]
fn lone_percent_is_all_paths() {
    let tokens = strings(&["run", "%", "%%"]);
    assert_eq!(find_case(&tokens), (Case::AllPaths, 1));
}

#[test]
fn earliest_token_wins() {
    let tokens = strings(&["%", "{}"]);
    assert_eq!(find_case(&tokens), (Case::AllPaths, 0));
}

#[test]
fn no_marker_is_no_path() {
    let tokens = strings(&["ls", "-l", "{", "}"]);
    assert_eq!(find_case(&tokens), (Case::NoPath, 0));
    assert_eq!(find_case(&[]), (Case::NoPath, 0));
}

#[test]
fn marker_inside_longer_token() {
    assert_eq!(marker_of("--file={}"), Some(Case::OnePath));
    assert_eq!(marker_of("100%"), Some(Case::AllPaths));
    assert_eq!(marker_of("a%%b"), Some(Case::AllPathsQuoted));
    assert_eq!(marker_of("a%b%"), Some(Case::AllPaths));
    assert_eq!(marker_of("}{"), None);
    assert_eq!(marker_of(""), None);
    assert_eq!(marker_of("é{}"), Some(Case::OnePath));
}

#[test]
fn new_splits_like_a_shell() {
    let command = Command::new("echo \"a b\" 'c d' e\\ f".to_string()).unwrap();
    assert_eq!(command.tokens(), &strings(&["echo", "a b", "c d", "e f"]));
    assert_eq!(command.case(), Case::NoPath);
    assert_eq!(command.placeholder_index(), 0);
}

#[test]
fn new_finds_the_placeholder() {
    let command = Command::new("cat -n {}".to_string()).unwrap();
    assert_eq!(command.tokens(), &strings(&["cat", "-n", "{}"]));
    assert_eq!(command.case(), Case::OnePath);
    assert_eq!(command.placeholder_index(), 2);
}

#[test]
fn new_rejects_an_open_quote() {
    assert_eq!(Command::new("echo 'open".to_string()).err(), Some(ParseError::Invalid));
    assert_eq!(Command::new("echo \"open".to_string()).err(), Some(ParseError::Invalid));
    assert_eq!(Command::new("echo trailing\\".to_string()).err(), Some(ParseError::Invalid));
}

#[test]
fn new_rejects_an_empty_line() {
    assert_eq!(Command::new(String::new()).err(), Some(ParseError::Empty));
    assert_eq!(Command::new("   \t ".to_string()).err(), Some(ParseError::Empty));
    assert_eq!(Command::new("# only a comment".to_string()).err(), Some(ParseError::Empty));
}

#[test]
fn from_tokens_rejects_no_words() {
    assert_eq!(Command::from_tokens(Vec::new()).err(), Some(ParseError::Empty));
    let command = Command::from_tokens(strings(&["a b", "%"])).unwrap();
    assert_eq!(command.tokens(), &strings(&["a b", "%"]));
    assert_eq!(command.case(), Case::AllPaths);
    assert_eq!(command.placeholder_index(), 1);
}

#[test]
fn parse_error_messages() {
    assert_eq!(ParseError::Invalid.message(), "Invalid command, cannot parse");
    assert_eq!(ParseError::Empty.message(), "Empty command");
}

#[test]
fn invariant_violation_messages() {
    assert_eq!(
        InvariantViolation::MissingCurrentPath.message(),
        "No current path for the {} placeholder"
    );
    assert_eq!(InvariantViolation::NoProgram.message(), "No program left to run");
    assert_eq!(
        InvariantViolation::MissingBanner.message(),
        "No banner for the header of a clean run"
    );
}

#[test]
fn resolve_all_paths_quoted_joins_with_spaces() {
    let command = Command::from_tokens(strings(&["echo", "%%"])).unwrap();
    let roots = strings(&["/a", "/b/c"]);
    assert_eq!(command.resolve(&roots, None), Ok(strings(&["echo", "/a /b/c"])));
}

#[test]
fn resolve_all_paths_gives_separate_arguments() {
    let command = Command::from_tokens(strings(&["echo", "%"])).unwrap();
    let roots = strings(&["/a", "/b/c"]);
    assert_eq!(command.resolve(&roots, None), Ok(strings(&["echo", "/a", "/b/c"])));
}

#[test]
fn resolve_quoted_does_not_escape_spaces() {
    let command = Command::from_tokens(strings(&["echo", "%%", "end"])).unwrap();
    let roots = strings(&["/with space", "/b"]);
    assert_eq!(command.resolve(&roots, None), Ok(strings(&["echo", "/with space /b", "end"])));
}

#[test]
fn resolve_one_path_replaces_the_whole_token() {
    let command = Command::from_tokens(strings(&["cp", "--from={}", "dest", "%"])).unwrap();
    let roots = strings(&["/a", "/b"]);
    assert_eq!(
        command.resolve(&roots, Some("/a/x.txt")),
        Ok(strings(&["cp", "/a/x.txt", "dest", "%"]))
    );
}

#[test]
fn resolve_one_path_without_current_fails() {
    let command = Command::from_tokens(strings(&["cat", "{}"])).unwrap();
    let roots = strings(&["/a"]);
    assert_eq!(command.resolve(&roots, None), Err(InvariantViolation::MissingCurrentPath));
}

#[test]
fn resolve_no_path_keeps_the_tokens() {
    let command = Command::from_tokens(strings(&["make", "-j", "4"])).unwrap();
    let roots = strings(&["/a"]);
    assert_eq!(command.resolve(&roots, Some("/a/x")), Ok(strings(&["make", "-j", "4"])));
    assert_eq!(command.resolve(&roots, None), Ok(strings(&["make", "-j", "4"])));
}

#[test]
fn resolve_with_no_roots() {
    let all = Command::from_tokens(strings(&["echo", "%", "x"])).unwrap();
    assert_eq!(all.resolve(&[], None), Ok(strings(&["echo", "x"])));
    let quoted = Command::from_tokens(strings(&["echo", "%%", "x"])).unwrap();
    assert_eq!(quoted.resolve(&[], None), Ok(strings(&["echo", "", "x"])));
}

#[test]
fn resolve_placeholder_in_first_token() {
    let command = Command::from_tokens(strings(&["{}", "--dry-run"])).unwrap();
    assert_eq!(
        command.resolve(&[], Some("/a/script.sh")),
        Ok(strings(&["/a/script.sh", "--dry-run"]))
    );
}

#[test]
fn plan_without_banner() {
    let command = Command::from_tokens(strings(&["echo", "%", "done"])).unwrap();
    let roots = strings(&["/a", "/b"]);
    let run = command.plan(&roots, None, None).unwrap();
    assert_eq!(run.program, "echo");
    assert_eq!(run.args, strings(&["/a", "/b", "done"]));
    assert!(!run.clean);
    assert_eq!(run.header, "echo /a /b done");
}

#[test]
fn plan_with_banner_pads_to_the_width() {
    let command = Command::from_tokens(strings(&["echo", "hi"])).unwrap();
    let banner = Banner {
        width: 40,
        hostname: "box".to_string(),
        timestamp: "2024-01-02 03:04:05".to_string(),
    };
    let run = command.plan(&[], None, Some(&banner)).unwrap();
    assert_eq!(run.program, "echo");
    assert_eq!(run.args, strings(&["hi"]));
    assert!(run.clean);
    assert_eq!(run.header, "echo hi         box: 2024-01-02 03:04:05");
    assert_eq!(run.header.len(), 40);
}

#[test]
fn plan_fails_without_program() {
    let command = Command::from_tokens(strings(&["%"])).unwrap();
    assert_eq!(command.plan(&[], None, None).err(), Some(InvariantViolation::NoProgram));
    let one = Command::from_tokens(strings(&["{}"])).unwrap();
    assert_eq!(one.plan(&[], None, None).err(), Some(InvariantViolation::MissingCurrentPath));
}

fn banner(width: u16) -> Banner {
    Banner { width, hostname: "box".to_string(), timestamp: "2024-01-02 03:04:05".to_string() }
}

#[test]
fn run_appended_has_plain_header() {
    let command = Command::from_tokens(strings(&["cat", "{}"])).unwrap();
    let roots = strings(&["/a"]);
    let run = command.run(&roots, Some("/a/f"), false, None).unwrap();
    assert_eq!(run.program, "cat");
    assert_eq!(run.args, strings(&["/a/f"]));
    assert!(!run.clean);
    assert_eq!(run.header, "cat /a/f");
}

#[test]
fn run_appended_leaves_a_banner_aside() {
    let command = Command::from_tokens(strings(&["cat", "{}"])).unwrap();
    let roots = strings(&["/a"]);
    let run = command.run(&roots, Some("/a/f"), false, Some(&banner(80))).unwrap();
    assert!(!run.clean);
    assert_eq!(run.header, "cat /a/f");
}

#[test]
fn run_clean_shows_the_banner() {
    let command = Command::from_tokens(strings(&["cat", "{}"])).unwrap();
    let roots = strings(&["/a"]);
    let run = command.run(&roots, Some("/a/f"), true, Some(&banner(40))).unwrap();
    assert!(run.clean);
    assert_eq!(run.program, "cat");
    assert_eq!(run.args, strings(&["/a/f"]));
    assert_eq!(run.header, "cat /a/f        box: 2024-01-02 03:04:05");
    let unknown = command.run(&roots, Some("/a/f"), true, Some(&banner(0))).unwrap();
    assert_eq!(unknown.header, "cat /a/fbox: 2024-01-02 03:04:05");
}

#[test]
fn run_clean_needs_a_banner() {
    let command = Command::from_tokens(strings(&["cat", "{}"])).unwrap();
    let roots = strings(&["/a"]);
    assert_eq!(
        command.run(&roots, Some("/a/f"), true, None).err(),
        Some(InvariantViolation::MissingBanner)
    );
}

#[test]
fn run_fails_as_plan_does() {
    let command = Command::from_tokens(strings(&["cat", "{}"])).unwrap();
    for clean in [true, false] {
        assert_eq!(
            command.run(&[], None, clean, Some(&banner(80))).err(),
            Some(InvariantViolation::MissingCurrentPath)
        );
        assert_eq!(
            command.run(&[], None, clean, None).err(),
            Some(InvariantViolation::MissingCurrentPath)
        );
    }
    let all = Command::from_tokens(strings(&["%"])).unwrap();
    assert_eq!(all.run(&[], None, true, None).err(), Some(InvariantViolation::NoProgram));
    assert_eq!(
        all.run(&strings(&["/bin/x", "y"]), None, false, None).map(|run| (run.program, run.args)),
        Ok(("/bin/x".to_string(), strings(&["y"])))
    );
}

#[test]
fn clone_keeps_the_template() {
    let command = Command::new("echo % end".to_string()).unwrap();
    let copy = command.clone();
    assert_eq!(copy.tokens(), command.tokens());
    assert_eq!(copy.case(), Case::AllPaths);
    assert_eq!(copy.placeholder_index(), 1);
}
