use minishell::builtins::{
    builtin_lookup, cd_apply, cd_error_message, cd_missing_message, cd_target, echo_line,
    is_builtin, resolve_cd_path, type_message, type_missing_message, Builtin,
};
use minishell::dispatch::{args_of, decide, not_found_message, Decision};
use minishell::resolver::{first_executable, join_candidate, resolve_candidates};
use minishell::text::{split_string, str_eq};

fn strings(v: &[&str]) -> Vec<String> {
    v.iter().map(|s| s.to_string()).collect()
}

#[test]
fn builtin_names() {
    for name in ["echo", "exit", "type", "pwd", "cd"] {
        assert!(is_builtin(name));
    }
    assert!(!is_builtin("ls"));
    assert!(!is_builtin(""));
    assert!(!is_builtin("echo "));
}

#[test]
fn builtin_lookup_finds_each() {
    assert_eq!(builtin_lookup("echo"), Some(Builtin::Echo));
    assert_eq!(builtin_lookup("exit"), Some(Builtin::Exit));
    assert_eq!(builtin_lookup("type"), Some(Builtin::Type));
    assert_eq!(builtin_lookup("pwd"), Some(Builtin::Pwd));
    assert_eq!(builtin_lookup("cd"), Some(Builtin::Cd));
    assert_eq!(builtin_lookup("cat"), None);
}

#[test]
fn echo_joins_with_single_spaces() {
    assert_eq!(echo_line(&strings(&["Hello", "world"])), "Hello world");
    assert_eq!(echo_line(&strings(&["one"])), "one");
    assert_eq!(echo_line(&strings(&[])), "");
    assert_eq!(echo_line(&strings(&["a b", "c"])), "a b c");
}

#[test]
fn type_reports_builtin() {
    assert_eq!(type_message("echo", None), "echo is a shell builtin");
    assert_eq!(type_message("type", None), "type is a shell builtin");
}

#[test]
fn type_builtin_shadows_resolved_path() {
    // Even when the search path holds an executable of the same name,
    // `type` reports the builtin.
    assert_eq!(type_message("echo", Some("/bin/echo")), "echo is a shell builtin");
}

#[test]
fn type_reports_resolved_path() {
    assert_eq!(type_message("ls", Some("/bin/ls")), "ls is /bin/ls");
}

#[test]
fn type_reports_not_found() {
    assert_eq!(
        type_message("nonexistent_cmd_xyz", None),
        "nonexistent_cmd_xyz: not found"
    );
}

#[test]
fn decide_empty_line_is_no_op() {
    assert_eq!(decide(&strings(&[]), false), Decision::Empty);
    assert_eq!(decide(&strings(&[]), true), Decision::Empty);
}

#[test]
fn decide_builtin_shadows_external() {
    // An executable named `echo` on the search path does not matter:
    // the builtin runs either way.
    let tokens = strings(&["echo", "hi"]);
    assert_eq!(decide(&tokens, true), Decision::RunBuiltin(Builtin::Echo));
    assert_eq!(decide(&tokens, false), Decision::RunBuiltin(Builtin::Echo));
}

#[test]
fn decide_external_and_not_found() {
    let tokens = strings(&["ls", "-l"]);
    assert_eq!(decide(&tokens, true), Decision::RunExternal);
    assert_eq!(decide(&tokens, false), Decision::NotFound);
}

#[test]
fn args_excludes_command_name() {
    assert_eq!(args_of(&strings(&["echo", "a", "b"])), strings(&["a", "b"]));
    assert_eq!(args_of(&strings(&["pwd"])), strings(&[]));
}

#[test]
fn not_found_message_names_command() {
    assert_eq!(not_found_message("nope"), "nope: command not found");
}

#[test]
fn str_eq_compares_characters() {
    assert!(str_eq("abc", "abc"));
    assert!(!str_eq("abc", "abd"));
    assert!(!str_eq("abc", "ab"));
    assert!(str_eq("", ""));
}

#[test]
fn split_keeps_empty_pieces() {
    assert_eq!(split_string("a:b::c", ':'), strings(&["a", "b", "", "c"]));
    assert_eq!(split_string("", ':'), strings(&[""]));
    assert_eq!(split_string(":a:", ':'), strings(&["", "a", ""]));
}

#[test]
fn candidate_joining() {
    assert_eq!(join_candidate("/usr/bin", "ls"), "/usr/bin/ls");
    assert_eq!(join_candidate("/usr/bin/", "ls"), "/usr/bin/ls");
    assert_eq!(join_candidate("", "ls"), "ls");
}

#[test]
fn candidates_follow_search_path_order() {
    assert_eq!(
        resolve_candidates("/usr/bin:/bin", "ls"),
        strings(&["/usr/bin/ls", "/bin/ls"])
    );
}

#[test]
fn empty_search_path_yields_no_candidates() {
    assert_eq!(resolve_candidates("", "ls"), strings(&[]));
    assert_eq!(resolve_candidates(":", "ls"), strings(&[]));
}

#[test]
fn empty_search_path_pieces_are_skipped() {
    assert_eq!(
        resolve_candidates("/bin::/usr/bin", "ls"),
        strings(&["/bin/ls", "/usr/bin/ls"])
    );
    assert_eq!(resolve_candidates(":/bin:", "ls"), strings(&["/bin/ls"]));
}

#[test]
fn first_match_wins() {
    assert_eq!(first_executable(&vec![false, true, true]), Some(1));
    assert_eq!(first_executable(&vec![true]), Some(0));
    assert_eq!(first_executable(&vec![false, false]), None);
    assert_eq!(first_executable(&Vec::new()), None);
}

#[test]
fn cd_absolute_path_is_verbatim() {
    assert_eq!(resolve_cd_path("/tmp/x", "/home/u", "/home/u"), "/tmp/x");
}

#[test]
fn cd_tilde_goes_home() {
    assert_eq!(resolve_cd_path("~", "/tmp", "/home/u"), "/home/u");
    // Any argument starting with `~` resolves to the home directory itself.
    assert_eq!(resolve_cd_path("~/sub", "/tmp", "/home/u"), "/home/u");
}

#[test]
fn cd_relative_segments() {
    assert_eq!(resolve_cd_path("x", "/a/b", "/h"), "/a/b/x");
    assert_eq!(resolve_cd_path("..", "/a/b", "/h"), "/a");
    assert_eq!(resolve_cd_path("./x/../y", "/a", "/h"), "/a/y");
    assert_eq!(resolve_cd_path(".", "/a/b", "/h"), "/a/b");
    assert_eq!(resolve_cd_path("..", "/", "/h"), "/");
    assert_eq!(resolve_cd_path("x//y", "/", "/h"), "/x/y");
}

#[test]
fn cd_target_without_tilde_needs_no_home() {
    assert_eq!(cd_target("sub", "/a"), Some("/a/sub".to_string()));
    assert_eq!(cd_target("/abs", "/a"), Some("/abs".to_string()));
}

#[test]
fn cd_failure_keeps_directory_and_reports() {
    let mut cwd = "/home/u".to_string();
    let msg = cd_apply(&mut cwd, "/no/such/dir", "/no/such/dir", false);
    assert_eq!(cwd, "/home/u");
    assert_eq!(
        msg,
        Some("cd: /no/such/dir: No such file or directory".to_string())
    );
}

#[test]
fn cd_success_moves_to_target() {
    let mut cwd = "/home/u".to_string();
    let msg = cd_apply(&mut cwd, "sub", "/home/u/sub", true);
    assert_eq!(cwd, "/home/u/sub");
    assert_eq!(msg, None);
}

#[test]
fn missing_argument_messages() {
    assert_eq!(type_missing_message(), "type: missing argument");
    assert_eq!(cd_missing_message(), "cd: missing argument");
}

#[test]
fn cd_error_message_names_argument() {
    assert_eq!(
        cd_error_message("missing"),
        "cd: missing: No such file or directory"
    );
}
