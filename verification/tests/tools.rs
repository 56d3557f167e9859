use open_cowork::json::{parse_json, Json};
use open_cowork::tools::command_tools::{
    command_failed, command_result, format_output, grep_result, search_failed,
};
use open_cowork::tools::fs_tools::{
    apply_edit, edit_result, glob_failed, glob_result, read_failed, read_result, write_failed,
    write_result,
};
use open_cowork::tools::web_tools::{fetch_result, FETCH_LIMIT};
use open_cowork::tools::{
    compose_glob_pattern, failed, get_optional_string, get_required_string, join_path,
    path_is_absolute, plan_tool, resolve_path, succeeded, ToolAction, ToolExecutionResult,
};

fn j(text: &str) -> Json {
    parse_json(text).unwrap()
}

#[test]
fn read_is_planned_on_the_resolved_path() {
    assert_eq!(
        plan_tool("Read", &j("{\"file_path\":\"a.txt\"}"), Some("/work")),
        Ok(ToolAction::Read {
            path: "/work/a.txt".to_string()
        })
    );
    assert_eq!(
        plan_tool("Read", &j("{\"file_path\":\"/etc/hosts\"}"), Some("/work")),
        Ok(ToolAction::Read {
            path: "/etc/hosts".to_string()
        })
    );
    assert_eq!(
        plan_tool("Read", &j("{\"file_path\":\"a.txt\"}"), None),
        Ok(ToolAction::Read {
            path: "a.txt".to_string()
        })
    );
}

#[test]
fn missing_fields_refuse_the_call() {
    assert_eq!(
        plan_tool("Read", &j("{}"), None),
        Err("Missing required field: file_path".to_string())
    );
    assert_eq!(
        plan_tool("Read", &j("{\"file_path\": 3}"), None),
        Err("Missing required field: file_path".to_string())
    );
    assert_eq!(
        plan_tool("Write", &j("{\"content\":\"x\"}"), None),
        Err("Missing required field: file_path".to_string())
    );
    assert_eq!(
        plan_tool("Write", &j("{\"file_path\":\"f\"}"), None),
        Err("Missing required field: content".to_string())
    );
    assert_eq!(
        plan_tool(
            "Edit",
            &j("{\"file_path\":\"f\",\"new_string\":\"n\"}"),
            None
        ),
        Err("Missing required field: old_string".to_string())
    );
    assert_eq!(
        plan_tool(
            "Edit",
            &j("{\"file_path\":\"f\",\"old_string\":\"o\"}"),
            None
        ),
        Err("Missing required field: new_string".to_string())
    );
    assert_eq!(
        plan_tool("Bash", &Json::Null, None),
        Err("Missing required field: command".to_string())
    );
    assert_eq!(
        plan_tool("Glob", &j("[]"), None),
        Err("Missing required field: pattern".to_string())
    );
    assert_eq!(
        plan_tool("Grep", &j("{}"), None),
        Err("Missing required field: pattern".to_string())
    );
    assert_eq!(
        plan_tool("WebFetch", &j("{}"), None),
        Err("Missing required field: url".to_string())
    );
    assert_eq!(
        plan_tool("Task", &j("{}"), None),
        Err("Missing required field: description".to_string())
    );
}

#[test]
fn every_tool_has_its_plan() {
    assert_eq!(
        plan_tool(
            "Write",
            &j("{\"file_path\":\"f\",\"content\":\"text\"}"),
            Some("/w/")
        ),
        Ok(ToolAction::Write {
            path: "/w/f".to_string(),
            content: "text".to_string()
        })
    );
    assert_eq!(
        plan_tool(
            "Edit",
            &j("{\"file_path\":\"f\",\"old_string\":\"o\",\"new_string\":\"n\"}"),
            None
        ),
        Ok(ToolAction::Edit {
            path: "f".to_string(),
            old_string: "o".to_string(),
            new_string: "n".to_string()
        })
    );
    assert_eq!(
        plan_tool("Bash", &j("{\"command\":\"ls\"}"), Some("/w")),
        Ok(ToolAction::Bash {
            command: "ls".to_string(),
            cwd: Some("/w".to_string())
        })
    );
    assert_eq!(
        plan_tool("Bash", &j("{\"command\":\"ls\"}"), None),
        Ok(ToolAction::Bash {
            command: "ls".to_string(),
            cwd: None
        })
    );
    assert_eq!(
        plan_tool("WebFetch", &j("{\"url\":\"http://x\"}"), None),
        Ok(ToolAction::WebFetch {
            url: "http://x".to_string()
        })
    );
    assert_eq!(
        plan_tool("Task", &j("{\"description\":\"tidy up\"}"), None),
        Ok(ToolAction::Reply {
            result: ToolExecutionResult {
                content: "Task noted: tidy up".to_string(),
                is_error: false
            }
        })
    );
}

#[test]
fn glob_patterns_count_from_their_base() {
    assert_eq!(
        plan_tool("Glob", &j("{\"pattern\":\"*.rs\"}"), None),
        Ok(ToolAction::Glob {
            pattern: "*.rs".to_string()
        })
    );
    assert_eq!(
        plan_tool("Glob", &j("{\"pattern\":\"*.rs\"}"), Some("/w")),
        Ok(ToolAction::Glob {
            pattern: "/w/*.rs".to_string()
        })
    );
    assert_eq!(
        plan_tool(
            "Glob",
            &j("{\"pattern\":\"*.rs\",\"path\":\"src\"}"),
            Some("/w")
        ),
        Ok(ToolAction::Glob {
            pattern: "./src/*.rs".to_string()
        })
    );
    assert_eq!(
        plan_tool(
            "Glob",
            &j("{\"pattern\":\"/abs/*\",\"path\":\"src\"}"),
            None
        ),
        Ok(ToolAction::Glob {
            pattern: "/abs/*".to_string()
        })
    );
    assert_eq!(compose_glob_pattern("*", Some("")), "./*");
    assert_eq!(compose_glob_pattern("*", Some("/")), "/*");
}

#[test]
fn grep_looks_where_it_is_told_first() {
    assert_eq!(
        plan_tool(
            "Grep",
            &j("{\"pattern\":\"x\",\"path\":\"a\",\"file_path\":\"b\"}"),
            Some("/w")
        ),
        Ok(ToolAction::Grep {
            pattern: "x".to_string(),
            path: Some("a".to_string())
        })
    );
    assert_eq!(
        plan_tool(
            "Grep",
            &j("{\"pattern\":\"x\",\"file_path\":\"b\"}"),
            Some("/w")
        ),
        Ok(ToolAction::Grep {
            pattern: "x".to_string(),
            path: Some("b".to_string())
        })
    );
    assert_eq!(
        plan_tool("Grep", &j("{\"pattern\":\"x\"}"), Some("/w")),
        Ok(ToolAction::Grep {
            pattern: "x".to_string(),
            path: Some("/w".to_string())
        })
    );
    assert_eq!(
        plan_tool("Grep", &j("{\"pattern\":\"x\"}"), None),
        Ok(ToolAction::Grep {
            pattern: "x".to_string(),
            path: None
        })
    );
}

#[test]
fn tools_that_cannot_run_are_refused() {
    assert_eq!(
        plan_tool("AskUserQuestion", &j("{}"), None),
        Err("AskUserQuestion should be handled via permission workflow.".to_string())
    );
    assert_eq!(
        plan_tool("UnknownTool", &j("{}"), None),
        Err("Unsupported tool: UnknownTool".to_string())
    );
    assert_eq!(
        plan_tool("read", &j("{}"), None),
        Err("Unsupported tool: read".to_string())
    );
    assert_eq!(
        plan_tool("", &j("{}"), None),
        Err("Unsupported tool: ".to_string())
    );
}

#[test]
fn fields_are_taken_as_strings_only() {
    let input = j("{\"a\":\"x\",\"b\":1}");
    assert_eq!(get_required_string(&input, "a"), Ok("x".to_string()));
    assert_eq!(
        get_required_string(&input, "b"),
        Err("Missing required field: b".to_string())
    );
    assert_eq!(get_optional_string(&input, "a"), Some("x".to_string()));
    assert_eq!(get_optional_string(&input, "b"), None);
    assert_eq!(get_optional_string(&input, "c"), None);
}

#[test]
fn paths_are_joined_as_on_posix() {
    assert!(path_is_absolute("/a"));
    assert!(path_is_absolute("/"));
    assert!(!path_is_absolute("a/b"));
    assert!(!path_is_absolute(""));
    assert_eq!(join_path("/a", "b"), "/a/b");
    assert_eq!(join_path("/a/", "b"), "/a/b");
    assert_eq!(join_path("", "b"), "b");
    assert_eq!(join_path("a", ""), "a/");
    assert_eq!(join_path("a", "/b"), "/b");
    assert_eq!(resolve_path("x", Some("rel")), "rel/x");
    assert_eq!(resolve_path("/x", None), "/x");
    assert_eq!(resolve_path("../x", Some("/a/b")), "/a/b/../x");
}

#[test]
fn output_of_a_command_is_combined() {
    assert_eq!(format_output("", ""), "");
    assert_eq!(format_output(" \n", "\t"), "");
    assert_eq!(format_output("out\n", ""), "out\n");
    assert_eq!(format_output("", "err\n"), "err\n");
    assert_eq!(format_output("out\n", " err"), "out\n\n err");
    assert_eq!(format_output(" ", "err"), "err");
}

#[test]
fn a_command_fails_when_it_does_not_exit_well() {
    assert_eq!(
        command_result("out", "", true),
        ToolExecutionResult {
            content: "out".to_string(),
            is_error: false
        }
    );
    assert_eq!(
        command_result("", "boom", false),
        ToolExecutionResult {
            content: "boom".to_string(),
            is_error: true
        }
    );
    assert_eq!(command_failed("no sh"), "Command failed: no sh");
    assert_eq!(search_failed("no rg"), "rg failed: no rg");
}

#[test]
fn a_search_without_matches_is_no_failure() {
    assert_eq!(
        grep_result(true, Some(0), "a:1:x\n", "warn"),
        ToolExecutionResult {
            content: "a:1:x\n".to_string(),
            is_error: false
        }
    );
    assert_eq!(
        grep_result(false, Some(1), "ignored", "ignored"),
        ToolExecutionResult {
            content: String::new(),
            is_error: false
        }
    );
    assert_eq!(
        grep_result(false, Some(2), "ignored", "bad pattern"),
        ToolExecutionResult {
            content: "bad pattern".to_string(),
            is_error: true
        }
    );
    assert_eq!(
        grep_result(false, None, "", "killed"),
        ToolExecutionResult {
            content: "killed".to_string(),
            is_error: true
        }
    );
}

#[test]
fn edit_replaces_the_first_occurrence_only() {
    assert_eq!(
        apply_edit("one two one", "one", "1"),
        Ok("1 two one".to_string())
    );
    assert_eq!(apply_edit("abc", "c", "xyz"), Ok("abxyz".to_string()));
    assert_eq!(apply_edit("abc", "abc", ""), Ok(String::new()));
    assert_eq!(apply_edit("aaa", "aa", "b"), Ok("ba".to_string()));
    assert_eq!(apply_edit("abc", "", "-"), Ok("-abc".to_string()));
    assert_eq!(apply_edit("", "", "x"), Ok("x".to_string()));
    assert_eq!(
        apply_edit("héllo wörld", "wörld", "world"),
        Ok("héllo world".to_string())
    );
}

#[test]
fn edit_with_absent_old_string_fails() {
    assert_eq!(
        apply_edit("some text", "missing", "new"),
        Err("Old string not found in file.".to_string())
    );
    assert_eq!(
        apply_edit("", "x", "y"),
        Err("Old string not found in file.".to_string())
    );
    assert_eq!(
        apply_edit("ab", "abc", "y"),
        Err("Old string not found in file.".to_string())
    );
    assert_eq!(
        apply_edit("abab", "ba b", "y"),
        Err("Old string not found in file.".to_string())
    );
}

#[test]
fn file_results_say_what_was_done() {
    assert_eq!(
        read_result("abc".to_string()),
        ToolExecutionResult {
            content: "abc".to_string(),
            is_error: false
        }
    );
    assert_eq!(
        write_result("hello", "/w/a.txt").content,
        "Wrote 5 bytes to /w/a.txt"
    );
    assert_eq!(write_result("é", "p").content, "Wrote 2 bytes to p");
    assert_eq!(write_result("", "p").content, "Wrote 0 bytes to p");
    assert!(!write_result("", "p").is_error);
    assert_eq!(edit_result("/w/a.txt").content, "Updated /w/a.txt");
    assert_eq!(read_failed("gone"), "Read failed: gone");
    assert_eq!(write_failed("full"), "Write failed: full");
    assert_eq!(glob_failed("bad"), "Glob failed: bad");
}

#[test]
fn glob_matches_go_one_to_a_line() {
    assert_eq!(glob_result(&vec![]).content, "");
    assert_eq!(glob_result(&vec!["a".to_string()]).content, "a");
    assert_eq!(
        glob_result(&vec!["a".to_string(), "".to_string(), "c".to_string()]).content,
        "a\n\nc"
    );
    assert!(!glob_result(&vec![]).is_error);
}

#[test]
fn fetch_of_a_long_body_is_truncated() {
    let body = "a".repeat(12_000);
    let result = fetch_result("200 OK", &body);
    let mut expected = String::from("Status: 200 OK\n\n");
    expected.push_str(&"a".repeat(8_000));
    expected.push_str("...\n[truncated 4000 bytes]");
    assert_eq!(result, expected);
    assert_eq!(
        result.len(),
        "Status: 200 OK\n\n".len() + 8_000 + "...\n[truncated 4000 bytes]".len()
    );
}

#[test]
fn fetch_keeps_bodies_up_to_the_limit() {
    assert_eq!(FETCH_LIMIT, 8000);
    assert_eq!(
        fetch_result("404 Not Found", "nope"),
        "Status: 404 Not Found\n\nnope"
    );
    assert_eq!(fetch_result("200 OK", ""), "Status: 200 OK\n\n");
    let exact = "b".repeat(8_000);
    assert_eq!(
        fetch_result("200 OK", &exact),
        format!("Status: 200 OK\n\n{}", exact)
    );
    let over = "b".repeat(8_001);
    assert_eq!(
        fetch_result("200 OK", &over),
        format!("Status: 200 OK\n\n{}...\n[truncated 1 bytes]", exact)
    );
}

#[test]
fn fetch_cuts_between_characters_only() {
    let mut aligned = "a".repeat(7_998);
    aligned.push('é');
    aligned.push_str("tail");
    let result = fetch_result("200 OK", &aligned);
    assert!(result.ends_with("aé...\n[truncated 4 bytes]"));

    let mut straddling = "a".repeat(7_999);
    straddling.push('é');
    straddling.push_str("tail");
    let mut expected = String::from("Status: 200 OK\n\n");
    expected.push_str(&"a".repeat(7_999));
    expected.push_str("...\n[truncated 6 bytes]");
    assert_eq!(fetch_result("200 OK", &straddling), expected);

    let mut wide = "a".repeat(7_997);
    wide.push('\u{1F600}');
    wide.push('z');
    let mut expected = String::from("Status: 200 OK\n\n");
    expected.push_str(&"a".repeat(7_997));
    expected.push_str("...\n[truncated 5 bytes]");
    assert_eq!(fetch_result("200 OK", &wide), expected);

    let mut fitting = "a".repeat(7_996);
    fitting.push('\u{1F600}');
    assert_eq!(
        fetch_result("200 OK", &fitting),
        format!("Status: 200 OK\n\n{}", fitting)
    );
}

#[test]
fn outcomes_are_marked() {
    assert_eq!(
        succeeded("x".to_string()),
        ToolExecutionResult {
            content: "x".into(),
            is_error: false
        }
    );
    assert_eq!(
        failed("x".to_string()),
        ToolExecutionResult {
            content: "x".into(),
            is_error: true
        }
    );
}
