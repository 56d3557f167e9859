//! Shaping what a shell command or a text search gave into a tool result.

use vstd::prelude::*;
use vstd::string::StringExecFns;
use crate::text::{blank, is_blank};
use crate::tools::ToolExecutionResult;

verus! {

/// The output of a command as one text: what it wrote to standard output
/// and to standard error, with a line feed between them if both hold more
/// than white space; the one that does if only one does; nothing if neither
/// does.
pub open spec fn combined_output(stdout: Seq<char>, stderr: Seq<char>) -> Seq<char> {
    if is_blank(stdout) {
        if is_blank(stderr) {
            Seq::empty()
        } else {
            stderr
        }
    } else if is_blank(stderr) {
        stdout
    } else {
        stdout + seq!['\n'] + stderr
    }
}

/// The output of a command as one text.
pub fn format_output(stdout: &str, stderr: &str) -> (r: String)
    ensures
        r@ == combined_output(stdout@, stderr@),
{
    let no_out = blank(stdout);
    let no_err = blank(stderr);
    if no_out && no_err {
        String::new()
    } else if no_err {
        stdout.to_string()
    } else if no_out {
        stderr.to_string()
    } else {
        let mut r = stdout.to_string();
        r.append("\n");
        proof {
            reveal_strlit("\n");
            assert("\n"@ =~= seq!['\n']);
        }
        r.append(stderr);
        r
    }
}

/// The result of a shell command: its combined output, and a failure
/// exactly when it did not exit with success.
pub fn command_result(stdout: &str, stderr: &str, success: bool) -> (r: ToolExecutionResult)
    ensures
        r.content@ == combined_output(stdout@, stderr@),
        r.is_error == !success,
{
    ToolExecutionResult { content: format_output(stdout, stderr), is_error: !success }
}

/// The content of the result of a text search that exited with `code`.
pub open spec fn search_content(
    success: bool,
    code: Option<i32>,
    stdout: Seq<char>,
    stderr: Seq<char>,
) -> Seq<char> {
    if success {
        stdout
    } else if code == Some(1i32) {
        Seq::empty()
    } else {
        stderr
    }
}

/// The result of a text search: what it found if it exited with success,
/// nothing if it exited with 1, which means that nothing matched, and what
/// it wrote to standard error, as a failure, after any other exit.
pub fn grep_result(
    success: bool,
    code: Option<i32>,
    stdout: &str,
    stderr: &str,
) -> (r: ToolExecutionResult)
    ensures
        r.content@ == search_content(success, code, stdout@, stderr@),
        r.is_error == (!success && code != Some(1i32)),
{
    if !success {
        let none_matched = match code {
            Some(c) => c == 1,
            None => false,
        };
        if none_matched {
            return ToolExecutionResult { content: String::new(), is_error: false };
        }
        return ToolExecutionResult { content: stderr.to_string(), is_error: true };
    }
    ToolExecutionResult { content: stdout.to_string(), is_error: false }
}

/// The message for a command that could not be started.
pub fn command_failed(detail: &str) -> (r: String)
    ensures
        r@ == "Command failed: "@ + detail@,
{
    let mut r = "Command failed: ".to_string();
    r.append(detail);
    r
}

/// The message for a text search that could not be started.
pub fn search_failed(detail: &str) -> (r: String)
    ensures
        r@ == "rg failed: "@ + detail@,
{
    let mut r = "rg failed: ".to_string();
    r.append(detail);
    r
}

} // verus!
