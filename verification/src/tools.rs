//! The tools that a model may call: what each needs from its input, and
//! what is to be done for it.
//!
//! Nothing here touches the machine. [`plan_tool`] checks the input of a
//! call and says which action is to be taken; the caller takes it and hands
//! what came of it to the functions that shape the result.

use vstd::prelude::*;
use vstd::string::StringExecFns;
use crate::json::{Json, JsonView};
use crate::text::{chars_of, str_eq};

pub mod command_tools;
pub mod fs_tools;
pub mod web_tools;

verus! {

/// What a tool gave: its output, and whether it failed.
#[derive(Debug, PartialEq)]
pub struct ToolExecutionResult {
    pub content: String,
    pub is_error: bool,
}

/// What is to be done for a tool call.
#[allow(inconsistent_fields)]
#[derive(Debug, PartialEq)]
pub enum ToolAction {
    /// Read the file at `path`.
    Read { path: String },
    /// Write `content` to the file at `path`, in place of what it holds.
    Write { path: String, content: String },
    /// Replace the first `old_string` in the file at `path` by `new_string`.
    Edit { path: String, old_string: String, new_string: String },
    /// Run `command` through the shell, in `cwd` if given.
    Bash { command: String, cwd: Option<String> },
    /// List the files that match `pattern`.
    Glob { pattern: String },
    /// Search for `pattern` in the files under `path`, if given.
    Grep { pattern: String, path: Option<String> },
    /// Fetch `url`.
    WebFetch { url: String },
    /// Nothing: the result is known already.
    Reply { result: ToolExecutionResult },
}

/// The value of a [`ToolAction`].
#[allow(inconsistent_fields)]
pub enum ActionView {
    Read { path: Seq<char> },
    Write { path: Seq<char>, content: Seq<char> },
    Edit { path: Seq<char>, old_string: Seq<char>, new_string: Seq<char> },
    Bash { command: Seq<char>, cwd: Option<Seq<char>> },
    Glob { pattern: Seq<char> },
    Grep { pattern: Seq<char>, path: Option<Seq<char>> },
    WebFetch { url: Seq<char> },
    Reply { content: Seq<char>, is_error: bool },
}

/// The view of an optional string.
pub open spec fn text_opt(t: Option<String>) -> Option<Seq<char>> {
    match t {
        Some(s) => Some(s@),
        None => None,
    }
}

/// The view of an optional string slice.
pub open spec fn str_opt(t: Option<&str>) -> Option<Seq<char>> {
    match t {
        Some(s) => Some(s@),
        None => None,
    }
}

impl View for ToolAction {
    type V = ActionView;

    open spec fn view(&self) -> ActionView {
        match self {
            ToolAction::Read { path } => ActionView::Read { path: path@ },
            ToolAction::Write { path, content } => ActionView::Write {
                path: path@,
                content: content@,
            },
            ToolAction::Edit { path, old_string, new_string } => ActionView::Edit {
                path: path@,
                old_string: old_string@,
                new_string: new_string@,
            },
            ToolAction::Bash { command, cwd } => ActionView::Bash {
                command: command@,
                cwd: text_opt(*cwd),
            },
            ToolAction::Glob { pattern } => ActionView::Glob { pattern: pattern@ },
            ToolAction::Grep { pattern, path } => ActionView::Grep {
                pattern: pattern@,
                path: text_opt(*path),
            },
            ToolAction::WebFetch { url } => ActionView::WebFetch { url: url@ },
            ToolAction::Reply { result } => ActionView::Reply {
                content: result.content@,
                is_error: result.is_error,
            },
        }
    }
}

/// The view of a plan: the action, or the message of the refusal.
pub open spec fn plan_view(r: Result<ToolAction, String>) -> Result<ActionView, Seq<char>> {
    match r {
        Ok(action) => Ok(action@),
        Err(e) => Err(e@),
    }
}

/// The view of a string or a refusal.
pub open spec fn text_result(r: Result<String, String>) -> Result<Seq<char>, Seq<char>> {
    match r {
        Ok(v) => Ok(v@),
        Err(e) => Err(e@),
    }
}

/// The string member `key` of `input`, or the refusal that names the
/// missing field.
pub open spec fn required(input: JsonView, key: Seq<char>) -> Result<Seq<char>, Seq<char>> {
    match input.str_at(key) {
        Some(v) => Ok(v),
        None => Err("Missing required field: "@ + key),
    }
}

/// Whether `path` is absolute: it begins with a slash. Paths are read by
/// the rules of Unix throughout, on every machine: the tools work beside a
/// shell that is run as `sh`.
pub open spec fn is_absolute(path: Seq<char>) -> bool {
    path.len() > 0 && path[0] == '/'
}

/// The path `rel` seen from `base`: `rel` itself if it is absolute, else
/// `base`, a slash unless `base` is empty or ends in one, and `rel`.
pub open spec fn joined_path(base: Seq<char>, rel: Seq<char>) -> Seq<char> {
    if is_absolute(rel) {
        rel
    } else if base.len() > 0 && base.last() != '/' {
        base + seq!['/'] + rel
    } else {
        base + rel
    }
}

/// The path that a tool works on: `path` itself if it is absolute or there
/// is no working directory, else `path` seen from the working directory.
pub open spec fn resolved(path: Seq<char>, cwd: Option<Seq<char>>) -> Seq<char> {
    if is_absolute(path) {
        path
    } else {
        match cwd {
            Some(base) => joined_path(base, path),
            None => path,
        }
    }
}

/// The pattern that a glob expands: `pattern` seen from `base`, where a
/// relative base counts from the present directory.
pub open spec fn glob_pattern(pattern: Seq<char>, base: Option<Seq<char>>) -> Seq<char> {
    match base {
        Some(b) => if is_absolute(b) {
            joined_path(b, pattern)
        } else {
            joined_path(joined_path(seq!['.'], b), pattern)
        },
        None => pattern,
    }
}

/// The first of two optional values that is there.
pub open spec fn or_else(a: Option<Seq<char>>, b: Option<Seq<char>>) -> Option<Seq<char>> {
    match a {
        Some(_) => a,
        None => b,
    }
}

/// What is to be done for the tool `name` called with `input` in the
/// working directory `cwd`, or why nothing can be done. A required field
/// that is missing, or is no string, refuses the call with the name of the
/// first such field.
pub open spec fn tool_plan(name: Seq<char>, input: JsonView, cwd: Option<Seq<char>>) -> Result<
    ActionView,
    Seq<char>,
> {
    if name == "Read"@ {
        match required(input, "file_path"@) {
            Ok(file_path) => Ok(ActionView::Read { path: resolved(file_path, cwd) }),
            Err(e) => Err(e),
        }
    } else if name == "Write"@ {
        match required(input, "file_path"@) {
            Ok(file_path) => match required(input, "content"@) {
                Ok(content) => Ok(ActionView::Write { path: resolved(file_path, cwd), content }),
                Err(e) => Err(e),
            },
            Err(e) => Err(e),
        }
    } else if name == "Edit"@ {
        match required(input, "file_path"@) {
            Ok(file_path) => match required(input, "old_string"@) {
                Ok(old_string) => match required(input, "new_string"@) {
                    Ok(new_string) => Ok(
                        ActionView::Edit { path: resolved(file_path, cwd), old_string, new_string },
                    ),
                    Err(e) => Err(e),
                },
                Err(e) => Err(e),
            },
            Err(e) => Err(e),
        }
    } else if name == "Bash"@ {
        match required(input, "command"@) {
            Ok(command) => Ok(ActionView::Bash { command, cwd }),
            Err(e) => Err(e),
        }
    } else if name == "Glob"@ {
        match required(input, "pattern"@) {
            Ok(pattern) => Ok(
                ActionView::Glob {
                    pattern: glob_pattern(pattern, or_else(input.str_at("path"@), cwd)),
                },
            ),
            Err(e) => Err(e),
        }
    } else if name == "Grep"@ {
        match required(input, "pattern"@) {
            Ok(pattern) => Ok(
                ActionView::Grep {
                    pattern,
                    path: or_else(
                        input.str_at("path"@),
                        or_else(input.str_at("file_path"@), cwd),
                    ),
                },
            ),
            Err(e) => Err(e),
        }
    } else if name == "WebFetch"@ {
        match required(input, "url"@) {
            Ok(url) => Ok(ActionView::WebFetch { url }),
            Err(e) => Err(e),
        }
    } else if name == "Task"@ {
        match required(input, "description"@) {
            Ok(description) => Ok(
                ActionView::Reply { content: "Task noted: "@ + description, is_error: false },
            ),
            Err(e) => Err(e),
        }
    } else if name == "AskUserQuestion"@ {
        Err("AskUserQuestion should be handled via permission workflow."@)
    } else {
        Err("Unsupported tool: "@ + name)
    }
}

/// The string member `key` of `input`, or the refusal that names the
/// missing field.
pub fn get_required_string(input: &Json, key: &str) -> (r: Result<String, String>)
    ensures
        text_result(r) == required(input@, key@),
{
    match input.str_at(key) {
        Some(v) => Ok(v.to_string()),
        None => {
            let mut e = "Missing required field: ".to_string();
            e.append(key);
            Err(e)
        },
    }
}

/// The string member `key` of `input`, if there is one.
pub fn get_optional_string(input: &Json, key: &str) -> (r: Option<String>)
    ensures
        text_opt(r) == input@.str_at(key@),
{
    match input.str_at(key) {
        Some(v) => Some(v.to_string()),
        None => None,
    }
}

/// Whether `path` is absolute.
pub fn path_is_absolute(path: &str) -> (r: bool)
    ensures
        r == is_absolute(path@),
{
    let v = chars_of(path);
    v.len() > 0 && v[0] == '/'
}

/// The path `rel` seen from `base`.
pub fn join_path(base: &str, rel: &str) -> (r: String)
    ensures
        r@ == joined_path(base@, rel@),
{
    if path_is_absolute(rel) {
        return rel.to_string();
    }
    let b = chars_of(base);
    let mut out = base.to_string();
    if b.len() > 0 && b[b.len() - 1] != '/' {
        out.append("/");
        proof {
            reveal_strlit("/");
            assert("/"@ =~= seq!['/']);
        }
    }
    out.append(rel);
    out
}

/// The path that a tool works on: `path` itself if it is absolute or there
/// is no working directory, else `path` seen from the working directory.
pub fn resolve_path(path: &str, cwd: Option<&str>) -> (r: String)
    ensures
        r@ == resolved(path@, str_opt(cwd)),
{
    if path_is_absolute(path) {
        return path.to_string();
    }
    match cwd {
        Some(base) => join_path(base, path),
        None => path.to_string(),
    }
}

/// The pattern that a glob expands for `pattern` under `base`.
pub fn compose_glob_pattern(pattern: &str, base: Option<&str>) -> (r: String)
    ensures
        r@ == glob_pattern(pattern@, str_opt(base)),
{
    match base {
        Some(b) => {
            if path_is_absolute(b) {
                join_path(b, pattern)
            } else {
                proof {
                    reveal_strlit(".");
                    assert("."@ =~= seq!['.']);
                }
                let from_here = join_path(".", b);
                join_path(from_here.as_str(), pattern)
            }
        },
        None => pattern.to_string(),
    }
}

/// A copy of an optional string slice.
fn owned(t: Option<&str>) -> (r: Option<String>)
    ensures
        text_opt(r) == str_opt(t),
{
    match t {
        Some(s) => Some(s.to_string()),
        None => None,
    }
}

/// What is to be done for the tool `name` called with `input` in the
/// working directory `cwd`, or why nothing can be done.
pub fn plan_tool(name: &str, input: &Json, cwd: Option<&str>) -> (r: Result<ToolAction, String>)
    ensures
        plan_view(r) == tool_plan(name@, input@, str_opt(cwd)),
{
    if str_eq(name, "Read") {
        let file_path = get_required_string(input, "file_path")?;
        Ok(ToolAction::Read { path: resolve_path(file_path.as_str(), cwd) })
    } else if str_eq(name, "Write") {
        let file_path = get_required_string(input, "file_path")?;
        let content = get_required_string(input, "content")?;
        Ok(ToolAction::Write { path: resolve_path(file_path.as_str(), cwd), content })
    } else if str_eq(name, "Edit") {
        let file_path = get_required_string(input, "file_path")?;
        let old_string = get_required_string(input, "old_string")?;
        let new_string = get_required_string(input, "new_string")?;
        Ok(ToolAction::Edit { path: resolve_path(file_path.as_str(), cwd), old_string, new_string })
    } else if str_eq(name, "Bash") {
        let command = get_required_string(input, "command")?;
        Ok(ToolAction::Bash { command, cwd: owned(cwd) })
    } else if str_eq(name, "Glob") {
        let pattern = get_required_string(input, "pattern")?;
        let composed = match input.str_at("path") {
            Some(base) => compose_glob_pattern(pattern.as_str(), Some(base)),
            None => compose_glob_pattern(pattern.as_str(), cwd),
        };
        Ok(ToolAction::Glob { pattern: composed })
    } else if str_eq(name, "Grep") {
        let pattern = get_required_string(input, "pattern")?;
        let path = match input.str_at("path") {
            Some(p) => Some(p.to_string()),
            None => match input.str_at("file_path") {
                Some(p) => Some(p.to_string()),
                None => owned(cwd),
            },
        };
        Ok(ToolAction::Grep { pattern, path })
    } else if str_eq(name, "WebFetch") {
        let url = get_required_string(input, "url")?;
        Ok(ToolAction::WebFetch { url })
    } else if str_eq(name, "Task") {
        let description = get_required_string(input, "description")?;
        let mut content = "Task noted: ".to_string();
        content.append(description.as_str());
        Ok(ToolAction::Reply { result: ToolExecutionResult { content, is_error: false } })
    } else if str_eq(name, "AskUserQuestion") {
        Err("AskUserQuestion should be handled via permission workflow.".to_string())
    } else {
        let mut e = "Unsupported tool: ".to_string();
        e.append(name);
        Err(e)
    }
}

/// The result of a tool that gave `content` without failing.
pub fn succeeded(content: String) -> (r: ToolExecutionResult)
    ensures
        r.content == content,
        !r.is_error,
{
    ToolExecutionResult { content, is_error: false }
}

/// The result that stands for a tool that could not be run, or gave up:
/// its message, marked as a failure.
pub fn failed(message: String) -> (r: ToolExecutionResult)
    ensures
        r.content == message,
        r.is_error,
{
    ToolExecutionResult { content: message, is_error: true }
}

} // verus!
