//! Shaping what the file tools gave into tool results, and the edit of a
//! file's text.

use vstd::prelude::*;
use vstd::string::{StringExecFns, StringSliceAdditionalSpecFns};
use crate::sse::joined;
use crate::text::{chars_of, decimal, push_decimal, string_of, views};
use crate::tools::ToolExecutionResult;

verus! {

/// The index of the first place at or after `from` where `needle` occurs
/// in `hay`; `None` if it occurs nowhere from there on.
pub open spec fn find_from(hay: Seq<char>, needle: Seq<char>, from: int) -> Option<int>
    decreases hay.len() + 1 - from,
{
    if from < 0 || from + needle.len() > hay.len() {
        None
    } else if hay.subrange(from, from + needle.len()) == needle {
        Some(from)
    } else {
        find_from(hay, needle, from + 1)
    }
}

/// The text `content` with its first `old` replaced by `new`, or the
/// refusal if `old` does not occur in it.
pub open spec fn edited(content: Seq<char>, old: Seq<char>, new: Seq<char>) -> Result<
    Seq<char>,
    Seq<char>,
> {
    match find_from(content, old, 0) {
        Some(at) => Ok(
            content.take(at) + new + content.skip(at + old.len()),
        ),
        None => Err("Old string not found in file."@),
    }
}

/// The view of a string or a refusal.
pub open spec fn edit_view(r: Result<String, String>) -> Result<Seq<char>, Seq<char>> {
    match r {
        Ok(v) => Ok(v@),
        Err(e) => Err(e@),
    }
}

/// Whether `needle` occurs in `hay` at `at`.
fn occurs_at(hay: &Vec<char>, needle: &Vec<char>, at: usize) -> (r: bool)
    requires
        at + needle.len() <= hay.len(),
    ensures
        r == (hay@.subrange(at as int, at + needle.len()) == needle@),
{
    let ghost window = hay@.subrange(at as int, at + needle.len());
    let mut i: usize = 0;
    while i < needle.len()
        invariant
            i <= needle.len(),
            at + needle.len() <= hay.len(),
            window == hay@.subrange(at as int, at + needle.len()),
            forall|j: int| 0 <= j < i ==> window[j] == needle@[j],
        decreases needle.len() - i,
    {
        if hay[at + i] != needle[i] {
            assert(window[i as int] != needle@[i as int]);
            return false;
        }
        i += 1;
    }
    assert(window =~= needle@);
    true
}

/// The text of a file after an edit: `content` with its first `old_string`
/// replaced by `new_string`. Refuses, leaving nothing to write, if
/// `old_string` does not occur.
pub fn apply_edit(content: &str, old_string: &str, new_string: &str) -> (r: Result<String, String>)
    ensures
        edit_view(r) == edited(content@, old_string@, new_string@),
{
    let hay = chars_of(content);
    let needle = chars_of(old_string);
    if needle.len() > hay.len() {
        return Err("Old string not found in file.".to_string());
    }
    let last: usize = hay.len() - needle.len();
    let mut at: usize = 0;
    while at < last && !occurs_at(&hay, &needle, at)
        invariant
            last == hay.len() - needle.len(),
            at <= last,
            find_from(hay@, needle@, 0) == find_from(hay@, needle@, at as int),
        decreases last - at,
    {
        at += 1;
    }
    if !occurs_at(&hay, &needle, at) {
        assert(find_from(hay@, needle@, at + 1) is None);
        return Err("Old string not found in file.".to_string());
    }
    let mut out = string_of(&hay, 0, at);
    out.append(new_string);
    let tail = string_of(&hay, at + needle.len(), hay.len());
    out.append(tail.as_str());
    assert(hay@.subrange(0, at as int) =~= hay@.take(at as int));
    assert(hay@.subrange(at + needle.len(), hay.len() as int) =~= hay@.skip(at + needle.len()));
    Ok(out)
}

/// The text of the result of a write of `bytes` bytes to `path`.
pub open spec fn written(bytes: nat, path: Seq<char>) -> Seq<char> {
    "Wrote "@ + decimal(bytes) + " bytes to "@ + path
}

/// The result of a read that gave `content`.
pub fn read_result(content: String) -> (r: ToolExecutionResult)
    ensures
        r.content == content,
        !r.is_error,
{
    ToolExecutionResult { content, is_error: false }
}

/// The result of a write of `content` to `path`: the number of bytes
/// written and the path.
pub fn write_result(content: &str, path: &str) -> (r: ToolExecutionResult)
    ensures
        r.content@ == written(content.spec_bytes().len(), path@),
        !r.is_error,
{
    let mut text = "Wrote ".to_string();
    push_decimal(&mut text, content.as_bytes().len() as u64);
    text.append(" bytes to ");
    text.append(path);
    ToolExecutionResult { content: text, is_error: false }
}

/// The result of an edit of the file at `path`.
pub fn edit_result(path: &str) -> (r: ToolExecutionResult)
    ensures
        r.content@ == "Updated "@ + path@,
        !r.is_error,
{
    let mut text = "Updated ".to_string();
    text.append(path);
    ToolExecutionResult { content: text, is_error: false }
}

/// The result of a glob that matched `matches`: one match to a line.
pub fn glob_result(matches: &Vec<String>) -> (r: ToolExecutionResult)
    ensures
        r.content@ == joined(views(matches@)),
        !r.is_error,
{
    let ghost all = views(matches@);
    let mut text = String::new();
    let mut i: usize = 0;
    assert(all.take(0) =~= Seq::<Seq<char>>::empty());
    while i < matches.len()
        invariant
            i <= matches.len(),
            all == views(matches@),
            text@ == joined(all.take(i as int)),
        decreases matches.len() - i,
    {
        proof {
            assert(all.take(i + 1).drop_last() =~= all.take(i as int));
            assert(all.take(i + 1).last() == matches@[i as int]@);
            if i == 0 {
                assert(Seq::<char>::empty() + matches@[0]@ =~= matches@[0]@);
                assert(all.take(1)[0] == matches@[0]@);
            }
        }
        if i > 0 {
            text.append("\n");
            proof {
                reveal_strlit("\n");
                assert("\n"@ =~= seq!['\n']);
            }
        }
        text.append(matches[i].as_str());
        i += 1;
    }
    assert(all.take(i as int) =~= all);
    ToolExecutionResult { content: text, is_error: false }
}

/// The message for a file that could not be read.
pub fn read_failed(detail: &str) -> (r: String)
    ensures
        r@ == "Read failed: "@ + detail@,
{
    let mut r = "Read failed: ".to_string();
    r.append(detail);
    r
}

/// The message for a file that could not be written.
pub fn write_failed(detail: &str) -> (r: String)
    ensures
        r@ == "Write failed: "@ + detail@,
{
    let mut r = "Write failed: ".to_string();
    r.append(detail);
    r
}

/// The message for a glob that could not be expanded.
pub fn glob_failed(detail: &str) -> (r: String)
    ensures
        r@ == "Glob failed: "@ + detail@,
{
    let mut r = "Glob failed: ".to_string();
    r.append(detail);
    r
}

} // verus!
