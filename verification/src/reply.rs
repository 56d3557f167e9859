//! What a decoder hands out when a reply has ended.
//!
//! The end of a reply holds the last progress messages, the blocks of the
//! reply and the tool calls among them. It can only be made of parts that
//! fit together: every tool call is named by one of the blocks.

use vstd::prelude::*;
use crate::history::{has_kind, is_kind, ToolCall};
use crate::json::{json_views, Json, JsonView};
use crate::log_rules::{names_all, names_call};
use crate::text::str_eq;

verus! {

/// The end of a reply.
#[derive(Debug, PartialEq)]
pub struct StreamEnd {
    emitted: Vec<Json>,
    content_blocks: Vec<Json>,
    tool_calls: Vec<ToolCall>,
}

/// Whether some block of `blocks` is the tool call under the id `id`.
pub fn names(blocks: &Vec<Json>, id: &str) -> (r: bool)
    ensures
        r == names_call(json_views(blocks@), id@),
{
    let ghost all = json_views(blocks@);
    let mut j: usize = 0;
    while j < blocks.len()
        invariant
            j <= blocks.len(),
            all == json_views(blocks@),
            forall|k: int|
                0 <= k < j ==> !(is_kind(#[trigger] all[k], "tool_use"@) && all[k].str_at("id"@)
                    == Some(id@)),
        decreases blocks.len() - j,
    {
        if has_kind(&blocks[j], "tool_use") {
            let found = match blocks[j].str_at("id") {
                Some(t) => str_eq(t, id),
                None => false,
            };
            if found {
                assert(is_kind(all[j as int], "tool_use"@));
                return true;
            }
        }
        j += 1;
    }
    false
}

impl StreamEnd {
    /// The parts fit together: the blocks name every tool call.
    #[verifier::type_invariant]
    spec fn fits(self) -> bool {
        names_all(json_views(self.content_blocks@), self.tool_calls@)
    }

    /// The last progress messages of the stream.
    pub closed spec fn messages(&self) -> Seq<JsonView> {
        json_views(self.emitted@)
    }

    /// The blocks of the reply.
    pub closed spec fn blocks(&self) -> Seq<JsonView> {
        json_views(self.content_blocks@)
    }

    /// The tool calls of the reply.
    pub closed spec fn calls(&self) -> Seq<ToolCall> {
        self.tool_calls@
    }

    /// The end of a reply made of parts that are known to fit together.
    pub(crate) fn assemble(
        emitted: Vec<Json>,
        content_blocks: Vec<Json>,
        tool_calls: Vec<ToolCall>,
    ) -> (r: StreamEnd)
        requires
            names_all(json_views(content_blocks@), tool_calls@),
        ensures
            r.messages() == json_views(emitted@),
            r.blocks() == json_views(content_blocks@),
            r.calls() == tool_calls@,
    {
        StreamEnd { emitted, content_blocks, tool_calls }
    }

    /// The end of a reply made of the given parts, if they fit together:
    /// every tool call must be named by a block of the kind `tool_use` that
    /// carries its id.
    pub fn new(
        emitted: Vec<Json>,
        content_blocks: Vec<Json>,
        tool_calls: Vec<ToolCall>,
    ) -> (r: Option<StreamEnd>)
        ensures
            match r {
                Some(end) => {
                    &&& names_all(json_views(content_blocks@), tool_calls@)
                    &&& end.messages() == json_views(emitted@)
                    &&& end.blocks() == json_views(content_blocks@)
                    &&& end.calls() == tool_calls@
                },
                None => !names_all(json_views(content_blocks@), tool_calls@),
            },
    {
        let mut i: usize = 0;
        while i < tool_calls.len()
            invariant
                i <= tool_calls.len(),
                forall|k: int|
                    0 <= k < i ==> names_call(
                        json_views(content_blocks@),
                        (#[trigger] tool_calls@[k]).id@,
                    ),
            decreases tool_calls.len() - i,
        {
            if !names(&content_blocks, tool_calls[i].id.as_str()) {
                return None;
            }
            i += 1;
        }
        Some(StreamEnd::assemble(emitted, content_blocks, tool_calls))
    }

    /// The last progress messages of the stream.
    pub fn emitted(&self) -> (r: &Vec<Json>)
        ensures
            json_views(r@) == self.messages(),
    {
        &self.emitted
    }

    /// The blocks of the reply.
    pub fn content_blocks(&self) -> (r: &Vec<Json>)
        ensures
            json_views(r@) == self.blocks(),
    {
        &self.content_blocks
    }

    /// The tool calls of the reply.
    pub fn tool_calls(&self) -> (r: &Vec<ToolCall>)
        ensures
            r@ == self.calls(),
    {
        &self.tool_calls
    }

    /// The parts of the end of a reply: messages, blocks and tool calls.
    /// They fit together.
    pub fn into_parts(self) -> (r: (Vec<Json>, Vec<Json>, Vec<ToolCall>))
        ensures
            json_views(r.0@) == self.messages(),
            json_views(r.1@) == self.blocks(),
            r.2@ == self.calls(),
            names_all(self.blocks(), self.calls()),
    {
        proof {
            use_type_invariant(&self);
        }
        (self.emitted, self.content_blocks, self.tool_calls)
    }
}

} // verus!
