//! Limits of the tool-call loop.

use vstd::prelude::*;
use crate::text::{parse_unsigned, parse_usize, trim, trimmed};

verus! {

/// Name of the environment variable that caps the number of model turns in
/// one run.
pub const MAX_TOOL_ITERATIONS_ENV: &'static str = "OPEN_COWORK_MAX_TOOL_ITERATIONS";

/// The cap that the raw setting `value` stands for. An unset, empty or
/// unreadable setting stands for 0, which means no cap.
pub open spec fn iteration_limit(value: Option<Seq<char>>) -> nat {
    match value {
        Some(raw) => match parse_unsigned(trim(raw), usize::MAX as nat) {
            Some(n) => n,
            None => 0,
        },
        None => 0,
    }
}

/// The view of an optional string slice.
pub open spec fn setting_view(value: Option<&str>) -> Option<Seq<char>> {
    match value {
        Some(raw) => Some(raw@),
        None => None,
    }
}

/// Whether a run that has made `iterations` turns under the cap
/// `max_iterations` must stop.
pub open spec fn must_stop(iterations: nat, max_iterations: nat) -> bool {
    max_iterations > 0 && iterations >= max_iterations
}

/// Reads the cap on model turns from the raw setting: surrounding white
/// space is ignored, and anything but an unsigned number gives 0.
pub fn parse_max_tool_iterations(value: Option<&str>) -> (r: usize)
    ensures
        r == iteration_limit(setting_view(value)),
{
    match value {
        Some(raw) => {
            let t = trimmed(raw);
            match parse_usize(t.as_str()) {
                Some(n) => n,
                None => 0,
            }
        },
        None => 0,
    }
}

/// Whether the loop must stop before its next turn: only under a cap, once
/// the turns made have reached it.
pub fn should_stop_tool_loop(iterations: usize, max_iterations: usize) -> (r: bool)
    ensures
        r == must_stop(iterations as nat, max_iterations as nat),
{
    max_iterations > 0 && iterations >= max_iterations
}

/// Without a cap the loop never stops on account of its turns.
pub proof fn lemma_unlimited_never_stops(iterations: nat)
    ensures
        !must_stop(iterations, 0),
{
}

} // verus!
