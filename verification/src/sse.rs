//! Framing of server-sent events: cutting a growing text buffer into
//! events at blank lines, and reading the `event:` and `data:` lines of one
//! event.

use vstd::prelude::*;
use vstd::string::StringExecFns;
use crate::text::{
    chars_of, find_line_end, is_blank, is_space, is_whitespace, lemma_line_end_bounds, line_end,
    lines, lines_from, starts_with_at, str_eq, string_of, strip_prefix, trim, trim_bounds, views,
};

verus! {

/// A separator, two line feeds in a row, starts at index `i` of `s`.
pub open spec fn break_at(s: Seq<char>, i: int) -> bool {
    0 <= i && i + 1 < s.len() && s[i] == '\n' && s[i + 1] == '\n'
}

/// The index of the first separator of `s` that starts at or after `from`.
pub open spec fn find_break(s: Seq<char>, from: int) -> Option<int>
    decreases s.len() - from,
{
    if from < 0 || from + 1 >= s.len() {
        None
    } else if s[from] == '\n' && s[from + 1] == '\n' {
        Some(from)
    } else {
        find_break(s, from + 1)
    }
}

/// The events that a drain takes out of the buffer `s`: each stretch before
/// a separator, in order, but for those that hold only white space.
pub open spec fn drained_events(s: Seq<char>) -> Seq<Seq<char>>
    decreases s.len(),
{
    match find_break(s, 0) {
        Some(p) => if 0 <= p && p + 2 <= s.len() {
            let event = s.take(p);
            let more = drained_events(s.skip(p + 2));
            if is_blank(event) {
                more
            } else {
                seq![event] + more
            }
        } else {
            seq![]
        },
        None => seq![],
    }
}

/// What a drain leaves in the buffer `s`: the text after the last
/// separator.
pub open spec fn drained_rest(s: Seq<char>) -> Seq<char>
    decreases s.len(),
{
    match find_break(s, 0) {
        Some(p) => if 0 <= p && p + 2 <= s.len() {
            drained_rest(s.skip(p + 2))
        } else {
            s
        },
        None => s,
    }
}

/// What `find_break` finds: the first separator at or after `from`.
pub proof fn lemma_find_break(s: Seq<char>, from: int)
    requires
        0 <= from,
    ensures
        match find_break(s, from) {
            Some(p) => from <= p && break_at(s, p) && forall|j: int|
                from <= j < p ==> !break_at(s, j),
            None => forall|j: int| from <= j ==> !break_at(s, j),
        },
    decreases s.len() - from,
{
    if from + 1 < s.len() && !(s[from] == '\n' && s[from + 1] == '\n') {
        lemma_find_break(s, from + 1);
    }
}

/// A separator with none before it is the one that `find_break` finds.
pub proof fn lemma_first_break(s: Seq<char>, p: int)
    requires
        break_at(s, p),
        forall|j: int| 0 <= j < p ==> !break_at(s, j),
    ensures
        find_break(s, 0) == Some(p),
{
    lemma_find_break(s, 0);
    match find_break(s, 0) {
        Some(q) => {
            if q < p {
                assert(!break_at(s, q));
            } else if p < q {
                assert(!break_at(s, p));
            }
        },
        None => {
            assert(!break_at(s, p));
        },
    }
}

/// An event as it arrives on the wire: it holds no separator and does not
/// end in a line feed, so the separator after it is the first one.
pub open spec fn framed(event: Seq<char>) -> bool {
    &&& forall|j: int| !break_at(event, j)
    &&& (event.len() > 0 ==> event.last() != '\n')
}

/// One framed event, its separator and whatever follows: the drain takes
/// the event, unless it is blank, and goes on with what follows.
pub proof fn lemma_drain_one(event: Seq<char>, tail: Seq<char>)
    requires
        framed(event),
    ensures
        drained_events(event + seq!['\n', '\n'] + tail) == if is_blank(event) {
            drained_events(tail)
        } else {
            seq![event] + drained_events(tail)
        },
        drained_rest(event + seq!['\n', '\n'] + tail) == drained_rest(tail),
{
    let s = event + seq!['\n', '\n'] + tail;
    let p = event.len() as int;
    assert(s[p] == '\n' && s[p + 1] == '\n');
    assert forall|j: int| 0 <= j < p implies !break_at(s, j) by {
        if j + 1 < p {
            assert(s[j] == event[j] && s[j + 1] == event[j + 1]);
            assert(!break_at(event, j));
        } else {
            assert(s[j] == event.last());
        }
    }
    lemma_first_break(s, p);
    assert(s.take(p) =~= event);
    assert(s.skip(p + 2) =~= tail);
}

/// A text without a separator gives no event and stays in the buffer.
pub proof fn lemma_drain_none(partial: Seq<char>)
    requires
        forall|j: int| !break_at(partial, j),
    ensures
        drained_events(partial) == Seq::<Seq<char>>::empty(),
        drained_rest(partial) == partial,
{
    lemma_find_break(partial, 0);
    match find_break(partial, 0) {
        Some(p) => {
            assert(break_at(partial, p));
        },
        None => {},
    }
}

/// Two framed events that are not blank, each with its separator, and then
/// a partial one: the drain yields the two events and leaves the partial
/// one; a second drain yields nothing and leaves it again.
pub proof fn lemma_drain_two(first: Seq<char>, second: Seq<char>, partial: Seq<char>)
    requires
        framed(first),
        framed(second),
        !is_blank(first),
        !is_blank(second),
        forall|j: int| !break_at(partial, j),
    ensures
        drained_events(first + seq!['\n', '\n'] + second + seq!['\n', '\n'] + partial) == seq![
            first,
            second,
        ],
        drained_rest(first + seq!['\n', '\n'] + second + seq!['\n', '\n'] + partial) == partial,
        drained_events(partial) == Seq::<Seq<char>>::empty(),
        drained_rest(partial) == partial,
{
    let sep = seq!['\n', '\n'];
    let tail = second + sep + partial;
    lemma_drain_none(partial);
    lemma_drain_one(second, partial);
    lemma_drain_one(first, tail);
    assert(first + sep + second + sep + partial =~= first + sep + tail);
    assert(seq![first] + (seq![second] + Seq::<Seq<char>>::empty()) =~= seq![first, second]);
}

/// A drain never leaves a separator behind.
pub proof fn lemma_rest_has_no_break(s: Seq<char>)
    ensures
        find_break(drained_rest(s), 0) is None,
    decreases s.len(),
{
    lemma_find_break(s, 0);
    match find_break(s, 0) {
        Some(p) => {
            lemma_rest_has_no_break(s.skip(p + 2));
        },
        None => {},
    }
}

/// Draining what a drain left yields nothing and leaves it unchanged.
pub proof fn lemma_drain_again(s: Seq<char>)
    ensures
        drained_events(drained_rest(s)) == Seq::<Seq<char>>::empty(),
        drained_rest(drained_rest(s)) == drained_rest(s),
{
    lemma_rest_has_no_break(s);
}

/// Whether `v[lo..hi]` holds nothing but white space.
pub fn blank_range(v: &Vec<char>, lo: usize, hi: usize) -> (r: bool)
    requires
        lo <= hi <= v.len(),
    ensures
        r == is_blank(v@.subrange(lo as int, hi as int)),
{
    let ghost s = v@.subrange(lo as int, hi as int);
    let mut i: usize = lo;
    while i < hi
        invariant
            lo <= i <= hi <= v.len(),
            s == v@.subrange(lo as int, hi as int),
            forall|j: int| 0 <= j < i - lo ==> is_space(#[trigger] s[j]),
        decreases hi - i,
    {
        if !is_whitespace(v[i]) {
            assert(!is_space(s[i - lo]));
            return false;
        }
        i += 1;
    }
    true
}

/// Takes every complete event out of `buffer`: the text before each
/// separator, in order, dropping events of white space only. What follows
/// the last separator stays in the buffer.
pub fn drain_sse_events(buffer: &mut String) -> (events: Vec<String>)
    ensures
        views(events@) == drained_events(old(buffer)@),
        final(buffer)@ == drained_rest(old(buffer)@),
{
    let v = chars_of(buffer.as_str());
    let mut events: Vec<String> = Vec::new();
    let mut start: usize = 0;
    let ghost all = v@;
    assert(all.skip(0) =~= all);
    assert(views(events@) =~= Seq::<Seq<char>>::empty());
    loop
        invariant
            start <= v.len(),
            all == v@,
            all == old(buffer)@,
            drained_events(all) == views(events@) + drained_events(all.skip(start as int)),
            drained_rest(all) == drained_rest(all.skip(start as int)),
        ensures
            start <= v.len(),
            all == v@,
            all == old(buffer)@,
            drained_events(all) == views(events@),
            drained_rest(all) == all.skip(start as int),
        decreases v.len() - start,
    {
        let ghost rest = all.skip(start as int);
        let mut i: usize = start;
        while v.len() - i >= 2 && !(v[i] == '\n' && v[i + 1] == '\n')
            invariant
                start <= i <= v.len(),
                all == v@,
                rest == all.skip(start as int),
                find_break(rest, 0) == find_break(rest, i - start),
            decreases v.len() - i,
        {
            assert(rest[i - start] == v@[i as int]);
            assert(rest[i - start + 1] == v@[i + 1]);
            i += 1;
        }
        if v.len() - i < 2 {
            assert(find_break(rest, 0) is None);
            assert(views(events@) + Seq::<Seq<char>>::empty() =~= views(events@));
            break;
        }
        proof {
            assert(rest[i - start] == v@[i as int]);
            assert(rest[i - start + 1] == v@[i + 1]);
            assert(find_break(rest, 0) == Some(i - start));
            assert(rest.take(i - start) =~= all.subrange(start as int, i as int));
            assert(rest.skip(i - start + 2) =~= all.skip(i + 2));
        }
        if !blank_range(&v, start, i) {
            let event = string_of(&v, start, i);
            let ghost before = views(events@);
            events.push(event);
            assert(views(events@) =~= before + seq![event@]);
            assert(before + (seq![event@] + drained_events(all.skip(i + 2))) =~= views(events@)
                + drained_events(all.skip(i + 2)));
        }
        start = i + 2;
    }
    *buffer = string_of(&v, start, v.len());
    assert(all.skip(start as int) =~= all.subrange(start as int, v.len() as int));
    events
}

/// What a line of an event carries under the field name `field`: the text
/// after the name, trimmed, if the trimmed line begins with the name.
pub open spec fn field_value(line: Seq<char>, field: Seq<char>) -> Option<Seq<char>> {
    match strip_prefix(trim(line), field) {
        Some(value) => Some(trim(value)),
        None => None,
    }
}

/// The view of an optional string.
pub open spec fn text_view(r: Option<String>) -> Option<Seq<char>> {
    match r {
        Some(s) => Some(s@),
        None => None,
    }
}

/// What the line `v[lo..hi]` carries under the field name `field`.
pub fn line_field(v: &Vec<char>, lo: usize, hi: usize, field: &str) -> (r: Option<String>)
    requires
        lo <= hi <= v.len(),
    ensures
        text_view(r) == field_value(v@.subrange(lo as int, hi as int), field@),
{
    let (a, b) = trim_bounds(v, lo, hi);
    if !starts_with_at(v, a, b, field) {
        return None;
    }
    let n = chars_of(field).len();
    let ghost t = v@.subrange(a as int, b as int);
    assert(t.skip(n as int) =~= v@.subrange(a + n, b as int));
    let (c, d) = trim_bounds(v, a + n, b);
    Some(string_of(v, c, d))
}

/// The name of the field that carries an event's payload.
pub open spec fn data_field() -> Seq<char> {
    "data:"@
}

/// The name of the field that carries an event's type.
pub open spec fn event_field() -> Seq<char> {
    "event:"@
}

/// The payload that ends a stream of the OpenAI protocol.
pub open spec fn done_mark() -> Seq<char> {
    "[DONE]"@
}

/// The payloads of the `data:` lines among `lines`, in order, up to the
/// first that is the end mark.
pub open spec fn payloads(lines: Seq<Seq<char>>) -> Seq<Seq<char>>
    decreases lines.len(),
{
    if lines.len() == 0 {
        seq![]
    } else {
        match field_value(lines[0], data_field()) {
            Some(data) => if data == done_mark() {
                seq![]
            } else {
                seq![data] + payloads(lines.drop_first())
            },
            None => payloads(lines.drop_first()),
        }
    }
}

/// Whether a `data:` line among `lines` holds the end mark.
pub open spec fn has_end_mark(lines: Seq<Seq<char>>) -> bool
    decreases lines.len(),
{
    if lines.len() == 0 {
        false
    } else {
        field_value(lines[0], data_field()) == Some(done_mark()) || has_end_mark(
            lines.drop_first(),
        )
    }
}

/// The type that the `event:` lines among `lines` give the event: that of
/// the last such line, or the empty text.
pub open spec fn event_type(lines: Seq<Seq<char>>) -> Seq<char>
    decreases lines.len(),
{
    if lines.len() == 0 {
        Seq::empty()
    } else {
        match field_value(lines.last(), event_field()) {
            Some(name) => name,
            None => event_type(lines.drop_last()),
        }
    }
}

/// The payloads of the `data:` lines among `lines` that are no `event:`
/// lines, in order.
pub open spec fn data_lines(lines: Seq<Seq<char>>) -> Seq<Seq<char>>
    decreases lines.len(),
{
    if lines.len() == 0 {
        seq![]
    } else {
        let line = lines.last();
        let before = data_lines(lines.drop_last());
        if field_value(line, event_field()) is Some {
            before
        } else {
            match field_value(line, data_field()) {
                Some(data) => before.push(data),
                None => before,
            }
        }
    }
}

/// The texts `parts` with a line feed between each two.
pub open spec fn joined(parts: Seq<Seq<char>>) -> Seq<char>
    decreases parts.len(),
{
    if parts.len() == 0 {
        Seq::empty()
    } else if parts.len() == 1 {
        parts[0]
    } else {
        joined(parts.drop_last()) + seq!['\n'] + parts.last()
    }
}

/// One event of the Anthropic protocol: its type and its payload.
#[derive(Debug, PartialEq)]
pub struct SseEvent {
    pub event_type: String,
    pub data: String,
}

/// The typed event that the text `event` holds, if it has a payload.
pub open spec fn typed_event(event: Seq<char>) -> Option<(Seq<char>, Seq<char>)> {
    let parts = data_lines(lines(event));
    if parts.len() == 0 {
        None
    } else {
        Some((event_type(lines(event)), joined(parts)))
    }
}

/// The view of an optional typed event.
pub open spec fn event_view(r: Option<SseEvent>) -> Option<(Seq<char>, Seq<char>)> {
    match r {
        Some(e) => Some((e.event_type@, e.data@)),
        None => None,
    }
}

/// The lines from an index on are the line that starts there and the lines
/// after its line feed.
proof fn lemma_lines_step(s: Seq<char>, from: int)
    requires
        0 <= from < s.len(),
    ensures
        from <= line_end(s, from) <= s.len(),
        lines_from(s, from) == seq![s.subrange(from, line_end(s, from))] + lines_from(
            s,
            line_end(s, from) + 1,
        ),
{
    lemma_line_end_bounds(s, from);
    let e = line_end(s, from);
    if e >= s.len() {
        assert(lines_from(s, e + 1) =~= Seq::<Seq<char>>::empty());
        assert(seq![s.subrange(from, e)] + Seq::<Seq<char>>::empty() =~= seq![s.subrange(from, e)]);
    }
}

/// The payloads that an event of the OpenAI protocol carries: those of its
/// `data:` lines, in order, up to the first end mark.
pub fn event_payloads(event: &str) -> (r: Vec<String>)
    ensures
        views(r@) == payloads(lines(event@)),
{
    let v = chars_of(event);
    let ghost s = v@;
    let mut out: Vec<String> = Vec::new();
    let mut from: usize = 0;
    assert(views(out@) =~= Seq::<Seq<char>>::empty());
    while from < v.len()
        invariant
            from <= v.len(),
            s == v@,
            s == event@,
            payloads(lines(s)) == views(out@) + payloads(lines_from(s, from as int)),
        decreases v.len() - from,
    {
        let e = find_line_end(&v, from, v.len());
        proof {
            assert(v@.take(v.len() as int) =~= v@);
            lemma_lines_step(s, from as int);
            let rest = lines_from(s, from as int);
            assert(rest[0] == s.subrange(from as int, e as int));
            assert(rest.drop_first() =~= lines_from(s, e + 1));
        }
        match line_field(&v, from, e, "data:") {
            Some(data) => {
                if str_eq(data.as_str(), "[DONE]") {
                    assert(views(out@) + Seq::<Seq<char>>::empty() =~= views(out@));
                    return out;
                }
                let ghost before = views(out@);
                out.push(data);
                assert(views(out@) =~= before + seq![data@]);
                assert(before + (seq![data@] + payloads(lines_from(s, e + 1))) =~= views(out@)
                    + payloads(lines_from(s, e + 1)));
            },
            None => {},
        }
        if e < v.len() {
            from = e + 1;
        } else {
            from = e;
            assert(lines_from(s, e + 1) =~= lines_from(s, e as int));
        }
    }
    assert(lines_from(s, from as int) =~= Seq::<Seq<char>>::empty());
    assert(views(out@) + Seq::<Seq<char>>::empty() =~= views(out@));
    out
}

/// Whether an event of the OpenAI protocol ends the stream: whether one of
/// its `data:` lines holds the end mark.
pub fn event_ends_stream(event: &str) -> (r: bool)
    ensures
        r == has_end_mark(lines(event@)),
{
    let v = chars_of(event);
    let ghost s = v@;
    let mut from: usize = 0;
    while from < v.len()
        invariant
            from <= v.len(),
            s == v@,
            s == event@,
            has_end_mark(lines(s)) == has_end_mark(lines_from(s, from as int)),
        decreases v.len() - from,
    {
        let e = find_line_end(&v, from, v.len());
        proof {
            assert(v@.take(v.len() as int) =~= v@);
            lemma_lines_step(s, from as int);
            let rest = lines_from(s, from as int);
            assert(rest[0] == s.subrange(from as int, e as int));
            assert(rest.drop_first() =~= lines_from(s, e + 1));
        }
        match line_field(&v, from, e, "data:") {
            Some(data) => {
                if str_eq(data.as_str(), "[DONE]") {
                    return true;
                }
            },
            None => {},
        }
        if e < v.len() {
            from = e + 1;
        } else {
            from = e;
            assert(lines_from(s, e + 1) =~= lines_from(s, e as int));
        }
    }
    assert(lines_from(s, from as int) =~= Seq::<Seq<char>>::empty());
    false
}

/// The typed event that the text `event` holds: the type that its last
/// `event:` line names, and the payloads of its `data:` lines joined by line
/// feeds. `None` for an event without a `data:` line.
pub fn parse_event(event: &str) -> (r: Option<SseEvent>)
    ensures
        event_view(r) == typed_event(event@),
{
    let v = chars_of(event);
    let ghost s = v@;
    let ghost mut seen: Seq<Seq<char>> = Seq::empty();
    let mut kind = String::new();
    let mut data = String::new();
    let mut has_data = false;
    let mut from: usize = 0;
    assert(seen + lines_from(s, 0) =~= lines(s));
    while from < v.len()
        invariant
            from <= v.len(),
            s == v@,
            s == event@,
            lines(s) == seen + lines_from(s, from as int),
            kind@ == event_type(seen),
            has_data == (data_lines(seen).len() > 0),
            data@ == joined(data_lines(seen)),
        decreases v.len() - from,
    {
        let e = find_line_end(&v, from, v.len());
        proof {
            assert(v@.take(v.len() as int) =~= v@);
            lemma_lines_step(s, from as int);
        }
        let ghost line = s.subrange(from as int, e as int);
        let ghost next = seen.push(line);
        proof {
            assert(next.drop_last() =~= seen);
            assert(next.last() == line);
            assert(seen + (seq![line] + lines_from(s, e + 1)) =~= next + lines_from(s, e + 1));
        }
        match line_field(&v, from, e, "event:") {
            Some(name) => {
                kind = name;
            },
            None => {
                match line_field(&v, from, e, "data:") {
                    Some(value) => {
                        if has_data {
                            data.append("\n");
                            proof {
                                reveal_strlit("\n");
                                assert("\n"@ =~= seq!['\n']);
                            }
                        }
                        data.append(value.as_str());
                        has_data = true;
                        proof {
                            let parts = data_lines(next);
                            assert(parts == data_lines(seen).push(value@));
                            assert(parts.drop_last() =~= data_lines(seen));
                            if data_lines(seen).len() == 0 {
                                assert(Seq::<char>::empty() + value@ =~= value@);
                            }
                        }
                    },
                    None => {},
                }
            },
        }
        proof {
            seen = next;
        }
        if e < v.len() {
            from = e + 1;
        } else {
            from = e;
            assert(lines_from(s, e + 1) =~= lines_from(s, e as int));
        }
    }
    assert(lines_from(s, from as int) =~= Seq::<Seq<char>>::empty());
    assert(seen + Seq::<Seq<char>>::empty() =~= seen);
    if has_data {
        Some(SseEvent { event_type: kind, data })
    } else {
        None
    }
}

} // verus!
