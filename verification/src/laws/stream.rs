//! What a streamed response amounts to, however its bytes arrive.

use vstd::prelude::*;
use vstd::string::*;

use crate::json::{json_parsed, JsonView};
use crate::laws::response::{is_reason, law_stop_reason, lemma_reasons};
use crate::response::TokenUsage;
use crate::state::{
    after_event, arguments_delta, call_at, ended, greatest, in_order, initial_state, stream_result,
    EffectView, StateView,
};
use crate::stream::{
    after_line, drained, has_line, if_any, lemma_line_end, lemma_line_end_at, line_end, line_kind, Drained,
    LineView,
};
use crate::text::text_of_bytes;

verus! {

/// Bytes that arrive in two parts are read as if they arrived in one: the same state, the
/// same bytes left over and the same effects in the same order. Not so where the first
/// part holds the mark for the end of the stream and a whole line follows it: the line
/// is then read with the second part, but not where both parts arrive as one.
pub proof fn law_two_parts(s: StateView, a: Seq<u8>, b: Seq<u8>)
    requires
        drained(s, a).done ==> !has_line(drained(s, a).buffer + b),
    ensures
        ({
            let first = drained(s, a);
            let second = drained(first.state, first.buffer + b);
            drained(s, a + b) == (Drained {
                state: second.state,
                buffer: second.buffer,
                effects: first.effects + second.effects,
                done: first.done || second.done,
            })
        }),
    decreases a.len(),
{
    let first = drained(s, a);
    let second = drained(first.state, first.buffer + b);
    let all = drained(s, a + b);
    lemma_line_end(a);
    if !has_line(a) {
        assert(first.effects + second.effects =~= second.effects);
    } else {
        let end = line_end(a) as int;
        lemma_first_line(a, b);
        let line = line_kind(text_of_bytes(a.take(end)));
        let rest = a.skip(end + 1);
        if line is Done {
            assert(first.effects + second.effects =~= all.effects);
        } else {
            let (next, effect) = after_line(s, line);
            law_two_parts(next, rest, b);
            let d1 = drained(next, rest);
            assert(if_any(effect) + (d1.effects + second.effects) =~= (if_any(effect) + d1.effects)
                + second.effects);
        }
    }
}

/// The chunks, end to end.
pub open spec fn whole(chunks: Seq<Seq<u8>>) -> Seq<u8>
    decreases chunks.len(),
{
    if chunks.len() == 0 {
        Seq::empty()
    } else {
        whole(chunks.drop_last()) + chunks.last()
    }
}

/// Reads the chunks one after the other.
pub open spec fn fed(s: StateView, chunks: Seq<Seq<u8>>) -> Drained
    decreases chunks.len(),
{
    if chunks.len() == 0 {
        Drained { state: s, buffer: Seq::empty(), effects: Seq::empty(), done: false }
    } else {
        let before = fed(s, chunks.drop_last());
        let last = drained(before.state, before.buffer + chunks.last());
        Drained {
            state: last.state,
            buffer: last.buffer,
            effects: before.effects + last.effects,
            done: before.done || last.done,
        }
    }
}

/// After the mark for the end of the stream, no chunk but the one that holds it
/// completes a line.
pub open spec fn ends_at_mark(s: StateView, chunks: Seq<Seq<u8>>) -> bool {
    forall|k: int|
        #![trigger chunks[k]]
        0 <= k < chunks.len() && drained(s, whole(chunks.take(k))).done ==> !has_line(
            drained(s, whole(chunks.take(k))).buffer + chunks[k],
        )
}

/// How a stream is cut into chunks makes no difference, as long as no line follows the
/// mark for its end in a later chunk.
pub proof fn law_any_chunks(s: StateView, chunks: Seq<Seq<u8>>)
    requires
        ends_at_mark(s, chunks),
    ensures
        fed(s, chunks) == drained(s, whole(chunks)),
    decreases chunks.len(),
{
    if chunks.len() > 0 {
        let front = chunks.drop_last();
        let n = front.len() as int;
        assert(chunks.take(n) =~= front);
        assert forall|k: int| #![trigger front[k]] 0 <= k < front.len() && drained(
            s,
            whole(front.take(k)),
        ).done implies !has_line(drained(s, whole(front.take(k))).buffer + front[k]) by {
            assert(front.take(k) =~= chunks.take(k));
            assert(front[k] == chunks[k]);
        }
        law_any_chunks(s, front);
        assert(chunks[n] == chunks.last());
        law_two_parts(s, whole(front), chunks.last());
    } else {
        lemma_line_end(whole(chunks));
    }
}

/// The line leaves the state as it is, and nothing is to be made known of it.
pub open spec fn idle(s: StateView, line: LineView) -> bool {
    after_line(s, line) == (s, None::<EffectView>)
}

/// Every complete line among the bytes leaves the state as it is.
pub open spec fn quiet(s: StateView, bytes: Seq<u8>) -> bool
    decreases bytes.len(),
{
    let end = line_end(bytes) as int;
    end < bytes.len() ==> {
        &&& idle(s, line_kind(text_of_bytes(bytes.take(end))))
        &&& quiet(s, bytes.skip(end + 1))
    }
}

/// No complete line among the bytes holds anything to read.
pub open spec fn nothing_to_read(bytes: Seq<u8>) -> bool
    decreases bytes.len(),
{
    let end = line_end(bytes) as int;
    end < bytes.len() ==> {
        &&& line_kind(text_of_bytes(bytes.take(end))) is Skip
        &&& nothing_to_read(bytes.skip(end + 1))
    }
}

/// The first line of bytes is the first line of all that begins with them.
proof fn lemma_first_line(a: Seq<u8>, b: Seq<u8>)
    requires
        has_line(a),
    ensures
        line_end(a + b) == line_end(a),
        (a + b).take(line_end(a) as int) == a.take(line_end(a) as int),
        (a + b).skip(line_end(a) as int + 1) == a.skip(line_end(a) as int + 1) + b,
{
    let end = line_end(a) as int;
    lemma_line_end(a);
    assert forall|i: int| 0 <= i < end implies (a + b)[i] != 10 by {
        assert((a + b)[i] == a[i]);
    }
    assert((a + b)[end] == a[end]);
    lemma_line_end_at(a + b, end);
    assert((a + b).take(end) =~= a.take(end));
    assert((a + b).skip(end + 1) =~= a.skip(end + 1) + b);
}

/// What is read of a buffer is its beginning, up to the end of a line.
proof fn lemma_drained_rest(s: StateView, bytes: Seq<u8>) -> (n: int)
    ensures
        0 <= n <= bytes.len(),
        n == bytes.len() - drained(s, bytes).buffer.len(),
        drained(s, bytes).buffer == bytes.skip(n),
        n > 0 ==> bytes[n - 1] == 10,
        quiet(s, bytes.take(n)) ==> drained(s, bytes).state == s && drained(s, bytes).effects
            == Seq::<EffectView>::empty(),
    decreases bytes.len(),
{
    lemma_line_end(bytes);
    let d = drained(s, bytes);
    if !has_line(bytes) {
        assert(bytes.skip(0) =~= bytes);
        0
    } else {
        let end = line_end(bytes) as int;
        let line = line_kind(text_of_bytes(bytes.take(end)));
        let rest = bytes.skip(end + 1);
        if line is Done {
            end + 1
        } else {
            let (next, effect) = after_line(s, line);
            let m = lemma_drained_rest(next, rest);
            let n = end + 1 + m;
            assert(rest.skip(m) =~= bytes.skip(n));
            if quiet(s, bytes.take(n)) {
                let head = bytes.take(end + 1);
                assert(head[end] == 10);
                assert forall|i: int| 0 <= i < end implies head[i] != 10 by {
                    assert(head[i] == bytes[i]);
                }
                lemma_line_end_at(head, end);
                lemma_first_line(head, rest.take(m));
                assert(bytes.take(n) =~= head + rest.take(m));
                assert(head.take(end) =~= bytes.take(end));
                assert(head.skip(end + 1) + rest.take(m) =~= rest.take(m));
                assert(d.effects =~= Seq::<EffectView>::empty());
            }
            n
        }
    }
}

/// Where a line ends, quiet bytes part into quiet bytes.
proof fn lemma_quiet_parts(s: StateView, a: Seq<u8>, b: Seq<u8>)
    requires
        quiet(s, a + b),
        a.len() > 0 ==> a.last() == 10,
    ensures
        quiet(s, a),
        quiet(s, b),
    decreases a.len(),
{
    lemma_line_end(a);
    if a.len() == 0 {
        assert(a + b =~= b);
    } else {
        assert(has_line(a)) by {
            assert(a[a.len() - 1] == 10);
        }
        lemma_first_line(a, b);
        lemma_quiet_parts(s, a.skip(line_end(a) as int + 1), b);
    }
}

proof fn lemma_nothing_quiet(s: StateView, bytes: Seq<u8>)
    requires
        nothing_to_read(bytes),
    ensures
        quiet(s, bytes),
    decreases bytes.len(),
{
    if has_line(bytes) {
        lemma_nothing_quiet(s, bytes.skip(line_end(bytes) as int + 1));
    }
}

/// Bytes that follow the mark for the end of the stream in the same chunk wait unread.
proof fn lemma_done_waits(s: StateView, a: Seq<u8>, b: Seq<u8>)
    requires
        drained(s, a).done,
    ensures
        drained(s, a + b) == (Drained { buffer: drained(s, a).buffer + b, ..drained(s, a) }),
    decreases a.len(),
{
    lemma_line_end(a);
    lemma_first_line(a, b);
    let end = line_end(a) as int;
    let line = line_kind(text_of_bytes(a.take(end)));
    if !(line is Done) {
        lemma_done_waits(after_line(s, line).0, a.skip(end + 1), b);
    }
}

/// What a stream in chunks leaves unread is the end of what it leaves unread as a whole,
/// and the two differ only by what was read after the mark for the end of the stream.
proof fn lemma_fed_drained(s: StateView, chunks: Seq<Seq<u8>>) -> (k: int)
    ensures
        ({
            let f = fed(s, chunks);
            let d = drained(s, whole(chunks));
            &&& f.done == d.done
            &&& !d.done ==> f == d
            &&& 0 <= k <= d.buffer.len()
            &&& k == d.buffer.len() - f.buffer.len()
            &&& f.buffer == d.buffer.skip(k)
            &&& k > 0 ==> d.buffer[k - 1] == 10
            &&& quiet(d.state, d.buffer.take(k)) ==> f.state == d.state && f.effects == d.effects
        }),
    decreases chunks.len(),
{
    let f = fed(s, chunks);
    let d = drained(s, whole(chunks));
    if chunks.len() == 0 {
        lemma_line_end(whole(chunks));
        assert(d.buffer.skip(0) =~= d.buffer);
        0
    } else {
        let front = whole(chunks.drop_last());
        let chunk = chunks.last();
        let b = fed(s, chunks.drop_last());
        let e = drained(s, front);
        let j = lemma_fed_drained(s, chunks.drop_last());
        if !e.done {
            law_two_parts(s, front, chunk);
            assert(d.buffer.skip(0) =~= d.buffer);
            0
        } else {
            lemma_done_waits(s, front, chunk);
            let n = lemma_drained_rest(b.state, b.buffer + chunk);
            let k = j + n;
            assert(b.buffer + chunk =~= d.buffer.skip(j));
            assert(d.buffer.skip(j).skip(n) =~= d.buffer.skip(k));
            if quiet(d.state, d.buffer.take(k)) {
                let earlier = e.buffer.take(j);
                let later = (b.buffer + chunk).take(n);
                assert(d.buffer.take(k) =~= earlier + later);
                lemma_quiet_parts(d.state, earlier, later);
                assert(f.effects =~= d.effects);
            }
            k
        }
    }
}

/// A stream in chunks is read at least as far as the stream as a whole, and where it is
/// read further, then after the mark for its end and up to the end of a line. Before the
/// mark the two come to the same.
pub proof fn law_read_at_least_as_far(s: StateView, chunks: Seq<Seq<u8>>)
    ensures
        ({
            let f = fed(s, chunks);
            let d = drained(s, whole(chunks));
            let read = d.buffer.len() - f.buffer.len();
            &&& 0 <= read <= d.buffer.len()
            &&& f.buffer == d.buffer.skip(read)
            &&& read > 0 ==> d.done && d.buffer[read - 1] == 10
            &&& f.done == d.done
            &&& !d.done ==> f == d
        }),
{
    lemma_fed_drained(s, chunks);
}

/// How a stream is cut into chunks makes no difference to what is kept and told of it, as
/// long as the lines that are read after the mark for its end change nothing.
pub proof fn law_quiet_after_mark(s: StateView, chunks: Seq<Seq<u8>>)
    requires
        ({
            let d = drained(s, whole(chunks));
            let read = d.buffer.len() - fed(s, chunks).buffer.len();
            d.done ==> quiet(d.state, d.buffer.take(read))
        }),
    ensures
        fed(s, chunks).state == drained(s, whole(chunks)).state,
        fed(s, chunks).effects == drained(s, whole(chunks)).effects,
        fed(s, chunks).done == drained(s, whole(chunks)).done,
{
    lemma_fed_drained(s, chunks);
}

/// How a stream is cut into chunks makes no difference to what is kept and told of it, as
/// long as no line after the mark for its end holds anything to read. The mark may be cut
/// off anywhere, so also between its line and the blank line that follows.
pub proof fn law_nothing_after_mark(s: StateView, chunks: Seq<Seq<u8>>)
    requires
        drained(s, whole(chunks)).done ==> nothing_to_read(drained(s, whole(chunks)).buffer),
    ensures
        fed(s, chunks).state == drained(s, whole(chunks)).state,
        fed(s, chunks).effects == drained(s, whole(chunks)).effects,
        fed(s, chunks).done == drained(s, whole(chunks)).done,
{
    let d = drained(s, whole(chunks));
    let k = lemma_fed_drained(s, chunks);
    if d.done {
        lemma_nothing_quiet(d.state, d.buffer);
        assert(d.buffer =~= d.buffer.take(k) + d.buffer.skip(k));
        lemma_quiet_parts(d.state, d.buffer.take(k), d.buffer.skip(k));
    }
}

/// The text that effects make known, end to end.
pub open spec fn told_text(effects: Seq<EffectView>) -> Seq<char>
    decreases effects.len(),
{
    if effects.len() == 0 {
        Seq::empty()
    } else {
        match effects.first() {
            EffectView::Delta { text } => text + told_text(effects.drop_first()),
            _ => told_text(effects.drop_first()),
        }
    }
}

/// The last usage that effects make known, or an earlier one.
pub open spec fn told_usage(earlier: Option<TokenUsage>, effects: Seq<EffectView>) -> Option<TokenUsage>
    decreases effects.len(),
{
    if effects.len() == 0 {
        earlier
    } else {
        match effects.first() {
            EffectView::Usage { usage } => told_usage(Some(usage), effects.drop_first()),
            _ => told_usage(earlier, effects.drop_first()),
        }
    }
}

/// What the lines of a buffer add to a state is what is told of them.
proof fn lemma_drained_told(s: StateView, bytes: Seq<u8>)
    ensures
        drained(s, bytes).state.text == s.text + told_text(drained(s, bytes).effects),
        drained(s, bytes).state.usage == told_usage(s.usage, drained(s, bytes).effects),
    decreases bytes.len(),
{
    lemma_line_end(bytes);
    let d = drained(s, bytes);
    if !has_line(bytes) {
        assert(s.text + told_text(d.effects) =~= s.text);
    } else {
        let end = line_end(bytes) as int;
        let line = line_kind(text_of_bytes(bytes.take(end)));
        let rest = bytes.skip(end + 1);
        if line is Done {
            assert(s.text + told_text(d.effects) =~= s.text);
        } else {
            let (next, effect) = after_line(s, line);
            lemma_drained_told(next, rest);
            let later = drained(next, rest).effects;
            match effect {
                Some(e) => {
                    assert(d.effects.first() == e);
                    assert(d.effects.drop_first() =~= later);
                },
                None => {
                    assert(d.effects =~= later);
                },
            }
            assert(d.state.text =~= s.text + told_text(d.effects));
        }
    }
}

proof fn lemma_told_concat(earlier: Option<TokenUsage>, a: Seq<EffectView>, b: Seq<EffectView>)
    ensures
        told_text(a + b) == told_text(a) + told_text(b),
        told_usage(earlier, a + b) == told_usage(told_usage(earlier, a), b),
    decreases a.len(),
{
    if a.len() == 0 {
        assert(a + b =~= b);
        assert(told_text(a) + told_text(b) =~= told_text(b));
    } else {
        assert((a + b).first() == a.first());
        assert((a + b).drop_first() =~= a.drop_first() + b);
        let next = match a.first() {
            EffectView::Usage { usage } => Some(usage),
            _ => earlier,
        };
        lemma_told_concat(next, a.drop_first(), b);
        assert(told_text(a + b) =~= told_text(a) + told_text(b));
    }
}

/// What is told of a stream is what is kept of it, however it is cut: the text of the
/// response is the text that was made known, and its usage the last one that was.
pub proof fn law_told(s: StateView, chunks: Seq<Seq<u8>>)
    ensures
        fed(s, chunks).state.text == s.text + told_text(fed(s, chunks).effects),
        fed(s, chunks).state.usage == told_usage(s.usage, fed(s, chunks).effects),
    decreases chunks.len(),
{
    if chunks.len() == 0 {
        assert(s.text + told_text(fed(s, chunks).effects) =~= s.text);
    } else {
        let before = fed(s, chunks.drop_last());
        let last = drained(before.state, before.buffer + chunks.last());
        law_told(s, chunks.drop_last());
        lemma_drained_told(before.state, before.buffer + chunks.last());
        lemma_told_concat(s.usage, before.effects, last.effects);
        assert(s.text + told_text(before.effects) + told_text(last.effects) =~= s.text + (told_text(
            before.effects,
        ) + told_text(last.effects)));
    }
}

/// A state that has either no reason to stop yet or one of the three.
pub open spec fn reason_known(s: StateView) -> bool {
    s.stop_reason.len() == 0 || is_reason(s.stop_reason)
}

/// An event leaves a state with no reason to stop or with one of the three.
proof fn lemma_event_reason(s: StateView, event: JsonView)
    requires
        reason_known(s),
    ensures
        reason_known(after_event(s, event).0),
{
    if let Some(response) = event.get("response"@) {
        law_stop_reason(response);
    }
}

proof fn lemma_drained_reason(s: StateView, bytes: Seq<u8>)
    requires
        reason_known(s),
    ensures
        reason_known(drained(s, bytes).state),
    decreases bytes.len(),
{
    lemma_line_end(bytes);
    if has_line(bytes) {
        let end = line_end(bytes) as int;
        let line = line_kind(text_of_bytes(bytes.take(end)));
        if let LineView::Data(data) = line {
            if let Some(event) = json_parsed(data) {
                lemma_event_reason(s, event);
            }
        }
        if !(line is Done) {
            lemma_drained_reason(after_line(s, line).0, bytes.skip(end + 1));
        }
    }
}

/// However a stream is cut and wherever it breaks off, its response stops for one of the
/// three reasons. One that breaks off before it is complete stops for a tool if and
/// only if it has called one.
pub proof fn law_stream_reason(chunks: Seq<Seq<u8>>, charged: Option<u64>)
    ensures
        ({
            let s = fed(initial_state(), chunks).state;
            let result = stream_result(s, charged);
            &&& is_reason(result.stop_reason)
            &&& s.stop_reason.len() == 0 ==> (result.stop_reason == "tool_use"@
                <==> result.tool_uses.len() > 0)
        }),
{
    lemma_reasons();
    lemma_fed_reason(chunks);
}

proof fn lemma_fed_reason(chunks: Seq<Seq<u8>>)
    ensures
        reason_known(fed(initial_state(), chunks).state),
    decreases chunks.len(),
{
    if chunks.len() > 0 {
        let before = fed(initial_state(), chunks.drop_last());
        lemma_fed_reason(chunks.drop_last());
        lemma_drained_reason(before.state, before.buffer + chunks.last());
    }
}

/// A finite set that is not empty contains its greatest index.
proof fn lemma_greatest(indices: Set<usize>)
    requires
        indices.finite(),
        indices.len() > 0,
    ensures
        indices.contains(greatest(indices)),
        forall|j: usize| #[trigger] indices.contains(j) ==> j <= greatest(indices),
    decreases indices.len(),
{
    let k = indices.choose();
    let rest = indices.remove(k);
    if rest.len() == 0 {
        assert forall|j: usize| #[trigger] indices.contains(j) implies j <= k by {
            if j != k {
                assert(rest.contains(j));
            }
        }
    } else {
        lemma_greatest(rest);
        let m = greatest(rest);
        let top = if m > k {
            m
        } else {
            k
        };
        assert(indices.contains(top));
        assert forall|j: usize| #[trigger] indices.contains(j) implies j <= top by {
            if j != k {
                assert(rest.contains(j));
            }
        }
    }
}

/// The indices of a finite set in order are all of its indices, each once, ascending.
pub proof fn law_in_order(indices: Set<usize>)
    requires
        indices.finite(),
    ensures
        in_order(indices).to_set() == indices,
        in_order(indices).len() == indices.len(),
        forall|i: int, j: int|
            0 <= i < j < in_order(indices).len() ==> in_order(indices)[i] < in_order(indices)[j],
    decreases indices.len(),
{
    if indices.len() == 0 {
        assert(indices =~= Set::empty());
        assert(in_order(indices).to_set() =~= indices);
    } else {
        lemma_greatest(indices);
        let last = greatest(indices);
        let rest = indices.remove(last);
        law_in_order(rest);
        let before = in_order(rest);
        assert forall|i: int| 0 <= i < before.len() implies before[i] < last by {
            assert(before.to_set().contains(before[i]));
            assert(rest.contains(before[i]));
        }
        assert forall|k: usize| #[trigger] indices.contains(k) implies in_order(
            indices,
        ).to_set().contains(k) by {
            if k == last {
                assert(in_order(indices)[before.len() as int] == k);
            } else {
                assert(before.to_set().contains(k));
                let i = choose|i: int| 0 <= i < before.len() && before[i] == k;
                assert(in_order(indices)[i] == k);
            }
        }
        assert forall|k: usize| #[trigger] in_order(indices).to_set().contains(
            k,
        ) implies indices.contains(k) by {
            let i = choose|i: int| 0 <= i < in_order(indices).len() && in_order(indices)[i] == k;
            if i < before.len() {
                assert(before[i] == k);
                assert(before.to_set().contains(k));
            }
        }
        assert(in_order(indices).to_set() =~= indices);
    }
}

proof fn lemma_drained_finite(s: StateView, bytes: Seq<u8>)
    requires
        s.calls.dom().finite(),
    ensures
        drained(s, bytes).state.calls.dom().finite(),
    decreases bytes.len(),
{
    lemma_line_end(bytes);
    if has_line(bytes) {
        let end = line_end(bytes) as int;
        let line = line_kind(text_of_bytes(bytes.take(end)));
        if !(line is Done) {
            lemma_drained_finite(after_line(s, line).0, bytes.skip(end + 1));
        }
    }
}

proof fn lemma_fed_finite(chunks: Seq<Seq<u8>>)
    ensures
        fed(initial_state(), chunks).state.calls.dom().finite(),
    decreases chunks.len(),
{
    if chunks.len() > 0 {
        let before = fed(initial_state(), chunks.drop_last());
        lemma_fed_finite(chunks.drop_last());
        lemma_drained_finite(before.state, before.buffer + chunks.last());
    }
}

/// Every tool call that a stream spoke of ends as one tool use, in the order of the
/// indices of the calls.
pub proof fn law_every_call_ends(chunks: Seq<Seq<u8>>, charged: Option<u64>)
    ensures
        ({
            let calls = fed(initial_state(), chunks).state.calls;
            let order = in_order(calls.dom());
            let tool_uses = stream_result(
                fed(initial_state(), chunks).state,
                charged,
            ).tool_uses;
            &&& order.to_set() == calls.dom()
            &&& forall|i: int, j: int| 0 <= i < j < order.len() ==> order[i] < order[j]
            &&& tool_uses.len() == calls.dom().len()
            &&& forall|i: int|
                0 <= i < tool_uses.len() ==> #[trigger] tool_uses[i] == ended(calls[order[i]])
        }),
{
    lemma_fed_finite(chunks);
    law_in_order(fed(initial_state(), chunks).state.calls.dom());
}

/// Arguments that come in two pieces for one call add up to those that come in one.
pub proof fn law_arguments_add_up(
    s: StateView,
    first: JsonView,
    second: JsonView,
    both: JsonView,
    index: u64,
)
    requires
        first.at("delta"@).text() is Some,
        second.at("delta"@).text() is Some,
        both.at("delta"@).text() == Some(
            first.at("delta"@).text()->0 + second.at("delta"@).text()->0,
        ),
        first.at("output_index"@).unsigned() == Some(index),
        second.at("output_index"@).unsigned() == Some(index)
            || second.at("output_index"@).unsigned() is None,
        both.at("output_index"@).unsigned() == Some(index),
    ensures
        arguments_delta(arguments_delta(s, first).0, second).0 == arguments_delta(s, both).0,
{
    let k = index as usize;
    let one = arguments_delta(s, first).0;
    let two = arguments_delta(one, second).0;
    let joint = arguments_delta(s, both).0;
    let call = call_at(s.calls, k);
    let d1 = first.at("delta"@).text()->0;
    let d2 = second.at("delta"@).text()->0;
    assert(call_at(one.calls, k).arguments == call.arguments + d1);
    assert((call.arguments + d1) + d2 =~= call.arguments + (d1 + d2));
    assert(two.calls =~= joint.calls);
}

} // verus!
