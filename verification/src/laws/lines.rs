//! How a stream is read line by line.

use vstd::prelude::*;
use vstd::string::*;
use vstd::utf8::{decode_utf8, valid_utf8};

use crate::json::json_read;
use crate::laws::json::{is_bare, is_blank, law_trimmed};
use crate::state::{after_event, StateView};
use crate::stream::{
    after_line, drained, if_any, lemma_line_end_at, line_kind, Drained, LineView,
};
use crate::text::{text_of_bytes, utf8_lossy};

verus! {

/// Whatever white space stands around it, a line with `data: ` in front carries what
/// follows, unless that is the mark for the end of the stream; any other line holds
/// nothing to read.
pub proof fn law_line_kind(before: Seq<char>, content: Seq<char>, after: Seq<char>, data: Seq<char>)
    requires
        is_blank(before),
        is_blank(after),
        is_bare(content),
    ensures
        ({
            let kind = line_kind(before + content + after);
            &&& content == "data: "@ + data ==> (if data == "[DONE]"@ {
                kind is Done
            } else {
                kind == LineView::Data(data)
            })
            &&& !"data: "@.is_prefix_of(content) ==> kind is Skip
        }),
{
    law_trimmed(before, content, after);
    if content == "data: "@ + data {
        assert(content.subrange(0, "data: "@.len() as int) =~= "data: "@);
        assert(content.skip("data: "@.len() as int) =~= data);
    }
}

/// A line reads as the characters that its bytes encode.
pub proof fn law_line_text(bytes: Seq<u8>)
    ensures
        valid_utf8(bytes) ==> text_of_bytes(bytes) == decode_utf8(bytes),
        !valid_utf8(bytes) ==> text_of_bytes(bytes) == utf8_lossy(bytes),
{
}

/// Bytes without a line feed are kept for later.
pub proof fn law_no_line(s: StateView, bytes: Seq<u8>)
    requires
        forall|i: int| 0 <= i < bytes.len() ==> bytes[i] != 10,
    ensures
        drained(s, bytes) == (Drained {
            state: s,
            buffer: bytes,
            effects: Seq::empty(),
            done: false,
        }),
{
    lemma_line_end_at(bytes, bytes.len() as int);
}

/// The first line of a buffer is read before the others: the mark for the end of the stream
/// leaves them unread, data that is a JSON text is taken in as an event, and any other
/// line makes no difference.
pub proof fn law_one_line(s: StateView, line: Seq<u8>, rest: Seq<u8>)
    requires
        forall|i: int| 0 <= i < line.len() ==> line[i] != 10,
    ensures
        ({
            let all = drained(s, line.push(10) + rest);
            match line_kind(text_of_bytes(line)) {
                LineView::Done => all == (Drained {
                    state: s,
                    buffer: rest,
                    effects: Seq::empty(),
                    done: true,
                }),
                LineView::Skip => all == drained(s, rest),
                LineView::Data(data) => match json_read(data) {
                    Ok(event) => {
                        let later = drained(after_event(s, event).0, rest);
                        &&& all.state == later.state
                        &&& all.buffer == later.buffer
                        &&& all.done == later.done
                        &&& after_event(s, event).1 matches Some(effect) ==> all.effects == seq![
                            effect,
                        ] + later.effects
                        &&& after_event(s, event).1 is None ==> all.effects == later.effects
                    },
                    Err(_) => all == drained(s, rest),
                },
            }
        }),
{
    let bytes = line.push(10) + rest;
    let end = line.len() as int;
    assert forall|i: int| 0 <= i < end implies bytes[i] != 10 by {
        assert(bytes[i] == line[i]);
    }
    lemma_line_end_at(bytes, end);
    assert(bytes.take(end) =~= line);
    assert(bytes.skip(end + 1) =~= rest);
    let kind = line_kind(text_of_bytes(line));
    if !(kind is Done) {
        let (next, effect) = after_line(s, kind);
        let later = drained(next, rest);
        if effect is None {
            assert(if_any(effect) + later.effects =~= later.effects);
        }
    }
}

} // verus!
