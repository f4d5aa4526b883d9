//! The byte stream of a streamed response: lines, and the events that they carry.

use vstd::prelude::*;
use vstd::slice::{slice_subrange, slice_to_vec};

use crate::json::{json_parsed, Json};
use crate::state::{
    after_event, effect_view, initial_state, stream_result, Effect, EffectView, ResponseState, StateView,
};
use crate::text::{decode_lossy, same, starts_with, strip_prefix, text_of_bytes, trim, trimmed};
use crate::types::StreamOnceResult;

verus! {

/// What a line of the stream is.
#[derive(Debug, PartialEq)]
pub enum Line<'a> {
    /// Nothing to read: a blank line, the name of an event, or anything unknown.
    Skip,
    /// The mark at the end of the stream.
    Done,
    /// The data of an event.
    Data(&'a str),
}

pub enum LineView {
    Skip,
    Done,
    Data(Seq<char>),
}

impl<'a> View for Line<'a> {
    type V = LineView;

    open spec fn view(&self) -> LineView {
        match *self {
            Line::Skip => LineView::Skip,
            Line::Done => LineView::Done,
            Line::Data(data) => LineView::Data(data@),
        }
    }
}

/// What a line is: white space at its ends does not count.
pub open spec fn line_kind(line: Seq<char>) -> LineView {
    let content = trimmed(line);
    if "data: "@.is_prefix_of(content) {
        let data = content.skip("data: "@.len() as int);
        if data == "[DONE]"@ {
            LineView::Done
        } else {
            LineView::Data(data)
        }
    } else {
        LineView::Skip
    }
}

/// The position of the first line feed, the length where there is none.
pub open spec fn line_end(bytes: Seq<u8>) -> nat
    decreases bytes.len(),
{
    if bytes.len() == 0 || bytes.first() == 10 {
        0
    } else {
        1 + line_end(bytes.drop_first())
    }
}

/// A line feed is among the bytes.
pub open spec fn has_line(bytes: Seq<u8>) -> bool {
    line_end(bytes) < bytes.len()
}

/// The state after a line. Data that is no JSON text is passed over.
pub open spec fn after_line(s: StateView, line: LineView) -> (StateView, Option<EffectView>) {
    match line {
        LineView::Data(data) => match json_parsed(data) {
            Some(event) => after_event(s, event),
            None => (s, None),
        },
        _ => (s, None),
    }
}

/// What is left when the lines of a buffer have been read.
#[verifier::ext_equal]
pub struct Drained {
    pub state: StateView,
    /// The bytes that have not been read.
    pub buffer: Seq<u8>,
    pub effects: Seq<EffectView>,
    /// The reading stopped at the mark for the end of the stream.
    pub done: bool,
}

/// One effect, or none, as a sequence.
pub open spec fn if_any(effect: Option<EffectView>) -> Seq<EffectView> {
    match effect {
        Some(e) => seq![e],
        None => Seq::empty(),
    }
}

/// Reads the lines of a buffer in order, up to the mark for the end of the stream.
pub open spec fn drained(s: StateView, buffer: Seq<u8>) -> Drained
    decreases buffer.len(),
{
    let end = line_end(buffer) as int;
    if end >= buffer.len() {
        Drained { state: s, buffer, effects: Seq::empty(), done: false }
    } else {
        let line = line_kind(text_of_bytes(buffer.take(end)));
        let rest = buffer.skip(end + 1);
        if line is Done {
            Drained { state: s, buffer: rest, effects: Seq::empty(), done: true }
        } else {
            let (next, effect) = after_line(s, line);
            let d = drained(next, rest);
            Drained { effects: if_any(effect) + d.effects, ..d }
        }
    }
}

/// The effects, one by one.
pub open spec fn effect_views(effects: Seq<Effect>) -> Seq<EffectView> {
    effects.map_values(|e: Effect| e@)
}

/// What a line is.
pub fn classify<'a>(line: &'a str) -> (r: Line<'a>)
    ensures
        r@ == line_kind(line@),
{
    let content = trim(line);
    if content.is_empty() {
        proof {
            reveal_strlit("data: ");
        }
        return Line::Skip;
    }
    if starts_with(content, "event:") {
        proof {
            reveal_strlit("event:");
            reveal_strlit("data: ");
            if "data: "@.is_prefix_of(content@) {
                assert("event:"@[0] == content@[0]);
                assert("data: "@[0] == content@[0]);
            }
        }
        return Line::Skip;
    }
    match strip_prefix(content, "data: ") {
        Some(data) => {
            assert(content@.skip("data: "@.len() as int) =~= data@);
            if same(data, "[DONE]") {
                Line::Done
            } else {
                Line::Data(data)
            }
        },
        None => Line::Skip,
    }
}

/// The first line feed ends the first line.
pub proof fn lemma_line_end(bytes: Seq<u8>)
    ensures
        line_end(bytes) <= bytes.len(),
        has_line(bytes) ==> bytes[line_end(bytes) as int] == 10,
        forall|i: int| 0 <= i < line_end(bytes) ==> bytes[i] != 10,
    decreases bytes.len(),
{
    if bytes.len() > 0 && bytes.first() != 10 {
        let rest = bytes.drop_first();
        lemma_line_end(rest);
        assert forall|i: int| 0 <= i < line_end(bytes) implies bytes[i] != 10 by {
            if i > 0 {
                assert(bytes[i] == rest[i - 1]);
            }
        }
        if has_line(bytes) {
            assert(bytes[line_end(bytes) as int] == rest[line_end(rest) as int]);
        }
    }
}

/// Where a line ends is settled by its bytes.
pub proof fn lemma_line_end_at(bytes: Seq<u8>, end: int)
    requires
        0 <= end <= bytes.len(),
        end < bytes.len() ==> bytes[end] == 10,
        forall|i: int| 0 <= i < end ==> bytes[i] != 10,
    ensures
        line_end(bytes) == end,
{
    lemma_line_end(bytes);
}

/// The end of the line that begins at `start`.
fn find_line_end(buffer: &Vec<u8>, start: usize) -> (end: usize)
    requires
        start <= buffer@.len(),
    ensures
        start <= end <= buffer@.len(),
        end - start == line_end(buffer@.skip(start as int)),
{
    let mut end: usize = start;
    while end < buffer.len() && buffer[end] != 10
        invariant
            start <= end <= buffer@.len(),
            forall|i: int| start <= i < end ==> buffer@[i] != 10,
        decreases buffer@.len() - end,
    {
        end = end + 1;
    }
    proof {
        lemma_line_end_at(buffer@.skip(start as int), end - start);
    }
    end
}

/// The time without a byte, in seconds, after which a stream counts as ended.
pub const STREAM_TIMEOUT_SECS: u64 = 480;

/// What waiting for the stream came to.
#[derive(Debug)]
pub enum Arrival<'a> {
    /// More bytes.
    Chunk(&'a [u8]),
    /// The connection failed.
    Failed,
    /// The stream ended.
    Ended,
    /// Nothing came for too long.
    TimedOut,
}

/// What is to be done next.
#[derive(Debug, PartialEq)]
pub enum Step {
    /// Make the effects known and wait for more.
    Continue(Vec<Effect>),
    /// Give up with the error of the connection.
    Abort,
    /// Settle what the response amounts to.
    Finish,
}

/// How the reply to a request for a streamed response is taken.
#[derive(Debug, PartialEq)]
pub enum Opening {
    /// Its bytes are to be read.
    Read(StreamReader),
    /// The request was refused, and the body says why.
    Refused,
}

/// Reads a streamed response from its bytes.
#[derive(Debug, PartialEq)]
pub struct StreamReader {
    pub state: ResponseState,
    /// The bytes that have not been read.
    pub buffer: Vec<u8>,
}

impl StreamReader {
    /// A reader before the first byte.
    pub fn new() -> (r: StreamReader)
        ensures
            r.state@ == initial_state(),
            r.buffer@ == Seq::<u8>::empty(),
    {
        StreamReader { state: ResponseState::new(), buffer: Vec::new() }
    }

    /// Takes the reply by whether its status is one of success: only then is it read as
    /// a stream, from its first byte on.
    pub fn open(success: bool) -> (r: Opening)
        ensures
            match r {
                Opening::Read(reader) => success && reader.state@ == initial_state()
                    && reader.buffer@ == Seq::<u8>::empty(),
                Opening::Refused => !success,
            },
    {
        if success {
            Opening::Read(StreamReader::new())
        } else {
            Opening::Refused
        }
    }

    /// Reads the lines that are complete with these bytes, and returns what is to be
    /// made known of them. After the mark for the end of the stream the lines that
    /// are left wait for more bytes.
    pub fn feed(&mut self, chunk: &[u8]) -> (r: Vec<Effect>)
        ensures
            final(self).state@ == drained(old(self).state@, old(self).buffer@ + chunk@).state,
            final(self).buffer@ == drained(old(self).state@, old(self).buffer@ + chunk@).buffer,
            effect_views(r@) == drained(old(self).state@, old(self).buffer@ + chunk@).effects,
    {
        self.buffer.extend_from_slice(chunk);
        let ghost whole = old(self).buffer@ + chunk@;
        let ghost all = drained(old(self).state@, whole);
        assert(self.buffer@ =~= whole);
        let mut effects: Vec<Effect> = Vec::new();
        let mut start: usize = 0;
        let mut reading = true;
        assert(whole.skip(0) =~= whole);
        assert(all.effects =~= effect_views(effects@) + all.effects);
        while reading
            invariant
                self.buffer@ == whole,
                start <= whole.len(),
                reading ==> {
                    let left = drained(self.state@, whole.skip(start as int));
                    &&& all.state == left.state
                    &&& all.buffer == left.buffer
                    &&& all.effects == effect_views(effects@) + left.effects
                },
                !reading ==> {
                    &&& all.state == self.state@
                    &&& all.buffer == whole.skip(start as int)
                    &&& all.effects == effect_views(effects@)
                },
            decreases
                    whole.len() - start + if reading {
                        1int
                    } else {
                        0int
                    },
        {
            let ghost rest = whole.skip(start as int);
            let ghost before = effect_views(effects@);
            let ghost state = self.state@;
            proof {
                lemma_line_end(rest);
            }
            let end = find_line_end(&self.buffer, start);
            if end == self.buffer.len() {
                reading = false;
                assert(all.effects =~= before);
            } else {
                let line = decode_lossy(slice_subrange(self.buffer.as_slice(), start, end));
                assert(whole.subrange(start as int, end as int) =~= rest.take(line_end(rest) as int));
                start = end + 1;
                assert(whole.skip(start as int) =~= rest.skip(line_end(rest) as int + 1));
                let kind = classify(line.as_str());
                if let Line::Done = kind {
                    reading = false;
                    assert(all.effects =~= before);
                } else {
                    let effect = self.state.take_line(&kind);
                    let ghost left = drained(self.state@, whole.skip(start as int));
                    assert(all.effects == before + (if_any(effect_view(effect)) + left.effects));
                    if let Some(e) = effect {
                        effects.push(e);
                        assert(effect_views(effects@) =~= before.push(e@));
                    }
                    assert(all.effects =~= effect_views(effects@) + left.effects);
                }
            }
        }
        let rest = slice_to_vec(slice_subrange(self.buffer.as_slice(), start, self.buffer.len()));
        assert(rest@ =~= whole.skip(start as int));
        self.buffer = rest;
        effects
    }

    /// Takes in what waiting for the stream came to. A stream on which nothing comes
    /// for too long counts as ended.
    pub fn step(&mut self, arrival: Arrival) -> (r: Step)
        ensures
            arrival matches Arrival::Chunk(chunk) ==> {
                let d = drained(old(self).state@, old(self).buffer@ + chunk@);
                &&& r matches Step::Continue(effects)
                &&& effect_views(effects@) == d.effects
                &&& final(self).state@ == d.state
                &&& final(self).buffer@ == d.buffer
            },
            arrival !is Chunk ==> *final(self) == *old(self),
            arrival is Failed <==> r is Abort,
            arrival is Ended || arrival is TimedOut <==> r is Finish,
    {
        match arrival {
            Arrival::Chunk(chunk) => Step::Continue(self.feed(chunk)),
            Arrival::Failed => Step::Abort,
            Arrival::Ended | Arrival::TimedOut => Step::Finish,
        }
    }

    /// What the response amounts to, given what its reported usage is charged with. Where
    /// none was reported, it is charged with nothing. Bytes that have not been read do
    /// not count.
    pub fn finish(self, charged: Option<u64>) -> (r: StreamOnceResult)
        ensures
            r@ == stream_result(self.state@, charged),
    {
        self.state.finish(charged)
    }
}

impl ResponseState {
    /// Takes in a line, and returns what is to be made known of it.
    pub fn take_line(&mut self, line: &Line) -> (r: Option<Effect>)
        ensures
            (final(self)@, effect_view(r)) == after_line(old(self)@, line@),
    {
        match line {
            Line::Data(data) => match Json::parse(data) {
                Ok(event) => self.apply(&event),
                Err(_) => None,
            },
            _ => None,
        }
    }
}

} // verus!
