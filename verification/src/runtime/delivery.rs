//! Where provider deltas become product events: the provider's stream of
//! frames is cut into lines, each decoded frame gives its text and
//! reasoning deltas, and every event is numbered in its session's sequence
//! on the way to the sink. Decoding a line as JSON is the host's.

use vstd::prelude::*;

use crate::json::{Json, JsonView};
use crate::runtime::events::{is_frame_of, well_formed_event, RuntimeEvent};
use crate::text::concat2;

verus! {

broadcast use vstd::std_specs::vec::group_vec_axioms;

/// A line without its trailing carriage returns and newlines.
pub open spec fn trim_line_end(l: Seq<u8>) -> Seq<u8>
    decreases l.len(),
{
    if l.len() > 0 && (l.last() == 10u8 || l.last() == 13u8) {
        trim_line_end(l.drop_last())
    } else {
        l
    }
}

/// The index of the first newline.
pub open spec fn first_newline(b: Seq<u8>) -> Option<int>
    decreases b.len(),
{
    if b.len() == 0 {
        None
    } else if b[0] == 10u8 {
        Some(0)
    } else {
        match first_newline(b.drop_first()) {
            Some(i) => Some(i + 1),
            None => None,
        }
    }
}

/// The complete lines of `b` (each up to and without its newline, trailing
/// carriage returns removed, empty ones dropped), and what follows the last
/// newline.
pub open spec fn framed(b: Seq<u8>) -> (Seq<Seq<u8>>, Seq<u8>)
    decreases b.len(),
{
    match first_newline(b) {
        None => (Seq::empty(), b),
        Some(i) => {
            proof {
                lemma_first_newline_bound(b);
            }
            let line = trim_line_end(b.subrange(0, i + 1));
            let rest = framed(b.subrange(i + 1, b.len() as int));
            (
                if line.len() > 0 {
                    seq![line] + rest.0
                } else {
                    rest.0
                },
                rest.1,
            )
        },
    }
}

pub proof fn lemma_first_newline_bound(b: Seq<u8>)
    ensures
        first_newline(b) matches Some(i) ==> 0 <= i < b.len() && b[i] == 10u8 && forall|j: int|
            0 <= j < i ==> b[j] != 10u8,
        first_newline(b) is None ==> forall|j: int| 0 <= j < b.len() ==> b[j] != 10u8,
    decreases b.len(),
{
    if b.len() > 0 && b[0] != 10u8 {
        lemma_first_newline_bound(b.drop_first());
        assert forall|j: int| 1 <= j < b.len() implies b[j] == b.drop_first()[j - 1] by {}
    }
}

/// The bytes of a provider's stream not yet cut into lines.
pub struct LineBuffer {
    pub buffer: Vec<u8>,
}

fn trimmed_line(b: &Vec<u8>, from: usize, to: usize) -> (r: Vec<u8>)
    requires
        from <= to <= b.len(),
    ensures
        r@ == trim_line_end(b@.subrange(from as int, to as int)),
{
    let mut end = to;
    while end > from && (b[end - 1] == 10u8 || b[end - 1] == 13u8)
        invariant
            from <= end <= to <= b.len(),
            trim_line_end(b@.subrange(from as int, to as int)) == trim_line_end(b@.subrange(from as int, end as int)),
        decreases end,
    {
        proof {
            assert(b@.subrange(from as int, end as int).drop_last() =~= b@.subrange(from as int, end - 1));
        }
        end = end - 1;
    }
    let mut out: Vec<u8> = Vec::new();
    let mut i = from;
    while i < end
        invariant
            from <= i <= end <= to <= b.len(),
            out@ == b@.subrange(from as int, i as int),
        decreases end - i,
    {
        out.push(b[i]);
        proof {
            assert(out@ =~= b@.subrange(from as int, i + 1));
        }
        i = i + 1;
    }
    out
}

impl LineBuffer {
    pub fn new() -> (r: Self)
        ensures
            r.buffer@.len() == 0,
    {
        LineBuffer { buffer: Vec::new() }
    }

    /// Take in bytes of the stream; gives the lines they complete.
    pub fn push(&mut self, bytes: &[u8]) -> (lines: Vec<Vec<u8>>)
        ensures
            lines@.map_values(|l: Vec<u8>| l@) == framed(old(self).buffer@ + bytes@).0,
            final(self).buffer@ == framed(old(self).buffer@ + bytes@).1,
    {
        let mut all = Vec::new();
        all.append(&mut self.buffer);
        let mut i: usize = 0;
        while i < bytes.len()
            invariant
                i <= bytes@.len(),
                all@ == old(self).buffer@ + bytes@.subrange(0, i as int),
            decreases bytes@.len() - i,
        {
            all.push(bytes[i]);
            proof {
                assert(all@ =~= old(self).buffer@ + bytes@.subrange(0, i + 1));
            }
            i = i + 1;
        }
        proof {
            assert(bytes@.subrange(0, bytes@.len() as int) =~= bytes@);
        }
        let ghost whole = all@;
        let mut lines: Vec<Vec<u8>> = Vec::new();
        let mut start: usize = 0;
        let mut j: usize = 0;
        proof {
            assert(whole.subrange(0, whole.len() as int) =~= whole);
        }
        while j < all.len()
            invariant
                all@ == whole,
                start <= j <= all.len(),
                forall|x: int| start <= x < j ==> whole[x] != 10u8,
                framed(whole) == (
                    lines@.map_values(|l: Vec<u8>| l@) + framed(whole.subrange(start as int, whole.len() as int)).0,
                    framed(whole.subrange(start as int, whole.len() as int)).1,
                ),
            decreases all.len() - j,
        {
            if all[j] == 10u8 {
                let line = trimmed_line(&all, start, j + 1);
                let ghost rest = whole.subrange(start as int, whole.len() as int);
                proof {
                    lemma_first_newline_bound(rest);
                    assert forall|x: int| 0 <= x < j - start implies rest[x] != 10u8 by {
                        assert(rest[x] == whole[start + x]);
                    }
                    assert(rest[j - start] == 10u8);
                    lemma_first_newline_at(rest, j - start);
                    assert(rest.subrange(0, j - start + 1) =~= whole.subrange(start as int, j + 1));
                    assert(rest.subrange(j - start + 1, rest.len() as int) =~= whole.subrange(j + 1, whole.len() as int));
                }
                let ghost before = lines@.map_values(|l: Vec<u8>| l@);
                if line.len() > 0 {
                    lines.push(line);
                    proof {
                        assert(lines@.map_values(|l: Vec<u8>| l@) =~= before.push(line@));
                        assert(before + (seq![line@] + framed(whole.subrange(j + 1, whole.len() as int)).0) =~= before.push(
                            line@,
                        ) + framed(whole.subrange(j + 1, whole.len() as int)).0);
                    }
                }
                start = j + 1;
            }
            j = j + 1;
        }
        let ghost rest = whole.subrange(start as int, whole.len() as int);
        proof {
            lemma_first_newline_bound(rest);
            if first_newline(rest) is Some {
                let x = first_newline(rest).unwrap();
                assert(rest[x] == whole[start + x]);
            }
        }
        let mut tail: Vec<u8> = Vec::new();
        let mut k = start;
        while k < all.len()
            invariant
                all@ == whole,
                start <= k <= all.len(),
                tail@ == whole.subrange(start as int, k as int),
            decreases all.len() - k,
        {
            tail.push(all[k]);
            proof {
                assert(tail@ =~= whole.subrange(start as int, k + 1));
            }
            k = k + 1;
        }
        self.buffer = tail;
        proof {
            assert(lines@.map_values(|l: Vec<u8>| l@) + Seq::<Seq<u8>>::empty() =~= lines@.map_values(
                |l: Vec<u8>| l@,
            ));
        }
        lines
    }

    /// What is left when the stream ends: the bytes after the last newline,
    /// as one more line unless there are none.
    pub fn finish(self) -> (tail: Option<Vec<u8>>)
        ensures
            match tail {
                Some(t) => t@ == self.buffer@ && t@.len() > 0,
                None => self.buffer@.len() == 0,
            },
    {
        if self.buffer.len() == 0 {
            None
        } else {
            Some(self.buffer)
        }
    }
}

proof fn lemma_first_newline_at(b: Seq<u8>, i: int)
    requires
        0 <= i < b.len(),
        b[i] == 10u8,
        forall|x: int| 0 <= x < i ==> b[x] != 10u8,
    ensures
        first_newline(b) == Some(i),
    decreases i,
{
    if i > 0 {
        assert forall|x: int| 0 <= x < i - 1 implies b.drop_first()[x] != 10u8 by {
            assert(b.drop_first()[x] == b[x + 1]);
        }
        lemma_first_newline_at(b.drop_first(), i - 1);
    }
}

// -- Deltas -------------------------------------------------------------------------

/// The text and reasoning a provider frame carries in its `data`.
pub open spec fn frame_deltas(frame: JsonView) -> (Option<Seq<char>>, Option<Seq<char>>) {
    match frame.get("data"@) {
        Some(d) => (d.str_field("text_delta"@), d.str_field("reasoning_delta"@)),
        None => (None, None),
    }
}

/// The text and reasoning gathered from a provider's frames.
pub struct DeltaAccumulator {
    pub text: String,
    pub reasoning: String,
}

pub open spec fn opt_or_empty(o: Option<Seq<char>>) -> Seq<char> {
    match o {
        Some(s) => s,
        None => Seq::empty(),
    }
}

impl DeltaAccumulator {
    pub fn new() -> (r: Self)
        ensures
            r.text@.len() == 0,
            r.reasoning@.len() == 0,
    {
        DeltaAccumulator { text: String::new(), reasoning: String::new() }
    }

    /// Take in one line of a provider stream: a line that decodes as JSON
    /// is taken in as a frame; any other line is skipped.
    pub fn absorb_line(&mut self, line: &str) -> (events: Vec<RuntimeEvent>)
        ensures
            match crate::decoding::json_decoding(line@) {
                None => final(self).text == old(self).text && final(self).reasoning == old(self).reasoning
                    && events@.len() == 0,
                Some(frame) => {
                    &&& final(self).text@ == old(self).text@ + opt_or_empty(frame_deltas(frame).0)
                    &&& final(self).reasoning@ == old(self).reasoning@ + opt_or_empty(frame_deltas(frame).1)
                    &&& events@.len() == (if frame_deltas(frame).0 is Some { 1int } else { 0 }) + (if frame_deltas(
                        frame,
                    ).1 is Some {
                        1int
                    } else {
                        0
                    })
                    &&& frame_deltas(frame).0 matches Some(t) ==> events@[0] matches RuntimeEvent::AssistantDelta {
                        text,
                    } && text@ == t
                    &&& frame_deltas(frame).1 matches Some(r) ==> events@.last() matches RuntimeEvent::ReasoningDelta {
                        text,
                    } && text@ == r
                },
            },
    {
        match crate::decoding::decode_json(line) {
            Some(frame) => self.absorb(&frame),
            None => Vec::new(),
        }
    }

    /// Take in a decoded frame; gives the events it becomes: the assistant
    /// delta of its text, then the reasoning delta of its reasoning.
    pub fn absorb(&mut self, frame: &Json) -> (events: Vec<RuntimeEvent>)
        ensures
            final(self).text@ == old(self).text@ + opt_or_empty(frame_deltas(frame@).0),
            final(self).reasoning@ == old(self).reasoning@ + opt_or_empty(frame_deltas(frame@).1),
            events@.len() == (if frame_deltas(frame@).0 is Some { 1int } else { 0 }) + (if frame_deltas(
                frame@,
            ).1 is Some {
                1int
            } else {
                0
            }),
            frame_deltas(frame@).0 matches Some(t) ==> events@[0] matches RuntimeEvent::AssistantDelta { text }
                && text@ == t,
            frame_deltas(frame@).1 matches Some(r) ==> events@.last() matches RuntimeEvent::ReasoningDelta { text }
                && text@ == r,
    {
        let mut events: Vec<RuntimeEvent> = Vec::new();
        let data = match frame.get("data") {
            Some(d) => d,
            None => {
                assert(old(self).text@ + Seq::<char>::empty() =~= old(self).text@);
                assert(old(self).reasoning@ + Seq::<char>::empty() =~= old(self).reasoning@);
                return events;
            },
        };
        match data.str_field("text_delta") {
            Some(t) => {
                self.text.append(t);
                events.push(RuntimeEvent::AssistantDelta { text: crate::text::owned(t) });
            },
            None => {
                assert(old(self).text@ + Seq::<char>::empty() =~= old(self).text@);
            },
        }
        match data.str_field("reasoning_delta") {
            Some(r) => {
                self.reasoning.append(r);
                events.push(RuntimeEvent::ReasoningDelta { text: crate::text::owned(r) });
            },
            None => {
                assert(old(self).reasoning@ + Seq::<char>::empty() =~= old(self).reasoning@);
            },
        }
        events
    }
}

// -- Numbering ---------------------------------------------------------------------

/// A session's event numbering: the sequence of the last event delivered,
/// and the first delivery failure, after which nothing more is sent.
pub struct EventEmitter {
    pub session_id: String,
    pub sequence: u64,
    pub error: Option<String>,
}

impl EventEmitter {
    pub fn new(session_id: String) -> (r: Self)
        ensures
            r.session_id == session_id,
            r.sequence == 0,
            r.error is None,
    {
        EventEmitter { session_id, sequence: 0, error: None }
    }

    /// Hand `event` to `deliver` as the session's next frame. After a failed
    /// delivery nothing more is sent; a failure is kept, and the sequence
    /// moves on only past a delivered event.
    pub fn emit<F: Fn(Json) -> Result<(), String>>(&mut self, deliver: F, event: &RuntimeEvent)
        requires
            well_formed_event(*event),
            old(self).error is None ==> old(self).sequence < u64::MAX,
            forall|f: Json| #[trigger] deliver.requires((f,)),
        ensures
            final(self).session_id == old(self).session_id,
            old(self).error is Some ==> final(self).sequence == old(self).sequence && final(self).error
                == old(self).error,
            old(self).error is None ==> exists|f: Json, out: Result<(), String>|
                #![trigger deliver.ensures((f,), out)]
                deliver.ensures((f,), out) && is_frame_of(
                    f@,
                    *event,
                    old(self).session_id@,
                    (old(self).sequence + 1) as u64,
                ) && match out {
                    Ok(_) => final(self).sequence == old(self).sequence + 1 && final(self).error is None,
                    Err(e) => final(self).sequence == old(self).sequence && final(self).error == Some(e),
                },
    {
        if self.error.is_some() {
            return;
        }
        let next = self.sequence + 1;
        let frame = event.to_frame(self.session_id.as_str(), next);
        let ghost sent = frame;
        let out = deliver(frame);
        match out {
            Ok(()) => {
                self.sequence = next;
            },
            Err(e) => {
                self.error = Some(e);
            },
        }
        assert(deliver.ensures((sent,), out));
    }

    /// Forget a delivery failure before a new run.
    pub fn clear_error(&mut self)
        ensures
            final(self).error is None,
            final(self).sequence == old(self).sequence,
            final(self).session_id == old(self).session_id,
    {
        self.error = None;
    }

    /// Whether every event so far was delivered.
    pub fn ensure_delivery(&self) -> (r: Result<(), String>)
        ensures
            match self.error {
                Some(e) => r matches Err(x) && x@ == "runtime event persistence failed: "@ + e@,
                None => r is Ok,
            },
    {
        match &self.error {
            Some(e) => Err(concat2("runtime event persistence failed: ", e.as_str())),
            None => Ok(()),
        }
    }
}

} // verus!
