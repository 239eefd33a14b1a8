use vstd::prelude::*;
use vstd::utf8::{decode_utf8, valid_utf8};

use crate::event::{Event, PowerState};
use crate::line::{step, transition};

verus! {

/// Why a record of the daemon could not be interpreted.
#[derive(Clone, Copy, Debug, PartialEq, Eq, Structural)]
pub enum DecodeError {
    /// A record whose bytes are not valid UTF-8.
    InvalidUtf8,
}

/// The newline byte that terminates every record.
pub const NEWLINE: u8 = 10;

/// The length of the first record in `b`, its newline included, or `None`
/// when `b` holds no newline.
pub open spec fn line_end(b: Seq<u8>) -> Option<nat>
    decreases b.len(),
{
    if b.len() == 0 {
        None
    } else if b[0] == NEWLINE {
        Some(1)
    } else {
        match line_end(b.drop_first()) {
            Some(n) => Some(n + 1),
            None => None,
        }
    }
}

/// What a poll does to the line buffer `pending` and to `state`: it takes
/// complete records off the front one by one until one emits an event, one
/// is not valid UTF-8, or no complete record is left. It returns the bytes
/// left, the new state and the outcome.
pub open spec fn drain(pending: Seq<u8>, state: PowerState) -> (
    Seq<u8>,
    PowerState,
    Result<Option<Event>, DecodeError>,
)
    decreases pending.len(),
    via drain_decreases
{
    match line_end(pending) {
        None => (pending, state, Ok(None)),
        Some(n) => {
            let line = pending.subrange(0, n as int);
            let rest = pending.subrange(n as int, pending.len() as int);
            if !valid_utf8(line) {
                (rest, state, Err(DecodeError::InvalidUtf8))
            } else {
                let (next, event) = step(state, decode_utf8(line));
                if event is Some {
                    (rest, next, Ok(event))
                } else {
                    drain(rest, next)
                }
            }
        },
    }
}

#[via_fn]
proof fn drain_decreases(pending: Seq<u8>, state: PowerState) {
    lemma_line_end_bounds(pending);
}

/// What the end of the stream does: the complete records are drained as by
/// a poll; if that emits nothing, the unterminated tail, if any, is read as
/// one last record, and the buffer is left empty.
pub open spec fn drain_at_end(pending: Seq<u8>, state: PowerState) -> (
    Seq<u8>,
    PowerState,
    Result<Option<Event>, DecodeError>,
) {
    let (rest, next, outcome) = drain(pending, state);
    if outcome != Ok::<Option<Event>, DecodeError>(None) || rest.len() == 0 {
        (rest, next, outcome)
    } else if !valid_utf8(rest) {
        (Seq::empty(), next, Err(DecodeError::InvalidUtf8))
    } else {
        let (last, event) = step(next, decode_utf8(rest));
        (Seq::empty(), last, Ok(event))
    }
}

/// A first record, when there is one, has at least its newline and fits in the buffer.
pub proof fn lemma_line_end_bounds(b: Seq<u8>)
    ensures
        line_end(b) matches Some(n) ==> 1 <= n <= b.len() && b[n - 1] == NEWLINE,
        line_end(b) is None ==> forall|k: int| 0 <= k < b.len() ==> b[k] != NEWLINE,
    decreases b.len(),
{
    if b.len() > 0 && b[0] != NEWLINE {
        lemma_line_end_bounds(b.drop_first());
        assert forall|k: int| 0 < k < b.len() implies b[k] == b.drop_first()[k - 1] by {}
    }
}

/// Where a scan that found no newline before `i` stops, the first record ends.
proof fn lemma_line_end_scan(b: Seq<u8>, i: int)
    requires
        0 <= i <= b.len(),
        forall|k: int| 0 <= k < i ==> b[k] != NEWLINE,
    ensures
        i == b.len() ==> line_end(b) is None,
        i < b.len() && b[i] == NEWLINE ==> line_end(b) == Some((i + 1) as nat),
    decreases i,
{
    if i > 0 {
        let t = b.drop_first();
        assert forall|k: int| 0 <= k < i - 1 implies t[k] != NEWLINE by {
            assert(t[k] == b[k + 1]);
        }
        lemma_line_end_scan(t, i - 1);
    }
}

/// A record that arrives in two reads is read as if it came in one: a poll
/// between the reads, while no newline has come, changes nothing, and the
/// buffer after the second read is the one that a single read would give.
pub proof fn lemma_split_read(pending: Seq<u8>, state: PowerState, first: Seq<u8>, second: Seq<u8>)
    requires
        line_end(pending + first) is None,
    ensures
        drain(pending + first, state) == (pending + first, state, Ok::<Option<Event>, DecodeError>(None)),
        drain((pending + first) + second, state) == drain(pending + (first + second), state),
{
    assert((pending + first) + second =~= pending + (first + second));
}

/// One complete record in an otherwise empty buffer is interpreted exactly as
/// `step` says, and leaves the buffer empty.
pub proof fn lemma_one_record(state: PowerState, record: Seq<u8>)
    requires
        line_end(record) == Some(record.len()),
        valid_utf8(record),
    ensures
        drain(record, state) == (
            Seq::<u8>::empty(),
            step(state, decode_utf8(record)).0,
            Ok::<Option<Event>, DecodeError>(step(state, decode_utf8(record)).1),
        ),
{
    let n = record.len() as int;
    assert(record.subrange(0, n) =~= record);
    assert(record.subrange(n, n) =~= Seq::<u8>::empty());
    let next = step(state, decode_utf8(record)).0;
    assert(line_end(Seq::<u8>::empty()) is None);
    assert(drain(Seq::<u8>::empty(), next) == (Seq::<u8>::empty(), next, Ok::<Option<Event>, DecodeError>(None)));
}

/// The end of a stream that stopped after complete records ends cleanly:
/// once a poll has found no event, nothing is left in the buffer, and the
/// end of the stream emits nothing and reports no error.
pub proof fn lemma_clean_end(pending: Seq<u8>, state: PowerState)
    requires
        pending.len() == 0 || pending.last() == NEWLINE,
        drain(pending, state).2 == Ok::<Option<Event>, DecodeError>(None),
    ensures
        drain(pending, state).0 == Seq::<u8>::empty(),
        drain_at_end(pending, state) == (
            Seq::<u8>::empty(),
            drain(pending, state).1,
            Ok::<Option<Event>, DecodeError>(None),
        ),
    decreases pending.len(),
{
    lemma_line_end_bounds(pending);
    if pending.len() > 0 {
        match line_end(pending) {
            None => {
                assert(pending[pending.len() - 1] == NEWLINE);
            },
            Some(n) => {
                let line = pending.subrange(0, n as int);
                let rest = pending.subrange(n as int, pending.len() as int);
                if rest.len() > 0 {
                    assert(rest.last() == pending.last());
                }
                let next = step(state, decode_utf8(line)).0;
                lemma_clean_end(rest, next);
            },
        }
    } else {
        assert(pending =~= Seq::<u8>::empty());
    }
}

/// A poll that emits nothing and reports no error leaves at most the bytes
/// of one unterminated record in the buffer.
pub proof fn lemma_idle_poll_leaves_one_partial(pending: Seq<u8>, state: PowerState)
    requires
        drain(pending, state).2 == Ok::<Option<Event>, DecodeError>(None),
    ensures
        line_end(drain(pending, state).0) is None,
    decreases pending.len(),
{
    lemma_line_end_bounds(pending);
    if let Some(n) = line_end(pending) {
        let line = pending.subrange(0, n as int);
        let rest = pending.subrange(n as int, pending.len() as int);
        lemma_idle_poll_leaves_one_partial(rest, step(state, decode_utf8(line)).0);
    }
}

/// Relies on `String::from_utf8`: succeeds exactly when the bytes are valid
/// UTF-8, and then holds the characters that they encode.
#[verifier::external_body]
fn utf8_text(bytes: Vec<u8>) -> (r: Option<String>)
    ensures
        r is Some <==> valid_utf8(bytes@),
        r matches Some(s) ==> s@ == decode_utf8(bytes@),
{
    String::from_utf8(bytes).ok()
}

/// The length of the first record in `b`, its newline included.
fn find_line_end(b: &Vec<u8>) -> (r: Option<usize>)
    ensures
        match r {
            Some(n) => line_end(b@) == Some(n as nat),
            None => line_end(b@) is None,
        },
{
    let mut i: usize = 0;
    while i < b.len()
        invariant
            0 <= i <= b.len(),
            forall|k: int| 0 <= k < i ==> b@[k] != NEWLINE,
        decreases b.len() - i,
    {
        if b[i] == NEWLINE {
            proof {
                lemma_line_end_scan(b@, i as int);
            }
            return Some(i + 1);
        }
        i = i + 1;
    }
    proof {
        lemma_line_end_scan(b@, i as int);
    }
    None
}

/// The parsing and deduplication engine behind a stream of AC plug events:
/// the bytes of an unterminated record and the current power state.
pub struct AcPlugDecoder {
    pending: Vec<u8>,
    state: PowerState,
}

impl AcPlugDecoder {
    /// The bytes received that do not yet form a complete record.
    pub closed spec fn pending_bytes(&self) -> Seq<u8> {
        self.pending@
    }

    /// The state that decides which announcements are real changes.
    pub closed spec fn power_state(&self) -> PowerState {
        self.state
    }

    /// A decoder with an empty buffer, starting from the given state.
    pub fn new(initial: PowerState) -> (r: AcPlugDecoder)
        ensures
            r.pending_bytes() == Seq::<u8>::empty(),
            r.power_state() == initial,
    {
        AcPlugDecoder { pending: Vec::new(), state: initial }
    }

    /// The current power state.
    pub fn current_state(&self) -> (r: PowerState)
        ensures
            r == self.power_state(),
    {
        self.state
    }

    /// Appends bytes read from the connection to the line buffer.
    pub fn push_bytes(&mut self, data: &[u8])
        ensures
            final(self).pending_bytes() == old(self).pending_bytes() + data@,
            final(self).power_state() == old(self).power_state(),
    {
        let mut i: usize = 0;
        while i < data.len()
            invariant
                0 <= i <= data.len(),
                self.state == old(self).state,
                self.pending@ == old(self).pending@ + data@.subrange(0, i as int),
            decreases data.len() - i,
        {
            self.pending.push(data[i]);
            i = i + 1;
            proof {
                assert(self.pending@ =~= old(self).pending@ + data@.subrange(0, i as int));
            }
        }
        proof {
            assert(data@.subrange(0, i as int) =~= data@);
        }
    }

    /// Interprets the complete records in the buffer, one by one, until one
    /// is a real change of power source, which is returned; `Ok(None)` when
    /// the buffer holds no complete record that changes the state. Records
    /// after the one that emits stay in the buffer.
    pub fn next_event(&mut self) -> (r: Result<Option<Event>, DecodeError>)
        ensures
            (final(self).pending_bytes(), final(self).power_state(), r) == drain(
                old(self).pending_bytes(),
                old(self).power_state(),
            ),
    {
        loop
            invariant
                drain(self.pending@, self.state) == drain(old(self).pending@, old(self).state),
            decreases self.pending@.len(),
        {
            let found = find_line_end(&self.pending);
            match found {
                None => {
                    return Ok(None);
                },
                Some(n) => {
                    proof {
                        lemma_line_end_bounds(self.pending@);
                    }
                    let mut line = self.pending.split_off(n);
                    std::mem::swap(&mut line, &mut self.pending);
                    match utf8_text(line) {
                        None => {
                            return Err(DecodeError::InvalidUtf8);
                        },
                        Some(text) => {
                            let (next, event) = transition(self.state, text.as_str());
                            self.state = next;
                            if event.is_some() {
                                return Ok(event);
                            }
                        },
                    }
                },
            }
        }
    }

    /// Ends the stream: interprets the complete records as `next_event` does
    /// and, if none of them emits, the unterminated tail as one last record.
    pub fn finish(&mut self) -> (r: Result<Option<Event>, DecodeError>)
        ensures
            (final(self).pending_bytes(), final(self).power_state(), r) == drain_at_end(
                old(self).pending_bytes(),
                old(self).power_state(),
            ),
    {
        let outcome = self.next_event();
        match outcome {
            Ok(None) => {},
            _ => {
                return outcome;
            },
        }
        if self.pending.len() == 0 {
            return outcome;
        }
        let ghost rest = self.pending@;
        let tail = self.pending.split_off(0);
        assert(self.pending@ =~= Seq::empty());
        assert(tail@ =~= rest);
        match utf8_text(tail) {
            None => Err(DecodeError::InvalidUtf8),
            Some(text) => {
                let (last, event) = transition(self.state, text.as_str());
                self.state = last;
                Ok(event)
            },
        }
    }
}

} // verus!
