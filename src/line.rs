use vstd::prelude::*;

use crate::event::{Event, PowerState};

verus! {

/// Whether a character has the Unicode `White_Space` property.
pub uninterp spec fn white_space(c: char) -> bool;

/// `s` without its leading characters that satisfy `ws`.
pub open spec fn trim_start_by(s: Seq<char>, ws: spec_fn(char) -> bool) -> Seq<char>
    decreases s.len(),
{
    if s.len() > 0 && ws(s[0]) {
        trim_start_by(s.drop_first(), ws)
    } else {
        s
    }
}

/// `s` without its trailing characters that satisfy `ws`.
pub open spec fn trim_end_by(s: Seq<char>, ws: spec_fn(char) -> bool) -> Seq<char>
    decreases s.len(),
{
    if s.len() > 0 && ws(s.last()) {
        trim_end_by(s.drop_last(), ws)
    } else {
        s
    }
}

/// `s` without leading and trailing whitespace.
pub open spec fn trimmed(s: Seq<char>) -> Seq<char> {
    trim_end_by(trim_start_by(s, |c: char| white_space(c)), |c: char| white_space(c))
}

/// The token that opens every AC adapter record.
pub open spec fn adapter_prefix() -> Seq<char> {
    seq!['a', 'c', '_', 'a', 'd', 'a', 'p', 't', 'e', 'r']
}

/// A trimmed line that announces the AC adapter: it begins with the adapter token.
pub open spec fn is_adapter_record(t: Seq<char>) -> bool {
    adapter_prefix().len() <= t.len() && t.subrange(0, adapter_prefix().len() as int)
        == adapter_prefix()
}

/// `t` ends with the character `c`.
pub open spec fn ends_with_char(t: Seq<char>, c: char) -> bool {
    t.len() > 0 && t.last() == c
}

/// The state that an event announces.
pub open spec fn state_after(e: Event) -> PowerState {
    match e {
        Event::Plugged => PowerState::Plugged,
        Event::Unplugged => PowerState::Unplugged,
    }
}

/// One line of the daemon's output applied to the current state: the next
/// state, and the event to emit if the line is a real change of power source.
pub open spec fn step(state: PowerState, line: Seq<char>) -> (PowerState, Option<Event>) {
    let t = trimmed(line);
    if !is_adapter_record(t) {
        (state, None)
    } else if state == PowerState::Plugged && ends_with_char(t, '0') {
        (PowerState::Unplugged, Some(Event::Unplugged))
    } else if state == PowerState::Unplugged && ends_with_char(t, '1') {
        (PowerState::Plugged, Some(Event::Plugged))
    } else {
        (state, None)
    }
}

/// Relies on `str::trim`: removes leading and trailing characters with the
/// Unicode `White_Space` property, and nothing else.
#[verifier::external_body]
pub(crate) fn trim_text(s: &str) -> (r: &str)
    ensures
        r@ == trim_end_by(
            trim_start_by(s@, |c: char| white_space(c)),
            |c: char| white_space(c),
        ),
{
    s.trim()
}

/// Relies on `str::starts_with` with a string pattern: whether `p` is a prefix of `s`.
#[verifier::external_body]
pub(crate) fn has_prefix(s: &str, p: &str) -> (r: bool)
    ensures
        r == (p@.len() <= s@.len() && s@.subrange(0, p@.len() as int) == p@),
{
    s.starts_with(p)
}

/// Relies on `str::ends_with` with a character pattern: whether `c` is the
/// last character of `s`.
#[verifier::external_body]
fn has_last_char(s: &str, c: char) -> (r: bool)
    ensures
        r == (s@.len() > 0 && s@.last() == c),
{
    s.ends_with(c)
}

/// Applies one line of the daemon's output to `state`: returns the next state
/// and the event to emit, if any.
pub fn transition(state: PowerState, line: &str) -> (r: (PowerState, Option<Event>))
    ensures
        r == step(state, line@),
{
    let text = trim_text(line);
    let prefix = "ac_adapter";
    proof {
        reveal_strlit("ac_adapter");
        assert(prefix@ =~= adapter_prefix());
    }
    if !has_prefix(text, prefix) {
        return (state, None);
    }
    match state {
        PowerState::Plugged => {
            if has_last_char(text, '0') {
                (PowerState::Unplugged, Some(Event::Unplugged))
            } else {
                (state, None)
            }
        },
        PowerState::Unplugged => {
            if has_last_char(text, '1') {
                (PowerState::Plugged, Some(Event::Plugged))
            } else {
                (state, None)
            }
        },
    }
}

/// A line that does not begin with the adapter token, once trimmed, leaves
/// the state as it is and emits nothing.
pub proof fn lemma_other_lines_ignored(state: PowerState, line: Seq<char>)
    requires
        !is_adapter_record(trimmed(line)),
    ensures
        step(state, line) == (state, None::<Event>),
{
}

/// While unplugged, an adapter record ending in `1` emits `Plugged` and
/// moves to the plugged state.
pub proof fn lemma_plug_announced(line: Seq<char>)
    requires
        is_adapter_record(trimmed(line)),
        ends_with_char(trimmed(line), '1'),
    ensures
        step(PowerState::Unplugged, line) == (PowerState::Plugged, Some(Event::Plugged)),
{
}

/// While plugged, an adapter record ending in `1` is redundant: nothing is
/// emitted and the state stays plugged.
pub proof fn lemma_redundant_plug_ignored(line: Seq<char>)
    requires
        ends_with_char(trimmed(line), '1'),
    ensures
        step(PowerState::Plugged, line) == (PowerState::Plugged, None::<Event>),
{
}

/// While plugged, an adapter record ending in `0` emits `Unplugged` and
/// moves to the unplugged state.
pub proof fn lemma_unplug_announced(line: Seq<char>)
    requires
        is_adapter_record(trimmed(line)),
        ends_with_char(trimmed(line), '0'),
    ensures
        step(PowerState::Plugged, line) == (PowerState::Unplugged, Some(Event::Unplugged)),
{
}

/// While unplugged, an adapter record ending in `0` is redundant: nothing is
/// emitted and the state stays unplugged.
pub proof fn lemma_redundant_unplug_ignored(line: Seq<char>)
    requires
        ends_with_char(trimmed(line), '0'),
    ensures
        step(PowerState::Unplugged, line) == (PowerState::Unplugged, None::<Event>),
{
}

/// The state always agrees with the last event: a line either leaves the
/// state alone and emits nothing, or emits an event that differs from the
/// state before it and names the state after it.
pub proof fn lemma_events_are_changes(state: PowerState, line: Seq<char>)
    ensures
        step(state, line).1 is None ==> step(state, line).0 == state,
        step(state, line).1 matches Some(e) ==> step(state, line).0 == state_after(e)
            && state != state_after(e),
{
}

} // verus!
