use vstd::prelude::*;

use crate::event::PowerState;
use crate::line::{has_prefix, trim_text, trimmed};

verus! {

/// What reading one battery status attribute gave.
#[derive(Debug)]
pub enum StatusRead {
    /// The attribute's text.
    Text(String),
    /// The attribute does not exist.
    Missing,
    /// The attribute exists but could not be read.
    Failed,
}

/// What to do next while the initial power state is resolved.
#[derive(Clone, Copy, Debug, PartialEq, Eq, Structural)]
pub enum BootstrapStep {
    /// The initial state is known.
    Resolved(PowerState),
    /// The primary attribute is missing: read the secondary one.
    ReadSecondary,
    /// Give up, with the error of the last read.
    Fail,
}

/// The status text that means the machine runs on its battery.
pub open spec fn discharging() -> Seq<char> {
    seq!['D', 'i', 's', 'c', 'h', 'a', 'r', 'g', 'i', 'n', 'g']
}

/// The state that a battery status text gives: unplugged exactly when the
/// trimmed text is `Discharging`, compared case-sensitively.
pub open spec fn status_state(text: Seq<char>) -> PowerState {
    if trimmed(text) == discharging() {
        PowerState::Unplugged
    } else {
        PowerState::Plugged
    }
}

/// The step that follows a read of the primary attribute (`on_primary`) or
/// of the secondary one: only a missing primary attribute leads to the
/// secondary one.
pub open spec fn next_step(on_primary: bool, read: StatusRead) -> BootstrapStep {
    match read {
        StatusRead::Text(s) => BootstrapStep::Resolved(status_state(s@)),
        StatusRead::Missing => if on_primary {
            BootstrapStep::ReadSecondary
        } else {
            BootstrapStep::Fail
        },
        StatusRead::Failed => BootstrapStep::Fail,
    }
}

/// The power state that a battery status text gives.
pub fn initial_state(status: &str) -> (r: PowerState)
    ensures
        r == status_state(status@),
{
    let text = trim_text(status);
    let word = "Discharging";
    proof {
        reveal_strlit("Discharging");
        assert(word@ =~= discharging());
    }
    let same = has_prefix(text, word) && has_prefix(word, text);
    proof {
        if same {
            assert(text@ =~= word@);
        }
        if text@ == word@ {
            assert(text@.subrange(0, word@.len() as int) =~= text@);
        }
    }
    if same {
        PowerState::Unplugged
    } else {
        PowerState::Plugged
    }
}

/// Decides what follows a read of a battery status attribute.
pub fn bootstrap_step(on_primary: bool, read: &StatusRead) -> (r: BootstrapStep)
    ensures
        r == next_step(on_primary, *read),
{
    match read {
        StatusRead::Text(s) => BootstrapStep::Resolved(initial_state(s.as_str())),
        StatusRead::Missing => if on_primary {
            BootstrapStep::ReadSecondary
        } else {
            BootstrapStep::Fail
        },
        StatusRead::Failed => BootstrapStep::Fail,
    }
}

} // verus!
