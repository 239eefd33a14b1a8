//! Turns the line protocol of the ACPI event daemon into a sequence of
//! AC adapter plug and unplug events, one per real change of power source.

pub mod bootstrap;
pub mod decoder;
pub mod event;
pub mod line;

pub use bootstrap::{bootstrap_step, initial_state, BootstrapStep, StatusRead};
pub use decoder::{AcPlugDecoder, DecodeError};
pub use event::{Event, PowerState};
pub use line::transition;
