//! The core of a freestanding program that shows a short message on a
//! memory-mapped text display: how a character cell is encoded, a model of the
//! display's buffer, and the entry and fault routines as a state machine whose
//! every step says which write (if any) the hardware should see.

pub mod cell;
pub mod screen;
pub mod entry;
