//! Playing a demo again when its file changes.

use vstd::prelude::*;

verus! {

/// How long to wait between two looks at the file, in milliseconds.
pub const POLL_MS: u64 = 500;

/// When a file was last changed: so much after the epoch, or so much before it.
#[derive(Clone, Copy, PartialEq, Eq, Structural, Debug)]
pub struct Stamp {
    pub before_epoch: bool,
    pub seconds: u64,
    pub nanos: u32,
}

/// Whether a file has changed between two looks. It has where its time differs, and where it
/// came or went.
pub fn file_changed(initial: Option<Stamp>, current: Option<Stamp>) -> (changed: bool)
    ensures
        changed == (initial != current),
{
    match (initial, current) {
        (Some(a), Some(b)) => a != b,
        (None, None) => false,
        _ => true,
    }
}

}
