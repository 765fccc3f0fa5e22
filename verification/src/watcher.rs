//! When a change to the configuration's directory asks for a reload.
use vstd::prelude::*;

verus! {

/// The kinds of file system events the watcher tells apart.
#[derive(Debug, Clone, Copy, PartialEq, Eq)]
pub enum FsEventKind {
    Modify,
    Create,
    Other,
}

/// The message that asks the server to reload its configuration.
pub const RELOAD_MESSAGE: &'static str = "reload";

/// The pause, in milliseconds, between a change and the reload request.
pub const RELOAD_DELAY_MS: u64 = 500;

/// Whether an event asks for a reload: only modifications and creations do.
pub fn should_reload(kind: FsEventKind) -> (r: bool)
    ensures
        r == (kind == FsEventKind::Modify || kind == FsEventKind::Create),
{
    match kind {
        FsEventKind::Modify | FsEventKind::Create => true,
        FsEventKind::Other => false,
    }
}

} // verus!
