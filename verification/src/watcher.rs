//! The directory watcher's decisions. Watching itself, and the waiting that
//! merges a burst of changes into one settled batch, belong to the caller;
//! what to do with a settled batch is decided here.

use vstd::prelude::*;
use crate::snapshot::Workspace;
use crate::transport::base64_encode;
use crate::transport::base64_text;
use crate::workspace::build_sb3;
use crate::workspace::pack_image;

verus! {

/// Quiet time, in milliseconds, after which a burst of file changes counts
/// as one settled batch.
pub const DEBOUNCE_WINDOW_MS: u64 = 300;

/// The one flag shared by everything that writes to the workspace and by
/// the watcher. While it is set, the watcher passes over what it sees, so
/// that the engine's own writes do not come back as outside edits. The last
/// value set wins; the flag keeps no count of who set it.
pub struct SuppressionFlag {
    ignoring: bool,
}

/// The two states of the watcher.
#[derive(Clone, Copy, Debug, PartialEq, Eq, Structural)]
pub enum WatcherState {
    /// Changes lead to a rebuild.
    Armed,
    /// Changes are observed and thrown away.
    Suppressed,
}

impl SuppressionFlag {
    /// Whether the flag is set.
    pub closed spec fn is_set(&self) -> bool {
        self.ignoring
    }

    /// The watcher's state under this flag.
    pub open spec fn spec_state(&self) -> WatcherState {
        if self.is_set() {
            WatcherState::Suppressed
        } else {
            WatcherState::Armed
        }
    }

    /// A cleared flag: the watcher starts out armed.
    pub fn new() -> (flag: SuppressionFlag)
        ensures
            !flag.is_set(),
    {
        SuppressionFlag { ignoring: false }
    }

    /// The watcher's state under this flag.
    #[verifier::when_used_as_spec(spec_state)]
    pub fn state(&self) -> (state: WatcherState)
        ensures
            state == self.spec_state(),
    {
        if self.ignoring {
            WatcherState::Suppressed
        } else {
            WatcherState::Armed
        }
    }
}

/// Sets or clears the flag.
pub fn set_ignore(flag: &mut SuppressionFlag, val: bool)
    ensures
        final(flag).is_set() == val,
{
    flag.ignoring = val;
}

/// Reads the flag.
pub fn is_ignoring(flag: &SuppressionFlag) -> (ignoring: bool)
    ensures
        ignoring == flag.is_set(),
{
    flag.ignoring
}

/// What the debouncer hands over once the workspace has been quiet for the
/// debounce window: the number of changes it merged, or the number of
/// failures it met while observing.
#[derive(Clone, Copy, Debug, PartialEq, Eq, Structural)]
pub enum SettledBatch {
    Events(usize),
    Errors(usize),
}

/// What the watcher does about a settled batch.
#[derive(Clone, Copy, Debug, PartialEq, Eq, Structural)]
pub enum WatchAction {
    /// Nothing: no rebuild, no notification.
    Discard,
    /// Pack the workspace once and notify the front-end.
    Rebuild,
    /// Log the failures and keep watching.
    ReportErrors,
}

/// The watcher's rule. While suppressed it discards everything. Otherwise a
/// batch with at least one change asks for exactly one rebuild, however many
/// changes were merged into it; an empty batch asks for nothing; failures
/// are reported.
pub open spec fn reaction(ignoring: bool, batch: SettledBatch) -> WatchAction {
    if ignoring {
        WatchAction::Discard
    } else {
        match batch {
            SettledBatch::Events(count) => if count == 0 {
                WatchAction::Discard
            } else {
                WatchAction::Rebuild
            },
            SettledBatch::Errors(_) => WatchAction::ReportErrors,
        }
    }
}

/// Decides what to do about one settled batch.
pub fn on_settled_batch(flag: &SuppressionFlag, batch: SettledBatch) -> (action: WatchAction)
    ensures
        action == reaction(flag.is_set(), batch),
{
    if is_ignoring(flag) {
        return WatchAction::Discard;
    }
    match batch {
        SettledBatch::Events(count) => {
            if count == 0 {
                WatchAction::Discard
            } else {
                WatchAction::Rebuild
            }
        },
        SettledBatch::Errors(_) => WatchAction::ReportErrors,
    }
}

/// The text to hand to the notification sink, given what packing returned:
/// the archive in base64, or nothing where packing failed.
pub fn notification_for(archive: Option<Vec<u8>>) -> (payload: Option<String>)
    ensures
        match payload {
            Some(text) => archive matches Some(bytes) && text@ == base64_text(bytes@),
            None => archive is None,
        },
{
    match archive {
        Some(bytes) => Some(base64_encode(bytes.as_slice())),
        None => None,
    }
}

/// Carries out a rebuild: packs the workspace and encodes the archive for
/// the notification sink. A broken manifest gives `None`; the front-end then
/// keeps what it has and nothing is retried.
pub fn rebuild_notification(workspace: &Workspace) -> (payload: Option<String>)
    ensures
        match payload {
            Some(text) => pack_image(workspace@) matches Some(bytes) && text@ == base64_text(bytes),
            None => pack_image(workspace@) is None,
        },
{
    notification_for(build_sb3(workspace))
}

/// While the flag is set, no batch leads to a rebuild or to any other action.
pub proof fn lemma_suppressed_discards(batch: SettledBatch)
    ensures
        reaction(true, batch) == WatchAction::Discard,
{
}

/// While the flag is clear, a batch of one or more changes leads to a
/// rebuild, one per batch.
pub proof fn lemma_armed_rebuilds(count: usize)
    requires
        count > 0,
    ensures
        reaction(false, SettledBatch::Events(count)) == WatchAction::Rebuild,
{
}

} // verus!
