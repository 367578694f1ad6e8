//! The operations offered to the front-end and the menu: produce the
//! current archive, apply a new one, open an archive file, export one.
//! Each takes what the caller has read and answers with what the caller
//! must write, send and schedule.

use base64::DecodeError;
use vstd::prelude::*;
use crate::snapshot::Workspace;
use crate::transport::base64_bytes;
use crate::transport::base64_decode;
use crate::transport::base64_text;
use crate::watcher::notification_for;
use crate::watcher::reaction;
use crate::watcher::set_ignore;
use crate::watcher::SettledBatch;
use crate::watcher::SuppressionFlag;
use crate::watcher::WatchAction;
use crate::watcher::DEBOUNCE_WINDOW_MS;
use crate::workspace::build_sb3;
use crate::workspace::extract_sb3;
use crate::workspace::extracted;
use crate::workspace::extracted_names;
use crate::workspace::pack_image;
use crate::workspace::texts;

verus! {

/// Time, in milliseconds, for which the watcher stays suppressed after the
/// engine has written to the workspace.
pub const UNSUPPRESS_DELAY_MS: u64 = 1000;

/// Suppression outlasts the debounce window, so the batch that the engine's
/// own write settles into is still discarded.
pub proof fn lemma_delay_outlasts_debounce()
    ensures
        UNSUPPRESS_DELAY_MS > DEBOUNCE_WINDOW_MS,
{
}

/// Where the workspace directory lies.
pub struct WorkspacePath(pub String);

/// Why an operation did not happen.
#[derive(Debug)]
pub enum SyncError {
    /// The workspace could not be packed.
    BuildFailed,
    /// The text received was not base64.
    DecodeFailed(DecodeError),
}

/// What the caller does after an archive was applied.
#[derive(Debug)]
pub struct Applied {
    /// Names of the workspace files to write to disk, in order.
    pub written: Vec<String>,
    /// Text for the notification sink, if there is something to send.
    pub notify: Option<String>,
    /// Milliseconds after which the caller clears the suppression flag.
    pub resume_after_ms: u64,
}

/// The answer to "give me the current archive", given what packing returned.
pub fn archive_response(archive: Option<Vec<u8>>) -> (response: Result<String, SyncError>)
    ensures
        match response {
            Ok(text) => archive matches Some(bytes) && text@ == base64_text(bytes@),
            Err(error) => error is BuildFailed && archive is None,
        },
{
    match notification_for(archive) {
        Some(text) => Ok(text),
        None => Err(SyncError::BuildFailed),
    }
}

/// Produces the current archive of the workspace as base64 text.
pub fn get_initial_sb3(workspace: &Workspace) -> (response: Result<String, SyncError>)
    ensures
        match response {
            Ok(text) => pack_image(workspace@) matches Some(bytes) && text@ == base64_text(bytes),
            Err(error) => error is BuildFailed && pack_image(workspace@) is None,
        },
{
    archive_response(build_sb3(workspace))
}

/// Applies archive bytes to the workspace: the flag is set before anything
/// is written, and the answer tells the caller when to clear it again.
/// Until then the watcher discards every settled batch, the one that this
/// write causes among them.
pub fn apply_archive(flag: &mut SuppressionFlag, workspace: &mut Workspace, data: &[u8]) -> (applied:
    Applied)
    requires
        old(workspace).wf(),
    ensures
        final(flag).is_set(),
        forall|batch: SettledBatch|
            #[trigger] reaction(final(flag).is_set(), batch) == WatchAction::Discard,
        final(workspace).wf(),
        final(workspace)@ == extracted(old(workspace)@, data@),
        texts(applied.written@) == extracted_names(data@),
        applied.notify is None,
        applied.resume_after_ms == UNSUPPRESS_DELAY_MS,
{
    set_ignore(flag, true);
    let written = extract_sb3(workspace, data);
    Applied { written, notify: None, resume_after_ms: UNSUPPRESS_DELAY_MS }
}

/// Applies an archive that the front-end sent as base64 text.
///
/// Text that is not base64 is an error and changes nothing. Otherwise the
/// suppression flag is set, the archive is unpacked into the workspace, and
/// the caller is told which files to write and to clear the flag after
/// `UNSUPPRESS_DELAY_MS`.
pub fn save_project_from_editor(
    flag: &mut SuppressionFlag,
    workspace: &mut Workspace,
    sb3_base64: String,
) -> (response: Result<Applied, SyncError>)
    requires
        old(workspace).wf(),
    ensures
        final(workspace).wf(),
        match response {
            Ok(applied) => {
                &&& base64_bytes(sb3_base64@) matches Some(data)
                &&& final(flag).is_set()
                &&& final(workspace)@ == extracted(old(workspace)@, data)
                &&& texts(applied.written@) == extracted_names(data)
                &&& applied.notify is None
                &&& applied.resume_after_ms == UNSUPPRESS_DELAY_MS
            },
            Err(error) => {
                &&& error is DecodeFailed
                &&& base64_bytes(sb3_base64@) is None
                &&& final(flag).is_set() == old(flag).is_set()
                &&& final(workspace)@ == old(workspace)@
            },
        },
{
    match base64_decode(sb3_base64.as_str()) {
        Ok(data) => Ok(apply_archive(flag, workspace, data.as_slice())),
        Err(error) => Err(SyncError::DecodeFailed(error)),
    }
}

/// The workspace path as text.
pub fn get_workspace_path(state: &WorkspacePath) -> (path: String)
    ensures
        path@ == state.0@,
{
    state.0.clone()
}

/// Opens an archive file that the user picked: `picked` holds the file's
/// bytes, or `None` where the picker was dismissed, which is no error and
/// changes nothing. Otherwise the archive is applied as in
/// `save_project_from_editor`, the workspace is packed again, and the new
/// archive, if packing succeeds, is to be sent to the notification sink.
pub fn open_sb3_file(
    flag: &mut SuppressionFlag,
    workspace: &mut Workspace,
    picked: Option<Vec<u8>>,
) -> (outcome: Option<Applied>)
    requires
        old(workspace).wf(),
    ensures
        final(workspace).wf(),
        match outcome {
            Some(applied) => {
                &&& picked matches Some(data)
                &&& final(flag).is_set()
                &&& final(workspace)@ == extracted(old(workspace)@, data@)
                &&& texts(applied.written@) == extracted_names(data@)
                &&& match applied.notify {
                    Some(text) => pack_image(final(workspace)@) matches Some(bytes) && text@
                        == base64_text(bytes),
                    None => pack_image(final(workspace)@) is None,
                }
                &&& applied.resume_after_ms == UNSUPPRESS_DELAY_MS
            },
            None => {
                &&& picked is None
                &&& final(flag).is_set() == old(flag).is_set()
                &&& final(workspace)@ == old(workspace)@
            },
        },
{
    match picked {
        Some(data) => {
            let applied = apply_archive(flag, workspace, data.as_slice());
            let notify = notification_for(build_sb3(workspace));
            Some(Applied { written: applied.written, notify, resume_after_ms: applied.resume_after_ms })
        },
        None => None,
    }
}

/// Exports the workspace to a file that the user picked: the answer holds
/// the bytes to write there. A dismissed picker is no error and gives
/// `Ok(None)` without packing anything.
pub fn export_sb3_file(workspace: &Workspace, picked: bool) -> (response: Result<
    Option<Vec<u8>>,
    SyncError,
>)
    ensures
        match response {
            Ok(Some(bytes)) => picked && pack_image(workspace@) == Some(bytes@),
            Ok(None) => !picked,
            Err(error) => error is BuildFailed && picked && pack_image(workspace@) is None,
        },
{
    if !picked {
        return Ok(None);
    }
    match build_sb3(workspace) {
        Some(bytes) => Ok(Some(bytes)),
        None => Err(SyncError::BuildFailed),
    }
}

} // verus!
