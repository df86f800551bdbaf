//! Taking captured text into the store, and passing over a capture that
//! only repeats the one before it.

use vstd::prelude::*;
use crate::clip::{raw_status, ClipObject, ClipView};
use crate::clock::elapsed_millis;
use crate::storage::{AppStorage, StorageView};
use crate::text::{blank, is_blank};
use crate::window::WindowInfo;

verus! {

/// A capture that repeats the newest clip's text less than this many
/// milliseconds after it is passed over.
pub const DEDUP_WINDOW_MILLIS: i64 = 2000;

/// How many milliseconds to wait after asking the desktop to copy the
/// selection before reading the clipboard, so that the copy has landed.
pub const CLIPBOARD_SETTLE_MILLIS: u64 = 100;

/// How a capture ended.
#[derive(Debug)]
pub enum CaptureOutcome {
    /// The captured text was empty or blank; there was nothing to capture.
    Empty,
    /// The capture repeated the newest clip, which is this one, and was
    /// passed over.
    Duplicate(ClipObject),
    /// The capture was taken in as this clip.
    Captured(ClipObject),
}

/// `candidate` only repeats `head`: both hold the same text, and `candidate`
/// was captured less than [`DEDUP_WINDOW_MILLIS`] after `head`.
pub open spec fn repeats(head: ClipView, candidate: ClipView) -> bool {
    &&& head.content == candidate.content
    &&& match elapsed_millis(candidate.metadata.timestamp, head.metadata.timestamp) {
        Some(elapsed) => elapsed < DEDUP_WINDOW_MILLIS,
        None => false,
    }
}

impl StorageView {
    /// The store passes over `candidate`: the active pastebook has a first
    /// clip and `candidate` only repeats it. Older clips play no part.
    pub open spec fn passes_over(self, candidate: ClipView) -> bool {
        self.active_clips().len() > 0 && repeats(self.active_clips()[0], candidate)
    }
}

/// Decides whether a capture is passed over, from whether it holds the same
/// text as the newest clip and from the milliseconds that passed since that
/// clip was captured (`None` where they could not be measured).
pub fn is_repeat_after(same_content: bool, elapsed: Option<i64>) -> (repeat: bool)
    ensures
        repeat == (same_content && match elapsed {
            Some(millis) => millis < DEDUP_WINDOW_MILLIS,
            None => false,
        }),
{
    same_content && match elapsed {
        Some(millis) => millis < DEDUP_WINDOW_MILLIS,
        None => false,
    }
}

/// Tells whether `candidate` only repeats `head`.
pub fn is_repeat(head: &ClipObject, candidate: &ClipObject) -> (repeat: bool)
    ensures
        repeat == repeats(head@, candidate@),
{
    if head.content == candidate.content {
        let elapsed = candidate.metadata.timestamp.millis_since(&head.metadata.timestamp);
        is_repeat_after(true, elapsed)
    } else {
        false
    }
}

/// Takes the clip `candidate` into the store unless it only repeats the
/// newest clip of the active pastebook; then the store stays as it was and
/// a copy of that newest clip is returned. A clip that is taken in is put
/// first in the active pastebook and a copy of it is returned; where no
/// pastebook is active the copy is returned all the same and the store stays
/// as it was.
pub fn take_in(storage: &mut AppStorage, candidate: ClipObject) -> (outcome: CaptureOutcome)
    ensures
        match outcome {
            CaptureOutcome::Empty => false,
            CaptureOutcome::Duplicate(newest) => {
                &&& old(storage)@.passes_over(candidate@)
                &&& newest@ == old(storage)@.active_clips()[0]
                &&& final(storage)@ == old(storage)@
            },
            CaptureOutcome::Captured(clip) => {
                &&& !old(storage)@.passes_over(candidate@)
                &&& clip@ == candidate@
                &&& final(storage)@ == old(storage)@.add_clip(candidate@)
            },
        },
        old(storage)@.well_formed() ==> final(storage)@.well_formed(),
{
    match storage.get_active_pastebook() {
        Some(pastebook) => {
            if pastebook.clips.len() > 0 && is_repeat(&pastebook.clips[0], &candidate) {
                return CaptureOutcome::Duplicate(pastebook.clips[0].clone());
            }
        },
        None => {},
    }
    let clip = candidate.clone();
    storage.add_clip(candidate);
    CaptureOutcome::Captured(clip)
}

/// Handles text captured from the window `window_info`. Blank text is
/// rejected. Otherwise the text becomes a clip with a fresh identifier and
/// the current time, which is taken into the store as [`take_in`] says.
pub fn capture_clip(storage: &mut AppStorage, content: String, window_info: WindowInfo) -> (outcome:
    CaptureOutcome)
    ensures
        match outcome {
            CaptureOutcome::Empty => is_blank(content@) && final(storage)@ == old(storage)@,
            CaptureOutcome::Duplicate(newest) => {
                &&& !is_blank(content@)
                &&& exists|candidate: ClipView|
                    candidate.content == content@ && #[trigger] old(storage)@.passes_over(
                        candidate,
                    )
                &&& newest@ == old(storage)@.active_clips()[0]
                &&& newest@.content == content@
                &&& final(storage)@ == old(storage)@
            },
            CaptureOutcome::Captured(clip) => {
                &&& !is_blank(content@)
                &&& clip@.content == content@
                &&& clip@.metadata.source_app == window_info@.app_name
                &&& clip@.metadata.window_title == window_info@.window_title
                &&& clip@.status == raw_status()
                &&& !old(storage)@.passes_over(clip@)
                &&& final(storage)@ == old(storage)@.add_clip(clip@)
            },
        },
        old(storage)@.well_formed() ==> final(storage)@.well_formed(),
{
    if blank(content.as_str()) {
        return CaptureOutcome::Empty;
    }
    take_in(storage, ClipObject::new(content, window_info))
}

} // verus!
