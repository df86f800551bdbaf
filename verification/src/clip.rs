//! A clip: one captured piece of text with where and when it was captured.

use vstd::prelude::*;
use crate::clock::Timestamp;
use crate::ident::{fresh_id, is_fresh_id};
use crate::window::WindowInfo;

verus! {

/// Where and when a clip was captured.
#[derive(Debug)]
pub struct ClipMetadata {
    pub timestamp: Timestamp,
    pub source_app: String,
    pub window_title: String,
}

/// One captured piece of text.
#[derive(Debug)]
pub struct ClipObject {
    pub id: String,
    pub content: String,
    pub metadata: ClipMetadata,
    pub status: String,
}

/// The mathematical view of a [`ClipMetadata`].
pub struct MetadataView {
    pub timestamp: Timestamp,
    pub source_app: Seq<char>,
    pub window_title: Seq<char>,
}

/// The mathematical view of a [`ClipObject`].
pub struct ClipView {
    pub id: Seq<char>,
    pub content: Seq<char>,
    pub metadata: MetadataView,
    pub status: Seq<char>,
}

/// The status of a clip that nothing has processed yet.
pub open spec fn raw_status() -> Seq<char> {
    "raw"@
}

impl ClipView {
    /// This clip with its text replaced and everything else kept.
    pub open spec fn with_content(self, content: Seq<char>) -> ClipView {
        ClipView { content, ..self }
    }
}

impl DeepView for ClipMetadata {
    type V = MetadataView;

    open spec fn deep_view(&self) -> MetadataView {
        MetadataView {
            timestamp: self.timestamp,
            source_app: self.source_app@,
            window_title: self.window_title@,
        }
    }
}

impl View for ClipMetadata {
    type V = MetadataView;

    open spec fn view(&self) -> MetadataView {
        self.deep_view()
    }
}

impl DeepView for ClipObject {
    type V = ClipView;

    open spec fn deep_view(&self) -> ClipView {
        ClipView {
            id: self.id@,
            content: self.content@,
            metadata: self.metadata@,
            status: self.status@,
        }
    }
}

impl View for ClipObject {
    type V = ClipView;

    open spec fn view(&self) -> ClipView {
        self.deep_view()
    }
}

impl Clone for ClipMetadata {
    fn clone(&self) -> (copy: Self)
        ensures
            copy == *self,
    {
        ClipMetadata {
            timestamp: self.timestamp,
            source_app: self.source_app.clone(),
            window_title: self.window_title.clone(),
        }
    }
}

impl Clone for ClipObject {
    fn clone(&self) -> (copy: Self)
        ensures
            copy == *self,
    {
        ClipObject {
            id: self.id.clone(),
            content: self.content.clone(),
            metadata: self.metadata.clone(),
            status: self.status.clone(),
        }
    }
}

impl ClipObject {
    /// Makes the clip for text that was just captured from the window
    /// `window_info`: it gets a fresh identifier, the current time and the
    /// status of an unprocessed clip.
    pub fn new(content: String, window_info: WindowInfo) -> (clip: Self)
        ensures
            clip@.content == content@,
            clip@.metadata.source_app == window_info@.app_name,
            clip@.metadata.window_title == window_info@.window_title,
            clip@.status == raw_status(),
            is_fresh_id(clip@.id),
    {
        ClipObject::captured(fresh_id(), Timestamp::now(), content, window_info)
    }

    /// Makes the clip for text captured at `timestamp` from the window
    /// `window_info`, under the identifier `id`.
    pub fn captured(id: String, timestamp: Timestamp, content: String, window_info: WindowInfo) -> (clip: Self)
        ensures
            clip@ == (ClipView {
                id: id@,
                content: content@,
                metadata: MetadataView {
                    timestamp,
                    source_app: window_info@.app_name,
                    window_title: window_info@.window_title,
                },
                status: raw_status(),
            }),
    {
        ClipObject {
            id,
            content,
            metadata: ClipMetadata {
                timestamp,
                source_app: window_info.app_name,
                window_title: window_info.window_title,
            },
            status: "raw".to_string(),
        }
    }
}

} // verus!
