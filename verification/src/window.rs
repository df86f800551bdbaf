//! What is known about the window a clip was captured from.

use vstd::prelude::*;

verus! {

/// The application and the title of a window.
#[derive(Debug)]
pub struct WindowInfo {
    pub app_name: String,
    pub window_title: String,
}

/// The mathematical view of a [`WindowInfo`].
pub struct WindowInfoView {
    pub app_name: Seq<char>,
    pub window_title: Seq<char>,
}

impl WindowInfoView {
    /// What stands for a window about which nothing could be found out.
    pub open spec fn unknown() -> WindowInfoView {
        WindowInfoView { app_name: "unknown"@, window_title: "Unknown Window"@ }
    }

    /// What a probe found for one part, or `fallback` where it found
    /// nothing or an empty text.
    pub open spec fn part_or(found: Option<Seq<char>>, fallback: Seq<char>) -> Seq<char> {
        match found {
            Some(text) => if text.len() > 0 {
                text
            } else {
                fallback
            },
            None => fallback,
        }
    }

    /// The window described by what a probe found, each part that is missing
    /// or empty taken from [`WindowInfoView::unknown`].
    pub open spec fn from_probe(
        app_name: Option<Seq<char>>,
        window_title: Option<Seq<char>>,
    ) -> WindowInfoView {
        WindowInfoView {
            app_name: Self::part_or(app_name, Self::unknown().app_name),
            window_title: Self::part_or(window_title, Self::unknown().window_title),
        }
    }

    /// Both the application and the title are named.
    pub open spec fn is_named(self) -> bool {
        self.app_name.len() > 0 && self.window_title.len() > 0
    }
}

impl DeepView for WindowInfo {
    type V = WindowInfoView;

    open spec fn deep_view(&self) -> WindowInfoView {
        WindowInfoView { app_name: self.app_name@, window_title: self.window_title@ }
    }
}

impl View for WindowInfo {
    type V = WindowInfoView;

    open spec fn view(&self) -> WindowInfoView {
        self.deep_view()
    }
}

impl Clone for WindowInfo {
    fn clone(&self) -> (copy: Self)
        ensures
            copy == *self,
    {
        WindowInfo { app_name: self.app_name.clone(), window_title: self.window_title.clone() }
    }
}

impl Default for WindowInfo {
    fn default() -> (info: Self)
        ensures
            info@ == WindowInfoView::unknown(),
            info@.is_named(),
    {
        proof {
            reveal_strlit("unknown");
            reveal_strlit("Unknown Window");
        }
        WindowInfo { app_name: "unknown".to_string(), window_title: "Unknown Window".to_string() }
    }
}

impl WindowInfo {
    /// Builds the description of a window from what a probe of the desktop
    /// found. A part the probe could not read is `None`; it is replaced by
    /// the value that [`WindowInfo::default`] has for it, and so is a part
    /// that was read as an empty text. Neither part of the result is empty.
    pub fn from_probe(app_name: Option<String>, window_title: Option<String>) -> (info: Self)
        ensures
            info@ == WindowInfoView::from_probe(app_name.deep_view(), window_title.deep_view()),
            info@.is_named(),
    {
        proof {
            reveal_strlit("unknown");
            reveal_strlit("Unknown Window");
        }
        let app_name = match app_name {
            Some(name) => if name.as_str().is_empty() {
                "unknown".to_string()
            } else {
                name
            },
            None => "unknown".to_string(),
        };
        let window_title = match window_title {
            Some(title) => if title.as_str().is_empty() {
                "Unknown Window".to_string()
            } else {
                title
            },
            None => "Unknown Window".to_string(),
        };
        WindowInfo { app_name, window_title }
    }
}

/// Describes the window in the foreground. This portable form has no way to
/// look at the desktop and always answers with [`WindowInfo::default`]; a
/// platform that can look builds its answer with [`WindowInfo::from_probe`].
pub fn get_active_window_info() -> (info: WindowInfo)
    ensures
        info@ == WindowInfoView::unknown(),
        info@.is_named(),
{
    WindowInfo::default()
}

} // verus!
