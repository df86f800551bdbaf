use clipstack::capture::{
    capture_clip, is_repeat, is_repeat_after, take_in, CaptureOutcome, CLIPBOARD_SETTLE_MILLIS,
    DEDUP_WINDOW_MILLIS,
};
use clipstack::clip::ClipObject;
use clipstack::clock::Timestamp;
use clipstack::storage::AppStorage;
use clipstack::window::WindowInfo;

fn at_millis(id: &str, content: &str, millis: i64) -> ClipObject {
    ClipObject::captured(
        id.to_string(),
        Timestamp { secs: millis / 1000, nanos: ((millis % 1000) * 1_000_000) as u32 },
        content.to_string(),
        WindowInfo::default(),
    )
}

fn window() -> WindowInfo {
    WindowInfo { app_name: "editor".to_string(), window_title: "notes.txt".to_string() }
}

#[test]
fn repeat_within_half_a_second_is_stored_once() {
    let mut storage = AppStorage::default();
    assert!(matches!(take_in(&mut storage, at_millis("1", "foo", 0)), CaptureOutcome::Captured(_)));
    assert!(matches!(take_in(&mut storage, at_millis("2", "foo", 500)), CaptureOutcome::Duplicate(_)));
    let clips = storage.get_clips();
    assert_eq!(clips.len(), 1);
    assert_eq!(clips[0].id, "1");
}

#[test]
fn repeat_after_two_and_a_half_seconds_is_stored_twice() {
    let mut storage = AppStorage::default();
    assert!(matches!(take_in(&mut storage, at_millis("1", "foo", 0)), CaptureOutcome::Captured(_)));
    assert!(matches!(
        take_in(&mut storage, at_millis("2", "foo", 2500)),
        CaptureOutcome::Captured(_)
    ));
    let clips = storage.get_clips();
    assert_eq!(clips.len(), 2);
    assert_eq!(clips[0].id, "2");
    assert_eq!(clips[1].id, "1");
}

#[test]
fn dedup_window_ends_at_two_seconds() {
    let head = at_millis("1", "foo", 10_000);
    assert!(is_repeat(&head, &at_millis("2", "foo", 11_999)));
    assert!(!is_repeat(&head, &at_millis("2", "foo", 12_000)));
    assert!(!is_repeat(&head, &at_millis("2", "foo", 12_001)));
    assert!(is_repeat(&head, &at_millis("2", "foo", 10_000)));
}

#[test]
fn dedup_counts_whole_milliseconds() {
    let head = ClipObject::captured(
        "1".to_string(),
        Timestamp { secs: 100, nanos: 900_000 },
        "foo".to_string(),
        WindowInfo::default(),
    );
    let just_inside = ClipObject::captured(
        "2".to_string(),
        Timestamp { secs: 102, nanos: 400_000 },
        "foo".to_string(),
        WindowInfo::default(),
    );
    let at_the_edge = ClipObject::captured(
        "3".to_string(),
        Timestamp { secs: 102, nanos: 900_000 },
        "foo".to_string(),
        WindowInfo::default(),
    );
    assert!(is_repeat(&head, &just_inside));
    assert!(!is_repeat(&head, &at_the_edge));
}

#[test]
fn capture_before_the_head_counts_as_repeat() {
    let head = at_millis("1", "foo", 50_000);
    assert!(is_repeat(&head, &at_millis("2", "foo", 10_000)));
}

#[test]
fn different_text_is_no_repeat() {
    let head = at_millis("1", "foo", 0);
    assert!(!is_repeat(&head, &at_millis("2", "bar", 1)));
    assert!(!is_repeat(&head, &at_millis("2", "foo ", 1)));
}

#[test]
fn instants_outside_the_calendar_are_no_repeat() {
    let head = at_millis("1", "foo", 0);
    let far = ClipObject::captured(
        "2".to_string(),
        Timestamp { secs: i64::MAX, nanos: 0 },
        "foo".to_string(),
        WindowInfo::default(),
    );
    let odd = ClipObject::captured(
        "3".to_string(),
        Timestamp { secs: 0, nanos: 2_000_000_000 },
        "foo".to_string(),
        WindowInfo::default(),
    );
    assert!(!is_repeat(&head, &far));
    assert!(!is_repeat(&head, &odd));
    assert!(!is_repeat(&far, &head));
}

#[test]
fn repeat_decision_from_its_parts() {
    assert_eq!(DEDUP_WINDOW_MILLIS, 2000);
    assert!(is_repeat_after(true, Some(0)));
    assert!(is_repeat_after(true, Some(500)));
    assert!(is_repeat_after(true, Some(1999)));
    assert!(!is_repeat_after(true, Some(2000)));
    assert!(!is_repeat_after(true, Some(2500)));
    assert!(is_repeat_after(true, Some(-5)));
    assert!(!is_repeat_after(true, None));
    assert!(!is_repeat_after(false, Some(0)));
    assert!(!is_repeat_after(false, None));
}

#[test]
fn duplicate_hands_back_the_clip_it_repeats() {
    let mut storage = AppStorage::default();
    take_in(&mut storage, at_millis("1", "foo", 0));
    match take_in(&mut storage, at_millis("2", "foo", 700)) {
        CaptureOutcome::Duplicate(newest) => {
            assert_eq!(newest.id, "1");
            assert_eq!(newest.content, "foo");
            assert_eq!(newest.metadata.timestamp, Timestamp { secs: 0, nanos: 0 });
        }
        other => panic!("unexpected outcome {:?}", other),
    }
    assert_eq!(storage.get_clips().len(), 1);
}

#[test]
fn only_the_newest_clip_is_compared() {
    let mut storage = AppStorage::default();
    take_in(&mut storage, at_millis("1", "foo", 0));
    take_in(&mut storage, at_millis("2", "bar", 100));
    let outcome = take_in(&mut storage, at_millis("3", "foo", 200));
    assert!(matches!(outcome, CaptureOutcome::Captured(_)));
    assert_eq!(storage.get_clips().len(), 3);
}

#[test]
fn take_in_returns_a_copy_of_the_clip() {
    let mut storage = AppStorage::default();
    match take_in(&mut storage, at_millis("1", "foo", 1234)) {
        CaptureOutcome::Captured(clip) => {
            assert_eq!(clip.id, "1");
            assert_eq!(clip.content, "foo");
            assert_eq!(clip.metadata.timestamp, Timestamp { secs: 1, nanos: 234_000_000 });
        }
        other => panic!("unexpected outcome {:?}", other),
    }
    assert_eq!(storage.get_clips()[0].id, "1");
}

#[test]
fn take_in_without_active_pastebook_hands_the_clip_back() {
    let mut storage =
        AppStorage { pastebooks: Vec::new(), active_pastebook_id: None, api_key: None };
    let outcome = take_in(&mut storage, at_millis("1", "foo", 0));
    assert!(matches!(outcome, CaptureOutcome::Captured(_)));
    assert!(storage.get_clips().is_empty());
}

#[test]
fn blank_capture_is_rejected() {
    let mut storage = AppStorage::default();
    assert!(matches!(capture_clip(&mut storage, String::new(), window()), CaptureOutcome::Empty));
    assert!(matches!(
        capture_clip(&mut storage, "  \n\t ".to_string(), window()),
        CaptureOutcome::Empty
    ));
    assert!(storage.get_clips().is_empty());
}

#[test]
fn capture_makes_a_raw_clip_from_the_window() {
    let mut storage = AppStorage::default();
    let clip = match capture_clip(&mut storage, "  hello ".to_string(), window()) {
        CaptureOutcome::Captured(clip) => clip,
        other => panic!("unexpected outcome {:?}", other),
    };
    assert_eq!(clip.content, "  hello ");
    assert_eq!(clip.metadata.source_app, "editor");
    assert_eq!(clip.metadata.window_title, "notes.txt");
    assert_eq!(clip.status, "raw");
    assert!(clip.metadata.timestamp.secs > 1_600_000_000);
    assert!(clip.metadata.timestamp.nanos < 1_000_000_000);
    let clips = storage.get_clips();
    assert_eq!(clips.len(), 1);
    assert_eq!(clips[0].id, clip.id);
    assert_eq!(clips[0].content, "  hello ");
}

#[test]
fn capture_twice_in_a_row_is_stored_once() {
    let mut storage = AppStorage::default();
    assert!(matches!(
        capture_clip(&mut storage, "foo".to_string(), window()),
        CaptureOutcome::Captured(_)
    ));
    assert!(matches!(
        capture_clip(&mut storage, "foo".to_string(), window()),
        CaptureOutcome::Duplicate(_)
    ));
    assert!(matches!(
        capture_clip(&mut storage, "bar".to_string(), window()),
        CaptureOutcome::Captured(_)
    ));
    assert_eq!(storage.get_clips().len(), 2);
}

#[test]
fn new_clip_ids_are_hyphenated_and_differ() {
    let first = ClipObject::new("a".to_string(), WindowInfo::default());
    let second = ClipObject::new("a".to_string(), WindowInfo::default());
    assert_ne!(first.id, second.id);
    for id in [&first.id, &second.id] {
        let chars: Vec<char> = id.chars().collect();
        assert_eq!(chars.len(), 36);
        for (i, c) in chars.iter().enumerate() {
            if i == 8 || i == 13 || i == 18 || i == 23 {
                assert_eq!(*c, '-');
            } else {
                assert!(c.is_ascii_digit() || ('a'..='f').contains(c));
            }
        }
        assert_eq!(chars[14], '4');
        assert!(matches!(chars[19], '8' | '9' | 'a' | 'b'));
    }
}

#[test]
fn settle_time_is_a_tenth_of_a_second() {
    assert_eq!(CLIPBOARD_SETTLE_MILLIS, 100);
}
