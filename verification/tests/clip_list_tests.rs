use clipstack::clip::ClipObject;
use clipstack::clips::{find_clip, joined_content, merge, remove_clip, reorder, replace_content};
use clipstack::clock::Timestamp;
use clipstack::ident::contains_id;
use clipstack::text::{blank, join_blank_line};
use clipstack::window::WindowInfo;

fn listed(items: &[(&str, &str)]) -> Vec<ClipObject> {
    items
        .iter()
        .map(|(id, content)| {
            ClipObject::captured(
                id.to_string(),
                Timestamp { secs: 10, nanos: 0 },
                content.to_string(),
                WindowInfo::default(),
            )
        })
        .collect()
}

fn id_list(clips: &[ClipObject]) -> Vec<&str> {
    clips.iter().map(|c| c.id.as_str()).collect()
}

fn owned(items: &[&str]) -> Vec<String> {
    items.iter().map(|s| s.to_string()).collect()
}

#[test]
fn find_clip_gives_the_first_position() {
    let clips = listed(&[("a", "1"), ("b", "2"), ("a", "3")]);
    assert_eq!(find_clip(&clips, "a"), Some(0));
    assert_eq!(find_clip(&clips, "b"), Some(1));
    assert_eq!(find_clip(&clips, "c"), None);
    assert_eq!(find_clip(&Vec::new(), "a"), None);
}

#[test]
fn find_clip_compares_whole_identifiers() {
    let clips = listed(&[("abc", "1"), ("ab", "2")]);
    assert_eq!(find_clip(&clips, "ab"), Some(1));
    assert_eq!(find_clip(&clips, "a"), None);
    assert_eq!(find_clip(&clips, "abcd"), None);
}

#[test]
fn contains_id_looks_through_the_list() {
    let ids = owned(&["x", "y"]);
    assert!(contains_id(&ids, "x"));
    assert!(contains_id(&ids, "y"));
    assert!(!contains_id(&ids, "z"));
    assert!(!contains_id(&Vec::new(), "x"));
}

#[test]
fn remove_clip_keeps_the_others_in_order() {
    let mut clips = listed(&[("a", "1"), ("b", "2"), ("c", "3"), ("b", "4")]);
    assert!(remove_clip(&mut clips, "b"));
    assert_eq!(id_list(&clips), vec!["a", "c"]);
    assert!(!remove_clip(&mut clips, "b"));
    assert_eq!(id_list(&clips), vec!["a", "c"]);
}

#[test]
fn replace_content_on_the_first_match() {
    let mut clips = listed(&[("a", "1"), ("b", "2")]);
    assert!(replace_content(&mut clips, "b", "two".to_string()));
    assert_eq!(clips[1].content, "two");
    assert_eq!(clips[0].content, "1");
    assert!(!replace_content(&mut clips, "z", "none".to_string()));
}

#[test]
fn reorder_takes_a_repeated_id_once() {
    let mut clips = listed(&[("a", "1"), ("b", "2")]);
    reorder(&mut clips, &owned(&["a", "a"]));
    assert_eq!(id_list(&clips), vec!["a", "b"]);
    reorder(&mut clips, &owned(&["b", "a", "b", "b", "a"]));
    assert_eq!(id_list(&clips), vec!["b", "a"]);
}

#[test]
fn reorder_takes_a_repeated_id_where_it_first_stands() {
    let mut clips = listed(&[("a", "1"), ("b", "2"), ("c", "3"), ("d", "4")]);
    reorder(&mut clips, &owned(&["c", "gone", "a", "c", "gone", "d", "a"]));
    assert_eq!(id_list(&clips), vec!["c", "a", "d", "b"]);
    assert_eq!(clips.len(), 4);
}

#[test]
fn reorder_reverses_on_request() {
    let mut clips = listed(&[("a", "1"), ("b", "2"), ("c", "3")]);
    reorder(&mut clips, &owned(&["c", "b", "a"]));
    assert_eq!(id_list(&clips), vec!["c", "b", "a"]);
}

#[test]
fn merge_three_clips() {
    let mut clips = listed(&[("a", "1"), ("b", "2"), ("c", "3"), ("d", "4")]);
    let merged = merge(&mut clips, &owned(&["d", "a", "c"]), "m".to_string()).unwrap();
    assert_eq!(merged.content, "4\n\n1\n\n3");
    assert_eq!(merged.id, "m");
    assert_eq!(merged.status, "raw");
    assert_eq!(id_list(&clips), vec!["m", "b"]);
    assert_eq!(clips[0].content, "4\n\n1\n\n3");
}

#[test]
fn merge_of_the_same_id_twice_repeats_its_text() {
    let mut clips = listed(&[("a", "1"), ("b", "2")]);
    let merged = merge(&mut clips, &owned(&["a", "a"]), "m".to_string()).unwrap();
    assert_eq!(merged.content, "1\n\n1");
    assert_eq!(id_list(&clips), vec!["m", "b"]);
}

#[test]
fn merge_needs_two_ids_and_a_match() {
    let mut clips = listed(&[("a", "1"), ("b", "2")]);
    assert!(merge(&mut clips, &owned(&["a"]), "m".to_string()).is_none());
    assert!(merge(&mut clips, &owned(&["x", "y"]), "m".to_string()).is_none());
    assert!(merge(&mut clips, &Vec::new(), "m".to_string()).is_none());
    assert_eq!(id_list(&clips), vec!["a", "b"]);
}

#[test]
fn joined_content_of_clips() {
    assert_eq!(joined_content(&Vec::new()), "");
    assert_eq!(joined_content(&listed(&[("a", "one")])), "one");
    assert_eq!(joined_content(&listed(&[("a", "one"), ("b", "two")])), "one\n\ntwo");
}

#[test]
fn join_blank_line_of_parts() {
    assert_eq!(join_blank_line(&Vec::new()), "");
    assert_eq!(join_blank_line(&vec!["a"]), "a");
    assert_eq!(join_blank_line(&vec!["a", "b", "c"]), "a\n\nb\n\nc");
    assert_eq!(join_blank_line(&vec!["", ""]), "\n\n");
}

#[test]
fn blank_text_is_recognised() {
    assert!(blank(""));
    assert!(blank(" "));
    assert!(blank(" \t\r\n"));
    assert!(blank("\u{a0}\u{2003}"));
    assert!(!blank("a"));
    assert!(!blank("  a  "));
    assert!(!blank("\n.\n"));
}

#[test]
fn white_space_is_the_listed_characters() {
    let listed = |c: char| {
        c == ' '
            || ('\u{9}'..='\u{d}').contains(&c)
            || c == '\u{85}'
            || c == '\u{a0}'
            || c == '\u{1680}'
            || ('\u{2000}'..='\u{200a}').contains(&c)
            || c == '\u{2028}'
            || c == '\u{2029}'
            || c == '\u{202f}'
            || c == '\u{205f}'
            || c == '\u{3000}'
    };
    let mut count = 0;
    let mut text = String::new();
    for code in 0..=0x10ffffu32 {
        if let Some(c) = char::from_u32(code) {
            text.clear();
            text.push(c);
            assert_eq!(blank(&text), listed(c), "character {:?}", c);
            if listed(c) {
                count += 1;
            }
        }
    }
    assert_eq!(count, 25);
    assert!(!blank("`"));
    assert!(blank("   "));
}
