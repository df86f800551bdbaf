use clipstack::assistant::{
    chat_reply, chat_url, models_reply, models_url, sort_model, sort_prompt, strip_code_fence,
    usable_models, ModelEntry,
};
use clipstack::text::chars_of;

fn std_cleaned(reply: &str) -> String {
    reply
        .trim()
        .trim_start_matches("```json")
        .trim_start_matches("```")
        .trim_end_matches("```")
        .to_string()
}

fn entry(name: &str, methods: Option<&[&str]>) -> ModelEntry {
    ModelEntry {
        name: name.to_string(),
        methods: methods.map(|list| list.iter().map(|m| m.to_string()).collect()),
    }
}

#[test]
fn chat_url_names_model_and_key() {
    assert_eq!(
        chat_url("gemini-flash-latest", "k123"),
        "https://generativelanguage.googleapis.com/v1beta/models/gemini-flash-latest:generateContent?key=k123"
    );
}

#[test]
fn models_url_carries_the_key() {
    assert_eq!(
        models_url("k123"),
        "https://generativelanguage.googleapis.com/v1beta/models?key=k123"
    );
}

#[test]
fn sort_model_is_the_flash_model() {
    assert_eq!(sort_model(), "gemini-flash-latest");
}

#[test]
fn sort_prompt_ends_with_the_clips() {
    let prompt = sort_prompt("first\nsecond");
    assert_eq!(
        prompt,
        "You are a helpful assistant. Analyze the following list of text clips. Reorder them \
         into a logical structure (e.g., Problem -> Solution -> Evidence, or Chronological). \
         Return ONLY a valid JSON array of indices representing the new order. Example: [3, 0, 1, \
         2]. Do not include Markdown formatting or explanations. Clips: first\nsecond"
    );
}

#[test]
fn reply_with_an_error_is_the_error() {
    let reply = chat_reply(Some("quota".to_string()), Some(vec![vec!["text".to_string()]]));
    assert_eq!(reply, Err("Gemini Error: quota".to_string()));
}

#[test]
fn reply_is_the_first_text_of_the_first_candidate() {
    let candidates = vec![
        vec!["one".to_string(), "two".to_string()],
        vec!["three".to_string()],
    ];
    assert_eq!(chat_reply(None, Some(candidates)), Ok("one".to_string()));
}

#[test]
fn reply_without_text_is_a_complaint() {
    let complaint = Err("No content returned".to_string());
    assert_eq!(chat_reply(None, None), complaint);
    assert_eq!(chat_reply(None, Some(Vec::new())), complaint);
    assert_eq!(chat_reply(None, Some(vec![Vec::new(), vec!["late".to_string()]])), complaint);
}

#[test]
fn usable_models_offer_generation() {
    let models = vec![
        entry("models/a", Some(&["embedContent"])),
        entry("models/b", Some(&["countTokens", "generateContent"])),
        entry("models/c", None),
        entry("models/d", Some(&[])),
        entry("models/e", Some(&["generateContent"])),
        entry("models/f", Some(&["generatecontent"])),
    ];
    assert_eq!(usable_models(models), vec!["models/b".to_string(), "models/e".to_string()]);
    assert!(usable_models(Vec::new()).is_empty());
}

#[test]
fn listing_with_an_error_is_the_error() {
    let reply = models_reply(
        Some("denied".to_string()),
        Some(vec![entry("models/a", Some(&["generateContent"]))]),
    );
    assert_eq!(reply, Err("Gemini Error: denied".to_string()));
}

#[test]
fn listing_without_models_is_a_complaint() {
    assert_eq!(models_reply(None, None), Err("No models found".to_string()));
}

#[test]
fn listing_gives_the_usable_models() {
    let reply = models_reply(
        None,
        Some(vec![
            entry("models/a", Some(&["generateContent"])),
            entry("models/b", Some(&["embedContent"])),
        ]),
    );
    assert_eq!(reply, Ok(vec!["models/a".to_string()]));
    assert_eq!(models_reply(None, Some(Vec::new())), Ok(Vec::new()));
}

#[test]
fn code_fence_is_taken_off() {
    assert_eq!(strip_code_fence("```json\n[3, 0, 1, 2]\n```"), "\n[3, 0, 1, 2]\n");
    assert_eq!(strip_code_fence("```[1, 0]```"), "[1, 0]");
    assert_eq!(strip_code_fence("  [2, 1, 0] \n"), "[2, 1, 0]");
    assert_eq!(strip_code_fence("[0]"), "[0]");
    assert_eq!(strip_code_fence(""), "");
    assert_eq!(strip_code_fence("   "), "");
    assert_eq!(strip_code_fence("```"), "");
    assert_eq!(strip_code_fence("```json"), "");
}

#[test]
fn code_fence_is_taken_off_as_the_standard_library_does() {
    let replies = [
        "",
        " ",
        "[1]",
        "```json\n[3, 0, 1, 2]\n```",
        "```json```json[1]``````",
        "```\n[1, 2]\n```\n",
        "\t```json[1]",
        "[1]```",
        "````",
        "`````",
        "``````",
        "```json```",
        "```jso",
        "``",
        "x```json",
        "```json ```",
        " ``` json ``` ",
        "\u{a0}```\u{e9}t\u{e9}```\u{2003}",
        "```json\u{1f4cb}```",
        "no fence at all",
        "``` ```",
    ];
    for reply in replies {
        assert_eq!(strip_code_fence(reply), std_cleaned(reply), "reply {:?}", reply);
    }
}

#[test]
fn chars_of_counts_characters_not_bytes() {
    assert_eq!(chars_of("a\u{e9}\u{1f4cb}"), vec!['a', '\u{e9}', '\u{1f4cb}']);
    assert!(chars_of("").is_empty());
}
