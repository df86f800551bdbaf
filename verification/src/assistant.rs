//! The optional sorting assistant, a language model reached over the
//! network: what it is asked, and how what it sends back is read. The
//! exchange itself is the caller's business; the store never depends on the
//! assistant's answers.

use vstd::prelude::*;
use vstd::string::StrSliceExecFns;
use crate::ident::contains_id;
use crate::text::{
    chars_of, skip_leading, skip_trailing, skip_white_end, skip_white_start, trimmed,
    without_leading, without_trailing,
};

verus! {

/// The address under which the service lists and runs its models.
pub open spec fn models_endpoint() -> Seq<char> {
    "https://generativelanguage.googleapis.com/v1beta/models"@
}

/// The model that is asked to sort clips.
pub open spec fn sorting_model() -> Seq<char> {
    "gemini-flash-latest"@
}

/// The instructions that precede the clips in a request to sort them.
pub open spec fn sort_instructions() -> Seq<char> {
    "You are a helpful assistant. \
Analyze the following list of text clips. \
Reorder them into a logical structure (e.g., Problem -> Solution -> Evidence, or Chronological). \
Return ONLY a valid JSON array of indices representing the new order. \
Example: [3, 0, 1, 2]. \
Do not include Markdown formatting or explanations. \
Clips: "@
}

/// The name of the method a model must offer to be of use.
pub open spec fn generate_method() -> Seq<char> {
    "generateContent"@
}

/// The address to send a request for `model` to, the key attached.
pub fn chat_url(model: &str, api_key: &str) -> (url: String)
    ensures
        url@ == models_endpoint() + "/"@ + model@ + ":generateContent?key="@ + api_key@,
{
    let mut url = "https://generativelanguage.googleapis.com/v1beta/models".to_string();
    url.append("/");
    url.append(model);
    url.append(":generateContent?key=");
    url.append(api_key);
    url
}

/// The address that lists the models, the key attached.
pub fn models_url(api_key: &str) -> (url: String)
    ensures
        url@ == models_endpoint() + "?key="@ + api_key@,
{
    let mut url = "https://generativelanguage.googleapis.com/v1beta/models".to_string();
    url.append("?key=");
    url.append(api_key);
    url
}

/// The name of the model that is asked to sort clips.
pub fn sort_model() -> (model: String)
    ensures
        model@ == sorting_model(),
{
    "gemini-flash-latest".to_string()
}

/// The request to sort clips: the instructions, then the clips' text.
pub fn sort_prompt(clips_content: &str) -> (prompt: String)
    ensures
        prompt@ == sort_instructions() + clips_content@,
{
    let mut prompt = "You are a helpful assistant. \
Analyze the following list of text clips. \
Reorder them into a logical structure (e.g., Problem -> Solution -> Evidence, or Chronological). \
Return ONLY a valid JSON array of indices representing the new order. \
Example: [3, 0, 1, 2]. \
Do not include Markdown formatting or explanations. \
Clips: ".to_string();
    prompt.append(clips_content);
    prompt
}

/// The text of the first part of the first candidate answer, if the
/// candidates hold one. Each candidate is given by the texts of its parts.
pub open spec fn first_text(candidates: Option<Seq<Seq<Seq<char>>>>) -> Option<Seq<char>> {
    match candidates {
        Some(list) => if list.len() > 0 && list[0].len() > 0 {
            Some(list[0][0])
        } else {
            None
        },
        None => None,
    }
}

/// What an answer of the service amounts to: the error it reports, if it
/// reports one; else the first text among its candidates; else the
/// complaint that nothing came back.
pub open spec fn reply_of(
    error: Option<Seq<char>>,
    candidates: Option<Seq<Seq<Seq<char>>>>,
) -> Result<Seq<char>, Seq<char>> {
    match error {
        Some(message) => Err("Gemini Error: "@ + message),
        None => match first_text(candidates) {
            Some(text) => Ok(text),
            None => Err("No content returned"@),
        },
    }
}

/// Reads an answer of the service: `error` is the message of the error it
/// reports, `candidates` the candidate answers, each given by the texts of
/// its parts.
pub fn chat_reply(error: Option<String>, candidates: Option<Vec<Vec<String>>>) -> (reply: Result<
    String,
    String,
>)
    ensures
        match reply {
            Ok(text) => reply_of(error.deep_view(), candidates.deep_view()) == Ok::<
                Seq<char>,
                Seq<char>,
            >(text@),
            Err(complaint) => reply_of(error.deep_view(), candidates.deep_view()) == Err::<
                Seq<char>,
                Seq<char>,
            >(complaint@),
        },
{
    match error {
        Some(message) => {
            let mut complaint = "Gemini Error: ".to_string();
            complaint.append(message.as_str());
            Err(complaint)
        },
        None => {
            match &candidates {
                Some(list) => {
                    if list.len() > 0 && list[0].len() > 0 {
                        return Ok(list[0][0].clone());
                    }
                },
                None => {},
            }
            Err("No content returned".to_string())
        },
    }
}

/// A model as the service lists it: its name and the methods it offers,
/// where the service names any.
#[derive(Debug)]
pub struct ModelEntry {
    pub name: String,
    pub methods: Option<Vec<String>>,
}

/// The mathematical view of a [`ModelEntry`].
pub struct ModelEntryView {
    pub name: Seq<char>,
    pub methods: Option<Seq<Seq<char>>>,
}

impl DeepView for ModelEntry {
    type V = ModelEntryView;

    open spec fn deep_view(&self) -> ModelEntryView {
        ModelEntryView { name: self.name@, methods: self.methods.deep_view() }
    }
}

impl View for ModelEntry {
    type V = ModelEntryView;

    open spec fn view(&self) -> ModelEntryView {
        self.deep_view()
    }
}

impl ModelEntryView {
    /// The model offers the method that generates text.
    pub open spec fn generates(self) -> bool {
        match self.methods {
            Some(methods) => methods.contains(generate_method()),
            None => false,
        }
    }
}

/// The names of the models that can generate text, in the order listed.
pub open spec fn generating_models(models: Seq<ModelEntryView>) -> Seq<Seq<char>>
    decreases models.len(),
{
    if models.len() == 0 {
        Seq::empty()
    } else {
        let before = generating_models(models.drop_last());
        if models.last().generates() {
            before.push(models.last().name)
        } else {
            before
        }
    }
}

/// Picks, from the models the service lists, the names of those that can
/// generate text.
pub fn usable_models(models: Vec<ModelEntry>) -> (names: Vec<String>)
    ensures
        names.deep_view() == generating_models(models.deep_view()),
{
    let ghost listed = models.deep_view();
    let mut names: Vec<String> = Vec::new();
    for model in it: models
        invariant
            it.seq().len() == listed.len(),
            forall|j: int| 0 <= j < listed.len() ==> #[trigger] it.seq()[j]@ == listed[j],
            names.deep_view() == generating_models(listed.take(it.index())),
    {
        proof {
            let k = it.index();
            assert(listed.take(k + 1).drop_last() =~= listed.take(k));
        }
        let generates = match &model.methods {
            Some(methods) => contains_id(methods, "generateContent"),
            None => false,
        };
        if generates {
            let ghost kept = names.deep_view();
            names.push(model.name);
            assert(names.deep_view() =~= kept.push(model@.name));
        }
    }
    proof {
        assert(listed.take(listed.len() as int) =~= listed);
    }
    names
}

/// What a listing of the service amounts to: the error it reports, if it
/// reports one; else the complaint that no models came, where none did;
/// else the names of the listed models that can generate text.
pub open spec fn listing_of(
    error: Option<Seq<char>>,
    models: Option<Seq<ModelEntryView>>,
) -> Result<Seq<Seq<char>>, Seq<char>> {
    match error {
        Some(message) => Err("Gemini Error: "@ + message),
        None => match models {
            Some(listed) => Ok(generating_models(listed)),
            None => Err("No models found"@),
        },
    }
}

/// Reads a listing of the service: `error` is the message of the error it
/// reports, `models` the models it lists.
pub fn models_reply(error: Option<String>, models: Option<Vec<ModelEntry>>) -> (reply: Result<
    Vec<String>,
    String,
>)
    ensures
        match reply {
            Ok(names) => listing_of(error.deep_view(), models.deep_view()) == Ok::<
                Seq<Seq<char>>,
                Seq<char>,
            >(names.deep_view()),
            Err(complaint) => listing_of(error.deep_view(), models.deep_view()) == Err::<
                Seq<Seq<char>>,
                Seq<char>,
            >(complaint@),
        },
{
    match error {
        Some(message) => {
            let mut complaint = "Gemini Error: ".to_string();
            complaint.append(message.as_str());
            Err(complaint)
        },
        None => match models {
            Some(listed) => Ok(usable_models(listed)),
            None => Err("No models found".to_string()),
        },
    }
}

/// An answer of the assistant without what may wrap it: the white space
/// around it, and the fence of a Markdown code block, opened with or without
/// the word `json`.
pub open spec fn without_code_fence(reply: Seq<char>) -> Seq<char> {
    without_trailing(
        without_leading(without_leading(trimmed(reply), "```json"@), "```"@),
        "```"@,
    )
}

/// Takes off an answer of the assistant what may wrap it: the white space
/// around it and the fence of a Markdown code block.
pub fn strip_code_fence(reply: &str) -> (cleaned: String)
    ensures
        cleaned@ == without_code_fence(reply@),
{
    let chars = chars_of(reply);
    let json_fence = chars_of("```json");
    let fence = chars_of("```");
    let start = skip_white_start(&chars, 0, chars.len());
    let end = skip_white_end(&chars, start, chars.len());
    let start = skip_leading(&chars, start, end, &json_fence);
    let start = skip_leading(&chars, start, end, &fence);
    let end = skip_trailing(&chars, start, end, &fence);
    proof {
        assert(chars@.subrange(0, chars.len() as int) =~= reply@);
    }
    reply.substring_char(start, end).to_owned()
}

} // verus!
