//! Next Token Arena: expose the model's immediate distribution, then fork the
//! prefix under the strongest candidate tokens and generate short previews.
//!
//! This module holds the arena's request rules and the shaping of what it
//! reports; the forward pass, the probes and the generation stay with the
//! caller.

use vstd::prelude::*;

use crate::error::{param_error, plain_error, GenError};
use crate::text::{blank, decimal, is_blank, push_char, push_decimal};

verus! {

/// How many of the strongest candidates the distribution probe returns.
pub const TOP_K: u32 = 8;

/// How many candidates get a generated preview.
pub const BRANCH_COUNT: usize = 5;

/// How many tokens each preview generates after its candidate token.
pub const BRANCH_TOKENS: usize = 12;

/// One chat message: its role and, when it has plain text content, that text.
#[derive(Debug, Clone)]
pub struct ChatMessage {
    pub role: String,
    pub content: Option<String>,
}

/// The text of a message, empty when it carries none.
pub open spec fn text_of(m: ChatMessage) -> Seq<char> {
    match m.content {
        Some(c) => c@,
        None => Seq::empty(),
    }
}

impl ChatMessage {
    /// The plain text content, if the message has one.
    pub fn content_str(&self) -> (r: Option<&str>)
        ensures
            match self.content {
                Some(c) => r matches Some(s) && s@ == c@,
                None => r is None,
            },
    {
        match &self.content {
            Some(c) => Some(c.as_str()),
            None => None,
        }
    }
}

/// The part of a chat request the arena reads.
#[derive(Debug, Clone)]
pub struct ChatRequest {
    pub model: String,
    pub messages: Vec<ChatMessage>,
}

/// The message is from the user.
pub open spec fn from_user(m: ChatMessage) -> bool {
    m.role@ == "user"@
}

/// `i` is the last user message of `msgs`.
pub open spec fn is_last_user(msgs: Seq<ChatMessage>, i: int) -> bool {
    &&& 0 <= i < msgs.len()
    &&& from_user(msgs[i])
    &&& forall|j: int| i < j < msgs.len() ==> !from_user(#[trigger] msgs[j])
}

/// The prompt the arena runs on: the text of the last user message, empty
/// when there is none or it carries no text.
pub open spec fn user_prompt(msgs: Seq<ChatMessage>) -> Seq<char> {
    if exists|i: int| is_last_user(msgs, i) {
        text_of(msgs[choose|i: int| is_last_user(msgs, i)])
    } else {
        Seq::empty()
    }
}

/// The message of the error for a missing or blank user prompt.
pub open spec fn empty_prompt_message() -> Seq<char> {
    "Next Token Arena needs a non-empty user prompt"@
}

/// There is at most one last user message.
proof fn lemma_last_user_unique(msgs: Seq<ChatMessage>, i: int, k: int)
    requires
        is_last_user(msgs, i),
        is_last_user(msgs, k),
    ensures
        i == k,
{
    if i < k {
        assert(!from_user(msgs[k]));
    } else if k < i {
        assert(!from_user(msgs[i]));
    }
}

/// The index of the last user message, if any.
fn last_user_index(msgs: &Vec<ChatMessage>) -> (r: Option<usize>)
    ensures
        match r {
            Some(i) => is_last_user(msgs@, i as int),
            None => forall|j: int| 0 <= j < msgs@.len() ==> !from_user(#[trigger] msgs@[j]),
        },
{
    let user: String = "user".to_owned();
    let mut i: usize = msgs.len();
    while i > 0
        invariant
            user@ == "user"@,
            0 <= i <= msgs@.len(),
            forall|j: int| i <= j < msgs@.len() ==> !from_user(#[trigger] msgs@[j]),
        decreases i,
    {
        i = i - 1;
        if msgs[i].role == user {
            return Some(i);
        }
    }
    None
}

/// The last user message's text; an error when it is missing or blank.
pub fn last_user_prompt(req: &ChatRequest) -> (r: Result<String, GenError>)
    ensures
        blank(user_prompt(req.messages@)) ==> (r matches Err(e) && param_error(
            e,
            "invalid_request"@,
            empty_prompt_message(),
            "messages"@,
        )),
        !blank(user_prompt(req.messages@)) ==> (r matches Ok(p) && p@ == user_prompt(
            req.messages@,
        )),
        r matches Ok(p) ==> !blank(p@) && exists|i: int| #![trigger req.messages@[i]] 0 <= i < req.messages@.len()
            && req.messages@[i].role@ == "user"@ && p@ == text_of(req.messages@[i]) && forall|j: int|
            i < j < req.messages@.len() ==> (#[trigger] req.messages@[j]).role@ != "user"@,
        (req.messages@.len() > 0 && req.messages@.last().role@ == "user"@ && !blank(
            text_of(req.messages@.last()),
        )) ==> (r matches Ok(p) && p@ == text_of(req.messages@.last())),
        (forall|j: int| 0 <= j < req.messages@.len() ==> (#[trigger] req.messages@[j]).role@ != "user"@)
            ==> r is Err,
{
    let prompt: String = match last_user_index(&req.messages) {
        Some(i) => {
            proof {
                let k = choose|k: int| is_last_user(req.messages@, k);
                lemma_last_user_unique(req.messages@, i as int, k);
            }
            match &req.messages[i].content {
                Some(c) => c.clone(),
                None => String::new(),
            }
        },
        None => String::new(),
    };
    assert(prompt@ == user_prompt(req.messages@));
    if is_blank(prompt.as_str()) {
        return Err(
            GenError::new(
                "invalid_request",
                "Next Token Arena needs a non-empty user prompt",
            ).with_param("messages"),
        );
    }
    Ok(prompt)
}

/// The message of the error for a prompt that produced no tokens.
pub open spec fn untokenized_message() -> Seq<char> {
    "prompt did not tokenize into any model tokens"@
}

/// The position the arena samples and probes at: the prompt's last token.
/// An error when the prompt produced no tokens.
pub fn prompt_last_index(prompt_tokens: &Vec<u32>) -> (r: Result<u32, GenError>)
    requires
        prompt_tokens@.len() == 0 || prompt_tokens@.len() as u32 > 0,
    ensures
        prompt_tokens@.len() == 0 ==> (r matches Err(e) && param_error(
            e,
            "invalid_request"@,
            untokenized_message(),
            "messages"@,
        )),
        prompt_tokens@.len() > 0 ==> r == Ok::<u32, GenError>(
            (prompt_tokens@.len() as u32 - 1) as u32,
        ),
{
    if prompt_tokens.len() == 0 {
        return Err(
            GenError::new(
                "invalid_request",
                "prompt did not tokenize into any model tokens",
            ).with_param("messages"),
        );
    }
    Ok(prompt_tokens.len() as u32 - 1)
}

/// The label shown for a token: its decoded text, or `<token:ID>` when it
/// decodes to nothing.
pub open spec fn label_of(token_id: u32, decoded: Seq<char>) -> Seq<char> {
    if decoded.len() == 0 {
        "<token:"@ + decimal(token_id as nat) + seq!['>']
    } else {
        decoded
    }
}

/// The display text of a candidate token.
pub fn token_label(token_id: u32, decoded: String) -> (r: String)
    ensures
        r@ == label_of(token_id, decoded@),
        decoded@.len() > 0 ==> r@ == decoded@,
        decoded@.len() == 0 ==> r@ == "<token:"@ + decimal(token_id as nat) + seq!['>'],
{
    if !decoded.as_str().is_empty() {
        return decoded;
    }
    let mut text: String = "<token:".to_owned();
    push_decimal(&mut text, token_id);
    push_char(&mut text, '>');
    text
}

/// The tokens a preview shows: the candidate followed by what it generated.
pub fn preview_tokens(token_id: u32, generated: &Vec<u32>) -> (r: Vec<u32>)
    ensures
        r@ == seq![token_id] + generated@,
{
    let mut full: Vec<u32> = Vec::new();
    full.push(token_id);
    let mut i: usize = 0;
    while i < generated.len()
        invariant
            0 <= i <= generated@.len(),
            full@ == seq![token_id] + generated@.take(i as int),
        decreases generated.len() - i,
    {
        full.push(generated[i]);
        i = i + 1;
        assert(full@ =~= seq![token_id] + generated@.take(i as int));
    }
    assert(generated@.take(generated@.len() as int) =~= generated@);
    full
}

/// The preview text: the decoded preview, or the candidate's own text when
/// the preview is blank.
pub fn preview_text(decoded: String, fallback: &String) -> (r: String)
    ensures
        r@ == if blank(decoded@) {
            fallback@
        } else {
            decoded@
        },
{
    if is_blank(decoded.as_str()) {
        fallback.clone()
    } else {
        decoded
    }
}

/// Tokens a preview accounts for: its candidate plus what it generated.
pub fn generated_count(generated_len: usize) -> (r: u32)
    requires
        (generated_len as u32) < u32::MAX,
    ensures
        r == 1 + (generated_len as u32),
{
    1 + generated_len as u32
}

/// The position of the sampled token among the top candidates, if it is one.
pub fn picked_index(ids: &Vec<u32>, picked: u32) -> (r: Option<usize>)
    ensures
        match r {
            Some(i) => i < ids@.len() && ids@[i as int] == picked && forall|j: int|
                0 <= j < i ==> ids@[j] != picked,
            None => forall|j: int| 0 <= j < ids@.len() ==> ids@[j] != picked,
        },
{
    let mut i: usize = 0;
    while i < ids.len()
        invariant
            0 <= i <= ids@.len(),
            forall|j: int| 0 <= j < i ==> ids@[j] != picked,
        decreases ids.len() - i,
    {
        if ids[i] == picked {
            return Some(i);
        }
        i = i + 1;
    }
    None
}

/// How many of `top_len` candidates get a preview.
pub fn branch_count(top_len: usize) -> (r: usize)
    ensures
        r == if top_len < BRANCH_COUNT {
            top_len
        } else {
            BRANCH_COUNT
        },
{
    if top_len < BRANCH_COUNT {
        top_len
    } else {
        BRANCH_COUNT
    }
}

/// The sum of a sequence of counts.
pub open spec fn total(counts: Seq<u32>) -> int
    decreases counts.len(),
{
    if counts.len() == 0 {
        0
    } else {
        total(counts.drop_last()) + counts.last()
    }
}

/// Completion tokens of a run: the picked token plus every preview's tokens.
pub fn completion_tokens(preview_counts: &Vec<u32>) -> (r: u32)
    requires
        1 + total(preview_counts@) <= u32::MAX,
    ensures
        r == 1 + total(preview_counts@),
{
    let mut sum: u32 = 0;
    let mut i: usize = 0;
    while i < preview_counts.len()
        invariant
            0 <= i <= preview_counts@.len(),
            1 + total(preview_counts@) <= u32::MAX,
            sum == total(preview_counts@.take(i as int)),
        decreases preview_counts.len() - i,
    {
        proof {
            lemma_total_prefix_bounded(preview_counts@, i as int + 1);
            assert(preview_counts@.take(i + 1).drop_last() =~= preview_counts@.take(i as int));
        }
        sum = sum + preview_counts[i];
        i = i + 1;
    }
    assert(preview_counts@.take(preview_counts@.len() as int) =~= preview_counts@);
    1 + sum
}

/// A prefix of counts never sums to more than all of them.
proof fn lemma_total_prefix_bounded(counts: Seq<u32>, k: int)
    requires
        0 <= k <= counts.len(),
    ensures
        total(counts.take(k)) <= total(counts),
    decreases counts.len(),
{
    if k < counts.len() {
        assert(counts.drop_last().take(k) =~= counts.take(k));
        lemma_total_prefix_bounded(counts.drop_last(), k);
    } else {
        assert(counts.take(k) =~= counts);
    }
}

/// The context window to report: the engine's, when it reports one.
pub fn context_window(max_tokens: u32) -> (r: Option<u32>)
    ensures
        r == if max_tokens > 0 {
            Some(max_tokens)
        } else {
            None::<u32>
        },
{
    if max_tokens > 0 {
        Some(max_tokens)
    } else {
        None
    }
}

/// Whether the engine serves the requested model.
pub fn model_is_served(models: &Vec<String>, model: &String) -> (r: bool)
    ensures
        r == exists|i: int| 0 <= i < models@.len() && (#[trigger] models@[i])@ == model@,
{
    let mut i: usize = 0;
    while i < models.len()
        invariant
            0 <= i <= models@.len(),
            forall|j: int| 0 <= j < i ==> (#[trigger] models@[j])@ != model@,
        decreases models.len() - i,
    {
        if models[i] == *model {
            return true;
        }
        i = i + 1;
    }
    false
}


/// What `{:?}` renders a string as: the text in double quotes with quotes,
/// backslashes, control and non-printable characters escaped.
pub uninterp spec fn debug_quoted(s: Seq<char>) -> Seq<char>;

/// Renders `s` with `<str as Debug>::fmt`. The result is claimed to be
/// `debug_quoted(s@)` and to begin and end with a double quote; the escaping
/// rules themselves (which depend on Unicode printability tables) are left
/// unstated.
#[verifier::external_body]
fn debug_quote(s: &str) -> (r: String)
    ensures
        r@ == debug_quoted(s@),
        r@.len() >= 2,
        r@[0] == '"',
        r@.last() == '"',
{
    format!("{:?}", s)
}

/// The message of the error for a model the engine does not serve, given the
/// model id as `{:?}` renders it.
pub open spec fn not_served_message(quoted: Seq<char>) -> Seq<char> {
    "model "@ + quoted + " is not served by this engine"@
}

/// The error for a model the engine does not serve, from the quoted model id.
pub fn not_served_error(quoted: &str) -> (e: GenError)
    ensures
        plain_error(e, "model_not_found"@, not_served_message(quoted@)),
{
    let mut message: String = "model ".to_owned();
    message.append(quoted);
    message.append(" is not served by this engine");
    GenError { code: "model_not_found".to_owned(), message, param: None }
}

/// Checks the requested model against the models the engine serves.
pub fn require_served_model(models: &Vec<String>, model: &String) -> (r: Result<(), GenError>)
    ensures
        (exists|i: int| 0 <= i < models@.len() && (#[trigger] models@[i])@ == model@) ==> r is Ok,
        !(exists|i: int| 0 <= i < models@.len() && (#[trigger] models@[i])@ == model@) ==> (r matches Err(e)
            && plain_error(e, "model_not_found"@, not_served_message(debug_quoted(model@)))),
{
    if model_is_served(models, model) {
        Ok(())
    } else {
        let quoted = debug_quote(model.as_str());
        Err(not_served_error(quoted.as_str()))
    }
}

/// A label is never empty: a token that decodes to nothing is still shown.
pub proof fn lemma_label_never_empty(token_id: u32, decoded: Seq<char>)
    ensures
        label_of(token_id, decoded).len() > 0,
{
    crate::text::lemma_decimal_reads_back(token_id as nat);
}


/// A token that decodes to any text at all, white space included, is
/// labelled by exactly that text; only a token that decodes to nothing gets
/// the placeholder, which names the token by its decimal id.
pub proof fn lemma_label_is_the_decoding_when_there_is_one(token_id: u32, decoded: Seq<char>)
    ensures
        decoded.len() > 0 ==> label_of(token_id, decoded) == decoded,
        decoded.len() == 0 ==> label_of(token_id, decoded) == "<token:"@ + decimal(token_id as nat)
            + seq!['>'],
{
}

} // verus!
