//! The message handler's decisions: which inbound messages get a completion
//! request, what that request holds, and which text goes back to the user
//! once the completion call has succeeded or failed. The gateway and the
//! HTTP transport call into these functions from outside.

use vstd::prelude::*;

use crate::data::{
    fallback_reply, model_name, spec_fallback, spec_model, spec_user_role, ChatCompletion,
    CompletionError, CompletionRequest, GptMessage,
};
use crate::json::{parse_completion, spec_parse_completion};

verus! {

/// The filter and delegation steps of the handler: a message from an
/// automated author gets no request at all; any other message gets exactly
/// one request that holds one user turn with the message's text.
pub fn plan_request(author_is_bot: bool, content: &str) -> (r: Option<CompletionRequest>)
    ensures
        author_is_bot <==> r is None,
        match r {
            Option::Some(req) => {
                &&& req@.model == spec_model()
                &&& req@.messages.len() == 1
                &&& req@.messages[0].role == spec_user_role()
                &&& req@.messages[0].content == content@
            },
            Option::None => author_is_bot,
        },
{
    if author_is_bot {
        return None;
    }
    let mut messages: Vec<GptMessage> = Vec::new();
    messages.push(GptMessage { role: "user".to_owned(), content: content.to_owned() });
    let req = CompletionRequest { model: model_name(), messages };
    Some(req)
}

/// The first choice's text, or nothing where the choices are empty. The
/// empty-choices response counts as a failed call, not as a crash.
pub fn extract_reply(c: &ChatCompletion) -> (r: Option<String>)
    ensures
        match r {
            Option::Some(t) => c@.choices.len() > 0 && t@ == c@.choices[0].message.content,
            Option::None => c@.choices.len() == 0,
        },
{
    if c.choices.len() == 0 {
        None
    } else {
        Some(c.choices[0].message.content.clone())
    }
}

/// Reads a response body: the first choice's text where the body parses as a
/// completion with at least one choice, and the exact error otherwise.
pub fn interpret_response(body: &str) -> (r: Result<String, CompletionError>)
    ensures
        match spec_parse_completion(body@) {
            Option::Some(c) => if c.choices.len() > 0 {
                r matches Ok(t) && t@ == c.choices[0].message.content
            } else {
                r == Err::<String, CompletionError>(CompletionError::EmptyChoices)
            },
            Option::None => r == Err::<String, CompletionError>(CompletionError::MalformedResponse),
        },
{
    match parse_completion(body) {
        None => Err(CompletionError::MalformedResponse),
        Some(c) => match extract_reply(&c) {
            Some(t) => Ok(t),
            None => Err(CompletionError::EmptyChoices),
        },
    }
}

/// The reply step of the handler: a successful completion's text goes back
/// verbatim; any failure becomes the fixed fallback reply, whatever the
/// failure was.
pub fn reply_text(outcome: Result<String, CompletionError>) -> (r: String)
    ensures
        match outcome {
            Ok(t) => r@ == t@,
            Err(_) => r@ == spec_fallback(),
        },
{
    match outcome {
        Ok(t) => t,
        Err(_) => fallback_reply(),
    }
}

/// The whole reply decision after the HTTP exchange: the body the endpoint
/// sent — or nothing, where the transport or the HTTP status already failed —
/// becomes the text sent back to the user.
pub fn reply_for_exchange(body: Option<&str>) -> (r: String)
    ensures
        match body {
            Option::Some(b) => match spec_parse_completion(b@) {
                Option::Some(c) => if c.choices.len() > 0 {
                    r@ == c.choices[0].message.content
                } else {
                    r@ == spec_fallback()
                },
                Option::None => r@ == spec_fallback(),
            },
            Option::None => r@ == spec_fallback(),
        },
{
    match body {
        Some(b) => {
            let outcome = interpret_response(b);
            reply_text(outcome)
        },
        None => reply_text(Err(CompletionError::Transport)),
    }
}

} // verus!
