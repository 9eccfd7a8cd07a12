//! The data carried between the gateway, the handler and the completion
//! endpoint: conversation turns, the outbound request, the endpoint's reply,
//! and the handler's error taxonomy.

use vstd::prelude::*;

verus! {

/// Mathematical image of a [`GptMessage`].
pub ghost struct GptMessageV {
    pub role: Seq<char>,
    pub content: Seq<char>,
}

/// One role-tagged unit of conversation text exchanged with the completion
/// endpoint.
pub struct GptMessage {
    pub role: String,
    pub content: String,
}

impl View for GptMessage {
    type V = GptMessageV;

    open spec fn view(&self) -> GptMessageV {
        GptMessageV { role: self.role@, content: self.content@ }
    }
}

/// Mathematical image of a [`CompletionRequest`].
pub ghost struct CompletionRequestV {
    pub model: Seq<char>,
    pub messages: Seq<GptMessageV>,
}

/// What is sent to the completion endpoint: a model identifier and an ordered
/// sequence of turns. The handler always builds it with exactly one user turn.
pub struct CompletionRequest {
    pub model: String,
    pub messages: Vec<GptMessage>,
}

impl View for CompletionRequest {
    type V = CompletionRequestV;

    open spec fn view(&self) -> CompletionRequestV {
        CompletionRequestV {
            model: self.model@,
            messages: self.messages@.map_values(|m: GptMessage| m@),
        }
    }
}

/// Mathematical image of a [`Usage`].
pub ghost struct UsageV {
    pub prompt_tokens: int,
    pub completion_tokens: int,
    pub total_tokens: int,
}

/// Token-usage counters of a completion reply. Informational only: nothing in
/// the handler reads them after parsing.
pub struct Usage {
    pub prompt_tokens: i64,
    pub completion_tokens: i64,
    pub total_tokens: i64,
}

impl View for Usage {
    type V = UsageV;

    open spec fn view(&self) -> UsageV {
        UsageV {
            prompt_tokens: self.prompt_tokens as int,
            completion_tokens: self.completion_tokens as int,
            total_tokens: self.total_tokens as int,
        }
    }
}

/// Mathematical image of a [`Choice`].
pub ghost struct ChoiceV {
    pub message: GptMessageV,
    pub finish_reason: Seq<char>,
    pub index: int,
}

/// One candidate reply inside a completion response.
pub struct Choice {
    pub message: GptMessage,
    pub finish_reason: String,
    pub index: i64,
}

impl View for Choice {
    type V = ChoiceV;

    open spec fn view(&self) -> ChoiceV {
        ChoiceV {
            message: self.message@,
            finish_reason: self.finish_reason@,
            index: self.index as int,
        }
    }
}

/// The views of a sequence of choices, in order.
pub open spec fn choices_view(cs: Seq<Choice>) -> Seq<ChoiceV> {
    cs.map_values(|c: Choice| c@)
}

/// Mathematical image of a [`ChatCompletion`].
pub ghost struct ChatCompletionV {
    pub id: Seq<char>,
    pub object: Seq<char>,
    pub created: int,
    pub model: Seq<char>,
    pub usage: UsageV,
    pub choices: Seq<ChoiceV>,
}

/// A completion response: identifier, creation timestamp, model name, usage
/// counters and the ordered candidate choices. Only the first choice's text
/// is ever used by the handler.
pub struct ChatCompletion {
    pub id: String,
    pub object: String,
    pub created: i64,
    pub model: String,
    pub usage: Usage,
    pub choices: Vec<Choice>,
}

impl View for ChatCompletion {
    type V = ChatCompletionV;

    open spec fn view(&self) -> ChatCompletionV {
        ChatCompletionV {
            id: self.id@,
            object: self.object@,
            created: self.created as int,
            model: self.model@,
            usage: self.usage@,
            choices: choices_view(self.choices@),
        }
    }
}

/// Why a completion call yielded no reply text. The handler does not
/// distinguish the variants: every one is answered with the same fallback
/// reply.
#[derive(Clone, Copy, Debug, PartialEq, Eq, Structural)]
pub enum CompletionError {
    /// The HTTP request itself failed (connection, timeout, protocol).
    Transport,
    /// The endpoint answered with a non-success HTTP status.
    BadStatus,
    /// The response body was not a completion response of the expected shape.
    MalformedResponse,
    /// The response parsed but its sequence of choices was empty.
    EmptyChoices,
}

/// The model identifier placed in every outbound request.
pub open spec fn spec_model() -> Seq<char> {
    "gpt-3.5-turbo"@
}

/// The role tag of the single turn the handler sends.
pub open spec fn spec_user_role() -> Seq<char> {
    "user"@
}

/// The fixed reply sent to the user when the completion call fails in any way.
pub open spec fn spec_fallback() -> Seq<char> {
    "Unable to get a response. If this problem continues, please contact the administrator of the bot."@
}

/// The model identifier as an owned string.
pub fn model_name() -> (r: String)
    ensures
        r@ == spec_model(),
{
    "gpt-3.5-turbo".to_owned()
}

/// The fallback reply as an owned string.
pub fn fallback_reply() -> (r: String)
    ensures
        r@ == spec_fallback(),
{
    "Unable to get a response. If this problem continues, please contact the administrator of the bot.".to_owned()
}

} // verus!
