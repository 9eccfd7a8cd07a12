//! End-to-end exercises of the relay core: planning requests, encoding them,
//! parsing completion responses and choosing the reply text.

use chat_relay::data::{
    fallback_reply, model_name, ChatCompletion, Choice, CompletionError, CompletionRequest,
    GptMessage, Usage,
};
use chat_relay::handler::{
    extract_reply, interpret_response, plan_request, reply_for_exchange, reply_text,
};
use chat_relay::json::{encode_request, parse_completion};

const FALLBACK: &str =
    "Unable to get a response. If this problem continues, please contact the administrator of the bot.";

fn response_body(content_json_fragment: &str) -> String {
    let mut body = String::from(
        "{\"id\":\"chatcmpl-1\",\"object\":\"chat.completion\",\"created\":1700000000,\"model\":\"gpt-3.5-turbo\",\"usage\":{\"prompt_tokens\":5,\"completion_tokens\":7,\"total_tokens\":12},\"choices\":[{\"message\":{\"role\":\"assistant\",\"content\":",
    );
    body.push_str(content_json_fragment);
    body.push_str("},\"finish_reason\":\"stop\",\"index\":0}]}");
    body
}

#[test]
fn bot_author_gets_no_request() {
    assert!(plan_request(true, "hello there").is_none());
    assert!(plan_request(true, "").is_none());
}

#[test]
fn human_author_gets_one_user_turn() {
    let req = plan_request(false, "what is the weather?").unwrap();
    assert_eq!(req.model, "gpt-3.5-turbo");
    assert_eq!(req.messages.len(), 1);
    assert_eq!(req.messages[0].role, "user");
    assert_eq!(req.messages[0].content, "what is the weather?");
}

#[test]
fn successful_completion_is_relayed_verbatim() {
    let out = reply_text(Ok(String::from("Hello!")));
    assert_eq!(out, "Hello!");
}

#[test]
fn every_failure_variant_gets_the_fallback() {
    let variants = [
        CompletionError::Transport,
        CompletionError::BadStatus,
        CompletionError::MalformedResponse,
        CompletionError::EmptyChoices,
    ];
    for v in variants {
        let out = reply_text(Err(v));
        assert_eq!(out, FALLBACK);
    }
    assert_eq!(fallback_reply(), FALLBACK);
}

#[test]
fn encode_request_matches_expected_json() {
    let req = CompletionRequest {
        model: model_name(),
        messages: vec![GptMessage {
            role: String::from("user"),
            content: String::from("hi"),
        }],
    };
    let body = encode_request(&req);
    assert_eq!(
        body,
        "{\"model\":\"gpt-3.5-turbo\",\"messages\":[{\"role\":\"user\",\"content\":\"hi\"}]}"
    );
}

#[test]
fn encode_request_escapes_quotes_and_controls() {
    let req = CompletionRequest {
        model: String::from("m"),
        messages: vec![GptMessage {
            role: String::from("user"),
            content: String::from("say \"hi\"\nplease\\ \u{1} done"),
        }],
    };
    let body = encode_request(&req);
    assert_eq!(
        body,
        "{\"model\":\"m\",\"messages\":[{\"role\":\"user\",\"content\":\"say \\\"hi\\\"\\nplease\\\\ \\u0001 done\"}]}"
    );
}

#[test]
fn encoded_request_is_valid_json_for_serde() {
    let req = CompletionRequest {
        model: model_name(),
        messages: vec![GptMessage {
            role: String::from("user"),
            content: String::from("quotes \" and unicode \u{e9}\u{4e16} and newline\n"),
        }],
    };
    let body = encode_request(&req);
    let v: serde_json::Value = serde_json::from_str(&body).unwrap();
    assert_eq!(v.get("model").unwrap().as_str().unwrap(), "gpt-3.5-turbo");
    let msgs = v.get("messages").unwrap().as_array().unwrap();
    assert_eq!(msgs.len(), 1);
    assert_eq!(msgs[0].get("role").unwrap().as_str().unwrap(), "user");
    assert_eq!(
        msgs[0].get("content").unwrap().as_str().unwrap(),
        "quotes \" and unicode \u{e9}\u{4e16} and newline\n"
    );
}

#[test]
fn parse_completion_reads_all_fields() {
    let body = response_body("\"Hello!\"");
    let c = parse_completion(&body).unwrap();
    assert_eq!(c.id, "chatcmpl-1");
    assert_eq!(c.object, "chat.completion");
    assert_eq!(c.created, 1700000000);
    assert_eq!(c.model, "gpt-3.5-turbo");
    assert_eq!(c.usage.prompt_tokens, 5);
    assert_eq!(c.usage.completion_tokens, 7);
    assert_eq!(c.usage.total_tokens, 12);
    assert_eq!(c.choices.len(), 1);
    assert_eq!(c.choices[0].message.role, "assistant");
    assert_eq!(c.choices[0].message.content, "Hello!");
    assert_eq!(c.choices[0].finish_reason, "stop");
    assert_eq!(c.choices[0].index, 0);
}

#[test]
fn parse_completion_accepts_whitespace_and_escapes() {
    let body = "{ \"id\" : \"x\" ,\n \"object\" : \"chat.completion\" ,\t\"created\" : -5 ,\r\n \"model\" : \"m\" , \"usage\" : { \"prompt_tokens\" : 0 , \"completion_tokens\" : 0 , \"total_tokens\" : 0 } , \"choices\" : [ { \"message\" : { \"role\" : \"assistant\" , \"content\" : \"a\\u0041b\\\\c\\\"d\\ne\\u0009\" } , \"finish_reason\" : \"stop\" , \"index\" : 3 } ] } \n";
    let c = parse_completion(body).unwrap();
    assert_eq!(c.created, -5);
    assert_eq!(c.choices[0].index, 3);
    assert_eq!(c.choices[0].message.content, "aAb\\c\"d\ne\t");
}

#[test]
fn first_choice_wins_when_there_are_several() {
    let body = "{\"id\":\"i\",\"object\":\"o\",\"created\":1,\"model\":\"m\",\"usage\":{\"prompt_tokens\":1,\"completion_tokens\":2,\"total_tokens\":3},\"choices\":[{\"message\":{\"role\":\"assistant\",\"content\":\"first\"},\"finish_reason\":\"stop\",\"index\":0},{\"message\":{\"role\":\"assistant\",\"content\":\"second\"},\"finish_reason\":\"stop\",\"index\":1},{\"message\":{\"role\":\"assistant\",\"content\":\"third\"},\"finish_reason\":\"stop\",\"index\":2}]}";
    let c = parse_completion(body).unwrap();
    assert_eq!(c.choices.len(), 3);
    assert_eq!(extract_reply(&c).unwrap(), "first");
    assert_eq!(interpret_response(body).unwrap(), "first");
    assert_eq!(reply_for_exchange(Some(body)), "first");
}

#[test]
fn empty_choices_is_a_completion_error() {
    let body = "{\"id\":\"i\",\"object\":\"o\",\"created\":1,\"model\":\"m\",\"usage\":{\"prompt_tokens\":1,\"completion_tokens\":2,\"total_tokens\":3},\"choices\":[]}";
    let c = parse_completion(body).unwrap();
    assert!(c.choices.is_empty());
    assert!(extract_reply(&c).is_none());
    assert_eq!(interpret_response(body), Err(CompletionError::EmptyChoices));
    assert_eq!(reply_for_exchange(Some(body)), FALLBACK);
}

#[test]
fn malformed_bodies_are_refused() {
    let bad = [
        "",
        "not json",
        "{\"id\":\"i\"}",
        "{\"id\":\"i\",\"object\":\"o\",\"created\":1,\"model\":\"m\"}",
        // trailing garbage after the object
        "{\"id\":\"i\",\"object\":\"o\",\"created\":1,\"model\":\"m\",\"usage\":{\"prompt_tokens\":1,\"completion_tokens\":2,\"total_tokens\":3},\"choices\":[]}x",
        // a number too wide for a 64-bit field
        "{\"id\":\"i\",\"object\":\"o\",\"created\":99999999999999999999,\"model\":\"m\",\"usage\":{\"prompt_tokens\":1,\"completion_tokens\":2,\"total_tokens\":3},\"choices\":[]}",
        // an unterminated string
        "{\"id\":\"i",
    ];
    for b in bad {
        assert!(parse_completion(b).is_none(), "accepted: {}", b);
        assert_eq!(interpret_response(b), Err(CompletionError::MalformedResponse));
        assert_eq!(reply_for_exchange(Some(b)), FALLBACK);
    }
}

#[test]
fn transport_failure_gets_the_fallback() {
    assert_eq!(reply_for_exchange(None), FALLBACK);
}

#[test]
fn text_round_trips_through_the_wire_format() {
    // The encoder writes the user text into the request; a response echoing
    // the same literal parses back to exactly that text.
    let text = "tricky: \"quotes\", back\\slash, newline\n, tab\t, caf\u{e9} \u{4e16}\u{754c}, ctrl \u{2}!";
    let req = plan_request(false, text).unwrap();
    let body = encode_request(&req);
    // lift the encoded string literal of the content out of the request body
    let key = "\"content\":";
    let start = body.find(key).unwrap() + key.len();
    let literal = &body[start..body.len() - 3];
    assert!(literal.starts_with('"') && literal.ends_with('"'));
    let echo = response_body(literal);
    let c = parse_completion(&echo).unwrap();
    assert_eq!(c.choices[0].message.content, text);
    assert_eq!(reply_for_exchange(Some(&echo)), text);
}

#[test]
fn usage_and_choice_views_are_plain_values() {
    let c = ChatCompletion {
        id: String::from("i"),
        object: String::from("o"),
        created: 7,
        model: String::from("m"),
        usage: Usage { prompt_tokens: 1, completion_tokens: 2, total_tokens: 3 },
        choices: vec![Choice {
            message: GptMessage {
                role: String::from("assistant"),
                content: String::from("Hello!"),
            },
            finish_reason: String::from("stop"),
            index: 0,
        }],
    };
    assert_eq!(extract_reply(&c).unwrap(), "Hello!");
    let none = ChatCompletion { choices: Vec::new(), ..c };
    assert!(extract_reply(&none).is_none());
}
