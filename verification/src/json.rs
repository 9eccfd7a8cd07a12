//! The JSON wire format of the completion endpoint, as this crate speaks it:
//! a specification-level grammar (escaping, string literals, numbers and the
//! fixed object shapes), an encoder for outbound requests, and a parser for
//! inbound responses. The parser expects the response object's fields in
//! their canonical order and accepts the usual JSON whitespace between
//! tokens; a body outside this grammar is reported as malformed.

use vstd::prelude::*;

use crate::data::{
    choices_view, ChatCompletion, ChatCompletionV, Choice, ChoiceV, CompletionRequest,
    CompletionRequestV, GptMessage, GptMessageV, Usage, UsageV,
};

verus! {

// ---------------------------------------------------------------------------
// Characters
// ---------------------------------------------------------------------------

/// The hexadecimal digit for a value below sixteen, lower case.
pub open spec fn spec_hex_char(n: int) -> char {
    if n == 0 { '0' } else if n == 1 { '1' } else if n == 2 { '2' } else if n == 3 { '3' }
    else if n == 4 { '4' } else if n == 5 { '5' } else if n == 6 { '6' } else if n == 7 { '7' }
    else if n == 8 { '8' } else if n == 9 { '9' } else if n == 10 { 'a' } else if n == 11 { 'b' }
    else if n == 12 { 'c' } else if n == 13 { 'd' } else if n == 14 { 'e' } else { 'f' }
}

/// The value of a hexadecimal digit, either case, or nothing.
pub open spec fn spec_hex_val(c: char) -> Option<int> {
    if c == '0' { Some(0int) } else if c == '1' { Some(1int) } else if c == '2' { Some(2int) }
    else if c == '3' { Some(3int) } else if c == '4' { Some(4int) } else if c == '5' { Some(5int) }
    else if c == '6' { Some(6int) } else if c == '7' { Some(7int) } else if c == '8' { Some(8int) }
    else if c == '9' { Some(9int) } else if c == 'a' || c == 'A' { Some(10int) }
    else if c == 'b' || c == 'B' { Some(11int) } else if c == 'c' || c == 'C' { Some(12int) }
    else if c == 'd' || c == 'D' { Some(13int) } else if c == 'e' || c == 'E' { Some(14int) }
    else if c == 'f' || c == 'F' { Some(15int) } else { None }
}

/// JSON whitespace: space, tab, line feed, carriage return.
pub open spec fn spec_is_ws(c: char) -> bool {
    c == ' ' || c == '\t' || c == '\n' || c == '\r'
}

/// A decimal digit.
pub open spec fn spec_is_digit(c: char) -> bool {
    48 <= (c as u32) && (c as u32) <= 57
}

/// The character a short escape (the letter after the backslash) stands for.
pub open spec fn spec_unescape_short(c: char) -> Option<char> {
    if c == '"' { Some('"') } else if c == '\\' { Some('\\') } else if c == '/' { Some('/') }
    else if c == 'n' { Some('\n') } else if c == 't' { Some('\t') } else if c == 'r' { Some('\r') }
    else if c == 'b' { Some('\u{8}') } else if c == 'f' { Some('\u{c}') } else { None }
}

// ---------------------------------------------------------------------------
// Escaping (the encoder's side)
// ---------------------------------------------------------------------------

/// How one character appears inside a JSON string literal: quotes and
/// backslashes get a short escape, the named control characters get theirs,
/// any other control character becomes a `\u00XX` escape, and everything
/// else stands as itself.
pub open spec fn spec_escape_char(c: char) -> Seq<char> {
    if c == '"' { seq!['\\', '"'] }
    else if c == '\\' { seq!['\\', '\\'] }
    else if c == '\n' { seq!['\\', 'n'] }
    else if c == '\t' { seq!['\\', 't'] }
    else if c == '\r' { seq!['\\', 'r'] }
    else if c == '\u{8}' { seq!['\\', 'b'] }
    else if c == '\u{c}' { seq!['\\', 'f'] }
    else if (c as u32) < 0x20 {
        seq!['\\', 'u', '0', '0', spec_hex_char((c as u32) as int / 16), spec_hex_char((c as u32) as int % 16)]
    }
    else { seq![c] }
}

/// A whole text escaped, character by character.
pub open spec fn spec_escape(s: Seq<char>) -> Seq<char>
    decreases s.len(),
{
    if s.len() == 0 {
        Seq::empty()
    } else {
        spec_escape_char(s[0]) + spec_escape(s.skip(1))
    }
}

/// A JSON string literal: a quote, the escaped text, a quote.
pub open spec fn spec_quote(s: Seq<char>) -> Seq<char> {
    seq!['"'] + spec_escape(s) + seq!['"']
}

// ---------------------------------------------------------------------------
// Encoding requests
// ---------------------------------------------------------------------------

/// One turn as a JSON object.
pub open spec fn spec_encode_message(m: GptMessageV) -> Seq<char> {
    "{\"role\":"@ + spec_quote(m.role) + ",\"content\":"@ + spec_quote(m.content) + "}"@
}

/// The turns from position `i` on, comma-separated.
pub open spec fn spec_encode_messages_from(ms: Seq<GptMessageV>, i: int) -> Seq<char>
    decreases ms.len() - i,
{
    if i < 0 || i >= ms.len() {
        Seq::empty()
    } else if i + 1 == ms.len() {
        spec_encode_message(ms[i])
    } else {
        spec_encode_message(ms[i]) + ","@ + spec_encode_messages_from(ms, i + 1)
    }
}

/// A whole request as the JSON object the endpoint expects:
/// `{"model": ..., "messages": [...]}`.
pub open spec fn spec_encode_request(r: CompletionRequestV) -> Seq<char> {
    "{\"model\":"@ + spec_quote(r.model) + ",\"messages\":["@ + spec_encode_messages_from(r.messages, 0)
        + "]}"@
}

/// Relies on `String::push`: appends exactly the one character.
#[verifier::external_body]
fn push_char(s: &mut String, c: char)
    ensures
        final(s)@ == old(s)@.push(c),
{
    s.push(c);
}

/// The hexadecimal digit for a value below sixteen.
fn hex_char(n: u32) -> (c: char)
    requires
        n < 16,
    ensures
        c == spec_hex_char(n as int),
{
    if n == 0 { '0' } else if n == 1 { '1' } else if n == 2 { '2' } else if n == 3 { '3' }
    else if n == 4 { '4' } else if n == 5 { '5' } else if n == 6 { '6' } else if n == 7 { '7' }
    else if n == 8 { '8' } else if n == 9 { '9' } else if n == 10 { 'a' } else if n == 11 { 'b' }
    else if n == 12 { 'c' } else if n == 13 { 'd' } else if n == 14 { 'e' } else { 'f' }
}

/// Appends one character's escaped form to `out`.
fn escape_char_into(out: &mut String, c: char)
    ensures
        final(out)@ == old(out)@ + spec_escape_char(c),
{
    if c == '"' {
        push_char(out, '\\');
        push_char(out, '"');
    } else if c == '\\' {
        push_char(out, '\\');
        push_char(out, '\\');
    } else if c == '\n' {
        push_char(out, '\\');
        push_char(out, 'n');
    } else if c == '\t' {
        push_char(out, '\\');
        push_char(out, 't');
    } else if c == '\r' {
        push_char(out, '\\');
        push_char(out, 'r');
    } else if c == '\u{8}' {
        push_char(out, '\\');
        push_char(out, 'b');
    } else if c == '\u{c}' {
        push_char(out, '\\');
        push_char(out, 'f');
    } else if (c as u32) < 0x20 {
        let v = c as u32;
        push_char(out, '\\');
        push_char(out, 'u');
        push_char(out, '0');
        push_char(out, '0');
        push_char(out, hex_char(v / 16));
        push_char(out, hex_char(v % 16));
    } else {
        push_char(out, c);
    }
    proof {
        assert(final(out)@ =~= old(out)@ + spec_escape_char(c));
    }
}

/// Appends `s` as a JSON string literal (quotes and escaping included).
fn quote_into(out: &mut String, s: &str)
    ensures
        final(out)@ == old(out)@ + spec_quote(s@),
{
    push_char(out, '"');
    let n = s.unicode_len();
    let mut i: usize = 0;
    proof {
        assert(s@.skip(0) =~= s@);
    }
    while i < n
        invariant
            i <= n,
            n == s@.len(),
            out@ + spec_escape(s@.skip(i as int)) == old(out)@.push('"') + spec_escape(s@),
        decreases n - i,
    {
        let c = s.get_char(i);
        proof {
            assert(s@.skip(i as int)[0] == c);
            assert(s@.skip(i as int).skip(1) =~= s@.skip(i as int + 1));
        }
        escape_char_into(out, c);
        i += 1;
    }
    proof {
        assert(s@.skip(n as int) =~= Seq::<char>::empty());
    }
    push_char(out, '"');
    proof {
        assert(final(out)@ =~= old(out)@ + spec_quote(s@));
    }
}

/// Appends one turn's JSON object.
fn encode_message_into(out: &mut String, m: &GptMessage)
    ensures
        final(out)@ == old(out)@ + spec_encode_message(m@),
{
    out.append("{\"role\":");
    quote_into(out, m.role.as_str());
    out.append(",\"content\":");
    quote_into(out, m.content.as_str());
    out.append("}");
    proof {
        assert(final(out)@ =~= old(out)@ + spec_encode_message(m@));
    }
}

/// Serializes a request as the JSON body of the outbound HTTP call.
pub fn encode_request(r: &CompletionRequest) -> (out: String)
    ensures
        out@ == spec_encode_request(r@),
{
    let mut out = String::new();
    out.append("{\"model\":");
    quote_into(&mut out, r.model.as_str());
    out.append(",\"messages\":[");
    let n = r.messages.len();
    let mut i: usize = 0;
    while i < n
        invariant
            i <= n,
            n == r.messages@.len(),
            r@.messages.len() == n,
            out@ + spec_encode_messages_from(r@.messages, i as int) == "{\"model\":"@
                + spec_quote(r@.model) + ",\"messages\":["@
                + spec_encode_messages_from(r@.messages, 0),
        decreases n - i,
    {
        proof {
            assert(r@.messages[i as int] == r.messages@[i as int]@);
        }
        encode_message_into(&mut out, &r.messages[i]);
        if i + 1 < n {
            out.append(",");
        }
        i += 1;
    }
    out.append("]}");
    proof {
        assert(out@ =~= spec_encode_request(r@));
    }
    out
}

// ---------------------------------------------------------------------------
// The response grammar (specification side)
// ---------------------------------------------------------------------------

/// Drops leading JSON whitespace.
pub open spec fn sp_ws(s: Seq<char>) -> Seq<char>
    decreases s.len(),
{
    if s.len() > 0 && spec_is_ws(s[0]) {
        sp_ws(s.skip(1))
    } else {
        s
    }
}

/// Matches the exact characters of `lit` and yields the rest, or nothing.
pub open spec fn sp_lit(s: Seq<char>, lit: Seq<char>) -> Option<Seq<char>> {
    if s.len() >= lit.len() && s.take(lit.len() as int) == lit {
        Some(s.skip(lit.len() as int))
    } else {
        None
    }
}

/// Matches an object key in its fixed spelling followed by its colon, with
/// whitespace allowed before the key and before the colon.
pub open spec fn sp_key(s: Seq<char>, key: Seq<char>) -> Option<Seq<char>> {
    match sp_lit(sp_ws(s), key) {
        Some(r) => sp_lit(sp_ws(r), ":"@),
        None => None,
    }
}

/// The body of a string literal, after the opening quote: the decoded text
/// and the rest after the closing quote. Raw control characters, unknown
/// escapes, `\u` escapes at or above `0x80`, and a missing closing quote all
/// refuse the literal.
pub open spec fn sp_string_body(s: Seq<char>) -> Option<(Seq<char>, Seq<char>)>
    decreases s.len(),
{
    if s.len() == 0 {
        None
    } else if s[0] == '"' {
        Some((Seq::empty(), s.skip(1)))
    } else if s[0] == '\\' {
        if s.len() < 2 {
            None
        } else if s[1] == 'u' {
            if s.len() < 6 {
                None
            } else {
                match (spec_hex_val(s[2]), spec_hex_val(s[3]), spec_hex_val(s[4]), spec_hex_val(s[5])) {
                    (Some(h0), Some(h1), Some(h2), Some(h3)) => {
                        let v = h0 * 4096 + h1 * 256 + h2 * 16 + h3;
                        if v < 0x80 {
                            match sp_string_body(s.skip(6)) {
                                Some((t, r)) => Some((seq![((v as u8) as char)] + t, r)),
                                None => None,
                            }
                        } else {
                            None
                        }
                    },
                    _ => None,
                }
            }
        } else {
            match spec_unescape_short(s[1]) {
                Some(c) => match sp_string_body(s.skip(2)) {
                    Some((t, r)) => Some((seq![c] + t, r)),
                    None => None,
                },
                None => None,
            }
        }
    } else if (s[0] as u32) < 0x20 {
        None
    } else {
        match sp_string_body(s.skip(1)) {
            Some((t, r)) => Some((seq![s[0]] + t, r)),
            None => None,
        }
    }
}

/// A string literal, opening quote included.
pub open spec fn sp_string(s: Seq<char>) -> Option<(Seq<char>, Seq<char>)> {
    if s.len() > 0 && s[0] == '"' {
        sp_string_body(s.skip(1))
    } else {
        None
    }
}

/// The value of a decimal digit.
pub open spec fn spec_digit_val(c: char) -> int {
    (c as u32) - 48
}

/// Folds leading digits into `acc`, yielding the value and the rest.
pub open spec fn sp_digits(s: Seq<char>, acc: int) -> (int, Seq<char>)
    decreases s.len(),
{
    if s.len() > 0 && spec_is_digit(s[0]) {
        sp_digits(s.skip(1), acc * 10 + spec_digit_val(s[0]))
    } else {
        (acc, s)
    }
}

/// An integer: an optional minus sign and at least one digit. The value is
/// unbounded here; the shape parsers bound it below.
pub open spec fn sp_number(s: Seq<char>) -> Option<(int, Seq<char>)> {
    if s.len() > 0 && s[0] == '-' {
        if s.len() > 1 && spec_is_digit(s[1]) {
            Some((-sp_digits(s.skip(1), 0).0, sp_digits(s.skip(1), 0).1))
        } else {
            None
        }
    } else if s.len() > 0 && spec_is_digit(s[0]) {
        Some(sp_digits(s, 0))
    } else {
        None
    }
}

/// An integer that a 64-bit signed field can hold; anything wider refuses.
pub open spec fn sp_number_i64(s: Seq<char>) -> Option<(int, Seq<char>)> {
    match sp_number(s) {
        Some((v, r)) => if i64::MIN <= v <= i64::MAX {
            Some((v, r))
        } else {
            None
        },
        None => None,
    }
}

/// One turn object: `{"role": <string>, "content": <string>}`.
pub open spec fn sp_message(s: Seq<char>) -> Option<(GptMessageV, Seq<char>)> {
    match sp_lit(sp_ws(s), "{"@) {
        Some(r1) => match sp_key(r1, "\"role\""@) {
            Some(r2) => match sp_string(sp_ws(r2)) {
                Some((role, r3)) => match sp_lit(sp_ws(r3), ","@) {
                    Some(r4) => match sp_key(r4, "\"content\""@) {
                        Some(r5) => match sp_string(sp_ws(r5)) {
                            Some((content, r6)) => match sp_lit(sp_ws(r6), "}"@) {
                                Some(r7) => Some((GptMessageV { role, content }, r7)),
                                None => None,
                            },
                            None => None,
                        },
                        None => None,
                    },
                    None => None,
                },
                None => None,
            },
            None => None,
        },
        None => None,
    }
}

/// One choice object:
/// `{"message": <turn>, "finish_reason": <string>, "index": <number>}`.
pub open spec fn sp_choice(s: Seq<char>) -> Option<(ChoiceV, Seq<char>)> {
    match sp_lit(sp_ws(s), "{"@) {
        Some(r1) => match sp_key(r1, "\"message\""@) {
            Some(r2) => match sp_message(r2) {
                Some((message, r3)) => match sp_lit(sp_ws(r3), ","@) {
                    Some(r4) => match sp_key(r4, "\"finish_reason\""@) {
                        Some(r5) => match sp_string(sp_ws(r5)) {
                            Some((finish_reason, r6)) => match sp_lit(sp_ws(r6), ","@) {
                                Some(r7) => match sp_key(r7, "\"index\""@) {
                                    Some(r8) => match sp_number_i64(sp_ws(r8)) {
                                        Some((index, r9)) => match sp_lit(sp_ws(r9), "}"@) {
                                            Some(r10) => Some(
                                                (ChoiceV { message, finish_reason, index }, r10),
                                            ),
                                            None => None,
                                        },
                                        None => None,
                                    },
                                    None => None,
                                },
                                None => None,
                            },
                            None => None,
                        },
                        None => None,
                    },
                    None => None,
                },
                None => None,
            },
            None => None,
        },
        None => None,
    }
}

/// One or more comma-separated choices. The rest it yields sits just past
/// the whitespace after the last choice, where the closing bracket is due.
pub open spec fn sp_choice_list(s: Seq<char>) -> Option<(Seq<ChoiceV>, Seq<char>)>
    decreases s.len(),
{
    match sp_choice(s) {
        Some((c, r)) => {
            let r1 = sp_ws(r);
            if r1.len() > 0 && r1[0] == ',' {
                if r1.skip(1).len() < s.len() {
                    match sp_choice_list(r1.skip(1)) {
                        Some((cs, r2)) => Some((seq![c] + cs, r2)),
                        None => None,
                    }
                } else {
                    None
                }
            } else {
                Some((seq![c], r1))
            }
        },
        None => None,
    }
}

/// The choices array, empty or not.
pub open spec fn sp_choices(s: Seq<char>) -> Option<(Seq<ChoiceV>, Seq<char>)> {
    match sp_lit(sp_ws(s), "["@) {
        Some(r) => {
            let r1 = sp_ws(r);
            if r1.len() > 0 && r1[0] == ']' {
                Some((Seq::empty(), r1.skip(1)))
            } else {
                match sp_choice_list(r1) {
                    Some((cs, r2)) => match sp_lit(r2, "]"@) {
                        Some(r3) => Some((cs, r3)),
                        None => None,
                    },
                    None => None,
                }
            }
        },
        None => None,
    }
}

/// The usage object:
/// `{"prompt_tokens": n, "completion_tokens": n, "total_tokens": n}`.
pub open spec fn sp_usage(s: Seq<char>) -> Option<(UsageV, Seq<char>)> {
    match sp_lit(sp_ws(s), "{"@) {
        Some(r1) => match sp_key(r1, "\"prompt_tokens\""@) {
            Some(r2) => match sp_number_i64(sp_ws(r2)) {
                Some((prompt_tokens, r3)) => match sp_lit(sp_ws(r3), ","@) {
                    Some(r4) => match sp_key(r4, "\"completion_tokens\""@) {
                        Some(r5) => match sp_number_i64(sp_ws(r5)) {
                            Some((completion_tokens, r6)) => match sp_lit(sp_ws(r6), ","@) {
                                Some(r7) => match sp_key(r7, "\"total_tokens\""@) {
                                    Some(r8) => match sp_number_i64(sp_ws(r8)) {
                                        Some((total_tokens, r9)) => match sp_lit(sp_ws(r9), "}"@) {
                                            Some(r10) => Some(
                                                (
                                                    UsageV {
                                                        prompt_tokens,
                                                        completion_tokens,
                                                        total_tokens,
                                                    },
                                                    r10,
                                                ),
                                            ),
                                            None => None,
                                        },
                                        None => None,
                                    },
                                    None => None,
                                },
                                None => None,
                            },
                            None => None,
                        },
                        None => None,
                    },
                    None => None,
                },
                None => None,
            },
            None => None,
        },
        None => None,
    }
}

/// The completion object, fields in their canonical order:
/// id, object, created, model, usage, choices.
pub open spec fn sp_completion(s: Seq<char>) -> Option<(ChatCompletionV, Seq<char>)> {
    match sp_lit(sp_ws(s), "{"@) {
        Some(r1) => match sp_key(r1, "\"id\""@) {
            Some(r2) => match sp_string(sp_ws(r2)) {
                Some((id, r3)) => match sp_lit(sp_ws(r3), ","@) {
                    Some(r4) => match sp_key(r4, "\"object\""@) {
                        Some(r5) => match sp_string(sp_ws(r5)) {
                            Some((object, r6)) => match sp_lit(sp_ws(r6), ","@) {
                                Some(r7) => match sp_key(r7, "\"created\""@) {
                                    Some(r8) => match sp_number_i64(sp_ws(r8)) {
                                        Some((created, r9)) => match sp_lit(sp_ws(r9), ","@) {
                                            Some(r10) => match sp_key(r10, "\"model\""@) {
                                                Some(r11) => match sp_string(sp_ws(r11)) {
                                                    Some((model, r12)) => sp_completion_tail(
                                                        id,
                                                        object,
                                                        created,
                                                        model,
                                                        r12,
                                                    ),
                                                    None => None,
                                                },
                                                None => None,
                                            },
                                            None => None,
                                        },
                                        None => None,
                                    },
                                    None => None,
                                },
                                None => None,
                            },
                            None => None,
                        },
                        None => None,
                    },
                    None => None,
                },
                None => None,
            },
            None => None,
        },
        None => None,
    }
}

/// The trailing usage and choices fields of the completion object.
pub open spec fn sp_completion_tail(
    id: Seq<char>,
    object: Seq<char>,
    created: int,
    model: Seq<char>,
    s: Seq<char>,
) -> Option<(ChatCompletionV, Seq<char>)> {
    match sp_lit(sp_ws(s), ","@) {
        Some(r1) => match sp_key(r1, "\"usage\""@) {
            Some(r2) => match sp_usage(r2) {
                Some((usage, r3)) => match sp_lit(sp_ws(r3), ","@) {
                    Some(r4) => match sp_key(r4, "\"choices\""@) {
                        Some(r5) => match sp_choices(r5) {
                            Some((choices, r6)) => match sp_lit(sp_ws(r6), "}"@) {
                                Some(r7) => Some(
                                    (
                                        ChatCompletionV {
                                            id,
                                            object,
                                            created,
                                            model,
                                            usage,
                                            choices,
                                        },
                                        r7,
                                    ),
                                ),
                                None => None,
                            },
                            None => None,
                        },
                        None => None,
                    },
                    None => None,
                },
                None => None,
            },
            None => None,
        },
        None => None,
    }
}

/// A whole response body: the completion object and nothing but whitespace
/// after it.
pub open spec fn spec_parse_completion(s: Seq<char>) -> Option<ChatCompletionV> {
    match sp_completion(s) {
        Some((c, r)) => if sp_ws(r).len() == 0 {
            Some(c)
        } else {
            None
        },
        None => None,
    }
}

// ---------------------------------------------------------------------------
// The parser (executable side)
// ---------------------------------------------------------------------------

/// The characters of `s`, in order.
fn str_to_chars(s: &str) -> (v: Vec<char>)
    ensures
        v@ == s@,
{
    let n = s.unicode_len();
    let mut v: Vec<char> = Vec::new();
    let mut i: usize = 0;
    while i < n
        invariant
            i <= n,
            n == s@.len(),
            v@ == s@.take(i as int),
        decreases n - i,
    {
        let c = s.get_char(i);
        v.push(c);
        proof {
            assert(s@.take(i + 1 as int) =~= s@.take(i as int).push(s@[i as int]));
        }
        i += 1;
    }
    proof {
        assert(s@.take(n as int) =~= s@);
    }
    v
}

/// JSON whitespace, decided on the character's code point.
fn is_ws(c: char) -> (r: bool)
    ensures
        r == spec_is_ws(c),
{
    c == ' ' || c == '\t' || c == '\n' || c == '\r'
}

/// The index just past the whitespace that starts at `i`.
fn p_ws(s: &Vec<char>, i: usize) -> (j: usize)
    requires
        i <= s@.len(),
    ensures
        i <= j <= s@.len(),
        sp_ws(s@.skip(i as int)) == s@.skip(j as int),
{
    let mut j = i;
    while j < s.len() && is_ws(s[j])
        invariant
            i <= j <= s@.len(),
            sp_ws(s@.skip(i as int)) == sp_ws(s@.skip(j as int)),
        decreases s@.len() - j,
    {
        proof {
            assert(s@.skip(j as int)[0] == s@[j as int]);
            assert(s@.skip(j as int).skip(1) =~= s@.skip(j + 1 as int));
        }
        j += 1;
    }
    proof {
        if j < s@.len() {
            assert(s@.skip(j as int)[0] == s@[j as int]);
        }
        assert(sp_ws(s@.skip(j as int)) == s@.skip(j as int));
    }
    j
}

/// Matches the characters of `lit` at `i`; yields the index past them.
fn p_lit(s: &Vec<char>, i: usize, lit: &str) -> (r: Option<usize>)
    requires
        i <= s@.len(),
    ensures
        match r {
            Option::None => sp_lit(s@.skip(i as int), lit@) is None,
            Option::Some(j) => {
                &&& i <= j <= s@.len()
                &&& j - i == lit@.len()
                &&& sp_lit(s@.skip(i as int), lit@) == Some(s@.skip(j as int))
            },
        },
{
    let n = lit.unicode_len();
    if s.len() - i < n {
        proof {
            assert(s@.skip(i as int).len() < lit@.len());
        }
        return None;
    }
    let mut k: usize = 0;
    while k < n
        invariant
            k <= n,
            n == lit@.len(),
            i + n <= s@.len(),
            s@.len() <= usize::MAX,
            forall|m: int| 0 <= m < k ==> s@.skip(i as int)[m] == lit@[m],
        decreases n - k,
    {
        let c = s[i + k];
        let l = lit.get_char(k);
        if c != l {
            proof {
                assert(s@.skip(i as int)[k as int] != lit@[k as int]);
                assert(s@.skip(i as int).take(lit@.len() as int)[k as int] != lit@[k as int]);
            }
            return None;
        }
        k += 1;
    }
    proof {
        assert(s@.skip(i as int).take(n as int) =~= lit@);
        assert(s@.skip(i as int).skip(n as int) =~= s@.skip(i + n as int));
    }
    Some(i + n)
}

/// Matches an object key and its colon, whitespace allowed around them.
fn p_key(s: &Vec<char>, i: usize, key: &str) -> (r: Option<usize>)
    requires
        i <= s@.len(),
    ensures
        match r {
            Option::None => sp_key(s@.skip(i as int), key@) is None,
            Option::Some(j) => {
                &&& i <= j <= s@.len()
                &&& sp_key(s@.skip(i as int), key@) == Some(s@.skip(j as int))
            },
        },
{
    let j1 = p_ws(s, i);
    match p_lit(s, j1, key) {
        None => None,
        Some(j2) => {
            let j3 = p_ws(s, j2);
            match p_lit(s, j3, ":") {
                None => None,
                Some(j4) => Some(j4),
            }
        },
    }
}

/// The value of a hexadecimal digit, either case.
fn hex_val(c: char) -> (r: Option<u32>)
    ensures
        match r {
            Option::None => spec_hex_val(c) is None,
            Option::Some(v) => v < 16 && spec_hex_val(c) == Some(v as int),
        },
{
    if c == '0' { Some(0) } else if c == '1' { Some(1) } else if c == '2' { Some(2) }
    else if c == '3' { Some(3) } else if c == '4' { Some(4) } else if c == '5' { Some(5) }
    else if c == '6' { Some(6) } else if c == '7' { Some(7) } else if c == '8' { Some(8) }
    else if c == '9' { Some(9) } else if c == 'a' || c == 'A' { Some(10) }
    else if c == 'b' || c == 'B' { Some(11) } else if c == 'c' || c == 'C' { Some(12) }
    else if c == 'd' || c == 'D' { Some(13) } else if c == 'e' || c == 'E' { Some(14) }
    else if c == 'f' || c == 'F' { Some(15) } else { None }
}

/// Reads a string literal that starts at `i`; yields the decoded text and
/// the index past the closing quote.
fn p_string(s: &Vec<char>, i: usize) -> (r: Option<(String, usize)>)
    requires
        i <= s@.len(),
    ensures
        match r {
            Option::None => sp_string(s@.skip(i as int)) is None,
            Option::Some((v, j)) => {
                &&& i < j <= s@.len()
                &&& sp_string(s@.skip(i as int)) == Some((v@, s@.skip(j as int)))
            },
        },
{
    if !(i < s.len() && s[i] == '"') {
        proof {
            if i < s@.len() {
                assert(s@.skip(i as int)[0] == s@[i as int]);
            }
        }
        return None;
    }
    proof {
        assert(s@.skip(i as int)[0] == '"');
        assert(s@.skip(i as int).skip(1) =~= s@.skip(i + 1 as int));
    }
    let start: usize = i + 1;
    let mut j: usize = start;
    let mut out = String::new();
    loop
        invariant
            start <= j <= s@.len(),
            start == i + 1 <= s@.len(),
            s@[i as int] == '"',
            sp_string(s@.skip(i as int)) == sp_string_body(s@.skip(start as int)),
            match sp_string_body(s@.skip(j as int)) {
                Option::Some((t, rest)) => sp_string_body(s@.skip(start as int)) == Some(
                    (out@ + t, rest),
                ),
                Option::None => sp_string_body(s@.skip(start as int)) is None,
            },
        decreases s@.len() - j,
    {
        if j >= s.len() {
            proof {
                assert(s@.skip(j as int).len() == 0);
            }
            return None;
        }
        let c = s[j];
        proof {
            assert(s@.skip(j as int)[0] == c);
        }
        if c == '"' {
            proof {
                assert(sp_string_body(s@.skip(j as int)) == Some(
                    (Seq::<char>::empty(), s@.skip(j + 1 as int)),
                )) by {
                    assert(s@.skip(j as int).skip(1) =~= s@.skip(j + 1 as int));
                }
                assert(out@ + Seq::<char>::empty() =~= out@);
            }
            return Some((out, j + 1));
        } else if c == '\\' {
            if j + 1 >= s.len() {
                proof {
                    assert(s@.skip(j as int).len() < 2);
                }
                return None;
            }
            let e = s[j + 1];
            proof {
                assert(s@.skip(j as int)[1] == e);
            }
            if e == 'u' {
                if s.len() - j < 6 {
                    proof {
                        assert(s@.skip(j as int).len() < 6);
                    }
                    return None;
                }
                proof {
                    assert(s@.skip(j as int)[2] == s@[j + 2 as int]);
                    assert(s@.skip(j as int)[3] == s@[j + 3 as int]);
                    assert(s@.skip(j as int)[4] == s@[j + 4 as int]);
                    assert(s@.skip(j as int)[5] == s@[j + 5 as int]);
                }
                let h0 = hex_val(s[j + 2]);
                let h1 = hex_val(s[j + 3]);
                let h2 = hex_val(s[j + 4]);
                let h3 = hex_val(s[j + 5]);
                match (h0, h1, h2, h3) {
                    (Some(a), Some(b), Some(cc), Some(d)) => {
                        let v: u32 = a * 4096 + b * 256 + cc * 16 + d;
                        if v < 0x80 {
                            let dc: char = (v as u8) as char;
                            let ghost out0 = out@;
                            push_char(&mut out, dc);
                            proof {
                                assert(s@.skip(j as int).skip(6) =~= s@.skip(j + 6 as int));
                                match sp_string_body(s@.skip(j + 6 as int)) {
                                    Option::Some((t2, r2)) => {
                                        assert(out0 + (seq![dc] + t2) =~= out0.push(dc) + t2);
                                    },
                                    Option::None => {},
                                }
                            }
                            j = j + 6;
                        } else {
                            return None;
                        }
                    },
                    _ => {
                        return None;
                    },
                }
            } else {
                let dec = match e {
                    '"' => Some('"'),
                    '\\' => Some('\\'),
                    '/' => Some('/'),
                    'n' => Some('\n'),
                    't' => Some('\t'),
                    'r' => Some('\r'),
                    'b' => Some('\u{8}'),
                    'f' => Some('\u{c}'),
                    _ => None,
                };
                match dec {
                    Some(dc) => {
                        let ghost out0 = out@;
                        push_char(&mut out, dc);
                        proof {
                            assert(s@.skip(j as int).skip(2) =~= s@.skip(j + 2 as int));
                            match sp_string_body(s@.skip(j + 2 as int)) {
                                Option::Some((t2, r2)) => {
                                    assert(out0 + (seq![dc] + t2) =~= out0.push(dc) + t2);
                                },
                                Option::None => {},
                            }
                        }
                        j = j + 2;
                    },
                    None => {
                        return None;
                    },
                }
            }
        } else if (c as u32) < 0x20 {
            return None;
        } else {
            let ghost out0 = out@;
            push_char(&mut out, c);
            proof {
                assert(s@.skip(j as int).skip(1) =~= s@.skip(j + 1 as int));
                match sp_string_body(s@.skip(j + 1 as int)) {
                    Option::Some((t2, r2)) => {
                        assert(out0 + (seq![c] + t2) =~= out0.push(c) + t2);
                    },
                    Option::None => {},
                }
            }
            j = j + 1;
        }
    }
}

/// A decimal digit, decided on the character's code point.
fn is_digit(c: char) -> (r: bool)
    ensures
        r == spec_is_digit(c),
{
    let u = c as u32;
    48 <= u && u <= 57
}

/// Folding more digits onto a non-negative accumulator never shrinks it.
proof fn lemma_digits_mono(s: Seq<char>, a: int)
    requires
        a >= 0,
    ensures
        sp_digits(s, a).0 >= a,
    decreases s.len(),
{
    if s.len() > 0 && spec_is_digit(s[0]) {
        lemma_digits_mono(s.skip(1), a * 10 + spec_digit_val(s[0]));
    }
}

/// Reads an integer that starts at `i`, refusing one that a 64-bit signed
/// field cannot hold.
fn p_number_i64(s: &Vec<char>, i: usize) -> (r: Option<(i64, usize)>)
    requires
        i <= s@.len(),
    ensures
        match r {
            Option::None => sp_number_i64(s@.skip(i as int)) is None,
            Option::Some((v, j)) => {
                &&& i < j <= s@.len()
                &&& sp_number_i64(s@.skip(i as int)) == Some((v as int, s@.skip(j as int)))
            },
        },
{
    let mut j = i;
    let mut neg = false;
    if j < s.len() && s[j] == '-' {
        proof {
            assert(s@.skip(i as int)[0] == '-');
            assert(s@.skip(i as int).skip(1) =~= s@.skip(i + 1 as int));
        }
        neg = true;
        j += 1;
    } else {
        proof {
            if i < s@.len() {
                assert(s@.skip(i as int)[0] == s@[i as int]);
            }
        }
    }
    if !(j < s.len() && is_digit(s[j])) {
        proof {
            if j < s@.len() {
                assert(s@.skip(j as int)[0] == s@[j as int]);
            }
        }
        return None;
    }
    proof {
        assert(s@.skip(j as int)[0] == s@[j as int]);
    }
    let ghost dstart = j as int;
    let mut acc: u64 = 0;
    let mut overflow = false;
    while j < s.len() && is_digit(s[j])
        invariant
            dstart <= j <= s@.len(),
            s@.len() <= usize::MAX,
            !overflow ==> sp_digits(s@.skip(dstart), 0) == sp_digits(s@.skip(j as int), acc as int),
            overflow ==> sp_digits(s@.skip(dstart), 0).0 >= 0x10000000000000000,
        decreases s@.len() - j,
    {
        let d: u64 = (s[j] as u32 as u64) - 48;
        proof {
            assert(s@.skip(j as int)[0] == s@[j as int]);
            assert(spec_is_digit(s@[j as int]));
            assert(spec_digit_val(s@[j as int]) == d as int);
            assert(s@.skip(j as int).skip(1) =~= s@.skip(j + 1 as int));
        }
        if !overflow {
            let mut stepped = false;
            match acc.checked_mul(10) {
                Some(p) => match p.checked_add(d) {
                    Some(x) => {
                        acc = x;
                        stepped = true;
                    },
                    None => {},
                },
                None => {},
            }
            if !stepped {
                proof {
                    let v2 = acc as int * 10 + d as int;
                    lemma_digits_mono(s@.skip(j + 1 as int), v2);
                }
                overflow = true;
            }
        }
        j += 1;
    }
    proof {
        if j < s@.len() {
            assert(s@.skip(j as int)[0] == s@[j as int]);
        }
        assert(sp_digits(s@.skip(j as int), acc as int) == (acc as int, s@.skip(j as int)));
    }
    if overflow {
        return None;
    }
    if neg {
        if acc > 9223372036854775808u64 {
            return None;
        }
        let v: i64 = if acc == 9223372036854775808u64 {
            i64::MIN
        } else {
            -(acc as i64)
        };
        Some((v, j))
    } else {
        if acc > 9223372036854775807u64 {
            return None;
        }
        Some((acc as i64, j))
    }
}

// ---------------------------------------------------------------------------
// Round trip of the string encoding
// ---------------------------------------------------------------------------

/// An escaped text followed by a closing quote parses back to exactly the
/// text it was built from, with the parse stopping at the quote.
proof fn lemma_escape_round_trip(s: Seq<char>, rest: Seq<char>)
    ensures
        sp_string_body(spec_escape(s) + seq!['"'] + rest) == Some((s, rest)),
    decreases s.len(),
{
    let t = spec_escape(s) + seq!['"'] + rest;
    if s.len() == 0 {
        assert(t[0] == '"');
        assert(t.skip(1) =~= rest);
    } else {
        let c = s[0];
        let t1 = spec_escape(s.skip(1)) + seq!['"'] + rest;
        lemma_escape_round_trip(s.skip(1), rest);
        if c == '"' || c == '\\' || c == '\n' || c == '\t' || c == '\r' || c == '\u{8}' || c
            == '\u{c}' {
            assert(t[0] == '\\');
            assert(t.len() >= 2);
            assert(t[1] == spec_escape_char(c)[1]);
            assert(spec_unescape_short(spec_escape_char(c)[1]) == Some(c));
            assert(t.skip(2) =~= t1);
            assert(seq![c] + s.skip(1) =~= s);
        } else if (c as u32) < 0x20 {
            let v = c as u32;
            assert(t[0] == '\\');
            assert(t[1] == 'u');
            assert(t.len() >= 6);
            assert(t[2] == '0' && t[3] == '0');
            assert(t[4] == spec_hex_char(v as int / 16));
            assert(t[5] == spec_hex_char(v as int % 16));
            assert(spec_hex_val(spec_hex_char(v as int / 16)) == Some(v as int / 16));
            assert(spec_hex_val(spec_hex_char(v as int % 16)) == Some(v as int % 16));
            assert((v as int / 16) * 16 + (v as int % 16) == v as int) by (nonlinear_arith)
                requires
                    0 <= v < 0x20,
            ;
            assert(0 * 4096 + 0 * 256 + (v as int / 16) * 16 + (v as int % 16) == v as int);
            assert((v as u8) as u32 == v);
            vstd::utf8::char_u32_cast(c, v);
            assert(((v as u8) as char) == c);
            assert(t.skip(6) =~= t1);
            assert(seq![c] + s.skip(1) =~= s);
        } else {
            assert(t[0] == c);
            assert(c != '"' && c != '\\');
            assert(t.skip(1) =~= t1);
            assert(seq![c] + s.skip(1) =~= s);
        }
    }
}

/// Text survives the wire format: the string literal the encoder writes for
/// a text — the same literal the request serializer embeds for a turn's
/// content, and the same form a response may echo back — parses to exactly
/// that text, whatever follows it. Quotes, backslashes, control characters
/// and any other Unicode in the text are preserved.
pub proof fn lemma_quote_round_trip(s: Seq<char>, rest: Seq<char>)
    ensures
        sp_string(spec_quote(s) + rest) == Some((s, rest)),
{
    let t = spec_quote(s) + rest;
    assert(t[0] == '"');
    assert(t.skip(1) =~= spec_escape(s) + seq!['"'] + rest);
    lemma_escape_round_trip(s, rest);
}

/// A whole turn survives the wire format: the JSON object the request
/// serializer writes for a turn parses back — through the same turn grammar
/// the response parser uses — to exactly that turn, whatever follows it.
/// In particular a response that echoes a request's turn preserves its role
/// and its content character for character.
pub proof fn lemma_message_round_trip(m: GptMessageV, rest: Seq<char>)
    ensures
        sp_message(spec_encode_message(m) + rest) == Some((m, rest)),
{
    reveal_strlit("{\"role\":");
    reveal_strlit(",\"content\":");
    reveal_strlit("}");
    reveal_strlit("{");
    reveal_strlit(",");
    reveal_strlit(":");
    reveal_strlit("\"role\"");
    reveal_strlit("\"content\"");
    let t = spec_encode_message(m) + rest;
    assert(t[0] == '{');
    assert(sp_ws(t) == t);
    assert(t.take(1) =~= "{"@);
    let r1 = t.skip(1);
    assert(sp_lit(t, "{"@) == Some(r1));
    assert(r1[0] == '"');
    assert(sp_ws(r1) == r1);
    assert(r1.take(6) =~= "\"role\""@);
    let r1b = r1.skip(6);
    assert(sp_lit(r1, "\"role\""@) == Some(r1b));
    assert(r1b[0] == ':');
    assert(sp_ws(r1b) == r1b);
    assert(r1b.take(1) =~= ":"@);
    let r2 = r1b.skip(1);
    assert(sp_lit(r1b, ":"@) == Some(r2));
    assert(sp_key(r1, "\"role\""@) == Some(r2));
    let tail1 = ",\"content\":"@ + spec_quote(m.content) + "}"@ + rest;
    assert(r2 =~= spec_quote(m.role) + tail1);
    assert(r2[0] == '"');
    assert(sp_ws(r2) == r2);
    lemma_quote_round_trip(m.role, tail1);
    assert(sp_string(r2) == Some((m.role, tail1)));
    let r3 = tail1;
    assert(r3[0] == ',');
    assert(sp_ws(r3) == r3);
    assert(r3.take(1) =~= ","@);
    let r4 = r3.skip(1);
    assert(sp_lit(r3, ","@) == Some(r4));
    assert(r4[0] == '"');
    assert(sp_ws(r4) == r4);
    assert(r4.take(9) =~= "\"content\""@);
    let r4b = r4.skip(9);
    assert(sp_lit(r4, "\"content\""@) == Some(r4b));
    assert(r4b[0] == ':');
    assert(sp_ws(r4b) == r4b);
    assert(r4b.take(1) =~= ":"@);
    let r5 = r4b.skip(1);
    assert(sp_lit(r4b, ":"@) == Some(r5));
    assert(sp_key(r4, "\"content\""@) == Some(r5));
    let tail2 = "}"@ + rest;
    assert(r5 =~= spec_quote(m.content) + tail2);
    assert(r5[0] == '"');
    assert(sp_ws(r5) == r5);
    lemma_quote_round_trip(m.content, tail2);
    assert(sp_string(r5) == Some((m.content, tail2)));
    let r6 = tail2;
    assert(r6[0] == '}');
    assert(sp_ws(r6) == r6);
    assert(r6.take(1) =~= "}"@);
    let r7 = r6.skip(1);
    assert(sp_lit(r6, "}"@) == Some(r7));
    assert(r7 =~= rest);
    assert(GptMessageV { role: m.role, content: m.content } == m);
}

/// Reads one turn object that starts (after whitespace) at `i`.
fn p_message(s: &Vec<char>, i: usize) -> (r: Option<(GptMessage, usize)>)
    requires
        i <= s@.len(),
    ensures
        match r {
            Option::None => sp_message(s@.skip(i as int)) is None,
            Option::Some((m, j)) => {
                &&& i <= j <= s@.len()
                &&& sp_message(s@.skip(i as int)) == Some((m@, s@.skip(j as int)))
            },
        },
{
    let j0 = p_ws(s, i);
    let j1 = match p_lit(s, j0, "{") {
        Some(j) => j,
        None => {
            return None;
        },
    };
    let j2 = match p_key(s, j1, "\"role\"") {
        Some(j) => j,
        None => {
            return None;
        },
    };
    let jw = p_ws(s, j2);
    let (role, j3) = match p_string(s, jw) {
        Some(v) => v,
        None => {
            return None;
        },
    };
    let j4 = p_ws(s, j3);
    let j5 = match p_lit(s, j4, ",") {
        Some(j) => j,
        None => {
            return None;
        },
    };
    let j6 = match p_key(s, j5, "\"content\"") {
        Some(j) => j,
        None => {
            return None;
        },
    };
    let jw2 = p_ws(s, j6);
    let (content, j7) = match p_string(s, jw2) {
        Some(v) => v,
        None => {
            return None;
        },
    };
    let j8 = p_ws(s, j7);
    let j9 = match p_lit(s, j8, "}") {
        Some(j) => j,
        None => {
            return None;
        },
    };
    Some((GptMessage { role, content }, j9))
}

/// Reads one choice object that starts (after whitespace) at `i`.
fn p_choice(s: &Vec<char>, i: usize) -> (r: Option<(Choice, usize)>)
    requires
        i <= s@.len(),
    ensures
        match r {
            Option::None => sp_choice(s@.skip(i as int)) is None,
            Option::Some((c, j)) => {
                &&& i < j <= s@.len()
                &&& sp_choice(s@.skip(i as int)) == Some((c@, s@.skip(j as int)))
            },
        },
{
    let j0 = p_ws(s, i);
    let j1 = match p_lit(s, j0, "{") {
        Some(j) => j,
        None => {
            return None;
        },
    };
    let j2 = match p_key(s, j1, "\"message\"") {
        Some(j) => j,
        None => {
            return None;
        },
    };
    let (message, j3) = match p_message(s, j2) {
        Some(v) => v,
        None => {
            return None;
        },
    };
    let j4 = p_ws(s, j3);
    let j5 = match p_lit(s, j4, ",") {
        Some(j) => j,
        None => {
            return None;
        },
    };
    let j6 = match p_key(s, j5, "\"finish_reason\"") {
        Some(j) => j,
        None => {
            return None;
        },
    };
    let jw = p_ws(s, j6);
    let (finish_reason, j7) = match p_string(s, jw) {
        Some(v) => v,
        None => {
            return None;
        },
    };
    let j8 = p_ws(s, j7);
    let j9 = match p_lit(s, j8, ",") {
        Some(j) => j,
        None => {
            return None;
        },
    };
    let j10 = match p_key(s, j9, "\"index\"") {
        Some(j) => j,
        None => {
            return None;
        },
    };
    let jw2 = p_ws(s, j10);
    let (index, j11) = match p_number_i64(s, jw2) {
        Some(v) => v,
        None => {
            return None;
        },
    };
    let j12 = p_ws(s, j11);
    let j13 = match p_lit(s, j12, "}") {
        Some(j) => j,
        None => {
            return None;
        },
    };
    Some((Choice { message, finish_reason, index }, j13))
}

/// Reads the usage object that starts (after whitespace) at `i`.
fn p_usage(s: &Vec<char>, i: usize) -> (r: Option<(Usage, usize)>)
    requires
        i <= s@.len(),
    ensures
        match r {
            Option::None => sp_usage(s@.skip(i as int)) is None,
            Option::Some((u, j)) => {
                &&& i <= j <= s@.len()
                &&& sp_usage(s@.skip(i as int)) == Some((u@, s@.skip(j as int)))
            },
        },
{
    let j0 = p_ws(s, i);
    let j1 = match p_lit(s, j0, "{") {
        Some(j) => j,
        None => {
            return None;
        },
    };
    let j2 = match p_key(s, j1, "\"prompt_tokens\"") {
        Some(j) => j,
        None => {
            return None;
        },
    };
    let jw0 = p_ws(s, j2);
    let (prompt_tokens, j3) = match p_number_i64(s, jw0) {
        Some(v) => v,
        None => {
            return None;
        },
    };
    let j4 = p_ws(s, j3);
    let j5 = match p_lit(s, j4, ",") {
        Some(j) => j,
        None => {
            return None;
        },
    };
    let j6 = match p_key(s, j5, "\"completion_tokens\"") {
        Some(j) => j,
        None => {
            return None;
        },
    };
    let jw1 = p_ws(s, j6);
    let (completion_tokens, j7) = match p_number_i64(s, jw1) {
        Some(v) => v,
        None => {
            return None;
        },
    };
    let j8 = p_ws(s, j7);
    let j9 = match p_lit(s, j8, ",") {
        Some(j) => j,
        None => {
            return None;
        },
    };
    let j10 = match p_key(s, j9, "\"total_tokens\"") {
        Some(j) => j,
        None => {
            return None;
        },
    };
    let jw2 = p_ws(s, j10);
    let (total_tokens, j11) = match p_number_i64(s, jw2) {
        Some(v) => v,
        None => {
            return None;
        },
    };
    let j12 = p_ws(s, j11);
    let j13 = match p_lit(s, j12, "}") {
        Some(j) => j,
        None => {
            return None;
        },
    };
    Some((Usage { prompt_tokens, completion_tokens, total_tokens }, j13))
}

/// Reads the choices array that starts (after whitespace) at `i`.
fn p_choices(s: &Vec<char>, i: usize) -> (r: Option<(Vec<Choice>, usize)>)
    requires
        i <= s@.len(),
    ensures
        match r {
            Option::None => sp_choices(s@.skip(i as int)) is None,
            Option::Some((v, j)) => {
                &&& i <= j <= s@.len()
                &&& sp_choices(s@.skip(i as int)) == Some((choices_view(v@), s@.skip(j as int)))
            },
        },
{
    let j0 = p_ws(s, i);
    let j1 = match p_lit(s, j0, "[") {
        Some(j) => j,
        None => {
            return None;
        },
    };
    let j2 = p_ws(s, j1);
    if j2 < s.len() && s[j2] == ']' {
        proof {
            assert(s@.skip(j2 as int)[0] == ']');
            assert(s@.skip(j2 as int).skip(1) =~= s@.skip(j2 + 1 as int));
        }
        let out: Vec<Choice> = Vec::new();
        proof {
            assert(choices_view(out@) =~= Seq::<ChoiceV>::empty());
        }
        return Some((out, j2 + 1));
    }
    proof {
        if j2 < s@.len() {
            assert(s@.skip(j2 as int)[0] == s@[j2 as int]);
        }
    }
    let ghost lstart = j2 as int;
    let mut acc: Vec<Choice> = Vec::new();
    let mut cur = j2;
    loop
        invariant
            i <= lstart <= cur <= s@.len(),
            s@.len() <= usize::MAX,
            sp_choices(s@.skip(i as int)) == match sp_choice_list(s@.skip(lstart)) {
                Option::Some((cs, r2)) => match sp_lit(r2, "]"@) {
                    Option::Some(r3) => Option::Some((cs, r3)),
                    Option::None => Option::None::<(Seq<ChoiceV>, Seq<char>)>,
                },
                Option::None => Option::None::<(Seq<ChoiceV>, Seq<char>)>,
            },
            match sp_choice_list(s@.skip(cur as int)) {
                Option::Some((cs, r2)) => sp_choice_list(s@.skip(lstart)) == Some(
                    (choices_view(acc@) + cs, r2),
                ),
                Option::None => sp_choice_list(s@.skip(lstart)) is None,
            },
        decreases s@.len() - cur,
    {
        let (c, jc) = match p_choice(s, cur) {
            Some(v) => v,
            None => {
                return None;
            },
        };
        let jw = p_ws(s, jc);
        let ghost acc0 = acc@;
        acc.push(c);
        proof {
            assert(choices_view(acc@) =~= choices_view(acc0).push(c@));
        }
        if jw < s.len() && s[jw] == ',' {
            proof {
                assert(s@.skip(jw as int)[0] == ',');
                assert(s@.skip(jw as int).skip(1) =~= s@.skip(jw + 1 as int));
                match sp_choice_list(s@.skip(jw + 1 as int)) {
                    Option::Some((cs2, r2)) => {
                        assert(choices_view(acc0) + (seq![c@] + cs2) =~= choices_view(acc0).push(
                            c@,
                        ) + cs2);
                    },
                    Option::None => {},
                }
            }
            cur = jw + 1;
        } else {
            proof {
                if jw < s@.len() {
                    assert(s@.skip(jw as int)[0] == s@[jw as int]);
                }
                assert(choices_view(acc0) + seq![c@] =~= choices_view(acc0).push(c@));
            }
            let j3 = match p_lit(s, jw, "]") {
                Some(j) => j,
                None => {
                    return None;
                },
            };
            return Some((acc, j3));
        }
    }
}

/// Reads the completion object that starts (after whitespace) at `i`.
fn p_completion(s: &Vec<char>, i: usize) -> (r: Option<(ChatCompletion, usize)>)
    requires
        i <= s@.len(),
    ensures
        match r {
            Option::None => sp_completion(s@.skip(i as int)) is None,
            Option::Some((c, j)) => {
                &&& i <= j <= s@.len()
                &&& sp_completion(s@.skip(i as int)) == Some((c@, s@.skip(j as int)))
            },
        },
{
    let j0 = p_ws(s, i);
    let j1 = match p_lit(s, j0, "{") {
        Some(j) => j,
        None => {
            return None;
        },
    };
    let j2 = match p_key(s, j1, "\"id\"") {
        Some(j) => j,
        None => {
            return None;
        },
    };
    let jw0 = p_ws(s, j2);
    let (id, j3) = match p_string(s, jw0) {
        Some(v) => v,
        None => {
            return None;
        },
    };
    let j4 = p_ws(s, j3);
    let j5 = match p_lit(s, j4, ",") {
        Some(j) => j,
        None => {
            return None;
        },
    };
    let j6 = match p_key(s, j5, "\"object\"") {
        Some(j) => j,
        None => {
            return None;
        },
    };
    let jw1 = p_ws(s, j6);
    let (object, j7) = match p_string(s, jw1) {
        Some(v) => v,
        None => {
            return None;
        },
    };
    let j8 = p_ws(s, j7);
    let j9 = match p_lit(s, j8, ",") {
        Some(j) => j,
        None => {
            return None;
        },
    };
    let j10 = match p_key(s, j9, "\"created\"") {
        Some(j) => j,
        None => {
            return None;
        },
    };
    let jw2 = p_ws(s, j10);
    let (created, j11) = match p_number_i64(s, jw2) {
        Some(v) => v,
        None => {
            return None;
        },
    };
    let j12 = p_ws(s, j11);
    let j13 = match p_lit(s, j12, ",") {
        Some(j) => j,
        None => {
            return None;
        },
    };
    let j14 = match p_key(s, j13, "\"model\"") {
        Some(j) => j,
        None => {
            return None;
        },
    };
    let jw3 = p_ws(s, j14);
    let (model, j15) = match p_string(s, jw3) {
        Some(v) => v,
        None => {
            return None;
        },
    };
    let j16 = p_ws(s, j15);
    let j17 = match p_lit(s, j16, ",") {
        Some(j) => j,
        None => {
            return None;
        },
    };
    let j18 = match p_key(s, j17, "\"usage\"") {
        Some(j) => j,
        None => {
            return None;
        },
    };
    let (usage, j19) = match p_usage(s, j18) {
        Some(v) => v,
        None => {
            return None;
        },
    };
    let j20 = p_ws(s, j19);
    let j21 = match p_lit(s, j20, ",") {
        Some(j) => j,
        None => {
            return None;
        },
    };
    let j22 = match p_key(s, j21, "\"choices\"") {
        Some(j) => j,
        None => {
            return None;
        },
    };
    let (choices, j23) = match p_choices(s, j22) {
        Some(v) => v,
        None => {
            return None;
        },
    };
    let j24 = p_ws(s, j23);
    let j25 = match p_lit(s, j24, "}") {
        Some(j) => j,
        None => {
            return None;
        },
    };
    Some((ChatCompletion { id, object, created, model, usage, choices }, j25))
}

/// Parses a whole response body. Yields the completion exactly when the body
/// lies in this crate's response grammar, and nothing otherwise.
pub fn parse_completion(body: &str) -> (r: Option<ChatCompletion>)
    ensures
        match r {
            Option::None => spec_parse_completion(body@) is None,
            Option::Some(c) => spec_parse_completion(body@) == Some(c@),
        },
{
    let cs = str_to_chars(body);
    proof {
        assert(cs@.skip(0) =~= body@);
    }
    let (c, j) = match p_completion(&cs, 0) {
        Some(v) => v,
        None => {
            return None;
        },
    };
    let jw = p_ws(&cs, j);
    if jw == cs.len() {
        proof {
            assert(cs@.skip(jw as int).len() == 0);
        }
        Some(c)
    } else {
        proof {
            assert(cs@.skip(jw as int).len() > 0);
        }
        None
    }
}

} // verus!
