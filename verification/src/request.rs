//! The outbound request: the typed request value and its exact wire JSON,
//! together with the endpoint path and headers the transport must send.

use vstd::prelude::*;

verus! {

use crate::model::{Model, ModelV, spec_model_id};
use crate::role::{Role, spec_role_string, role_to_string};
use crate::strutil::chars_to_string;

/// One conversation turn to send: a role and its text.
#[derive(Debug, Clone, PartialEq, Eq)]
pub struct RequestMessage {
    pub role: Role,
    pub content: String,
}

/// The mathematical value of a [`RequestMessage`].
pub struct RequestMessageV {
    pub role: Role,
    pub content: Seq<char>,
}

impl DeepView for RequestMessage {
    type V = RequestMessageV;

    open spec fn deep_view(&self) -> RequestMessageV {
        RequestMessageV { role: self.role, content: self.content@ }
    }
}

/// A complete outbound request: the model, the ordered conversation, the
/// streaming flag, the system prompt and the output token budget. Keeping
/// the budget within the model's context size is the caller's business.
#[derive(Debug, Clone, PartialEq)]
pub struct Request {
    pub model: Model,
    pub messages: Vec<RequestMessage>,
    pub stream: bool,
    pub system: String,
    pub max_tokens: u32,
}

/// The mathematical value of a [`Request`].
pub struct RequestV {
    pub model: ModelV,
    pub messages: Seq<RequestMessageV>,
    pub stream: bool,
    pub system: Seq<char>,
    pub max_tokens: u32,
}

impl DeepView for Request {
    type V = RequestV;

    open spec fn deep_view(&self) -> RequestV {
        RequestV {
            model: self.model@,
            messages: self.messages.deep_view(),
            stream: self.stream,
            system: self.system@,
            max_tokens: self.max_tokens,
        }
    }
}

/// The lowercase hexadecimal digit of a value below sixteen.
pub open spec fn sp_hex_digit(d: int) -> char {
    if d == 0 {
        '0'
    } else if d == 1 {
        '1'
    } else if d == 2 {
        '2'
    } else if d == 3 {
        '3'
    } else if d == 4 {
        '4'
    } else if d == 5 {
        '5'
    } else if d == 6 {
        '6'
    } else if d == 7 {
        '7'
    } else if d == 8 {
        '8'
    } else if d == 9 {
        '9'
    } else if d == 10 {
        'a'
    } else if d == 11 {
        'b'
    } else if d == 12 {
        'c'
    } else if d == 13 {
        'd'
    } else if d == 14 {
        'e'
    } else {
        'f'
    }
}

/// How one character appears inside a JSON string literal: quotes,
/// backslashes and the named control characters take their short escapes,
/// any other control character its four-digit escape, everything else
/// itself.
pub open spec fn sp_escaped_char(c: char) -> Seq<char> {
    if c == '"' {
        seq!['\\', '"']
    } else if c == '\\' {
        seq!['\\', '\\']
    } else if c == '\n' {
        seq!['\\', 'n']
    } else if c == '\r' {
        seq!['\\', 'r']
    } else if c == '\t' {
        seq!['\\', 't']
    } else if c == '\u{0008}' {
        seq!['\\', 'b']
    } else if c == '\u{000C}' {
        seq!['\\', 'f']
    } else if (c as u32) < 32 {
        seq!['\\', 'u', '0', '0', sp_hex_digit(c as int / 16), sp_hex_digit(c as int % 16)]
    } else {
        seq![c]
    }
}

/// The body of a JSON string literal holding exactly the characters of
/// `s`.
pub open spec fn sp_escape(s: Seq<char>) -> Seq<char>
    decreases s.len(),
{
    if s.len() == 0 {
        Seq::empty()
    } else {
        sp_escape(s.drop_last()) + sp_escaped_char(s.last())
    }
}

/// The lowercase hexadecimal digit, mirroring [`sp_hex_digit`].
fn hex_digit(d: u32) -> (c: char)
    requires
        d < 16,
    ensures
        c == sp_hex_digit(d as int),
{
    if d == 0 {
        '0'
    } else if d == 1 {
        '1'
    } else if d == 2 {
        '2'
    } else if d == 3 {
        '3'
    } else if d == 4 {
        '4'
    } else if d == 5 {
        '5'
    } else if d == 6 {
        '6'
    } else if d == 7 {
        '7'
    } else if d == 8 {
        '8'
    } else if d == 9 {
        '9'
    } else if d == 10 {
        'a'
    } else if d == 11 {
        'b'
    } else if d == 12 {
        'c'
    } else if d == 13 {
        'd'
    } else if d == 14 {
        'e'
    } else {
        'f'
    }
}

/// Escapes a string for inclusion in a JSON string literal, mirroring
/// [`sp_escape`].
pub fn escape_json(s: &str) -> (r: String)
    ensures
        r@ == sp_escape(s@),
{
    let n = s.unicode_len();
    let mut out: Vec<char> = Vec::new();
    let mut i: usize = 0;
    while i < n
        invariant
            n == s@.len(),
            i <= n,
            out@ == sp_escape(s@.subrange(0, i as int)),
        decreases n - i,
    {
        let c = s.get_char(i);
        let ghost before = out@;
        if c == '"' {
            out.push('\\');
            out.push('"');
        } else if c == '\\' {
            out.push('\\');
            out.push('\\');
        } else if c == '\n' {
            out.push('\\');
            out.push('n');
        } else if c == '\r' {
            out.push('\\');
            out.push('r');
        } else if c == '\t' {
            out.push('\\');
            out.push('t');
        } else if c == '\u{0008}' {
            out.push('\\');
            out.push('b');
        } else if c == '\u{000C}' {
            out.push('\\');
            out.push('f');
        } else if (c as u32) < 32 {
            out.push('\\');
            out.push('u');
            out.push('0');
            out.push('0');
            out.push(hex_digit((c as u32) / 16));
            out.push(hex_digit((c as u32) % 16));
        } else {
            out.push(c);
        }
        proof {
            assert(out@ =~= before + sp_escaped_char(s@[i as int]));
            assert(s@.subrange(0, i + 1 as int).drop_last() =~= s@.subrange(0, i as int));
            assert(s@.subrange(0, i + 1 as int).last() == s@[i as int]);
        }
        i += 1;
    }
    proof {
        assert(s@.subrange(0, n as int) =~= s@);
    }
    chars_to_string(&out)
}

/// The decimal digit character of a value below ten.
pub open spec fn sp_dec_digit(d: int) -> char {
    sp_hex_digit(if 0 <= d < 10 {
        d
    } else {
        0
    })
}

/// The decimal numeral of an unsigned count, most significant digit
/// first, with no leading zeros.
pub open spec fn sp_u32_dec(n: u32) -> Seq<char>
    decreases n,
{
    if n < 10 {
        seq![sp_dec_digit(n as int)]
    } else {
        sp_u32_dec(n / 10) + seq![sp_dec_digit(n as int % 10)]
    }
}

/// Writes an unsigned count in decimal, mirroring [`sp_u32_dec`].
fn u32_dec_chars(n: u32) -> (r: Vec<char>)
    ensures
        r@ == sp_u32_dec(n),
    decreases n,
{
    if n < 10 {
        let mut v: Vec<char> = Vec::new();
        v.push(hex_digit(n));
        proof {
            assert(v@ =~= seq![sp_dec_digit(n as int)]);
        }
        v
    } else {
        let mut v = u32_dec_chars(n / 10);
        let ghost before = v@;
        v.push(hex_digit(n % 10));
        proof {
            assert(v@ =~= before + seq![sp_dec_digit(n as int % 10)]);
        }
        v
    }
}

/// One message as wire JSON: its role string and its escaped text.
pub open spec fn sp_message_json(m: RequestMessageV) -> Seq<char> {
    "{\"role\":\""@ + spec_role_string(m.role) + "\",\"content\":\""@ + sp_escape(m.content)
        + "\"}"@
}

/// The message array's contents as wire JSON, in conversation order,
/// joined by commas.
pub open spec fn sp_messages_json(ms: Seq<RequestMessageV>) -> Seq<char>
    decreases ms.len(),
{
    if ms.len() == 0 {
        Seq::empty()
    } else if ms.len() == 1 {
        sp_message_json(ms[0])
    } else {
        sp_messages_json(ms.drop_last()) + ","@ + sp_message_json(ms.last())
    }
}

/// The whole request as wire JSON: the model reduced to its wire
/// identifier, the messages in order, then the streaming flag, system
/// prompt and token budget.
pub open spec fn spec_request_json(r: RequestV) -> Seq<char> {
    "{\"model\":\""@ + sp_escape(spec_model_id(r.model)) + "\",\"messages\":["@
        + sp_messages_json(r.messages) + "],\"stream\":"@ + (if r.stream {
        "true"@
    } else {
        "false"@
    }) + ",\"system\":\""@ + sp_escape(r.system) + "\",\"max_tokens\":"@ + sp_u32_dec(
        r.max_tokens,
    ) + "}"@
}

/// Writes one message as wire JSON, mirroring [`sp_message_json`].
fn message_json(m: &RequestMessage) -> (r: String)
    ensures
        r@ == sp_message_json(m.deep_view()),
{
    let mut out = String::from_str("{\"role\":\"");
    out.append(role_to_string(m.role).as_str());
    out.append("\",\"content\":\"");
    out.append(escape_json(m.content.as_str()).as_str());
    out.append("\"}");
    out
}

impl Request {
    /// Serializes this request to its exact wire JSON, mirroring
    /// [`spec_request_json`].
    pub fn to_json(&self) -> (r: String)
        ensures
            r@ == spec_request_json(self.deep_view()),
    {
        let ghost mdv = self.messages.deep_view();
        let mut out = String::from_str("{\"model\":\"");
        out.append(escape_json(self.model.id()).as_str());
        out.append("\",\"messages\":[");
        let ghost base = out@;
        let mut i: usize = 0;
        while i < self.messages.len()
            invariant
                i <= self.messages@.len(),
                mdv == self.messages.deep_view(),
                mdv.len() == self.messages@.len(),
                out@ == base + sp_messages_json(mdv.subrange(0, i as int)),
            decreases self.messages@.len() - i,
        {
            let ghost before = out@;
            if i > 0 {
                out.append(",");
            }
            out.append(message_json(&self.messages[i]).as_str());
            proof {
                assert(mdv.subrange(0, i + 1 as int).drop_last() =~= mdv.subrange(0, i as int));
                assert(mdv.subrange(0, i + 1 as int).last() == mdv[i as int]);
                assert(mdv[i as int] == self.messages@[i as int].deep_view());
                if i == 0 {
                    assert(mdv.subrange(0, 1) =~= seq![mdv[0]]);
                    assert(sp_messages_json(mdv.subrange(0, 1)) == sp_message_json(mdv[0]));
                    assert(out@ =~= base + sp_messages_json(mdv.subrange(0, i + 1 as int)));
                } else {
                    assert(out@ =~= base + sp_messages_json(mdv.subrange(0, i + 1 as int)));
                }
            }
            i += 1;
        }
        proof {
            assert(mdv.subrange(0, mdv.len() as int) =~= mdv);
        }
        out.append("],\"stream\":");
        if self.stream {
            out.append("true");
        } else {
            out.append("false");
        }
        out.append(",\"system\":\"");
        out.append(escape_json(self.system.as_str()).as_str());
        out.append("\",\"max_tokens\":");
        out.append(chars_to_string(&u32_dec_chars(self.max_tokens)).as_str());
        out.append("}");
        proof {
            assert(out@ =~= spec_request_json(self.deep_view()));
        }
        out
    }
}

/// The endpoint the request is posted to, under the configured base URL.
pub fn request_uri(api_url: &str) -> (r: String)
    ensures
        r@ == api_url@ + "/v1/messages"@,
{
    let mut out = api_url.to_owned();
    out.append("/v1/messages");
    out
}

/// The four headers of the request, in order: the protocol version
/// marker, the beta-feature marker, the caller's API key, and the JSON
/// content type.
pub fn request_headers(api_key: &str) -> (r: Vec<(String, String)>)
    ensures
        r@.len() == 4,
        r@[0].0@ == "Lyra-Version"@ && r@[0].1@ == "2023-06-01"@,
        r@[1].0@ == "Lyra-Beta"@ && r@[1].1@ == "tools-2024-04-04"@,
        r@[2].0@ == "X-Api-Key"@ && r@[2].1@ == api_key@,
        r@[3].0@ == "Content-Type"@ && r@[3].1@ == "application/json"@,
{
    let mut out: Vec<(String, String)> = Vec::new();
    out.push((String::from_str("Lyra-Version"), String::from_str("2023-06-01")));
    out.push((String::from_str("Lyra-Beta"), String::from_str("tools-2024-04-04")));
    out.push((String::from_str("X-Api-Key"), api_key.to_owned()));
    out.push((String::from_str("Content-Type"), String::from_str("application/json")));
    out
}

} // verus!
