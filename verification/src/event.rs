//! The typed response events and the strict decoding of one event frame
//! from its JSON tree, selected by the frame's discriminant field.

use vstd::prelude::*;

verus! {

use crate::json::{
    Json,
    JsonV,
    deep_view_members,
    deep_view_elems,
    is_digit,
};
use crate::strutil::str_eq_str;

/// Token accounting attached to message-delta events; both counts are
/// optional on the wire.
#[derive(Debug, Clone, Copy, PartialEq, Eq)]
pub struct Usage {
    pub input_tokens: Option<u32>,
    pub output_tokens: Option<u32>,
}

/// A partially-populated message envelope: metadata arrives incrementally,
/// so every field is optional.
#[derive(Debug, Clone, PartialEq, Eq)]
pub struct ResponseMessage {
    pub message_type: Option<String>,
    pub id: Option<String>,
    pub role: Option<String>,
    pub content: Option<Vec<String>>,
    pub model: Option<String>,
    pub stop_reason: Option<String>,
    pub stop_sequence: Option<String>,
    pub usage: Option<Usage>,
}

/// A block of response content; only text exists today, and any other tag
/// must fail decoding rather than be dropped.
#[derive(Debug, Clone, PartialEq, Eq)]
pub enum ContentBlock {
    Text { text: String },
}

/// An incremental change to a content block; text-only today.
#[derive(Debug, Clone, PartialEq, Eq)]
pub enum TextDelta {
    TextDelta { text: String },
}

/// One decoded event from the stream: the tagged union the wire
/// discriminant selects from.
#[derive(Debug, Clone, PartialEq, Eq)]
pub enum ResponseEvent {
    MessageStart { message: ResponseMessage },
    ContentBlockStart { index: u32, content_block: ContentBlock },
    Ping,
    ContentBlockDelta { index: u32, delta: TextDelta },
    ContentBlockStop { index: u32 },
    MessageDelta { delta: ResponseMessage, usage: Usage },
    MessageStop,
}

/// Why one frame failed to decode.
#[derive(Debug, Clone, Copy, PartialEq, Eq, Structural)]
pub enum FrameError {
    /// The frame is not well-formed JSON.
    Syntax,
    /// The discriminant holds a value no variant answers to.
    UnknownVariant,
    /// The frame is JSON but its shape does not fit the selected variant
    /// (or no discriminant is present at all).
    Malformed,
}

/// The mathematical value of a [`ResponseMessage`].
pub struct ResponseMessageV {
    pub message_type: Option<Seq<char>>,
    pub id: Option<Seq<char>>,
    pub role: Option<Seq<char>>,
    pub content: Option<Seq<Seq<char>>>,
    pub model: Option<Seq<char>>,
    pub stop_reason: Option<Seq<char>>,
    pub stop_sequence: Option<Seq<char>>,
    pub usage: Option<Usage>,
}

/// The mathematical value of a [`ContentBlock`].
pub enum ContentBlockV {
    Text { text: Seq<char> },
}

/// The mathematical value of a [`TextDelta`].
pub enum TextDeltaV {
    TextDelta { text: Seq<char> },
}

/// The mathematical value of a [`ResponseEvent`].
pub enum ResponseEventV {
    MessageStart { message: ResponseMessageV },
    ContentBlockStart { index: u32, content_block: ContentBlockV },
    Ping,
    ContentBlockDelta { index: u32, delta: TextDeltaV },
    ContentBlockStop { index: u32 },
    MessageDelta { delta: ResponseMessageV, usage: Usage },
    MessageStop,
}

impl DeepView for ResponseMessage {
    type V = ResponseMessageV;

    open spec fn deep_view(&self) -> ResponseMessageV {
        ResponseMessageV {
            message_type: self.message_type.deep_view(),
            id: self.id.deep_view(),
            role: self.role.deep_view(),
            content: self.content.deep_view(),
            model: self.model.deep_view(),
            stop_reason: self.stop_reason.deep_view(),
            stop_sequence: self.stop_sequence.deep_view(),
            usage: self.usage,
        }
    }
}

impl DeepView for ContentBlock {
    type V = ContentBlockV;

    open spec fn deep_view(&self) -> ContentBlockV {
        match self {
            ContentBlock::Text { text } => ContentBlockV::Text { text: text@ },
        }
    }
}

impl DeepView for TextDelta {
    type V = TextDeltaV;

    open spec fn deep_view(&self) -> TextDeltaV {
        match self {
            TextDelta::TextDelta { text } => TextDeltaV::TextDelta { text: text@ },
        }
    }
}

impl DeepView for ResponseEvent {
    type V = ResponseEventV;

    open spec fn deep_view(&self) -> ResponseEventV {
        match self {
            ResponseEvent::MessageStart { message } => ResponseEventV::MessageStart {
                message: message.deep_view(),
            },
            ResponseEvent::ContentBlockStart { index, content_block } => (
            ResponseEventV::ContentBlockStart {
                index: *index,
                content_block: content_block.deep_view(),
            }),
            ResponseEvent::Ping => ResponseEventV::Ping,
            ResponseEvent::ContentBlockDelta { index, delta } => (ResponseEventV::ContentBlockDelta {
                index: *index,
                delta: delta.deep_view(),
            }),
            ResponseEvent::ContentBlockStop { index } => ResponseEventV::ContentBlockStop {
                index: *index,
            },
            ResponseEvent::MessageDelta { delta, usage } => ResponseEventV::MessageDelta {
                delta: delta.deep_view(),
                usage: *usage,
            },
            ResponseEvent::MessageStop => ResponseEventV::MessageStop,
        }
    }
}

/// The value of the first member named `key`, if any.
pub open spec fn sp_obj_get(ms: Seq<(Seq<char>, JsonV)>, key: Seq<char>) -> Option<JsonV>
    decreases ms.len(),
{
    if ms.len() == 0 {
        None
    } else if ms[0].0 == key {
        Some(ms[0].1)
    } else {
        sp_obj_get(ms.drop_first(), key)
    }
}

/// The member-wise deep view preserves length and maps each member in
/// place.
pub proof fn lemma_deep_view_members_props(ms: Seq<(String, Json)>)
    ensures
        deep_view_members(ms).len() == ms.len(),
        forall|k: int|
            0 <= k < ms.len() ==> #[trigger] deep_view_members(ms)[k] == (
                ms[k].0@,
                ms[k].1.deep_view(),
            ),
    decreases ms,
{
    if ms.len() > 0 {
        lemma_deep_view_members_props(ms.drop_last());
        assert(deep_view_members(ms) == deep_view_members(ms.drop_last()) + seq![
            (ms.last().0@, ms.last().1.deep_view()),
        ]);
        assert(deep_view_members(ms.drop_last()).len() == ms.len() - 1);
        assert(deep_view_members(ms).len() == ms.len());
        assert forall|k: int| 0 <= k < ms.len() implies #[trigger] deep_view_members(ms)[k] == (
            ms[k].0@,
            ms[k].1.deep_view(),
        ) by {
            if k < ms.len() - 1 {
                assert(deep_view_members(ms)[k] == deep_view_members(ms.drop_last())[k]);
                assert(ms.drop_last()[k] == ms[k]);
            } else {
                assert(deep_view_members(ms)[k] == (ms.last().0@, ms.last().1.deep_view()));
            }
        }
    }
}

/// The element-wise deep view preserves length and maps each element in
/// place.
pub proof fn lemma_deep_view_elems_props(items: Seq<Json>)
    ensures
        deep_view_elems(items).len() == items.len(),
        forall|k: int|
            0 <= k < items.len() ==> #[trigger] deep_view_elems(items)[k]
                == items[k].deep_view(),
    decreases items,
{
    if items.len() > 0 {
        lemma_deep_view_elems_props(items.drop_last());
        assert(deep_view_elems(items) == deep_view_elems(items.drop_last()) + seq![
            items.last().deep_view(),
        ]);
        assert(deep_view_elems(items.drop_last()).len() == items.len() - 1);
        assert(deep_view_elems(items).len() == items.len());
        assert forall|k: int|
            0 <= k < items.len() implies #[trigger] deep_view_elems(items)[k]
            == items[k].deep_view() by {
            if k < items.len() - 1 {
                assert(deep_view_elems(items)[k] == deep_view_elems(items.drop_last())[k]);
                assert(items.drop_last()[k] == items[k]);
            } else {
                assert(deep_view_elems(items)[k] == items.last().deep_view());
            }
        }
    }
}

/// Finds the first member named `key`, mirroring [`sp_obj_get`].
pub fn obj_get<'a>(members: &'a Vec<(String, Json)>, key: &str) -> (r: Option<&'a Json>)
    ensures
        match r {
            Some(x) => sp_obj_get(deep_view_members(members@), key@) == Some(x.deep_view()),
            None => sp_obj_get(deep_view_members(members@), key@) is None,
        },
{
    proof {
        lemma_deep_view_members_props(members@);
    }
    let ghost dv = deep_view_members(members@);
    proof {
        assert(dv.skip(0) =~= dv);
    }
    let mut i: usize = 0;
    while i < members.len()
        invariant
            i <= members@.len(),
            dv == deep_view_members(members@),
            dv.len() == members@.len(),
            forall|k: int| 0 <= k < members@.len() ==> #[trigger] dv[k] == (
                members@[k].0@,
                members@[k].1.deep_view(),
            ),
            sp_obj_get(dv, key@) == sp_obj_get(dv.skip(i as int), key@),
        decreases members@.len() - i,
    {
        let pair = &members[i];
        proof {
            assert(dv.skip(i as int)[0] == dv[i as int]);
        }
        if str_eq_str(pair.0.as_str(), key) {
            return Some(&pair.1);
        }
        proof {
            assert(dv.skip(i as int).drop_first() =~= dv.skip(i + 1));
        }
        i += 1;
    }
    proof {
        assert(dv.skip(i as int) =~= Seq::<(Seq<char>, JsonV)>::empty());
    }
    None
}

/// Every character of `s` is a decimal digit, and there is at least one.
pub open spec fn sp_all_digits(s: Seq<char>) -> bool {
    s.len() > 0 && forall|k: int| 0 <= k < s.len() ==> is_digit(#[trigger] s[k])
}

/// The decimal value of a digit string (reading any character as the
/// distance of its code point from the zero digit).
pub open spec fn sp_digits_val(s: Seq<char>) -> int
    decreases s.len(),
{
    if s.len() == 0 {
        0
    } else {
        sp_digits_val(s.drop_last()) * 10 + (s.last() as int - '0' as int)
    }
}

/// The `u32` a numeric lexeme denotes, if it is a plain unsigned integer
/// in range: no sign, no fraction, no exponent, value at most `u32::MAX`.
pub open spec fn sp_lex_u32(lex: Seq<char>) -> Option<u32> {
    if sp_all_digits(lex) && 0 <= sp_digits_val(lex) <= u32::MAX {
        Some(sp_digits_val(lex) as u32)
    } else {
        None
    }
}

/// A digit string's value only grows as further digits are appended.
proof fn lemma_digits_val_prefix(s: Seq<char>, j: int)
    requires
        0 <= j <= s.len(),
        0 <= sp_digits_val(s.subrange(0, j)),
        forall|k: int| j <= k < s.len() ==> is_digit(#[trigger] s[k]),
    ensures
        sp_digits_val(s.subrange(0, j)) <= sp_digits_val(s),
    decreases s.len() - j,
{
    if j == s.len() {
        assert(s.subrange(0, j) =~= s);
    } else {
        assert(s.subrange(0, j + 1).drop_last() =~= s.subrange(0, j));
        assert(s.subrange(0, j + 1).last() == s[j]);
        assert(sp_digits_val(s.subrange(0, j + 1)) == sp_digits_val(s.subrange(0, j)) * 10 + (
        s[j] as int - '0' as int));
        assert(sp_digits_val(s.subrange(0, j)) * 10 >= sp_digits_val(s.subrange(0, j)));
        assert(s[j] as int - '0' as int >= 0);
        lemma_digits_val_prefix(s, j + 1);
    }
}

/// Reads a numeric lexeme as a `u32`, mirroring [`sp_lex_u32`].
pub fn lex_u32(lex: &str) -> (r: Option<u32>)
    ensures
        r == sp_lex_u32(lex@),
{
    let n = lex.unicode_len();
    if n == 0 {
        return None;
    }
    let mut acc: u64 = 0;
    let mut i: usize = 0;
    while i < n
        invariant
            n == lex@.len(),
            0 < n,
            i <= n,
            acc as int == sp_digits_val(lex@.subrange(0, i as int)),
            acc <= u32::MAX,
            forall|k: int| 0 <= k < i ==> is_digit(#[trigger] lex@[k]),
        decreases n - i,
    {
        let c = lex.get_char(i);
        if !('0' <= c && c <= '9') {
            assert(!is_digit(lex@[i as int]));
            return None;
        }
        let d: u64 = (c as u64) - 48;
        assert(c as int - '0' as int == d as int);
        assert(0 <= d <= 9);
        acc = acc * 10 + d;
        proof {
            assert(lex@.subrange(0, i + 1 as int).drop_last() =~= lex@.subrange(0, i as int));
            assert(lex@.subrange(0, i + 1 as int).last() == lex@[i as int]);
        }
        i += 1;
        if acc > 0xFFFF_FFFF {
            proof {
                if sp_all_digits(lex@) {
                    lemma_digits_val_prefix(lex@, i as int);
                    assert(lex@.subrange(0, n as int) =~= lex@);
                }
            }
            return None;
        }
    }
    proof {
        assert(lex@.subrange(0, n as int) =~= lex@);
    }
    Some(acc as u32)
}


/// An optional string field: absent or null is `None`, a string is
/// `Some`, anything else is a decode error.
pub open spec fn sp_opt_str_field(ms: Seq<(Seq<char>, JsonV)>, key: Seq<char>) -> Result<
    Option<Seq<char>>,
    (),
> {
    match sp_obj_get(ms, key) {
        None => Ok(None),
        Some(JsonV::Null) => Ok(None),
        Some(JsonV::Str(t)) => Ok(Some(t)),
        Some(_) => Err(()),
    }
}

/// An optional unsigned-count field: absent or null is `None`, a plain
/// in-range integer is `Some`, anything else is a decode error.
pub open spec fn sp_opt_u32_field(ms: Seq<(Seq<char>, JsonV)>, key: Seq<char>) -> Result<
    Option<u32>,
    (),
> {
    match sp_obj_get(ms, key) {
        None => Ok(None),
        Some(JsonV::Null) => Ok(None),
        Some(JsonV::Num(lex)) => match sp_lex_u32(lex) {
            Some(n) => Ok(Some(n)),
            None => Err(()),
        },
        Some(_) => Err(()),
    }
}

/// A required unsigned-count field: anything but a plain in-range integer
/// is a decode error.
pub open spec fn sp_req_u32_field(ms: Seq<(Seq<char>, JsonV)>, key: Seq<char>) -> Result<u32, ()> {
    match sp_obj_get(ms, key) {
        Some(JsonV::Num(lex)) => match sp_lex_u32(lex) {
            Some(n) => Ok(n),
            None => Err(()),
        },
        _ => Err(()),
    }
}

/// The strings of an array whose elements are all strings.
pub open spec fn sp_str_items(elems: Seq<JsonV>) -> Option<Seq<Seq<char>>>
    decreases elems.len(),
{
    if elems.len() == 0 {
        Some(Seq::empty())
    } else {
        match sp_str_items(elems.drop_last()) {
            Some(rest) => match elems.last() {
                JsonV::Str(t) => Some(rest.push(t)),
                _ => None,
            },
            None => None,
        }
    }
}

/// An optional string-array field.
pub open spec fn sp_opt_str_arr_field(ms: Seq<(Seq<char>, JsonV)>, key: Seq<char>) -> Result<
    Option<Seq<Seq<char>>>,
    (),
> {
    match sp_obj_get(ms, key) {
        None => Ok(None),
        Some(JsonV::Null) => Ok(None),
        Some(JsonV::Arr(elems)) => match sp_str_items(elems) {
            Some(ts) => Ok(Some(ts)),
            None => Err(()),
        },
        Some(_) => Err(()),
    }
}

/// Token accounting decoded from an object with two optional counts.
pub open spec fn sp_decode_usage(j: JsonV) -> Result<Usage, ()> {
    match j {
        JsonV::Obj(ms) => {
            let a = sp_opt_u32_field(ms, "input_tokens"@);
            let b = sp_opt_u32_field(ms, "output_tokens"@);
            if a is Ok && b is Ok {
                Ok(Usage { input_tokens: a->Ok_0, output_tokens: b->Ok_0 })
            } else {
                Err(())
            }
        },
        _ => Err(()),
    }
}

/// An optional usage field.
pub open spec fn sp_opt_usage_field(ms: Seq<(Seq<char>, JsonV)>, key: Seq<char>) -> Result<
    Option<Usage>,
    (),
> {
    match sp_obj_get(ms, key) {
        None => Ok(None),
        Some(JsonV::Null) => Ok(None),
        Some(j) => match sp_decode_usage(j) {
            Ok(u) => Ok(Some(u)),
            Err(_) => Err(()),
        },
    }
}

/// A message envelope decoded from an object; every field is optional and
/// checked strictly when present.
pub open spec fn sp_decode_message(j: JsonV) -> Result<ResponseMessageV, ()> {
    match j {
        JsonV::Obj(ms) => {
            let t = sp_opt_str_field(ms, "type"@);
            let id = sp_opt_str_field(ms, "id"@);
            let role = sp_opt_str_field(ms, "role"@);
            let content = sp_opt_str_arr_field(ms, "content"@);
            let model = sp_opt_str_field(ms, "model"@);
            let stop_reason = sp_opt_str_field(ms, "stop_reason"@);
            let stop_sequence = sp_opt_str_field(ms, "stop_sequence"@);
            let usage = sp_opt_usage_field(ms, "usage"@);
            if t is Ok && id is Ok && role is Ok && content is Ok && model is Ok && stop_reason
                is Ok && stop_sequence is Ok && usage is Ok {
                Ok(ResponseMessageV {
                    message_type: t->Ok_0,
                    id: id->Ok_0,
                    role: role->Ok_0,
                    content: content->Ok_0,
                    model: model->Ok_0,
                    stop_reason: stop_reason->Ok_0,
                    stop_sequence: stop_sequence->Ok_0,
                    usage: usage->Ok_0,
                })
            } else {
                Err(())
            }
        },
        _ => Err(()),
    }
}

/// A content block decoded from its own tagged object: only the text tag
/// exists, and its text is required.
pub open spec fn sp_decode_content_block(j: JsonV) -> Result<ContentBlockV, ()> {
    match j {
        JsonV::Obj(ms) => match sp_obj_get(ms, "type"@) {
            Some(JsonV::Str(t)) => if t == "text"@ {
                match sp_obj_get(ms, "text"@) {
                    Some(JsonV::Str(x)) => Ok(ContentBlockV::Text { text: x }),
                    _ => Err(()),
                }
            } else {
                Err(())
            },
            _ => Err(()),
        },
        _ => Err(()),
    }
}

/// A text delta decoded from its own tagged object.
pub open spec fn sp_decode_text_delta(j: JsonV) -> Result<TextDeltaV, ()> {
    match j {
        JsonV::Obj(ms) => match sp_obj_get(ms, "type"@) {
            Some(JsonV::Str(t)) => if t == "text_delta"@ {
                match sp_obj_get(ms, "text"@) {
                    Some(JsonV::Str(x)) => Ok(TextDeltaV::TextDelta { text: x }),
                    _ => Err(()),
                }
            } else {
                Err(())
            },
            _ => Err(()),
        },
        _ => Err(()),
    }
}

/// One frame's event, selected by the `type` discriminant: each known
/// discriminant decodes its fixed payload shape strictly, an unknown
/// discriminant is its own kind of error, and a frame without a proper
/// discriminant is malformed.
pub open spec fn sp_decode_event(j: JsonV) -> Result<ResponseEventV, FrameError> {
    match j {
        JsonV::Obj(ms) => match sp_obj_get(ms, "type"@) {
            Some(JsonV::Str(t)) => {
                if t == "message_start"@ {
                    match sp_obj_get(ms, "message"@) {
                        Some(mj) => match sp_decode_message(mj) {
                            Ok(m) => Ok(ResponseEventV::MessageStart { message: m }),
                            Err(_) => Err(FrameError::Malformed),
                        },
                        None => Err(FrameError::Malformed),
                    }
                } else if t == "content_block_start"@ {
                    match (sp_req_u32_field(ms, "index"@), sp_obj_get(ms, "content_block"@)) {
                        (Ok(ix), Some(bj)) => match sp_decode_content_block(bj) {
                            Ok(b) => Ok(ResponseEventV::ContentBlockStart {
                                index: ix,
                                content_block: b,
                            }),
                            Err(_) => Err(FrameError::Malformed),
                        },
                        _ => Err(FrameError::Malformed),
                    }
                } else if t == "ping"@ {
                    Ok(ResponseEventV::Ping)
                } else if t == "content_block_delta"@ {
                    match (sp_req_u32_field(ms, "index"@), sp_obj_get(ms, "delta"@)) {
                        (Ok(ix), Some(dj)) => match sp_decode_text_delta(dj) {
                            Ok(d) => Ok(ResponseEventV::ContentBlockDelta { index: ix, delta: d }),
                            Err(_) => Err(FrameError::Malformed),
                        },
                        _ => Err(FrameError::Malformed),
                    }
                } else if t == "content_block_stop"@ {
                    match sp_req_u32_field(ms, "index"@) {
                        Ok(ix) => Ok(ResponseEventV::ContentBlockStop { index: ix }),
                        Err(_) => Err(FrameError::Malformed),
                    }
                } else if t == "message_delta"@ {
                    match (sp_obj_get(ms, "delta"@), sp_obj_get(ms, "usage"@)) {
                        (Some(dj), Some(uj)) => match (sp_decode_message(dj), sp_decode_usage(uj)) {
                            (Ok(d), Ok(u)) => Ok(ResponseEventV::MessageDelta { delta: d, usage: u }),
                            _ => Err(FrameError::Malformed),
                        },
                        _ => Err(FrameError::Malformed),
                    }
                } else if t == "message_stop"@ {
                    Ok(ResponseEventV::MessageStop)
                } else {
                    Err(FrameError::UnknownVariant)
                }
            },
            Some(_) => Err(FrameError::Malformed),
            None => Err(FrameError::Malformed),
        },
        _ => Err(FrameError::Malformed),
    }
}

/// Reads an optional string field, mirroring [`sp_opt_str_field`].
fn opt_str_field(ms: &Vec<(String, Json)>, key: &str) -> (r: Result<Option<String>, ()>)
    ensures
        match r {
            Ok(o) => sp_opt_str_field(deep_view_members(ms@), key@) == Ok::<_, ()>(o.deep_view()),
            Err(_) => sp_opt_str_field(deep_view_members(ms@), key@) is Err,
        },
{
    match obj_get(ms, key) {
        None => Ok(None),
        Some(Json::Null) => Ok(None),
        Some(Json::Str(t)) => Ok(Some(t.clone())),
        Some(_) => Err(()),
    }
}

/// Reads an optional count field, mirroring [`sp_opt_u32_field`].
fn opt_u32_field(ms: &Vec<(String, Json)>, key: &str) -> (r: Result<Option<u32>, ()>)
    ensures
        r == sp_opt_u32_field(deep_view_members(ms@), key@),
{
    match obj_get(ms, key) {
        None => Ok(None),
        Some(Json::Null) => Ok(None),
        Some(Json::Num(lex)) => match lex_u32(lex.as_str()) {
            Some(n) => Ok(Some(n)),
            None => Err(()),
        },
        Some(_) => Err(()),
    }
}

/// Reads a required count field, mirroring [`sp_req_u32_field`].
fn req_u32_field(ms: &Vec<(String, Json)>, key: &str) -> (r: Result<u32, ()>)
    ensures
        r == sp_req_u32_field(deep_view_members(ms@), key@),
{
    match obj_get(ms, key) {
        Some(Json::Num(lex)) => match lex_u32(lex.as_str()) {
            Some(n) => Ok(n),
            None => Err(()),
        },
        _ => Err(()),
    }
}

/// Collects the strings of the first `upto` array elements, mirroring
/// [`sp_str_items`] over that prefix.
fn str_items_upto(items: &Vec<Json>, upto: usize) -> (r: Result<Vec<String>, ()>)
    requires
        upto <= items@.len(),
    ensures
        match r {
            Ok(ts) => sp_str_items(deep_view_elems(items@).subrange(0, upto as int)) == Some(
                ts.deep_view(),
            ),
            Err(_) => sp_str_items(deep_view_elems(items@).subrange(0, upto as int)) is None,
        },
    decreases upto,
{
    proof {
        lemma_deep_view_elems_props(items@);
    }
    let ghost dv = deep_view_elems(items@);
    if upto == 0 {
        let out: Vec<String> = Vec::new();
        proof {
            assert(dv.subrange(0, 0) =~= Seq::<JsonV>::empty());
            assert(out.deep_view() =~= Seq::<Seq<char>>::empty());
        }
        Ok(out)
    } else {
        proof {
            assert(dv.subrange(0, upto as int).drop_last() =~= dv.subrange(0, upto - 1));
            assert(dv.subrange(0, upto as int).last() == dv[upto - 1]);
        }
        match str_items_upto(items, upto - 1) {
            Err(e) => Err(e),
            Ok(ts) => {
                match &items[upto - 1] {
                    Json::Str(t) => {
                        let ghost ts_old = ts.deep_view();
                        let mut ts2 = ts;
                        ts2.push(t.clone());
                        proof {
                            assert(ts2.deep_view() =~= ts_old.push(t@));
                        }
                        Ok(ts2)
                    },
                    _ => Err(()),
                }
            },
        }
    }
}

/// Reads an optional string-array field, mirroring
/// [`sp_opt_str_arr_field`].
fn opt_str_arr_field(ms: &Vec<(String, Json)>, key: &str) -> (r: Result<Option<Vec<String>>, ()>)
    ensures
        match r {
            Ok(o) => sp_opt_str_arr_field(deep_view_members(ms@), key@) == Ok::<_, ()>(
                o.deep_view(),
            ),
            Err(_) => sp_opt_str_arr_field(deep_view_members(ms@), key@) is Err,
        },
{
    match obj_get(ms, key) {
        None => Ok(None),
        Some(Json::Null) => Ok(None),
        Some(Json::Arr(items)) => {
            proof {
                lemma_deep_view_elems_props(items@);
            }
            match str_items_upto(items, items.len()) {
                Ok(ts) => {
                    proof {
                        assert(deep_view_elems(items@).subrange(
                            0,
                            items@.len() as int,
                        ) =~= deep_view_elems(items@));
                    }
                    Ok(Some(ts))
                },
                Err(_) => {
                    proof {
                        assert(deep_view_elems(items@).subrange(
                            0,
                            items@.len() as int,
                        ) =~= deep_view_elems(items@));
                    }
                    Err(())
                },
            }
        },
        Some(_) => Err(()),
    }
}

/// Decodes token accounting, mirroring [`sp_decode_usage`].
fn decode_usage(j: &Json) -> (r: Result<Usage, ()>)
    ensures
        r == sp_decode_usage(j.deep_view()),
{
    match j {
        Json::Obj(ms) => {
            let a = match opt_u32_field(ms, "input_tokens") {
                Ok(x) => x,
                Err(_) => {
                    return Err(());
                },
            };
            let b = match opt_u32_field(ms, "output_tokens") {
                Ok(x) => x,
                Err(_) => {
                    return Err(());
                },
            };
            Ok(Usage { input_tokens: a, output_tokens: b })
        },
        _ => Err(()),
    }
}

/// Reads an optional usage field, mirroring [`sp_opt_usage_field`].
fn opt_usage_field(ms: &Vec<(String, Json)>, key: &str) -> (r: Result<Option<Usage>, ()>)
    ensures
        r == sp_opt_usage_field(deep_view_members(ms@), key@),
{
    match obj_get(ms, key) {
        None => Ok(None),
        Some(Json::Null) => Ok(None),
        Some(j) => match decode_usage(j) {
            Ok(u) => Ok(Some(u)),
            Err(_) => Err(()),
        },
    }
}

/// Decodes a message envelope, mirroring [`sp_decode_message`].
fn decode_message(j: &Json) -> (r: Result<ResponseMessage, ()>)
    ensures
        match r {
            Ok(m) => sp_decode_message(j.deep_view()) == Ok::<_, ()>(m.deep_view()),
            Err(_) => sp_decode_message(j.deep_view()) is Err,
        },
{
    match j {
        Json::Obj(ms) => {
            let message_type = match opt_str_field(ms, "type") {
                Ok(x) => x,
                Err(_) => {
                    return Err(());
                },
            };
            let id = match opt_str_field(ms, "id") {
                Ok(x) => x,
                Err(_) => {
                    return Err(());
                },
            };
            let role = match opt_str_field(ms, "role") {
                Ok(x) => x,
                Err(_) => {
                    return Err(());
                },
            };
            let content = match opt_str_arr_field(ms, "content") {
                Ok(x) => x,
                Err(_) => {
                    return Err(());
                },
            };
            let model = match opt_str_field(ms, "model") {
                Ok(x) => x,
                Err(_) => {
                    return Err(());
                },
            };
            let stop_reason = match opt_str_field(ms, "stop_reason") {
                Ok(x) => x,
                Err(_) => {
                    return Err(());
                },
            };
            let stop_sequence = match opt_str_field(ms, "stop_sequence") {
                Ok(x) => x,
                Err(_) => {
                    return Err(());
                },
            };
            let usage = match opt_usage_field(ms, "usage") {
                Ok(x) => x,
                Err(_) => {
                    return Err(());
                },
            };
            Ok(ResponseMessage {
                message_type,
                id,
                role,
                content,
                model,
                stop_reason,
                stop_sequence,
                usage,
            })
        },
        _ => Err(()),
    }
}

/// Decodes a content block, mirroring [`sp_decode_content_block`].
fn decode_content_block(j: &Json) -> (r: Result<ContentBlock, ()>)
    ensures
        match r {
            Ok(b) => sp_decode_content_block(j.deep_view()) == Ok::<_, ()>(b.deep_view()),
            Err(_) => sp_decode_content_block(j.deep_view()) is Err,
        },
{
    match j {
        Json::Obj(ms) => match obj_get(ms, "type") {
            Some(Json::Str(t)) => {
                if str_eq_str(t.as_str(), "text") {
                    match obj_get(ms, "text") {
                        Some(Json::Str(x)) => Ok(ContentBlock::Text { text: x.clone() }),
                        _ => Err(()),
                    }
                } else {
                    Err(())
                }
            },
            _ => Err(()),
        },
        _ => Err(()),
    }
}

/// Decodes a text delta, mirroring [`sp_decode_text_delta`].
fn decode_text_delta(j: &Json) -> (r: Result<TextDelta, ()>)
    ensures
        match r {
            Ok(d) => sp_decode_text_delta(j.deep_view()) == Ok::<_, ()>(d.deep_view()),
            Err(_) => sp_decode_text_delta(j.deep_view()) is Err,
        },
{
    match j {
        Json::Obj(ms) => match obj_get(ms, "type") {
            Some(Json::Str(t)) => {
                if str_eq_str(t.as_str(), "text_delta") {
                    match obj_get(ms, "text") {
                        Some(Json::Str(x)) => Ok(TextDelta::TextDelta { text: x.clone() }),
                        _ => Err(()),
                    }
                } else {
                    Err(())
                }
            },
            _ => Err(()),
        },
        _ => Err(()),
    }
}

/// Decodes one frame's event from its JSON tree, mirroring
/// [`sp_decode_event`]: the `type` discriminant selects the variant, an
/// unknown discriminant fails as such, and a wrong payload shape is
/// malformed.
pub fn decode_event(j: &Json) -> (r: Result<ResponseEvent, FrameError>)
    ensures
        match r {
            Ok(e) => sp_decode_event(j.deep_view()) == Ok::<_, FrameError>(e.deep_view()),
            Err(f) => sp_decode_event(j.deep_view()) == Err::<ResponseEventV, _>(f),
        },
{
    let ms = match j {
        Json::Obj(ms) => ms,
        _ => {
            return Err(FrameError::Malformed);
        },
    };
    let t = match obj_get(ms, "type") {
        Some(Json::Str(t)) => t,
        Some(_) => {
            return Err(FrameError::Malformed);
        },
        None => {
            return Err(FrameError::Malformed);
        },
    };
    if str_eq_str(t.as_str(), "message_start") {
        let mj = match obj_get(ms, "message") {
            Some(x) => x,
            None => {
                return Err(FrameError::Malformed);
            },
        };
        match decode_message(mj) {
            Ok(m) => Ok(ResponseEvent::MessageStart { message: m }),
            Err(_) => Err(FrameError::Malformed),
        }
    } else if str_eq_str(t.as_str(), "content_block_start") {
        let ix = match req_u32_field(ms, "index") {
            Ok(x) => x,
            Err(_) => {
                return Err(FrameError::Malformed);
            },
        };
        let bj = match obj_get(ms, "content_block") {
            Some(x) => x,
            None => {
                return Err(FrameError::Malformed);
            },
        };
        match decode_content_block(bj) {
            Ok(b) => Ok(ResponseEvent::ContentBlockStart { index: ix, content_block: b }),
            Err(_) => Err(FrameError::Malformed),
        }
    } else if str_eq_str(t.as_str(), "ping") {
        Ok(ResponseEvent::Ping)
    } else if str_eq_str(t.as_str(), "content_block_delta") {
        let ix = match req_u32_field(ms, "index") {
            Ok(x) => x,
            Err(_) => {
                return Err(FrameError::Malformed);
            },
        };
        let dj = match obj_get(ms, "delta") {
            Some(x) => x,
            None => {
                return Err(FrameError::Malformed);
            },
        };
        match decode_text_delta(dj) {
            Ok(d) => Ok(ResponseEvent::ContentBlockDelta { index: ix, delta: d }),
            Err(_) => Err(FrameError::Malformed),
        }
    } else if str_eq_str(t.as_str(), "content_block_stop") {
        match req_u32_field(ms, "index") {
            Ok(ix) => Ok(ResponseEvent::ContentBlockStop { index: ix }),
            Err(_) => Err(FrameError::Malformed),
        }
    } else if str_eq_str(t.as_str(), "message_delta") {
        let dj = match obj_get(ms, "delta") {
            Some(x) => x,
            None => {
                return Err(FrameError::Malformed);
            },
        };
        let uj = match obj_get(ms, "usage") {
            Some(x) => x,
            None => {
                return Err(FrameError::Malformed);
            },
        };
        let d = match decode_message(dj) {
            Ok(x) => x,
            Err(_) => {
                return Err(FrameError::Malformed);
            },
        };
        match decode_usage(uj) {
            Ok(u) => Ok(ResponseEvent::MessageDelta { delta: d, usage: u }),
            Err(_) => Err(FrameError::Malformed),
        }
    } else if str_eq_str(t.as_str(), "message_stop") {
        Ok(ResponseEvent::MessageStop)
    } else {
        Err(FrameError::UnknownVariant)
    }
}

} // verus!
