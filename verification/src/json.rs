//! A small JSON reader for the wire format: values are parsed from character
//! sequences into a tree, with the grammar written out as specification
//! functions and the executable parser proved to follow them exactly.
//!
//! Numbers are kept as their lexeme: the wire format only ever needs
//! unsigned integers, and the consumer decides what a lexeme denotes.

use vstd::prelude::*;

verus! {

use crate::strutil::chars_to_string;

/// A parsed JSON value. Numbers carry their unparsed lexeme.
#[derive(Debug, PartialEq)]
pub enum Json {
    Null,
    Bool(bool),
    Num(String),
    Str(String),
    Arr(Vec<Json>),
    Obj(Vec<(String, Json)>),
}

/// The mathematical value of a [`Json`] tree: every string is a character
/// sequence, every collection a sequence.
pub enum JsonV {
    Null,
    Bool(bool),
    Num(Seq<char>),
    Str(Seq<char>),
    Arr(Seq<JsonV>),
    Obj(Seq<(Seq<char>, JsonV)>),
}

impl DeepView for Json {
    type V = JsonV;

    open spec fn deep_view(&self) -> JsonV
        decreases self,
    {
        match self {
            Json::Null => JsonV::Null,
            Json::Bool(b) => JsonV::Bool(*b),
            Json::Num(s) => JsonV::Num(s@),
            Json::Str(s) => JsonV::Str(s@),
            Json::Arr(items) => JsonV::Arr(deep_view_elems(items@)),
            Json::Obj(members) => JsonV::Obj(deep_view_members(members@)),
        }
    }
}

/// The element-wise deep view of a sequence of JSON values.
pub open spec fn deep_view_elems(items: Seq<Json>) -> Seq<JsonV>
    decreases items,
{
    if items.len() == 0 {
        Seq::empty()
    } else {
        deep_view_elems(items.drop_last()) + seq![items.last().deep_view()]
    }
}

/// The member-wise deep view of a sequence of object members.
pub open spec fn deep_view_members(members: Seq<(String, Json)>) -> Seq<(Seq<char>, JsonV)>
    decreases members,
{
    if members.len() == 0 {
        Seq::empty()
    } else {
        deep_view_members(members.drop_last()) + seq![
            (members.last().0@, members.last().1.deep_view()),
        ]
    }
}

/// Appending one element to a vector appends its view to the element-wise
/// deep view.
pub proof fn lemma_deep_view_elems_push(items: Seq<Json>, x: Json)
    ensures
        deep_view_elems(items.push(x)) == deep_view_elems(items) + seq![x.deep_view()],
{
    assert(items.push(x).drop_last() =~= items);
    assert(items.push(x).last() == x);
}

/// Appending one member to a vector appends its view to the member-wise
/// deep view.
pub proof fn lemma_deep_view_members_push(members: Seq<(String, Json)>, x: (String, Json))
    ensures
        deep_view_members(members.push(x)) == deep_view_members(members) + seq![
            (x.0@, x.1.deep_view()),
        ],
{
    assert(members.push(x).drop_last() =~= members);
    assert(members.push(x).last() == x);
}

/// JSON whitespace.
pub open spec fn is_ws(c: char) -> bool {
    c == ' ' || c == '\t' || c == '\n' || c == '\r'
}

/// An ASCII decimal digit.
pub open spec fn is_digit(c: char) -> bool {
    '0' <= c && c <= '9'
}

/// The first index at or after `i` holding a non-whitespace character
/// (or the end of the input).
pub open spec fn sp_skip_ws(s: Seq<char>, i: int) -> int
    decreases s.len() - i,
{
    if 0 <= i < s.len() && is_ws(s[i]) {
        sp_skip_ws(s, i + 1)
    } else {
        i
    }
}

/// The first index at or after `i` holding a non-digit character.
pub open spec fn sp_digit_run(s: Seq<char>, i: int) -> int
    decreases s.len() - i,
{
    if 0 <= i < s.len() && is_digit(s[i]) {
        sp_digit_run(s, i + 1)
    } else {
        i
    }
}

/// Advances past whitespace.
pub fn skip_ws(v: &Vec<char>, i: usize) -> (r: usize)
    requires
        i <= v@.len(),
    ensures
        r == sp_skip_ws(v@, i as int),
        i <= r <= v@.len(),
{
    let mut j = i;
    while j < v.len() && (v[j] == ' ' || v[j] == '\t' || v[j] == '\n' || v[j] == '\r')
        invariant
            i <= j <= v@.len(),
            sp_skip_ws(v@, i as int) == sp_skip_ws(v@, j as int),
        decreases v@.len() - j,
    {
        j += 1;
    }
    j
}

/// Advances past decimal digits.
pub fn digit_run(v: &Vec<char>, i: usize) -> (r: usize)
    requires
        i <= v@.len(),
    ensures
        r == sp_digit_run(v@, i as int),
        i <= r <= v@.len(),
{
    let mut j = i;
    while j < v.len() && '0' <= v[j] && v[j] <= '9'
        invariant
            i <= j <= v@.len(),
            sp_digit_run(v@, i as int) == sp_digit_run(v@, j as int),
        decreases v@.len() - j,
    {
        j += 1;
    }
    j
}

/// The replacement character of a one-letter escape, if the letter is a
/// recognized escape; `\u` escapes are not part of the accepted grammar.
pub open spec fn sp_escape_char_of(e: char) -> Option<char> {
    if e == '"' {
        Some('"')
    } else if e == '\\' {
        Some('\\')
    } else if e == '/' {
        Some('/')
    } else if e == 'n' {
        Some('\n')
    } else if e == 't' {
        Some('\t')
    } else if e == 'r' {
        Some('\r')
    } else if e == 'b' {
        Some('\u{0008}')
    } else if e == 'f' {
        Some('\u{000C}')
    } else {
        None
    }
}

/// Reads the body of a string literal from `i` (just past the opening
/// quote) to its closing quote, accumulating the decoded characters;
/// fails on an unterminated literal, an unrecognized escape, or a raw
/// control character.
pub open spec fn sp_parse_str_chars(s: Seq<char>, i: int, acc: Seq<char>) -> Option<(Seq<char>, int)>
    decreases s.len() - i,
{
    if !(0 <= i < s.len()) {
        None
    } else {
        let c = s[i];
        if c == '"' {
            Some((acc, i + 1))
        } else if c == '\\' {
            if i + 1 < s.len() {
                match sp_escape_char_of(s[i + 1]) {
                    Some(d) => sp_parse_str_chars(s, i + 2, acc.push(d)),
                    None => None,
                }
            } else {
                None
            }
        } else if (c as u32) < 32 {
            None
        } else {
            sp_parse_str_chars(s, i + 1, acc.push(c))
        }
    }
}

/// A complete string literal starting at `i`.
pub open spec fn sp_parse_string(s: Seq<char>, i: int) -> Option<(Seq<char>, int)> {
    if 0 <= i < s.len() && s[i] == '"' {
        sp_parse_str_chars(s, i + 1, Seq::empty())
    } else {
        None
    }
}

/// Reads the body of a string literal, mirroring [`sp_parse_str_chars`].
fn parse_str_chars(v: &Vec<char>, i: usize, acc: Vec<char>) -> (r: Option<(Vec<char>, usize)>)
    requires
        i <= v@.len(),
    ensures
        match r {
            Some((cs, j)) => i <= j <= v@.len() && sp_parse_str_chars(v@, i as int, acc@)
                == Some((cs@, j as int)),
            None => sp_parse_str_chars(v@, i as int, acc@) is None,
        },
    decreases v@.len() - i,
{
    if i >= v.len() {
        return None;
    }
    let c = v[i];
    if c == '"' {
        Some((acc, i + 1))
    } else if c == '\\' {
        if i + 1 < v.len() {
            let e = v[i + 1];
            let d: char = if e == '"' {
                '"'
            } else if e == '\\' {
                '\\'
            } else if e == '/' {
                '/'
            } else if e == 'n' {
                '\n'
            } else if e == 't' {
                '\t'
            } else if e == 'r' {
                '\r'
            } else if e == 'b' {
                '\u{0008}'
            } else if e == 'f' {
                '\u{000C}'
            } else {
                return None;
            };
            assert(sp_escape_char_of(v@[i + 1]) == Some(d));
            let mut acc2 = acc;
            acc2.push(d);
            parse_str_chars(v, i + 2, acc2)
        } else {
            None
        }
    } else if (c as u32) < 32 {
        None
    } else {
        let mut acc2 = acc;
        acc2.push(c);
        parse_str_chars(v, i + 1, acc2)
    }
}

/// The end of the numeric lexeme starting at `i`, if the characters there
/// form one: an optional minus sign, an integer part without a superfluous
/// leading zero, an optional fraction and an optional exponent.
pub open spec fn sp_number_end(s: Seq<char>, i: int) -> Option<int> {
    if !(0 <= i < s.len()) {
        None
    } else {
        let j = if s[i] == '-' {
            i + 1
        } else {
            i
        };
        let d1 = sp_digit_run(s, j);
        if d1 == j || (s[j] == '0' && d1 > j + 1) {
            None
        } else {
            let d2 = if d1 < s.len() && s[d1] == '.' {
                if sp_digit_run(s, d1 + 1) > d1 + 1 {
                    Some(sp_digit_run(s, d1 + 1))
                } else {
                    None
                }
            } else {
                Some(d1)
            };
            match d2 {
                None => None,
                Some(d2) => {
                    if d2 < s.len() && (s[d2] == 'e' || s[d2] == 'E') {
                        let k = if d2 + 1 < s.len() && (s[d2 + 1] == '+' || s[d2 + 1] == '-') {
                            d2 + 2
                        } else {
                            d2 + 1
                        };
                        if sp_digit_run(s, k) == k {
                            None
                        } else {
                            Some(sp_digit_run(s, k))
                        }
                    } else {
                        Some(d2)
                    }
                },
            }
        }
    }
}

/// The numeric lexeme starting at `i` and the index just past it.
pub open spec fn sp_parse_number(s: Seq<char>, i: int) -> Option<(Seq<char>, int)> {
    match sp_number_end(s, i) {
        None => None,
        Some(e) => Some((s.subrange(i, e), e)),
    }
}

/// The characters of `v` between `from` and `to`.
pub fn subrange_chars(v: &Vec<char>, from: usize, to: usize) -> (r: Vec<char>)
    requires
        from <= to <= v@.len(),
    ensures
        r@ == v@.subrange(from as int, to as int),
{
    let mut out: Vec<char> = Vec::new();
    let mut i = from;
    while i < to
        invariant
            from <= i <= to <= v@.len(),
            out@ == v@.subrange(from as int, i as int),
        decreases to - i,
    {
        out.push(v[i]);
        proof {
            assert(out@ =~= v@.subrange(from as int, i + 1 as int));
        }
        i += 1;
    }
    out
}

/// A numeric lexeme, mirroring [`sp_parse_number`].
pub fn parse_number(v: &Vec<char>, i: usize) -> (r: Option<(String, usize)>)
    requires
        i <= v@.len(),
    ensures
        match r {
            Some((lex, j)) => i <= j <= v@.len() && sp_parse_number(v@, i as int)
                == Some((lex@, j as int)),
            None => sp_parse_number(v@, i as int) is None,
        },
{
    if i >= v.len() {
        return None;
    }
    let j = if v[i] == '-' {
        i + 1
    } else {
        i
    };
    if j > v.len() {
        assert(sp_digit_run(v@, j as int) == j);
        return None;
    }
    let d1 = digit_run(v, j);
    if d1 == j {
        return None;
    }
    if v[j] == '0' && d1 > j + 1 {
        return None;
    }
    let d2: usize = if d1 < v.len() && v[d1] == '.' {
        let f = digit_run(v, d1 + 1);
        if f > d1 + 1 {
            f
        } else {
            return None;
        }
    } else {
        d1
    };
    let e: usize = if d2 < v.len() && (v[d2] == 'e' || v[d2] == 'E') {
        let k = if d2 + 1 < v.len() && (v[d2 + 1] == '+' || v[d2 + 1] == '-') {
            d2 + 2
        } else {
            d2 + 1
        };
        if k > v.len() {
            assert(sp_digit_run(v@, k as int) == k);
            return None;
        }
        let g = digit_run(v, k);
        if g == k {
            return None;
        }
        g
    } else {
        d2
    };
    let lex = subrange_chars(v, i, e);
    Some((chars_to_string(&lex), e))
}

/// A complete string literal, mirroring [`sp_parse_string`].
pub fn parse_string(v: &Vec<char>, i: usize) -> (r: Option<(String, usize)>)
    requires
        i <= v@.len(),
    ensures
        match r {
            Some((cs, j)) => i <= j <= v@.len() && sp_parse_string(v@, i as int)
                == Some((cs@, j as int)),
            None => sp_parse_string(v@, i as int) is None,
        },
{
    if i < v.len() && v[i] == '"' {
        match parse_str_chars(v, i + 1, Vec::new()) {
            Some((cs, j)) => Some((chars_to_string(&cs), j)),
            None => None,
        }
    } else {
        None
    }
}

/// A JSON value starting at `i` (leading whitespace already skipped),
/// returning its tree and the index just past it. The fuel bounds the
/// recursion; [`spec_parse_json`] supplies more than any input can use.
pub open spec fn sp_parse_value(s: Seq<char>, i: int, fuel: nat) -> Option<(JsonV, int)>
    decreases fuel,
{
    if fuel == 0 || !(0 <= i < s.len()) {
        None
    } else {
        let c = s[i];
        if c == 'n' {
            if i + 4 <= s.len() && s[i + 1] == 'u' && s[i + 2] == 'l' && s[i + 3] == 'l' {
                Some((JsonV::Null, i + 4))
            } else {
                None
            }
        } else if c == 't' {
            if i + 4 <= s.len() && s[i + 1] == 'r' && s[i + 2] == 'u' && s[i + 3] == 'e' {
                Some((JsonV::Bool(true), i + 4))
            } else {
                None
            }
        } else if c == 'f' {
            if i + 5 <= s.len() && s[i + 1] == 'a' && s[i + 2] == 'l' && s[i + 3] == 's' && s[i + 4]
                == 'e' {
                Some((JsonV::Bool(false), i + 5))
            } else {
                None
            }
        } else if c == '"' {
            match sp_parse_string(s, i) {
                Some((cs, j)) => Some((JsonV::Str(cs), j)),
                None => None,
            }
        } else if c == '-' || is_digit(c) {
            match sp_parse_number(s, i) {
                Some((lex, j)) => Some((JsonV::Num(lex), j)),
                None => None,
            }
        } else if c == '[' {
            let k = sp_skip_ws(s, i + 1);
            if k < s.len() && s[k] == ']' {
                Some((JsonV::Arr(Seq::empty()), k + 1))
            } else {
                sp_parse_arr_items(s, k, Seq::empty(), (fuel - 1) as nat)
            }
        } else if c == '{' {
            let k = sp_skip_ws(s, i + 1);
            if k < s.len() && s[k] == '}' {
                Some((JsonV::Obj(Seq::empty()), k + 1))
            } else {
                sp_parse_obj_members(s, k, Seq::empty(), (fuel - 1) as nat)
            }
        } else {
            None
        }
    }
}

/// The elements of an array from the first element on, accumulating into
/// `acc`, up to and including the closing bracket.
pub open spec fn sp_parse_arr_items(s: Seq<char>, i: int, acc: Seq<JsonV>, fuel: nat) -> Option<
    (JsonV, int),
>
    decreases fuel,
{
    if fuel == 0 {
        None
    } else {
        match sp_parse_value(s, i, (fuel - 1) as nat) {
            None => None,
            Some((x, j)) => {
                let k = sp_skip_ws(s, j);
                if k < s.len() && s[k] == ',' {
                    sp_parse_arr_items(s, sp_skip_ws(s, k + 1), acc.push(x), (fuel - 1) as nat)
                } else if k < s.len() && s[k] == ']' {
                    Some((JsonV::Arr(acc.push(x)), k + 1))
                } else {
                    None
                }
            },
        }
    }
}

/// The members of an object from the first key on, accumulating into
/// `acc`, up to and including the closing brace.
pub open spec fn sp_parse_obj_members(
    s: Seq<char>,
    i: int,
    acc: Seq<(Seq<char>, JsonV)>,
    fuel: nat,
) -> Option<(JsonV, int)>
    decreases fuel,
{
    if fuel == 0 {
        None
    } else {
        match sp_parse_string(s, i) {
            None => None,
            Some((key, j)) => {
                let k = sp_skip_ws(s, j);
                if k < s.len() && s[k] == ':' {
                    match sp_parse_value(s, sp_skip_ws(s, k + 1), (fuel - 1) as nat) {
                        None => None,
                        Some((x, m)) => {
                            let p = sp_skip_ws(s, m);
                            if p < s.len() && s[p] == ',' {
                                sp_parse_obj_members(
                                    s,
                                    sp_skip_ws(s, p + 1),
                                    acc.push((key, x)),
                                    (fuel - 1) as nat,
                                )
                            } else if p < s.len() && s[p] == '}' {
                                Some((JsonV::Obj(acc.push((key, x))), p + 1))
                            } else {
                                None
                            }
                        },
                    }
                } else {
                    None
                }
            },
        }
    }
}

/// The JSON document `s` denotes, if it is one value surrounded by nothing
/// but whitespace.
pub open spec fn spec_parse_json(s: Seq<char>) -> Option<JsonV> {
    match sp_parse_value(s, sp_skip_ws(s, 0), (2 * s.len() + 4) as nat) {
        Some((x, j)) => if sp_skip_ws(s, j) == s.len() {
            Some(x)
        } else {
            None
        },
        None => None,
    }
}

/// A JSON value, mirroring [`sp_parse_value`].
pub fn parse_value(v: &Vec<char>, i: usize, fuel: u128) -> (r: Option<(Json, usize)>)
    requires
        i <= v@.len(),
    ensures
        match r {
            Some((x, j)) => i <= j <= v@.len() && sp_parse_value(v@, i as int, fuel as nat)
                == Some((x.deep_view(), j as int)),
            None => sp_parse_value(v@, i as int, fuel as nat) is None,
        },
    decreases fuel,
{
    if fuel == 0 || i >= v.len() {
        return None;
    }
    let c = v[i];
    if c == 'n' {
        if v.len() - i >= 4 && v[i + 1] == 'u' && v[i + 2] == 'l' && v[i + 3] == 'l' {
            Some((Json::Null, i + 4))
        } else {
            None
        }
    } else if c == 't' {
        if v.len() - i >= 4 && v[i + 1] == 'r' && v[i + 2] == 'u' && v[i + 3] == 'e' {
            Some((Json::Bool(true), i + 4))
        } else {
            None
        }
    } else if c == 'f' {
        if v.len() - i >= 5 && v[i + 1] == 'a' && v[i + 2] == 'l' && v[i + 3] == 's' && v[i + 4]
            == 'e' {
            Some((Json::Bool(false), i + 5))
        } else {
            None
        }
    } else if c == '"' {
        match parse_string(v, i) {
            Some((cs, j)) => Some((Json::Str(cs), j)),
            None => None,
        }
    } else if c == '-' || ('0' <= c && c <= '9') {
        match parse_number(v, i) {
            Some((lex, j)) => Some((Json::Num(lex), j)),
            None => None,
        }
    } else if c == '[' {
        let k = skip_ws(v, i + 1);
        proof {
            assert(deep_view_elems(Seq::<Json>::empty()) =~= Seq::<JsonV>::empty());
        }
        if k < v.len() && v[k] == ']' {
            let items: Vec<Json> = Vec::new();
            Some((Json::Arr(items), k + 1))
        } else {
            parse_arr_items(v, k, Vec::new(), fuel - 1)
        }
    } else if c == '{' {
        let k = skip_ws(v, i + 1);
        proof {
            assert(deep_view_members(Seq::<(String, Json)>::empty()) =~= Seq::<
                (Seq<char>, JsonV),
            >::empty());
        }
        if k < v.len() && v[k] == '}' {
            let members: Vec<(String, Json)> = Vec::new();
            Some((Json::Obj(members), k + 1))
        } else {
            parse_obj_members(v, k, Vec::new(), fuel - 1)
        }
    } else {
        None
    }
}

/// Array elements, mirroring [`sp_parse_arr_items`].
fn parse_arr_items(v: &Vec<char>, i: usize, acc: Vec<Json>, fuel: u128) -> (r: Option<(Json, usize)>)
    requires
        i <= v@.len(),
    ensures
        match r {
            Some((x, j)) => i <= j <= v@.len() && sp_parse_arr_items(
                v@,
                i as int,
                deep_view_elems(acc@),
                fuel as nat,
            ) == Some((x.deep_view(), j as int)),
            None => sp_parse_arr_items(v@, i as int, deep_view_elems(acc@), fuel as nat) is None,
        },
    decreases fuel,
{
    if fuel == 0 {
        return None;
    }
    match parse_value(v, i, fuel - 1) {
        None => None,
        Some((x, j)) => {
            let k = skip_ws(v, j);
            if k < v.len() && v[k] == ',' {
                let k2 = skip_ws(v, k + 1);
                let ghost acc_old = acc@;
                let ghost xg = x;
                let mut acc2 = acc;
                acc2.push(x);
                proof {
                    lemma_deep_view_elems_push(acc_old, xg);
                    assert(deep_view_elems(acc_old) + seq![xg.deep_view()] =~= deep_view_elems(
                        acc_old,
                    ).push(xg.deep_view()));
                }
                parse_arr_items(v, k2, acc2, fuel - 1)
            } else if k < v.len() && v[k] == ']' {
                let ghost acc_old = acc@;
                let ghost xg = x;
                let mut acc2 = acc;
                acc2.push(x);
                proof {
                    lemma_deep_view_elems_push(acc_old, xg);
                    assert(deep_view_elems(acc_old) + seq![xg.deep_view()] =~= deep_view_elems(
                        acc_old,
                    ).push(xg.deep_view()));
                }
                Some((Json::Arr(acc2), k + 1))
            } else {
                None
            }
        },
    }
}

/// Object members, mirroring [`sp_parse_obj_members`].
fn parse_obj_members(v: &Vec<char>, i: usize, acc: Vec<(String, Json)>, fuel: u128) -> (r: Option<
    (Json, usize),
>)
    requires
        i <= v@.len(),
    ensures
        match r {
            Some((x, j)) => i <= j <= v@.len() && sp_parse_obj_members(
                v@,
                i as int,
                deep_view_members(acc@),
                fuel as nat,
            ) == Some((x.deep_view(), j as int)),
            None => sp_parse_obj_members(v@, i as int, deep_view_members(acc@), fuel as nat)
                is None,
        },
    decreases fuel,
{
    if fuel == 0 {
        return None;
    }
    match parse_string(v, i) {
        None => None,
        Some((key, j)) => {
            let k = skip_ws(v, j);
            if k < v.len() && v[k] == ':' {
                let k2 = skip_ws(v, k + 1);
                match parse_value(v, k2, fuel - 1) {
                    None => None,
                    Some((x, m)) => {
                        let p = skip_ws(v, m);
                        if p < v.len() && v[p] == ',' {
                            let p2 = skip_ws(v, p + 1);
                            let ghost acc_old = acc@;
                            let ghost mg = (key@, x.deep_view());
                            let mut acc2 = acc;
                            acc2.push((key, x));
                            proof {
                                lemma_deep_view_members_push(acc_old, acc2@.last());
                                assert(deep_view_members(acc_old) + seq![mg] =~= deep_view_members(
                                    acc_old,
                                ).push(mg));
                            }
                            parse_obj_members(v, p2, acc2, fuel - 1)
                        } else if p < v.len() && v[p] == '}' {
                            let ghost acc_old = acc@;
                            let ghost mg = (key@, x.deep_view());
                            let mut acc2 = acc;
                            acc2.push((key, x));
                            proof {
                                lemma_deep_view_members_push(acc_old, acc2@.last());
                                assert(deep_view_members(acc_old) + seq![mg] =~= deep_view_members(
                                    acc_old,
                                ).push(mg));
                            }
                            Some((Json::Obj(acc2), p + 1))
                        } else {
                            None
                        }
                    },
                }
            } else {
                None
            }
        },
    }
}

/// Parses one complete JSON document, mirroring [`spec_parse_json`].
pub fn parse_json(v: &Vec<char>) -> (r: Option<Json>)
    ensures
        match r {
            Some(x) => spec_parse_json(v@) == Some(x.deep_view()),
            None => spec_parse_json(v@) is None,
        },
{
    let n = v.len();
    let start = skip_ws(v, 0);
    let fuel: u128 = 2 * (n as u128) + 4;
    match parse_value(v, start, fuel) {
        None => None,
        Some((x, j)) => {
            let e = skip_ws(v, j);
            if e == n {
                Some(x)
            } else {
                None
            }
        },
    }
}

} // verus!
