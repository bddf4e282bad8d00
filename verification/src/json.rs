//! A small JSON document model and its parser.

use vstd::prelude::*;

verus! {

broadcast use {
    vstd::std_specs::vec::axiom_vec_index_decreases,
    vstd::std_specs::vec::axiom_vec_decreases_to_view,
    vstd::seq::axiom_seq_index_decreases,
    vstd::seq::axiom_seq_subrange_decreases,
};

/// A parsed JSON value. Number text is kept verbatim so decimal values stay
/// exact; string content is stored decoded.
pub enum Json {
    Null,
    Bool(bool),
    Num(Vec<char>),
    Str(Vec<char>),
    Arr(Vec<Json>),
    Obj(Vec<(Vec<char>, Json)>),
}

/// The mathematical shape of a JSON value.
pub enum JsonV {
    Null,
    Bool(bool),
    Num(Seq<char>),
    Str(Seq<char>),
    Arr(Seq<JsonV>),
    Obj(Seq<(Seq<char>, JsonV)>),
}

/// The shape of one JSON value.
pub open spec fn json_view(j: Json) -> JsonV
    decreases j,
{
    match j {
        Json::Null => JsonV::Null,
        Json::Bool(b) => JsonV::Bool(b),
        Json::Num(v) => JsonV::Num(v@),
        Json::Str(v) => JsonV::Str(v@),
        Json::Arr(a) => JsonV::Arr(json_view_seq(a@)),
        Json::Obj(o) => JsonV::Obj(json_view_members(o@)),
    }
}

/// The shapes of the elements of a JSON array.
pub open spec fn json_view_seq(s: Seq<Json>) -> Seq<JsonV>
    decreases s,
{
    if s.len() == 0 {
        Seq::empty()
    } else {
        json_view_seq(s.drop_last()).push(json_view(s.last()))
    }
}

/// The shapes of the members of a JSON object, in order.
pub open spec fn json_view_members(s: Seq<(Vec<char>, Json)>) -> Seq<(Seq<char>, JsonV)>
    decreases s,
{
    if s.len() == 0 {
        Seq::empty()
    } else {
        json_view_members(s.drop_last()).push((s.last().0@, json_view(s.last().1)))
    }
}

impl View for Json {
    type V = JsonV;

    open spec fn view(&self) -> JsonV {
        json_view(*self)
    }
}

/// Element views line up with the elements.
pub proof fn lemma_json_view_seq(s: Seq<Json>)
    ensures
        json_view_seq(s).len() == s.len(),
        forall|i: int| 0 <= i < s.len() ==> json_view_seq(s)[i] == json_view(s[i]),
    decreases s,
{
    if s.len() > 0 {
        lemma_json_view_seq(s.drop_last());
    }
}

/// Member views line up with the members.
pub proof fn lemma_json_view_members(s: Seq<(Vec<char>, Json)>)
    ensures
        json_view_members(s).len() == s.len(),
        forall|i: int|
            0 <= i < s.len() ==> json_view_members(s)[i] == (s[i].0@, json_view(s[i].1)),
    decreases s,
{
    if s.len() > 0 {
        lemma_json_view_members(s.drop_last());
    }
}

pub open spec fn is_ws(c: char) -> bool {
    c == ' ' || c == '\t' || c == '\n' || c == '\r'
}

/// The first position at or after `i` that holds no whitespace.
pub open spec fn spec_skip_ws(s: Seq<char>, i: int) -> int
    decreases s.len() - i,
    when 0 <= i <= s.len()
{
    if i < s.len() && is_ws(s[i]) {
        spec_skip_ws(s, i + 1)
    } else {
        i
    }
}

/// The first position at or after `i` that holds no digit.
pub open spec fn spec_scan_digits(s: Seq<char>, i: int) -> int
    decreases s.len() - i,
    when 0 <= i <= s.len()
{
    if i < s.len() && crate::decimal::is_digit(s[i]) {
        spec_scan_digits(s, i + 1)
    } else {
        i
    }
}

/// The character an escape letter stands for, or `None` for an escape this
/// format does not accept (unicode escapes among them).
pub open spec fn spec_unescape(c: char) -> Option<char> {
    if c == '"' {
        Some('"')
    } else if c == '\\' {
        Some('\\')
    } else if c == '/' {
        Some('/')
    } else if c == 'b' {
        Some('\u{8}')
    } else if c == 'f' {
        Some('\u{c}')
    } else if c == 'n' {
        Some('\n')
    } else if c == 'r' {
        Some('\r')
    } else if c == 't' {
        Some('\t')
    } else {
        None
    }
}

/// The decoded content of a string body starting at `i` (after the opening
/// quote), together with the position after the closing quote.
pub open spec fn spec_parse_string_chars(s: Seq<char>, i: int) -> Option<(Seq<char>, int)>
    decreases s.len() - i,
    when 0 <= i <= s.len()
{
    if i < s.len() {
        let c = s[i];
        if c == '"' {
            Some((Seq::empty(), i + 1))
        } else if c == '\\' {
            if i + 1 < s.len() {
                match spec_unescape(s[i + 1]) {
                    Some(d) => match spec_parse_string_chars(s, i + 2) {
                        Some(rest) => Some((seq![d] + rest.0, rest.1)),
                        None => None,
                    },
                    None => None,
                }
            } else {
                None
            }
        } else if c as u32 >= 0x20 {
            match spec_parse_string_chars(s, i + 1) {
                Some(rest) => Some((seq![c] + rest.0, rest.1)),
                None => None,
            }
        } else {
            None
        }
    } else {
        None
    }
}

/// A quoted string at `i`: its decoded content and the position after it.
pub open spec fn spec_parse_string(s: Seq<char>, i: int) -> Option<(Seq<char>, int)> {
    if 0 <= i < s.len() && s[i] == '"' {
        spec_parse_string_chars(s, i + 1)
    } else {
        None
    }
}

/// A number token at `i`: its verbatim text and the position after it.
/// The shape is an optional minus, a digit run, an optional point with a
/// digit run, and an optional exponent with a digit run.
pub open spec fn spec_parse_number(s: Seq<char>, i: int) -> Option<(Seq<char>, int)> {
    if 0 <= i < s.len() {
        let i1 = if s[i] == '-' {
            i + 1
        } else {
            i
        };
        if i1 < s.len() && crate::decimal::is_digit(s[i1]) {
            let i2 = spec_scan_digits(s, i1);
            let i3 = if i2 < s.len() && s[i2] == '.' && i2 + 1 < s.len()
                && crate::decimal::is_digit(s[i2 + 1]) {
                spec_scan_digits(s, i2 + 1)
            } else {
                i2
            };
            let i4 = if i3 < s.len() && (s[i3] == 'e' || s[i3] == 'E') {
                let ie = if i3 + 1 < s.len() && (s[i3 + 1] == '+' || s[i3 + 1] == '-') {
                    i3 + 2
                } else {
                    i3 + 1
                };
                if ie < s.len() && crate::decimal::is_digit(s[ie]) {
                    spec_scan_digits(s, ie)
                } else {
                    i3
                }
            } else {
                i3
            };
            Some((s.subrange(i, i4), i4))
        } else {
            None
        }
    } else {
        None
    }
}

/// A JSON value at `i` (leading whitespace skipped): its shape and the
/// position after it. `fuel` bounds the recursion; one more than the text
/// length always suffices, since every nesting step consumes a character.
pub open spec fn spec_parse_value(s: Seq<char>, i0: int, fuel: nat) -> Option<(JsonV, int)>
    decreases fuel,
    when 0 <= i0 <= s.len()
{
    if fuel == 0 {
        None
    } else {
        let i = spec_skip_ws(s, i0);
        if i < s.len() {
            let c = s[i];
            if c == '{' {
                let i1 = spec_skip_ws(s, i + 1);
                if i1 < s.len() && s[i1] == '}' {
                    Some((JsonV::Obj(Seq::empty()), i1 + 1))
                } else {
                    match spec_parse_members(s, i + 1, (fuel - 1) as nat) {
                        Some(r) => Some((JsonV::Obj(r.0), r.1)),
                        None => None,
                    }
                }
            } else if c == '[' {
                let i1 = spec_skip_ws(s, i + 1);
                if i1 < s.len() && s[i1] == ']' {
                    Some((JsonV::Arr(Seq::empty()), i1 + 1))
                } else {
                    match spec_parse_elements(s, i + 1, (fuel - 1) as nat) {
                        Some(r) => Some((JsonV::Arr(r.0), r.1)),
                        None => None,
                    }
                }
            } else if c == '"' {
                match spec_parse_string(s, i) {
                    Some(r) => Some((JsonV::Str(r.0), r.1)),
                    None => None,
                }
            } else if c == 't' {
                if i + 4 <= s.len() && s.subrange(i, i + 4) =~= "true"@ {
                    Some((JsonV::Bool(true), i + 4))
                } else {
                    None
                }
            } else if c == 'f' {
                if i + 5 <= s.len() && s.subrange(i, i + 5) =~= "false"@ {
                    Some((JsonV::Bool(false), i + 5))
                } else {
                    None
                }
            } else if c == 'n' {
                if i + 4 <= s.len() && s.subrange(i, i + 4) =~= "null"@ {
                    Some((JsonV::Null, i + 4))
                } else {
                    None
                }
            } else if c == '-' || crate::decimal::is_digit(c) {
                match spec_parse_number(s, i) {
                    Some(r) => Some((JsonV::Num(r.0), r.1)),
                    None => None,
                }
            } else {
                None
            }
        } else {
            None
        }
    }
}

/// One or more `key: value` members from `i` up to and including the closing
/// brace: the members in order and the position after the brace.
pub open spec fn spec_parse_members(s: Seq<char>, i0: int, fuel: nat) -> Option<
    (Seq<(Seq<char>, JsonV)>, int),
>
    decreases fuel,
    when 0 <= i0 <= s.len()
{
    if fuel == 0 {
        None
    } else {
        let i1 = spec_skip_ws(s, i0);
        match spec_parse_string(s, i1) {
            Some(kr) => {
                let i2 = spec_skip_ws(s, kr.1);
                if i2 < s.len() && s[i2] == ':' {
                    match spec_parse_value(s, i2 + 1, (fuel - 1) as nat) {
                        Some(vr) => {
                            let i3 = spec_skip_ws(s, vr.1);
                            if i3 < s.len() && s[i3] == ',' {
                                match spec_parse_members(s, i3 + 1, (fuel - 1) as nat) {
                                    Some(rest) => Some(
                                        (seq![(kr.0, vr.0)] + rest.0, rest.1),
                                    ),
                                    None => None,
                                }
                            } else if i3 < s.len() && s[i3] == '}' {
                                Some((seq![(kr.0, vr.0)], i3 + 1))
                            } else {
                                None
                            }
                        },
                        None => None,
                    }
                } else {
                    None
                }
            },
            None => None,
        }
    }
}

/// One or more array elements from `i` up to and including the closing
/// bracket: the elements in order and the position after the bracket.
pub open spec fn spec_parse_elements(s: Seq<char>, i0: int, fuel: nat) -> Option<
    (Seq<JsonV>, int),
>
    decreases fuel,
    when 0 <= i0 <= s.len()
{
    if fuel == 0 {
        None
    } else {
        match spec_parse_value(s, i0, (fuel - 1) as nat) {
            Some(vr) => {
                let i1 = spec_skip_ws(s, vr.1);
                if i1 < s.len() && s[i1] == ',' {
                    match spec_parse_elements(s, i1 + 1, (fuel - 1) as nat) {
                        Some(rest) => Some((seq![vr.0] + rest.0, rest.1)),
                        None => None,
                    }
                } else if i1 < s.len() && s[i1] == ']' {
                    Some((seq![vr.0], i1 + 1))
                } else {
                    None
                }
            },
            None => None,
        }
    }
}

pub proof fn lemma_skip_ws_bounds(s: Seq<char>, i: int)
    requires
        0 <= i <= s.len(),
    ensures
        i <= spec_skip_ws(s, i) <= s.len(),
    decreases s.len() - i,
{
    if i < s.len() && is_ws(s[i]) {
        lemma_skip_ws_bounds(s, i + 1);
    }
}

pub proof fn lemma_scan_digits_bounds(s: Seq<char>, i: int)
    requires
        0 <= i <= s.len(),
    ensures
        i <= spec_scan_digits(s, i) <= s.len(),
    decreases s.len() - i,
{
    if i < s.len() && crate::decimal::is_digit(s[i]) {
        lemma_scan_digits_bounds(s, i + 1);
    }
}

pub proof fn lemma_parse_string_chars_bounds(s: Seq<char>, i: int)
    requires
        0 <= i <= s.len(),
    ensures
        spec_parse_string_chars(s, i) is Some ==> i < (spec_parse_string_chars(s, i)->0).1
            <= s.len(),
    decreases s.len() - i,
{
    if i < s.len() {
        let c = s[i];
        if c == '\\' && i + 1 < s.len() && spec_unescape(s[i + 1]) is Some {
            lemma_parse_string_chars_bounds(s, i + 2);
        } else if c != '"' && c as u32 >= 0x20 {
            lemma_parse_string_chars_bounds(s, i + 1);
        }
    }
}

pub proof fn lemma_parse_number_bounds(s: Seq<char>, i: int)
    requires
        0 <= i <= s.len(),
    ensures
        spec_parse_number(s, i) is Some ==> i < (spec_parse_number(s, i)->0).1 <= s.len(),
{
    if 0 <= i < s.len() {
        let i1 = if s[i] == '-' {
            i + 1
        } else {
            i
        };
        if i1 < s.len() && crate::decimal::is_digit(s[i1]) {
            lemma_scan_digits_bounds(s, i1 + 1);
            assert(spec_scan_digits(s, i1) == spec_scan_digits(s, i1 + 1));
            let i2 = spec_scan_digits(s, i1);
            if i2 < s.len() && s[i2] == '.' && i2 + 1 < s.len() && crate::decimal::is_digit(
                s[i2 + 1],
            ) {
                lemma_scan_digits_bounds(s, i2 + 1);
            }
            let i3 = if i2 < s.len() && s[i2] == '.' && i2 + 1 < s.len()
                && crate::decimal::is_digit(s[i2 + 1]) {
                spec_scan_digits(s, i2 + 1)
            } else {
                i2
            };
            if i3 < s.len() && (s[i3] == 'e' || s[i3] == 'E') {
                let ie = if i3 + 1 < s.len() && (s[i3 + 1] == '+' || s[i3 + 1] == '-') {
                    i3 + 2
                } else {
                    i3 + 1
                };
                if ie < s.len() && crate::decimal::is_digit(s[ie]) {
                    lemma_scan_digits_bounds(s, ie);
                }
            }
        }
    }
}

/// A parsed value, member list or element list always ends within the text.
pub proof fn lemma_parse_value_bounds(s: Seq<char>, i0: int, fuel: nat)
    requires
        0 <= i0 <= s.len(),
    ensures
        spec_parse_value(s, i0, fuel) is Some ==> i0 <= (spec_parse_value(s, i0, fuel)->0).1
            <= s.len(),
        spec_parse_members(s, i0, fuel) is Some ==> i0 <= (spec_parse_members(s, i0, fuel)->0).1
            <= s.len(),
        spec_parse_elements(s, i0, fuel) is Some ==> i0 <= (spec_parse_elements(s, i0, fuel)->0).1
            <= s.len(),
    decreases fuel,
{
    if fuel == 0 {
        return ;
    }
    lemma_skip_ws_bounds(s, i0);
    let i = spec_skip_ws(s, i0);
    // the value cases
    if i < s.len() {
        if s[i] == '{' {
            lemma_skip_ws_bounds(s, i + 1);
            lemma_parse_value_bounds(s, i + 1, (fuel - 1) as nat);
        } else if s[i] == '[' {
            lemma_skip_ws_bounds(s, i + 1);
            lemma_parse_value_bounds(s, i + 1, (fuel - 1) as nat);
        } else if s[i] == '"' {
            lemma_parse_string_chars_bounds(s, i + 1);
        } else if s[i] == '-' || crate::decimal::is_digit(s[i]) {
            lemma_parse_number_bounds(s, i);
        }
    }
    // the member-list case
    if spec_parse_string(s, i) is Some {
        let kr = spec_parse_string(s, i)->0;
        lemma_parse_string_chars_bounds(s, i + 1);
        lemma_skip_ws_bounds(s, kr.1);
        let i2 = spec_skip_ws(s, kr.1);
        if i2 < s.len() && s[i2] == ':' {
            lemma_parse_value_bounds(s, i2 + 1, (fuel - 1) as nat);
            if spec_parse_value(s, i2 + 1, (fuel - 1) as nat) is Some {
                let vr = spec_parse_value(s, i2 + 1, (fuel - 1) as nat)->0;
                lemma_skip_ws_bounds(s, vr.1);
                let i3 = spec_skip_ws(s, vr.1);
                if i3 < s.len() && s[i3] == ',' {
                    lemma_parse_value_bounds(s, i3 + 1, (fuel - 1) as nat);
                }
            }
        }
    }
    // the element-list case
    lemma_parse_value_bounds(s, i0, (fuel - 1) as nat);
    if spec_parse_value(s, i0, (fuel - 1) as nat) is Some {
        let vr = spec_parse_value(s, i0, (fuel - 1) as nat)->0;
        lemma_skip_ws_bounds(s, vr.1);
        let i1 = spec_skip_ws(s, vr.1);
        if i1 < s.len() && s[i1] == ',' {
            lemma_parse_value_bounds(s, i1 + 1, (fuel - 1) as nat);
        }
    }
}

/// What a whole JSON document means: one value with nothing but whitespace
/// around it.
pub open spec fn spec_parse_json(s: Seq<char>) -> Option<JsonV> {
    if s.len() > usize::MAX - 2 {
        None
    } else {
        match spec_parse_value(s, 0, (s.len() + 2) as nat) {
            Some(r) => {
                if spec_skip_ws(s, r.1) == s.len() {
                    Some(r.0)
                } else {
                    None
                }
            },
            None => None,
        }
    }
}

/// Putting a member in front shifts the member views by one.
pub proof fn lemma_json_view_members_insert_front(s: Seq<(Vec<char>, Json)>, x: (Vec<char>, Json))
    ensures
        json_view_members(s.insert(0, x)) =~= seq![(x.0@, json_view(x.1))] + json_view_members(s),
{
    lemma_json_view_members(s.insert(0, x));
    lemma_json_view_members(s);
}

/// Putting an element in front shifts the element views by one.
pub proof fn lemma_json_view_seq_insert_front(s: Seq<Json>, x: Json)
    ensures
        json_view_seq(s.insert(0, x)) =~= seq![json_view(x)] + json_view_seq(s),
{
    lemma_json_view_seq(s.insert(0, x));
    lemma_json_view_seq(s);
}

fn is_ws_exec(c: char) -> (r: bool)
    ensures
        r == is_ws(c),
{
    c == ' ' || c == '\t' || c == '\n' || c == '\r'
}

#[verifier::loop_isolation(false)]
fn skip_ws(v: &Vec<char>, i: usize) -> (r: usize)
    requires
        i <= v@.len(),
    ensures
        r == spec_skip_ws(v@, i as int),
        i <= r <= v@.len(),
{
    let mut j = i;
    while j < v.len() && is_ws_exec(v[j])
        invariant
            i <= j <= v@.len(),
            spec_skip_ws(v@, i as int) == spec_skip_ws(v@, j as int),
        decreases v@.len() - j,
    {
        j += 1;
    }
    j
}

#[verifier::loop_isolation(false)]
fn scan_digits(v: &Vec<char>, i: usize) -> (r: usize)
    requires
        i <= v@.len(),
    ensures
        r == spec_scan_digits(v@, i as int),
        i <= r <= v@.len(),
{
    let mut j = i;
    while j < v.len() && crate::decimal::is_digit_exec(v[j])
        invariant
            i <= j <= v@.len(),
            spec_scan_digits(v@, i as int) == spec_scan_digits(v@, j as int),
        decreases v@.len() - j,
    {
        j += 1;
    }
    j
}

fn unescape(c: char) -> (r: Option<char>)
    ensures
        r == spec_unescape(c),
{
    if c == '"' {
        Some('"')
    } else if c == '\\' {
        Some('\\')
    } else if c == '/' {
        Some('/')
    } else if c == 'b' {
        Some('\u{8}')
    } else if c == 'f' {
        Some('\u{c}')
    } else if c == 'n' {
        Some('\n')
    } else if c == 'r' {
        Some('\r')
    } else if c == 't' {
        Some('\t')
    } else {
        None
    }
}

fn parse_string_chars(v: &Vec<char>, i: usize) -> (r: Option<(Vec<char>, usize)>)
    requires
        i <= v@.len(),
    ensures
        match r {
            Some(p) => spec_parse_string_chars(v@, i as int) == Some((p.0@, p.1 as int)) && p.1
                <= v@.len(),
            None => spec_parse_string_chars(v@, i as int) is None,
        },
    decreases v@.len() - i,
{
    if i < v.len() {
        let c = v[i];
        if c == '"' {
            let out: Vec<char> = Vec::new();
            assert(out@ =~= Seq::<char>::empty());
            Some((out, i + 1))
        } else if c == '\\' {
            if i + 1 < v.len() {
                match unescape(v[i + 1]) {
                    Some(d) => match parse_string_chars(v, i + 2) {
                        Some(p) => {
                            let (mut content, next) = p;
                            let ghost rest = content@;
                            content.insert(0, d);
                            assert(content@ =~= seq![d] + rest);
                            Some((content, next))
                        },
                        None => None,
                    },
                    None => None,
                }
            } else {
                None
            }
        } else if (c as u32) >= 0x20 {
            match parse_string_chars(v, i + 1) {
                Some(p) => {
                    let (mut content, next) = p;
                    let ghost rest = content@;
                    content.insert(0, c);
                    assert(content@ =~= seq![c] + rest);
                    Some((content, next))
                },
                None => None,
            }
        } else {
            None
        }
    } else {
        None
    }
}

fn parse_string(v: &Vec<char>, i: usize) -> (r: Option<(Vec<char>, usize)>)
    requires
        i <= v@.len(),
    ensures
        match r {
            Some(p) => spec_parse_string(v@, i as int) == Some((p.0@, p.1 as int)) && p.1
                <= v@.len(),
            None => spec_parse_string(v@, i as int) is None,
        },
{
    if i < v.len() && v[i] == '"' {
        parse_string_chars(v, i + 1)
    } else {
        None
    }
}

#[verifier::loop_isolation(false)]
fn parse_number(v: &Vec<char>, i: usize) -> (r: Option<(Vec<char>, usize)>)
    requires
        i <= v@.len(),
    ensures
        match r {
            Some(p) => spec_parse_number(v@, i as int) == Some((p.0@, p.1 as int)) && p.1
                <= v@.len(),
            None => spec_parse_number(v@, i as int) is None,
        },
{
    if i < v.len() {
        let i1 = if v[i] == '-' {
            i + 1
        } else {
            i
        };
        if i1 < v.len() && crate::decimal::is_digit_exec(v[i1]) {
            let i2 = scan_digits(v, i1);
            let i3 = if i2 < v.len() && v[i2] == '.' && i2 + 1 < v.len()
                && crate::decimal::is_digit_exec(v[i2 + 1]) {
                scan_digits(v, i2 + 1)
            } else {
                i2
            };
            let i4 = if i3 < v.len() && (v[i3] == 'e' || v[i3] == 'E') {
                let ie = if i3 + 1 < v.len() && (v[i3 + 1] == '+' || v[i3 + 1] == '-') {
                    i3 + 2
                } else {
                    i3 + 1
                };
                if ie < v.len() && crate::decimal::is_digit_exec(v[ie]) {
                    scan_digits(v, ie)
                } else {
                    i3
                }
            } else {
                i3
            };
            let mut out: Vec<char> = Vec::new();
            let mut k = i;
            while k < i4
                invariant
                    i <= k <= i4 <= v@.len(),
                    out@ =~= v@.subrange(i as int, k as int),
                decreases i4 - k,
            {
                out.push(v[k]);
                k += 1;
                assert(out@ =~= v@.subrange(i as int, k as int));
            }
            Some((out, i4))
        } else {
            None
        }
    } else {
        None
    }
}

fn parse_value(v: &Vec<char>, i0: usize, fuel: usize) -> (r: Option<(Json, usize)>)
    requires
        i0 <= v@.len(),
    ensures
        match r {
            Some(p) => spec_parse_value(v@, i0 as int, fuel as nat) == Some(
                (json_view(p.0), p.1 as int),
            ) && p.1 <= v@.len(),
            None => spec_parse_value(v@, i0 as int, fuel as nat) is None,
        },
    decreases fuel,
{
    if fuel == 0 {
        return None;
    }
    let i = skip_ws(v, i0);
    if i >= v.len() {
        return None;
    }
    let c = v[i];
    if c == '{' {
        let i1 = skip_ws(v, i + 1);
        if i1 < v.len() && v[i1] == '}' {
            let members: Vec<(Vec<char>, Json)> = Vec::new();
            assert(json_view_members(members@) =~= Seq::<(Seq<char>, JsonV)>::empty());
            Some((Json::Obj(members), i1 + 1))
        } else {
            match parse_members(v, i + 1, fuel - 1) {
                Some(p) => Some((Json::Obj(p.0), p.1)),
                None => None,
            }
        }
    } else if c == '[' {
        let i1 = skip_ws(v, i + 1);
        if i1 < v.len() && v[i1] == ']' {
            let elements: Vec<Json> = Vec::new();
            assert(json_view_seq(elements@) =~= Seq::<JsonV>::empty());
            Some((Json::Arr(elements), i1 + 1))
        } else {
            match parse_elements(v, i + 1, fuel - 1) {
                Some(p) => Some((Json::Arr(p.0), p.1)),
                None => None,
            }
        }
    } else if c == '"' {
        match parse_string(v, i) {
            Some(p) => Some((Json::Str(p.0), p.1)),
            None => None,
        }
    } else if c == 't' {
        proof {
            reveal_strlit("true");
        }
        if v.len() - i >= 4 && v[i + 1] == 'r' && v[i + 2] == 'u' && v[i + 3] == 'e' {
            assert(v@.subrange(i as int, i as int + 4) =~= "true"@);
            Some((Json::Bool(true), i + 4))
        } else {
            proof {
                if i + 4 <= v@.len() {
                    assert(!(v@.subrange(i as int, i as int + 4) =~= "true"@)) by {
                        if v@.subrange(i as int, i as int + 4) =~= "true"@ {
                            assert(v@[i as int + 1] == "true"@[1]);
                            assert(v@[i as int + 2] == "true"@[2]);
                            assert(v@[i as int + 3] == "true"@[3]);
                        }
                    }
                }
            }
            None
        }
    } else if c == 'f' {
        proof {
            reveal_strlit("false");
        }
        if v.len() - i >= 5 && v[i + 1] == 'a' && v[i + 2] == 'l' && v[i + 3] == 's' && v[i + 4]
            == 'e' {
            assert(v@.subrange(i as int, i as int + 5) =~= "false"@);
            Some((Json::Bool(false), i + 5))
        } else {
            proof {
                if i + 5 <= v@.len() {
                    assert(!(v@.subrange(i as int, i as int + 5) =~= "false"@)) by {
                        if v@.subrange(i as int, i as int + 5) =~= "false"@ {
                            assert(v@[i as int + 1] == "false"@[1]);
                            assert(v@[i as int + 2] == "false"@[2]);
                            assert(v@[i as int + 3] == "false"@[3]);
                            assert(v@[i as int + 4] == "false"@[4]);
                        }
                    }
                }
            }
            None
        }
    } else if c == 'n' {
        proof {
            reveal_strlit("null");
        }
        if v.len() - i >= 4 && v[i + 1] == 'u' && v[i + 2] == 'l' && v[i + 3] == 'l' {
            assert(v@.subrange(i as int, i as int + 4) =~= "null"@);
            Some((Json::Null, i + 4))
        } else {
            proof {
                if i + 4 <= v@.len() {
                    assert(!(v@.subrange(i as int, i as int + 4) =~= "null"@)) by {
                        if v@.subrange(i as int, i as int + 4) =~= "null"@ {
                            assert(v@[i as int + 1] == "null"@[1]);
                            assert(v@[i as int + 2] == "null"@[2]);
                            assert(v@[i as int + 3] == "null"@[3]);
                        }
                    }
                }
            }
            None
        }
    } else if c == '-' || crate::decimal::is_digit_exec(c) {
        match parse_number(v, i) {
            Some(p) => Some((Json::Num(p.0), p.1)),
            None => None,
        }
    } else {
        None
    }
}

fn parse_members(v: &Vec<char>, i0: usize, fuel: usize) -> (r: Option<
    (Vec<(Vec<char>, Json)>, usize),
>)
    requires
        i0 <= v@.len(),
    ensures
        match r {
            Some(p) => spec_parse_members(v@, i0 as int, fuel as nat) == Some(
                (json_view_members(p.0@), p.1 as int),
            ) && p.1 <= v@.len(),
            None => spec_parse_members(v@, i0 as int, fuel as nat) is None,
        },
    decreases fuel,
{
    if fuel == 0 {
        return None;
    }
    let i1 = skip_ws(v, i0);
    let (key, ik) = match parse_string(v, i1) {
        Some(p) => p,
        None => {
            return None;
        },
    };
    let i2 = skip_ws(v, ik);
    if i2 >= v.len() {
        return None;
    }
    if v[i2] != ':' {
        return None;
    }
    let (val, iv) = match parse_value(v, i2 + 1, fuel - 1) {
        Some(p) => p,
        None => {
            return None;
        },
    };
    let i3 = skip_ws(v, iv);
    if i3 < v.len() && v[i3] == ',' {
        match parse_members(v, i3 + 1, fuel - 1) {
            Some(p) => {
                let (mut members, next) = p;
                let ghost rest = members@;
                let ghost keyv = key@;
                let ghost valv = json_view(val);
                members.insert(0, (key, val));
                proof {
                    lemma_json_view_members_insert_front(rest, (key, val));
                    assert(members@ == rest.insert(0, (key, val)));
                    assert(json_view_members(members@) =~= seq![(keyv, valv)]
                        + json_view_members(rest));
                }
                Some((members, next))
            },
            None => None,
        }
    } else if i3 < v.len() && v[i3] == '}' {
        let mut members: Vec<(Vec<char>, Json)> = Vec::new();
        let ghost keyv = key@;
        let ghost valv = json_view(val);
        members.push((key, val));
        proof {
            lemma_json_view_members(members@);
            assert(json_view_members(members@) =~= seq![(keyv, valv)]);
        }
        Some((members, i3 + 1))
    } else {
        None
    }
}

fn parse_elements(v: &Vec<char>, i0: usize, fuel: usize) -> (r: Option<(Vec<Json>, usize)>)
    requires
        i0 <= v@.len(),
    ensures
        match r {
            Some(p) => spec_parse_elements(v@, i0 as int, fuel as nat) == Some(
                (json_view_seq(p.0@), p.1 as int),
            ) && p.1 <= v@.len(),
            None => spec_parse_elements(v@, i0 as int, fuel as nat) is None,
        },
    decreases fuel,
{
    if fuel == 0 {
        return None;
    }
    let (val, iv) = match parse_value(v, i0, fuel - 1) {
        Some(p) => p,
        None => {
            return None;
        },
    };
    let i1 = skip_ws(v, iv);
    if i1 < v.len() && v[i1] == ',' {
        match parse_elements(v, i1 + 1, fuel - 1) {
            Some(p) => {
                let (mut elements, next) = p;
                let ghost rest = elements@;
                let ghost valv = json_view(val);
                elements.insert(0, val);
                proof {
                    lemma_json_view_seq_insert_front(rest, val);
                    assert(json_view_seq(elements@) =~= seq![valv] + json_view_seq(rest));
                }
                Some((elements, next))
            },
            None => None,
        }
    } else if i1 < v.len() && v[i1] == ']' {
        let mut elements: Vec<Json> = Vec::new();
        let ghost valv = json_view(val);
        elements.push(val);
        proof {
            lemma_json_view_seq(elements@);
            assert(json_view_seq(elements@) =~= seq![valv]);
        }
        Some((elements, i1 + 1))
    } else {
        None
    }
}

/// Parses a whole JSON document, exactly as [`spec_parse_json`] says.
pub fn parse_json_chars(v: &Vec<char>) -> (r: Option<Json>)
    ensures
        match r {
            Some(j) => spec_parse_json(v@) == Some(json_view(j)),
            None => spec_parse_json(v@) is None,
        },
{
    let fuel = match v.len().checked_add(2) {
        Some(f) => f,
        None => {
            return None;
        },
    };
    match parse_value(v, 0, fuel) {
        Some(p) => {
            let e = skip_ws(v, p.1);
            if e == v.len() {
                Some(p.0)
            } else {
                None
            }
        },
        None => None,
    }
}

} // verus!
