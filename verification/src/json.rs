//! A small JSON reader for the exchange's response bodies.
//!
//! The grammar is the JSON the exchange sends for the operations covered
//! here: objects, arrays, strings with the single-character escapes,
//! booleans, null, and decimal numbers without exponents (a number is kept
//! exactly, as a fixed-point `Decimal`). `\u` escapes and exponent notation
//! are rejected; raw UTF-8 bytes inside strings pass through unchanged.
//!
//! The executable parser is proved to return exactly what the specification
//! grammar (`spec_parse_json`) denotes.

use vstd::prelude::*;
use crate::encoding::Decimal;

verus! {

broadcast use vstd::seq::group_seq_axioms, vstd::std_specs::vec::group_vec_axioms;

/// A parsed JSON value.
pub enum Json {
    Null,
    Bool(bool),
    Num(Decimal),
    Str(Vec<u8>),
    Arr(Vec<Json>),
    Obj(Vec<(Vec<u8>, Json)>),
}

/// The mathematical shape of a JSON value.
pub enum JsonVal {
    Null,
    Bool(bool),
    Num(Decimal),
    Str(Seq<u8>),
    Arr(Seq<JsonVal>),
    Obj(Seq<(Seq<u8>, JsonVal)>),
}

impl Json {
    /// The mathematical value this node represents.
    pub open spec fn deep(self) -> JsonVal
        decreases self, 1int,
    {
        match self {
            Json::Null => JsonVal::Null,
            Json::Bool(b) => JsonVal::Bool(b),
            Json::Num(d) => JsonVal::Num(d),
            Json::Str(s) => JsonVal::Str(s@),
            Json::Arr(items) => JsonVal::Arr(deep_arr(items@)),
            Json::Obj(fields) => JsonVal::Obj(deep_obj(fields@)),
        }
    }
}

/// The mathematical values of a sequence of nodes.
pub open spec fn deep_arr(items: Seq<Json>) -> Seq<JsonVal>
    decreases items, 0int,
{
    Seq::new(
        items.len(),
        |i: int|
            if 0 <= i < items.len() {
                items[i].deep()
            } else {
                JsonVal::Null
            },
    )
}

/// The mathematical values of a sequence of fields.
pub open spec fn deep_obj(fields: Seq<(Vec<u8>, Json)>) -> Seq<(Seq<u8>, JsonVal)>
    decreases fields, 0int,
{
    Seq::new(
        fields.len(),
        |i: int|
            if 0 <= i < fields.len() {
                (fields[i].0@, fields[i].1.deep())
            } else {
                (Seq::empty(), JsonVal::Null)
            },
    )
}

/// JSON whitespace.
pub open spec fn is_ws(b: u8) -> bool {
    b == 0x20 || b == 0x09 || b == 0x0a || b == 0x0d
}

/// An ASCII decimal digit.
pub open spec fn is_digit(b: u8) -> bool {
    0x30 <= b <= 0x39
}

/// Only whitespace from `i` to the end.
pub open spec fn all_ws_from(s: Seq<u8>, i: int) -> bool
    decreases s.len() - i when 0 <= i <= s.len()
{
    if i >= s.len() {
        true
    } else {
        is_ws(s[i]) && all_ws_from(s, i + 1)
    }
}

/// Consume decimal digits from `i`, extending the accumulated mantissa;
/// `None` marks a mantissa too large for 64 bits. Returns the accumulator
/// and the first index past the digits.
pub open spec fn spec_digits(s: Seq<u8>, i: int, acc: Option<u64>) -> (Option<u64>, int)
    decreases s.len() - i when 0 <= i <= s.len()
{
    if i < s.len() && is_digit(s[i]) {
        let d = (s[i] - 0x30) as u64;
        let acc2 = match acc {
            Option::None => Option::<u64>::None,
            Option::Some(a) => if a <= (0xffff_ffff_ffff_ffffu64 - d) / 10 {
                Option::Some((a * 10 + d) as u64)
            } else {
                Option::None
            },
        };
        spec_digits(s, i + 1, acc2)
    } else {
        (acc, i)
    }
}

/// A JSON number starting at `i`: optional minus, digits, optionally a
/// point and fraction digits. The scale is the number of fraction digits.
pub open spec fn spec_number(s: Seq<u8>, i: int) -> Option<(Decimal, int)>
    recommends
        0 <= i <= s.len(),
{
    let (neg, j) = if i < s.len() && s[i] == 0x2d {
        (true, i + 1)
    } else {
        (false, i)
    };
    let (acc, j2) = spec_digits(s, j, Option::Some(0u64));
    if j2 == j {
        Option::None
    } else {
        match acc {
            Option::None => Option::None,
            Option::Some(m) => if j2 < s.len() && s[j2] == 0x2e {
                let (acc2, j3) = spec_digits(s, j2 + 1, Option::Some(m));
                if j3 == j2 + 1 || j3 - (j2 + 1) > (0xffff_ffffu64 as int) {
                    Option::None
                } else {
                    match acc2 {
                        Option::None => Option::None,
                        Option::Some(m2) => Option::Some(
                            (Decimal { neg, mantissa: m2, scale: (j3 - (j2 + 1)) as u32 }, j3),
                        ),
                    }
                }
            } else {
                Option::Some((Decimal { neg, mantissa: m, scale: 0 }, j2))
            },
        }
    }
}

/// The rest of a JSON string after the opening quote: content bytes
/// accumulate in `acc`; the result is the content and the index just past
/// the closing quote. Escapes `\" \\ \/ \b \f \n \r \t` are decoded;
/// `\u` and raw control bytes are rejected.
pub open spec fn spec_string_rest(s: Seq<u8>, i: int, acc: Seq<u8>) -> Option<(Seq<u8>, int)>
    decreases s.len() - i when 0 <= i <= s.len()
{
    if i >= s.len() {
        Option::None
    } else if s[i] == 0x22 {
        Option::Some((acc, i + 1))
    } else if s[i] == 0x5c {
        if i + 1 < s.len() {
            let e = s[i + 1];
            if e == 0x22 || e == 0x5c || e == 0x2f {
                spec_string_rest(s, i + 2, acc.push(e))
            } else if e == 0x62 {
                spec_string_rest(s, i + 2, acc.push(0x08))
            } else if e == 0x66 {
                spec_string_rest(s, i + 2, acc.push(0x0c))
            } else if e == 0x6e {
                spec_string_rest(s, i + 2, acc.push(0x0a))
            } else if e == 0x72 {
                spec_string_rest(s, i + 2, acc.push(0x0d))
            } else if e == 0x74 {
                spec_string_rest(s, i + 2, acc.push(0x09))
            } else {
                Option::None
            }
        } else {
            Option::None
        }
    } else if s[i] < 0x20 {
        Option::None
    } else {
        spec_string_rest(s, i + 1, acc.push(s[i]))
    }
}

/// A JSON value starting at `i`, leading whitespace allowed.
pub open spec fn spec_value(s: Seq<u8>, i: int) -> Option<(JsonVal, int)>
    decreases s.len() - i, 0int when 0 <= i <= s.len()
{
    if i >= s.len() {
        Option::None
    } else if is_ws(s[i]) {
        spec_value(s, i + 1)
    } else if s[i] == 0x7b {  // {
        match spec_obj_fields(s, i + 1, true) {
            Option::Some((fields, j)) => Option::Some((JsonVal::Obj(fields), j)),
            Option::None => Option::None,
        }
    } else if s[i] == 0x5b {  // [
        match spec_arr_items(s, i + 1, true) {
            Option::Some((items, j)) => Option::Some((JsonVal::Arr(items), j)),
            Option::None => Option::None,
        }
    } else if s[i] == 0x22 {  // "
        match spec_string_rest(s, i + 1, Seq::empty()) {
            Option::Some((content, j)) => Option::Some((JsonVal::Str(content), j)),
            Option::None => Option::None,
        }
    } else if s[i] == 0x74 {  // t
        if i + 3 < s.len() && s[i + 1] == 0x72 && s[i + 2] == 0x75 && s[i + 3] == 0x65 {
            Option::Some((JsonVal::Bool(true), i + 4))
        } else {
            Option::None
        }
    } else if s[i] == 0x66 {  // f
        if i + 4 < s.len() && s[i + 1] == 0x61 && s[i + 2] == 0x6c && s[i + 3] == 0x73 && s[i + 4]
            == 0x65 {
            Option::Some((JsonVal::Bool(false), i + 5))
        } else {
            Option::None
        }
    } else if s[i] == 0x6e {  // n
        if i + 3 < s.len() && s[i + 1] == 0x75 && s[i + 2] == 0x6c && s[i + 3] == 0x6c {
            Option::Some((JsonVal::Null, i + 4))
        } else {
            Option::None
        }
    } else if s[i] == 0x2d || is_digit(s[i]) {
        match spec_number(s, i) {
            Option::Some((d, j)) => if j <= i {
                Option::None
            } else {
                Option::Some((JsonVal::Num(d), j))
            },
            Option::None => Option::None,
        }
    } else {
        Option::None
    }
}

/// Array items from `i` (just past `[` or `,`). A closing bracket is
/// accepted only directly after `[`, when `allow_end` holds.
pub open spec fn spec_arr_items(s: Seq<u8>, i: int, allow_end: bool) -> Option<
    (Seq<JsonVal>, int),
>
    decreases s.len() - i, 1int when 0 <= i <= s.len()
{
    if i >= s.len() {
        Option::None
    } else if is_ws(s[i]) {
        spec_arr_items(s, i + 1, allow_end)
    } else if s[i] == 0x5d && allow_end {  // ]
        Option::Some((Seq::empty(), i + 1))
    } else {
        match spec_value(s, i) {
            Option::None => Option::None,
            Option::Some((v, j)) => if j <= i || j > s.len() {
                Option::None
            } else {
                match spec_arr_rest(s, j) {
                    Option::None => Option::None,
                    Option::Some((rest, j2)) => Option::Some((seq![v] + rest, j2)),
                }
            },
        }
    }
}

/// After one array item: either `]` ends the array or `,` starts the next.
pub open spec fn spec_arr_rest(s: Seq<u8>, i: int) -> Option<(Seq<JsonVal>, int)>
    decreases s.len() - i, 2int when 0 <= i <= s.len()
{
    if i >= s.len() {
        Option::None
    } else if is_ws(s[i]) {
        spec_arr_rest(s, i + 1)
    } else if s[i] == 0x5d {  // ]
        Option::Some((Seq::empty(), i + 1))
    } else if s[i] == 0x2c {  // ,
        spec_arr_items(s, i + 1, false)
    } else {
        Option::None
    }
}

/// Object fields from `i` (just past `{` or `,`). A closing brace is
/// accepted only directly after `{`, when `allow_end` holds.
pub open spec fn spec_obj_fields(s: Seq<u8>, i: int, allow_end: bool) -> Option<
    (Seq<(Seq<u8>, JsonVal)>, int),
>
    decreases s.len() - i, 1int when 0 <= i <= s.len()
{
    if i >= s.len() {
        Option::None
    } else if is_ws(s[i]) {
        spec_obj_fields(s, i + 1, allow_end)
    } else if s[i] == 0x7d && allow_end {  // }
        Option::Some((Seq::empty(), i + 1))
    } else if s[i] == 0x22 {  // "
        match spec_string_rest(s, i + 1, Seq::empty()) {
            Option::None => Option::None,
            Option::Some((key, j)) => if j <= i || j > s.len() {
                Option::None
            } else {
                spec_obj_colon(s, j, key)
            },
        }
    } else {
        Option::None
    }
}

/// After an object key: `:`, a value, then `}` or `,` and more fields.
pub open spec fn spec_obj_colon(s: Seq<u8>, i: int, key: Seq<u8>) -> Option<
    (Seq<(Seq<u8>, JsonVal)>, int),
>
    decreases s.len() - i, 2int when 0 <= i <= s.len()
{
    if i >= s.len() {
        Option::None
    } else if is_ws(s[i]) {
        spec_obj_colon(s, i + 1, key)
    } else if s[i] == 0x3a {  // :
        match spec_value(s, i + 1) {
            Option::None => Option::None,
            Option::Some((v, j)) => if j <= i || j > s.len() {
                Option::None
            } else {
                match spec_obj_rest(s, j) {
                    Option::None => Option::None,
                    Option::Some((rest, j2)) => Option::Some((seq![(key, v)] + rest, j2)),
                }
            },
        }
    } else {
        Option::None
    }
}

/// After one object field: either `}` ends the object or `,` starts the
/// next field.
pub open spec fn spec_obj_rest(s: Seq<u8>, i: int) -> Option<(Seq<(Seq<u8>, JsonVal)>, int)>
    decreases s.len() - i, 3int when 0 <= i <= s.len()
{
    if i >= s.len() {
        Option::None
    } else if is_ws(s[i]) {
        spec_obj_rest(s, i + 1)
    } else if s[i] == 0x7d {  // }
        Option::Some((Seq::empty(), i + 1))
    } else if s[i] == 0x2c {  // ,
        spec_obj_fields(s, i + 1, false)
    } else {
        Option::None
    }
}

/// A whole JSON document: one value, then only whitespace.
pub open spec fn spec_parse_json(s: Seq<u8>) -> Option<JsonVal> {
    match spec_value(s, 0) {
        Option::None => Option::None,
        Option::Some((v, j)) => if 0 <= j <= s.len() && all_ws_from(s, j) {
            Option::Some(v)
        } else {
            Option::None
        },
    }
}

/// The specification result matching an executable string parse.
pub open spec fn str_result(r: Option<(Vec<u8>, usize)>) -> Option<(Seq<u8>, int)> {
    match r {
        Option::None => Option::None,
        Option::Some((v, j)) => Option::Some((v@, j as int)),
    }
}

/// The specification result matching an executable value parse.
pub open spec fn value_result(r: Option<(Json, usize)>) -> Option<(JsonVal, int)> {
    match r {
        Option::None => Option::None,
        Option::Some((v, j)) => Option::Some((v.deep(), j as int)),
    }
}

/// The specification result matching an executable item-list parse.
pub open spec fn arr_result(r: Option<(Vec<Json>, usize)>) -> Option<(Seq<JsonVal>, int)> {
    match r {
        Option::None => Option::None,
        Option::Some((v, j)) => Option::Some((deep_arr(v@), j as int)),
    }
}

/// The specification result matching an executable field-list parse.
pub open spec fn obj_result(r: Option<(Vec<(Vec<u8>, Json)>, usize)>) -> Option<
    (Seq<(Seq<u8>, JsonVal)>, int),
> {
    match r {
        Option::None => Option::None,
        Option::Some((v, j)) => Option::Some((deep_obj(v@), j as int)),
    }
}

fn parse_digits(s: &[u8], i: usize, acc: Option<u64>) -> (r: (Option<u64>, usize))
    requires
        i <= s@.len(),
    ensures
        (r.0, r.1 as int) == spec_digits(s@, i as int, acc),
        i <= r.1 <= s@.len(),
    decreases s@.len() - i,
{
    if i < s.len() {
        let b = s[i];
        if 0x30 <= b && b <= 0x39 {
            let d = (b - 0x30) as u64;
            let acc2 = match acc {
                Option::None => Option::<u64>::None,
                Option::Some(a) => {
                    if a <= (0xffff_ffff_ffff_ffffu64 - d) / 10 {
                        proof {
                            assert(a * 10 <= ((0xffff_ffff_ffff_ffffu64 - d) / 10) * 10) by (nonlinear_arith)
                                requires
                                    a <= (0xffff_ffff_ffff_ffffu64 - d) / 10,
                            ;
                        }
                        Option::Some(a * 10 + d)
                    } else {
                        Option::None
                    }
                },
            };
            return parse_digits(s, i + 1, acc2);
        }
        (acc, i)
    } else {
        (acc, i)
    }
}

fn parse_number(s: &[u8], i: usize) -> (r: Option<(Decimal, usize)>)
    requires
        i <= s@.len(),
    ensures
        (match r {
            Option::None => spec_number(s@, i as int) is None,
            Option::Some((d, j)) => spec_number(s@, i as int) == Option::Some((d, j as int)) && i
                < j <= s@.len(),
        }),
{
    let mut neg = false;
    let mut j = i;
    if i < s.len() {
        let b = s[i];
        if b == 0x2d {
            neg = true;
            j = i + 1;
        }
    }
    let (acc, j2) = parse_digits(s, j, Option::Some(0u64));
    if j2 == j {
        return Option::None;
    }
    match acc {
        Option::None => Option::None,
        Option::Some(m) => {
            let mut dot = false;
            if j2 < s.len() {
                if s[j2] == 0x2e {
                    dot = true;
                }
            }
            if dot {
                let (acc2, j3) = parse_digits(s, j2 + 1, Option::Some(m));
                if j3 == j2 + 1 || j3 - (j2 + 1) > 0xffff_ffffusize {
                    return Option::None;
                }
                match acc2 {
                    Option::None => Option::None,
                    Option::Some(m2) => Option::Some(
                        (Decimal { neg, mantissa: m2, scale: (j3 - (j2 + 1)) as u32 }, j3),
                    ),
                }
            } else {
                Option::Some((Decimal { neg, mantissa: m, scale: 0 }, j2))
            }
        },
    }
}

fn parse_string_rest(s: &[u8], i: usize, acc: Vec<u8>) -> (r: Option<(Vec<u8>, usize)>)
    requires
        i <= s@.len(),
    ensures
        str_result(r) == spec_string_rest(s@, i as int, acc@),
        r matches Option::Some((v, j)) ==> i < j <= s@.len(),
    decreases s@.len() - i,
{
    if i >= s.len() {
        return Option::None;
    }
    let b = s[i];
    if b == 0x22 {
        Option::Some((acc, i + 1))
    } else if b == 0x5c {
        if i + 1 < s.len() {
            let e = s[i + 1];
            let mut acc2 = acc;
            if e == 0x22 || e == 0x5c || e == 0x2f {
                acc2.push(e);
                parse_string_rest(s, i + 2, acc2)
            } else if e == 0x62 {
                acc2.push(0x08);
                parse_string_rest(s, i + 2, acc2)
            } else if e == 0x66 {
                acc2.push(0x0c);
                parse_string_rest(s, i + 2, acc2)
            } else if e == 0x6e {
                acc2.push(0x0a);
                parse_string_rest(s, i + 2, acc2)
            } else if e == 0x72 {
                acc2.push(0x0d);
                parse_string_rest(s, i + 2, acc2)
            } else if e == 0x74 {
                acc2.push(0x09);
                parse_string_rest(s, i + 2, acc2)
            } else {
                Option::None
            }
        } else {
            Option::None
        }
    } else if b < 0x20 {
        Option::None
    } else {
        let mut acc2 = acc;
        acc2.push(b);
        parse_string_rest(s, i + 1, acc2)
    }
}

fn parse_value(s: &[u8], i: usize) -> (r: Option<(Json, usize)>)
    requires
        i <= s@.len(),
    ensures
        value_result(r) == spec_value(s@, i as int),
        r matches Option::Some((v, j)) ==> i < j <= s@.len(),
    decreases s@.len() - i, 0int,
{
    if i >= s.len() {
        return Option::None;
    }
    let b = s[i];
    if b == 0x20 || b == 0x09 || b == 0x0a || b == 0x0d {
        parse_value(s, i + 1)
    } else if b == 0x7b {
        match parse_obj_fields(s, i + 1, true) {
            Option::Some((fields, j)) => Option::Some((Json::Obj(fields), j)),
            Option::None => Option::None,
        }
    } else if b == 0x5b {
        match parse_arr_items(s, i + 1, true) {
            Option::Some((items, j)) => Option::Some((Json::Arr(items), j)),
            Option::None => Option::None,
        }
    } else if b == 0x22 {
        match parse_string_rest(s, i + 1, Vec::new()) {
            Option::Some((content, j)) => Option::Some((Json::Str(content), j)),
            Option::None => Option::None,
        }
    } else if b == 0x74 {
        if s.len() - i > 3 && s[i + 1] == 0x72 && s[i + 2] == 0x75 && s[i + 3] == 0x65 {
            Option::Some((Json::Bool(true), i + 4))
        } else {
            Option::None
        }
    } else if b == 0x66 {
        if s.len() - i > 4 && s[i + 1] == 0x61 && s[i + 2] == 0x6c && s[i + 3] == 0x73 && s[i + 4]
            == 0x65 {
            Option::Some((Json::Bool(false), i + 5))
        } else {
            Option::None
        }
    } else if b == 0x6e {
        if s.len() - i > 3 && s[i + 1] == 0x75 && s[i + 2] == 0x6c && s[i + 3] == 0x6c {
            Option::Some((Json::Null, i + 4))
        } else {
            Option::None
        }
    } else if b == 0x2d || (0x30 <= b && b <= 0x39) {
        match parse_number(s, i) {
            Option::Some((d, j)) => {
                if j <= i {
                    Option::None
                } else {
                    Option::Some((Json::Num(d), j))
                }
            },
            Option::None => Option::None,
        }
    } else {
        Option::None
    }
}

fn parse_arr_items(s: &[u8], i: usize, allow_end: bool) -> (r: Option<(Vec<Json>, usize)>)
    requires
        i <= s@.len(),
    ensures
        arr_result(r) == spec_arr_items(s@, i as int, allow_end),
        r matches Option::Some((v, j)) ==> i < j <= s@.len(),
    decreases s@.len() - i, 1int,
{
    if i >= s.len() {
        return Option::None;
    }
    let b = s[i];
    if b == 0x20 || b == 0x09 || b == 0x0a || b == 0x0d {
        parse_arr_items(s, i + 1, allow_end)
    } else if b == 0x5d && allow_end {
        let items: Vec<Json> = Vec::new();
        proof {
            assert(deep_arr(items@) =~= Seq::<JsonVal>::empty());
        }
        Option::Some((items, i + 1))
    } else {
        match parse_value(s, i) {
            Option::None => Option::None,
            Option::Some((v, j)) => {
                if j <= i || j > s.len() {
                    return Option::None;
                }
                match parse_arr_rest(s, j) {
                    Option::None => Option::None,
                    Option::Some((rest, j2)) => {
                        let mut items = rest;
                        items.insert(0, v);
                        proof {
                            assert forall|k: int| 0 <= k < deep_arr(items@).len() implies
                                deep_arr(items@)[k] == (seq![v.deep()] + deep_arr(
                                items@.drop_first(),
                            ))[k] by {
                                if k > 0 {
                                    assert(items@[k] == items@.drop_first()[k - 1]);
                                }
                            }
                            assert(items@.drop_first() =~= rest@);
                            assert(deep_arr(items@) =~= seq![v.deep()] + deep_arr(rest@));
                        }
                        Option::Some((items, j2))
                    },
                }
            },
        }
    }
}

fn parse_arr_rest(s: &[u8], i: usize) -> (r: Option<(Vec<Json>, usize)>)
    requires
        i <= s@.len(),
    ensures
        arr_result(r) == spec_arr_rest(s@, i as int),
        r matches Option::Some((v, j)) ==> i < j <= s@.len(),
    decreases s@.len() - i, 2int,
{
    if i >= s.len() {
        return Option::None;
    }
    let b = s[i];
    if b == 0x20 || b == 0x09 || b == 0x0a || b == 0x0d {
        parse_arr_rest(s, i + 1)
    } else if b == 0x5d {
        let items: Vec<Json> = Vec::new();
        proof {
            assert(deep_arr(items@) =~= Seq::<JsonVal>::empty());
        }
        Option::Some((items, i + 1))
    } else if b == 0x2c {
        parse_arr_items(s, i + 1, false)
    } else {
        Option::None
    }
}

fn parse_obj_fields(s: &[u8], i: usize, allow_end: bool) -> (r: Option<
    (Vec<(Vec<u8>, Json)>, usize),
>)
    requires
        i <= s@.len(),
    ensures
        obj_result(r) == spec_obj_fields(s@, i as int, allow_end),
        r matches Option::Some((v, j)) ==> i < j <= s@.len(),
    decreases s@.len() - i, 1int,
{
    if i >= s.len() {
        return Option::None;
    }
    let b = s[i];
    if b == 0x20 || b == 0x09 || b == 0x0a || b == 0x0d {
        parse_obj_fields(s, i + 1, allow_end)
    } else if b == 0x7d && allow_end {
        let fields: Vec<(Vec<u8>, Json)> = Vec::new();
        proof {
            assert(deep_obj(fields@) =~= Seq::<(Seq<u8>, JsonVal)>::empty());
        }
        Option::Some((fields, i + 1))
    } else if b == 0x22 {
        match parse_string_rest(s, i + 1, Vec::new()) {
            Option::None => Option::None,
            Option::Some((key, j)) => {
                if j <= i || j > s.len() {
                    return Option::None;
                }
                parse_obj_colon(s, j, key)
            },
        }
    } else {
        Option::None
    }
}

fn parse_obj_colon(s: &[u8], i: usize, key: Vec<u8>) -> (r: Option<
    (Vec<(Vec<u8>, Json)>, usize),
>)
    requires
        i <= s@.len(),
    ensures
        obj_result(r) == spec_obj_colon(s@, i as int, key@),
        r matches Option::Some((v, j)) ==> i < j <= s@.len(),
    decreases s@.len() - i, 2int,
{
    if i >= s.len() {
        return Option::None;
    }
    let b = s[i];
    if b == 0x20 || b == 0x09 || b == 0x0a || b == 0x0d {
        parse_obj_colon(s, i + 1, key)
    } else if b == 0x3a {
        match parse_value(s, i + 1) {
            Option::None => Option::None,
            Option::Some((v, j)) => {
                if j <= i || j > s.len() {
                    return Option::None;
                }
                match parse_obj_rest(s, j) {
                    Option::None => Option::None,
                    Option::Some((rest, j2)) => {
                        let ghost key_view = key@;
                        let mut fields = rest;
                        fields.insert(0, (key, v));
                        proof {
                            assert forall|k: int| 0 <= k < deep_obj(fields@).len() implies
                                deep_obj(fields@)[k] == (seq![(key_view, v.deep())] + deep_obj(
                                fields@.drop_first(),
                            ))[k] by {
                                if k > 0 {
                                    assert(fields@[k] == fields@.drop_first()[k - 1]);
                                }
                            }
                            assert(fields@.drop_first() =~= rest@);
                            assert(deep_obj(fields@) =~= seq![(key_view, v.deep())] + deep_obj(
                                rest@,
                            ));
                        }
                        Option::Some((fields, j2))
                    },
                }
            },
        }
    } else {
        Option::None
    }
}

fn parse_obj_rest(s: &[u8], i: usize) -> (r: Option<(Vec<(Vec<u8>, Json)>, usize)>)
    requires
        i <= s@.len(),
    ensures
        obj_result(r) == spec_obj_rest(s@, i as int),
        r matches Option::Some((v, j)) ==> i < j <= s@.len(),
    decreases s@.len() - i, 3int,
{
    if i >= s.len() {
        return Option::None;
    }
    let b = s[i];
    if b == 0x20 || b == 0x09 || b == 0x0a || b == 0x0d {
        parse_obj_rest(s, i + 1)
    } else if b == 0x7d {
        let fields: Vec<(Vec<u8>, Json)> = Vec::new();
        proof {
            assert(deep_obj(fields@) =~= Seq::<(Seq<u8>, JsonVal)>::empty());
        }
        Option::Some((fields, i + 1))
    } else if b == 0x2c {
        parse_obj_fields(s, i + 1, false)
    } else {
        Option::None
    }
}

fn ws_only(s: &[u8], i: usize) -> (r: bool)
    requires
        i <= s@.len(),
    ensures
        r == all_ws_from(s@, i as int),
    decreases s@.len() - i,
{
    if i < s.len() {
        let b = s[i];
        if b == 0x20 || b == 0x09 || b == 0x0a || b == 0x0d {
            ws_only(s, i + 1)
        } else {
            false
        }
    } else {
        true
    }
}

/// Parse a whole JSON document: one value, then only whitespace.
pub fn parse_json(s: &[u8]) -> (r: Option<Json>)
    ensures
        (match r {
            Option::None => spec_parse_json(s@) is None,
            Option::Some(v) => spec_parse_json(s@) == Option::Some(v.deep()),
        }),
{
    match parse_value(s, 0) {
        Option::None => Option::None,
        Option::Some((v, j)) => {
            if ws_only(s, j) {
                Option::Some(v)
            } else {
                Option::None
            }
        },
    }
}

/// A whole byte string read as one decimal number.
pub open spec fn spec_decimal_bytes(s: Seq<u8>) -> Option<Decimal> {
    match spec_number(s, 0) {
        Option::None => Option::None,
        Option::Some((d, j)) => if j == s.len() {
            Option::Some(d)
        } else {
            Option::None
        },
    }
}

/// Read a whole byte string as one decimal number.
pub fn decimal_from_bytes(s: &[u8]) -> (r: Option<Decimal>)
    ensures
        r == spec_decimal_bytes(s@),
{
    match parse_number(s, 0) {
        Option::None => Option::None,
        Option::Some((d, j)) => {
            if j == s.len() {
                Option::Some(d)
            } else {
                Option::None
            }
        },
    }
}

} // verus!
