//! The response interpreter: decide success or failure from the HTTP
//! status and the body, surface the exchange's error envelope unaltered,
//! and decode success bodies into typed models.

use vstd::prelude::*;
use crate::encoding::{bytes_eq, Decimal};
use crate::errors::{ClientError, ClientErrorVal};
use crate::json::{
    deep_arr, deep_obj, parse_json, spec_decimal_bytes, spec_parse_json, decimal_from_bytes, Json,
    JsonVal,
};
use crate::model::{ExchangeInformation, Income, Leverage, ServerTime, Symbol, Transaction};
use crate::sign::key_bytes;

verus! {

/// The first field under a key, if any.
pub open spec fn spec_get(fields: Seq<(Seq<u8>, JsonVal)>, k: Seq<u8>) -> Option<JsonVal>
    decreases fields.len(),
{
    if fields.len() == 0 {
        Option::None
    } else if fields[0].0 == k {
        Option::Some(fields[0].1)
    } else {
        spec_get(fields.drop_first(), k)
    }
}

/// The field of an object value under a key.
pub open spec fn field_of(v: JsonVal, k: Seq<u8>) -> Option<JsonVal> {
    match v {
        JsonVal::Obj(fields) => spec_get(fields, k),
        _ => Option::None,
    }
}

/// A string field's bytes.
pub open spec fn str_field(v: JsonVal, k: Seq<u8>) -> Option<Seq<u8>> {
    match field_of(v, k) {
        Option::Some(JsonVal::Str(s)) => Option::Some(s),
        _ => Option::None,
    }
}

/// An unsigned integer field.
pub open spec fn u64_field(v: JsonVal, k: Seq<u8>) -> Option<u64> {
    match field_of(v, k) {
        Option::Some(JsonVal::Num(d)) => if !d.neg && d.scale == 0 {
            Option::Some(d.mantissa)
        } else {
            Option::None
        },
        _ => Option::None,
    }
}

/// A signed integer field.
pub open spec fn i64_field(v: JsonVal, k: Seq<u8>) -> Option<i64> {
    match field_of(v, k) {
        Option::Some(JsonVal::Num(d)) => if d.scale == 0 && d.mantissa
            <= 0x7fff_ffff_ffff_ffffu64 {
            if d.neg {
                Option::Some((-(d.mantissa as int)) as i64)
            } else {
                Option::Some(d.mantissa as i64)
            }
        } else {
            Option::None
        },
        _ => Option::None,
    }
}

/// A boolean field.
pub open spec fn bool_field(v: JsonVal, k: Seq<u8>) -> Option<bool> {
    match field_of(v, k) {
        Option::Some(JsonVal::Bool(b)) => Option::Some(b),
        _ => Option::None,
    }
}

/// A decimal field: a JSON number, or — as the exchange often sends
/// numbers — a string holding one.
pub open spec fn dec_field(v: JsonVal, k: Seq<u8>) -> Option<Decimal> {
    match field_of(v, k) {
        Option::Some(JsonVal::Num(d)) => Option::Some(d),
        Option::Some(JsonVal::Str(s)) => spec_decimal_bytes(s),
        _ => Option::None,
    }
}

fn get_field<'a>(fields: &'a Vec<(Vec<u8>, Json)>, k: &[u8]) -> (r: Option<&'a Json>)
    ensures
        (match r {
            Option::Some(v) => spec_get(deep_obj(fields@), k@) == Option::Some(v.deep()),
            Option::None => spec_get(deep_obj(fields@), k@) is None,
        }),
{
    let ghost all = deep_obj(fields@);
    proof {
        assert(all.subrange(0, all.len() as int) =~= all);
    }
    let mut i: usize = 0;
    while i < fields.len()
        invariant
            i <= fields@.len(),
            all == deep_obj(fields@),
            all.len() == fields@.len(),
            spec_get(all, k@) == spec_get(all.subrange(i as int, all.len() as int), k@),
        decreases fields@.len() - i,
    {
        if bytes_eq(fields[i].0.as_slice(), k) {
            proof {
                let rest = all.subrange(i as int, all.len() as int);
                assert(rest[0] == all[i as int]);
                assert(all[i as int] == (fields@[i as int].0@, fields@[i as int].1.deep()));
            }
            return Option::Some(&fields[i].1);
        }
        proof {
            let rest = all.subrange(i as int, all.len() as int);
            assert(rest[0] == all[i as int]);
            assert(all[i as int] == (fields@[i as int].0@, fields@[i as int].1.deep()));
            assert(rest.drop_first() =~= all.subrange(i + 1, all.len() as int));
        }
        i = i + 1;
    }
    proof {
        assert(all.subrange(all.len() as int, all.len() as int) =~= Seq::<
            (Seq<u8>, JsonVal),
        >::empty());
    }
    Option::None
}

fn get_str(v: &Json, k: &str) -> (r: Option<Vec<u8>>)
    ensures
        (match r {
            Option::Some(b) => str_field(v.deep(), key_bytes(k)) == Option::Some(b@),
            Option::None => str_field(v.deep(), key_bytes(k)) is None,
        }),
{
    let kb = crate::sign::str_bytes(k);
    match v {
        Json::Obj(fields) => match get_field(fields, kb.as_slice()) {
            Option::Some(Json::Str(s)) => Option::Some(vstd::slice::slice_to_vec(s.as_slice())),
            _ => Option::None,
        },
        _ => Option::None,
    }
}

fn get_u64(v: &Json, k: &str) -> (r: Option<u64>)
    ensures
        r == u64_field(v.deep(), key_bytes(k)),
{
    let kb = crate::sign::str_bytes(k);
    match v {
        Json::Obj(fields) => match get_field(fields, kb.as_slice()) {
            Option::Some(Json::Num(d)) => {
                if !d.neg && d.scale == 0 {
                    Option::Some(d.mantissa)
                } else {
                    Option::None
                }
            },
            _ => Option::None,
        },
        _ => Option::None,
    }
}

fn get_i64(v: &Json, k: &str) -> (r: Option<i64>)
    ensures
        r == i64_field(v.deep(), key_bytes(k)),
{
    let kb = crate::sign::str_bytes(k);
    match v {
        Json::Obj(fields) => match get_field(fields, kb.as_slice()) {
            Option::Some(Json::Num(d)) => {
                if d.scale == 0 && d.mantissa <= 0x7fff_ffff_ffff_ffffu64 {
                    if d.neg {
                        Option::Some(-(d.mantissa as i64))
                    } else {
                        Option::Some(d.mantissa as i64)
                    }
                } else {
                    Option::None
                }
            },
            _ => Option::None,
        },
        _ => Option::None,
    }
}

fn get_bool(v: &Json, k: &str) -> (r: Option<bool>)
    ensures
        r == bool_field(v.deep(), key_bytes(k)),
{
    let kb = crate::sign::str_bytes(k);
    match v {
        Json::Obj(fields) => match get_field(fields, kb.as_slice()) {
            Option::Some(Json::Bool(b)) => Option::Some(*b),
            _ => Option::None,
        },
        _ => Option::None,
    }
}

fn get_dec(v: &Json, k: &str) -> (r: Option<Decimal>)
    ensures
        r == dec_field(v.deep(), key_bytes(k)),
{
    let kb = crate::sign::str_bytes(k);
    match v {
        Json::Obj(fields) => match get_field(fields, kb.as_slice()) {
            Option::Some(Json::Num(d)) => Option::Some(*d),
            Option::Some(Json::Str(s)) => decimal_from_bytes(s.as_slice()),
            _ => Option::None,
        },
        _ => Option::None,
    }
}

/// The exchange's error envelope, when the value holds one: an integer
/// `code` and a string `msg`.
pub open spec fn spec_envelope(v: JsonVal) -> Option<(i64, Seq<u8>)> {
    match (i64_field(v, key_bytes("code")), str_field(v, key_bytes("msg"))) {
        (Option::Some(c), Option::Some(m)) => Option::Some((c, m)),
        _ => Option::None,
    }
}

fn envelope(v: &Json) -> (r: Option<(i64, Vec<u8>)>)
    ensures
        (match r {
            Option::Some((c, m)) => spec_envelope(v.deep()) == Option::Some((c, m@)),
            Option::None => spec_envelope(v.deep()) is None,
        }),
{
    match (get_i64(v, "code"), get_str(v, "msg")) {
        (Option::Some(c), Option::Some(m)) => Option::Some((c, m)),
        _ => Option::None,
    }
}

/// Whether a status code counts as success.
pub open spec fn is_success_status(status: u16) -> bool {
    200 <= status < 300
}

/// How a raw response is classified, before any typed decoding.
///
/// An error envelope wins even on a success status: the exchange has been
/// seen to send one with 200. Otherwise a success status hands the parsed
/// body on (an unparseable one is a decode failure), and a failure status
/// without an envelope keeps the raw status and body.
pub open spec fn spec_classify(status: u16, body: Seq<u8>) -> Result<JsonVal, ClientErrorVal> {
    match spec_parse_json(body) {
        Option::Some(v) => match spec_envelope(v) {
            Option::Some((c, m)) => Result::Err(ClientErrorVal::Exchange { code: c, message: m }),
            Option::None => if is_success_status(status) {
                Result::Ok(v)
            } else {
                Result::Err(ClientErrorVal::Transport { status, body })
            },
        },
        Option::None => if is_success_status(status) {
            Result::Err(ClientErrorVal::Decode)
        } else {
            Result::Err(ClientErrorVal::Transport { status, body })
        },
    }
}

/// Classify a raw response: the exchange's own error envelope is surfaced
/// unaltered whatever the status; otherwise the status decides.
pub fn classify(status: u16, body: &[u8]) -> (r: Result<Json, ClientError>)
    ensures
        (match r {
            Result::Ok(v) => spec_classify(status, body@) == Result::<
                JsonVal,
                ClientErrorVal,
            >::Ok(v.deep()),
            Result::Err(e) => spec_classify(status, body@) == Result::<
                JsonVal,
                ClientErrorVal,
            >::Err(e.deep()),
        }),
{
    let ok_status = 200 <= status && status < 300;
    match parse_json(body) {
        Option::Some(v) => {
            match envelope(&v) {
                Option::Some((c, m)) => Result::Err(ClientError::Exchange { code: c, message: m }),
                Option::None => {
                    if ok_status {
                        Result::Ok(v)
                    } else {
                        Result::Err(
                            ClientError::Transport {
                                status,
                                body: vstd::slice::slice_to_vec(body),
                            },
                        )
                    }
                },
            }
        },
        Option::None => {
            if ok_status {
                Result::Err(ClientError::Decode)
            } else {
                Result::Err(ClientError::Transport { status, body: vstd::slice::slice_to_vec(body) })
            }
        },
    }
}

/// Whether a value holds the server-time shape.
pub open spec fn server_time_ok(v: JsonVal) -> bool {
    u64_field(v, key_bytes("serverTime")) is Some
}

/// Decode a server-time body.
pub fn decode_server_time(v: &Json) -> (r: Result<ServerTime, ClientError>)
    ensures
        r is Ok <==> server_time_ok(v.deep()),
        r matches Ok(t) ==> u64_field(v.deep(), key_bytes("serverTime")) == Option::Some(
            t.server_time,
        ),
        r matches Err(e) ==> e == ClientError::Decode,
{
    match get_u64(v, "serverTime") {
        Option::Some(t) => Result::Ok(ServerTime { server_time: t }),
        Option::None => Result::Err(ClientError::Decode),
    }
}

/// Whether a value holds the change-leverage shape.
pub open spec fn leverage_ok(v: JsonVal) -> bool {
    &&& u64_field(v, key_bytes("leverage")) is Some
    &&& dec_field(v, key_bytes("maxNotionalValue")) is Some
    &&& str_field(v, key_bytes("symbol")) is Some
}

/// Decode a change-leverage body.
pub fn decode_leverage(v: &Json) -> (r: Result<Leverage, ClientError>)
    ensures
        r is Ok <==> leverage_ok(v.deep()),
        r matches Ok(t) ==> {
            &&& u64_field(v.deep(), key_bytes("leverage")) == Option::Some(t.leverage)
            &&& dec_field(v.deep(), key_bytes("maxNotionalValue")) == Option::Some(
                t.max_notional_value,
            )
            &&& str_field(v.deep(), key_bytes("symbol")) == Option::Some(t.symbol@)
        },
        r matches Err(e) ==> e == ClientError::Decode,
{
    match (get_u64(v, "leverage"), get_dec(v, "maxNotionalValue"), get_str(v, "symbol")) {
        (Option::Some(l), Option::Some(m), Option::Some(s)) => Result::Ok(
            Leverage { leverage: l, max_notional_value: m, symbol: s },
        ),
        _ => Result::Err(ClientError::Decode),
    }
}

/// Whether a value holds the order-transaction shape.
pub open spec fn transaction_ok(v: JsonVal) -> bool {
    &&& u64_field(v, key_bytes("orderId")) is Some
    &&& str_field(v, key_bytes("symbol")) is Some
    &&& str_field(v, key_bytes("side")) is Some
    &&& str_field(v, key_bytes("origType")) is Some
    &&& bool_field(v, key_bytes("closePosition")) is Some
    &&& dec_field(v, key_bytes("stopPrice")) is Some
}

/// Decode an order-transaction body.
pub fn decode_transaction(v: &Json) -> (r: Result<Transaction, ClientError>)
    ensures
        r is Ok <==> transaction_ok(v.deep()),
        r matches Ok(t) ==> {
            &&& u64_field(v.deep(), key_bytes("orderId")) == Option::Some(t.order_id)
            &&& str_field(v.deep(), key_bytes("symbol")) == Option::Some(t.symbol@)
            &&& str_field(v.deep(), key_bytes("side")) == Option::Some(t.side@)
            &&& str_field(v.deep(), key_bytes("origType")) == Option::Some(t.orig_type@)
            &&& bool_field(v.deep(), key_bytes("closePosition")) == Option::Some(t.close_position)
            &&& dec_field(v.deep(), key_bytes("stopPrice")) == Option::Some(t.stop_price)
        },
        r matches Err(e) ==> e == ClientError::Decode,
{
    let order_id = get_u64(v, "orderId");
    let symbol = get_str(v, "symbol");
    let side = get_str(v, "side");
    let orig_type = get_str(v, "origType");
    let close_position = get_bool(v, "closePosition");
    let stop_price = get_dec(v, "stopPrice");
    match (order_id, symbol, side, orig_type, close_position, stop_price) {
        (
            Option::Some(o),
            Option::Some(sy),
            Option::Some(si),
            Option::Some(ot),
            Option::Some(cp),
            Option::Some(sp),
        ) => Result::Ok(
            Transaction {
                order_id: o,
                symbol: sy,
                side: si,
                orig_type: ot,
                close_position: cp,
                stop_price: sp,
            },
        ),
        _ => Result::Err(ClientError::Decode),
    }
}

/// Whether a value holds the listed-symbol shape.
pub open spec fn symbol_ok(v: JsonVal) -> bool {
    &&& str_field(v, key_bytes("symbol")) is Some
    &&& str_field(v, key_bytes("status")) is Some
    &&& str_field(v, key_bytes("baseAsset")) is Some
    &&& str_field(v, key_bytes("quoteAsset")) is Some
}

/// The fields of a decoded symbol match the value.
pub open spec fn symbol_matches(v: JsonVal, s: &Symbol) -> bool {
    &&& str_field(v, key_bytes("symbol")) == Option::Some(s.symbol@)
    &&& str_field(v, key_bytes("status")) == Option::Some(s.status@)
    &&& str_field(v, key_bytes("baseAsset")) == Option::Some(s.base_asset@)
    &&& str_field(v, key_bytes("quoteAsset")) == Option::Some(s.quote_asset@)
}

/// Decode one catalog entry.
pub fn decode_symbol(v: &Json) -> (r: Result<Symbol, ClientError>)
    ensures
        r is Ok <==> symbol_ok(v.deep()),
        r matches Ok(s) ==> symbol_matches(v.deep(), &s),
        r matches Err(e) ==> e == ClientError::Decode,
{
    match (get_str(v, "symbol"), get_str(v, "status"), get_str(v, "baseAsset"), get_str(
        v,
        "quoteAsset",
    )) {
        (Option::Some(sy), Option::Some(st), Option::Some(b), Option::Some(q)) => Result::Ok(
            Symbol { symbol: sy, status: st, base_asset: b, quote_asset: q },
        ),
        _ => Result::Err(ClientError::Decode),
    }
}

/// The symbol catalog carried under `symbols`, when it is an array.
pub open spec fn symbols_of(v: JsonVal) -> Option<Seq<JsonVal>> {
    match field_of(v, key_bytes("symbols")) {
        Option::Some(JsonVal::Arr(items)) => Option::Some(items),
        _ => Option::None,
    }
}

/// Whether a value holds the exchange-information shape.
pub open spec fn exchange_info_ok(v: JsonVal) -> bool {
    &&& u64_field(v, key_bytes("serverTime")) is Some
    &&& symbols_of(v) matches Option::Some(items) && (forall|i: int|
        0 <= i < items.len() ==> symbol_ok(#[trigger] items[i]))
}

/// Decode an exchange-information body.
pub fn decode_exchange_info(v: &Json) -> (r: Result<ExchangeInformation, ClientError>)
    ensures
        r is Ok <==> exchange_info_ok(v.deep()),
        r matches Ok(info) ==> {
            &&& u64_field(v.deep(), key_bytes("serverTime")) == Option::Some(info.server_time)
            &&& symbols_of(v.deep()) matches Option::Some(items) && info.symbols@.len()
                == items.len() && (forall|i: int|
                0 <= i < items.len() ==> symbol_matches(#[trigger] items[i], &info.symbols@[i]))
        },
        r matches Err(e) ==> e == ClientError::Decode,
{
    let server_time = match get_u64(v, "serverTime") {
        Option::Some(t) => t,
        Option::None => {
            return Result::Err(ClientError::Decode);
        },
    };
    let kb = crate::sign::str_bytes("symbols");
    let items = match v {
        Json::Obj(fields) => match get_field(fields, kb.as_slice()) {
            Option::Some(Json::Arr(items)) => items,
            _ => {
                return Result::Err(ClientError::Decode);
            },
        },
        _ => {
            return Result::Err(ClientError::Decode);
        },
    };
    let ghost items_v = deep_arr(items@);
    proof {
        assert(symbols_of(v.deep()) == Option::Some(items_v));
    }
    let mut out: Vec<Symbol> = Vec::new();
    let mut i: usize = 0;
    while i < items.len()
        invariant
            i <= items@.len(),
            items_v == deep_arr(items@),
            items_v.len() == items@.len(),
            symbols_of(v.deep()) == Option::Some(items_v),
            out@.len() == i,
            forall|j: int| 0 <= j < i ==> symbol_ok(#[trigger] items_v[j]),
            forall|j: int| 0 <= j < i ==> symbol_matches(#[trigger] items_v[j], &out@[j]),
        decreases items@.len() - i,
    {
        proof {
            assert(items_v[i as int] == items@[i as int].deep());
        }
        match decode_symbol(&items[i]) {
            Result::Ok(s) => {
                out.push(s);
            },
            Result::Err(_) => {
                proof {
                    assert(!symbol_ok(items_v[i as int]));
                    if exchange_info_ok(v.deep()) {
                        let its = symbols_of(v.deep())->Some_0;
                        assert(its == items_v);
                        assert(symbol_ok(its[i as int]));
                        assert(false);
                    }
                }
                return Result::Err(ClientError::Decode);
            },
        }
        i = i + 1;
    }
    Result::Ok(ExchangeInformation { server_time, symbols: out })
}

/// Whether a value holds the income-record shape.
pub open spec fn income_ok(v: JsonVal) -> bool {
    &&& str_field(v, key_bytes("symbol")) is Some
    &&& str_field(v, key_bytes("incomeType")) is Some
    &&& dec_field(v, key_bytes("income")) is Some
    &&& u64_field(v, key_bytes("time")) is Some
}

/// The fields of a decoded income record match the value.
pub open spec fn income_matches(v: JsonVal, r: &Income) -> bool {
    &&& str_field(v, key_bytes("symbol")) == Option::Some(r.symbol@)
    &&& str_field(v, key_bytes("incomeType")) == Option::Some(r.income_type@)
    &&& dec_field(v, key_bytes("income")) == Option::Some(r.income)
    &&& u64_field(v, key_bytes("time")) == Option::Some(r.time)
}

fn decode_income(v: &Json) -> (r: Result<Income, ClientError>)
    ensures
        r is Ok <==> income_ok(v.deep()),
        r matches Ok(rec) ==> income_matches(v.deep(), &rec),
        r matches Err(e) ==> e == ClientError::Decode,
{
    match (get_str(v, "symbol"), get_str(v, "incomeType"), get_dec(v, "income"), get_u64(
        v,
        "time",
    )) {
        (Option::Some(sy), Option::Some(it), Option::Some(inc), Option::Some(t)) => Result::Ok(
            Income { symbol: sy, income_type: it, income: inc, time: t },
        ),
        _ => Result::Err(ClientError::Decode),
    }
}

/// Whether a value holds the income-history shape: an array of records.
pub open spec fn income_list_ok(v: JsonVal) -> bool {
    v matches JsonVal::Arr(items) && (forall|i: int|
        0 <= i < items.len() ==> income_ok(#[trigger] items[i]))
}

/// Decode an income-history body.
pub fn decode_income_list(v: &Json) -> (r: Result<Vec<Income>, ClientError>)
    ensures
        r is Ok <==> income_list_ok(v.deep()),
        r matches Ok(list) ==> (v.deep() matches JsonVal::Arr(items) && list@.len() == items.len()
            && (forall|i: int|
            0 <= i < items.len() ==> income_matches(#[trigger] items[i], &list@[i]))),
        r matches Err(e) ==> e == ClientError::Decode,
{
    let items = match v {
        Json::Arr(items) => items,
        _ => {
            return Result::Err(ClientError::Decode);
        },
    };
    let ghost items_v = deep_arr(items@);
    let mut out: Vec<Income> = Vec::new();
    let mut i: usize = 0;
    while i < items.len()
        invariant
            i <= items@.len(),
            items_v == deep_arr(items@),
            items_v.len() == items@.len(),
            v.deep() == JsonVal::Arr(items_v),
            out@.len() == i,
            forall|j: int| 0 <= j < i ==> income_ok(#[trigger] items_v[j]),
            forall|j: int| 0 <= j < i ==> income_matches(#[trigger] items_v[j], &out@[j]),
        decreases items@.len() - i,
    {
        proof {
            assert(items_v[i as int] == items@[i as int].deep());
        }
        match decode_income(&items[i]) {
            Result::Ok(rec) => {
                out.push(rec);
            },
            Result::Err(_) => {
                proof {
                    assert(!income_ok(items_v[i as int]));
                    if income_list_ok(v.deep()) {
                        let its = v.deep()->Arr_0;
                        assert(its == items_v);
                        assert(income_ok(its[i as int]));
                        assert(false);
                    }
                }
                return Result::Err(ClientError::Decode);
            },
        }
        i = i + 1;
    }
    Result::Ok(out)
}

} // verus!
