use vstd::prelude::*;
use vstd::utf8::encode_utf8;
use crate::params::{
    form_decode, form_safe, form_sends, has_key, keys_distinct, lemma_form_decode, lemma_form_sends_param,
    lemma_pairs_map_concat, lemma_insert_pair, spec_form, spec_insert_pair,
    spec_pairs_map, Params, SpecPair,
};
use crate::sign::{hmac_sha512, spec_hmac_sha512};
use crate::text::{
    i64_to_decimal, lemma_decimal_digits, lemma_hex_len, spec_decimal, spec_hex, spec_signed_decimal, to_hex,
    u64_to_decimal,
};
use crate::types::{Account, HistoryQuery, OrderType, TradeHistorySorting};

verus! {

/// The address of a public-API method: `https://wex.nz/api/3/` then the path.
pub fn public_url(path: &str) -> (url: String)
    ensures
        url@ == "https://wex.nz/api/3/"@ + path@,
{
    let mut url = String::from_str("https://wex.nz/api/3/");
    url.append(path);
    url
}

/// The path of the ticker method for a pair, or for several pairs joined by `-`.
pub fn ticker_path(pair: &str) -> (path: String)
    ensures
        path@ == "ticker/"@ + pair@,
{
    let mut path = String::from_str("ticker/");
    path.append(pair);
    path
}

/// The address of the trade API, to which every private method is posted.
pub fn trade_api_url() -> (url: &'static str)
    ensures
        url@ == "https://wex.nz/tapi"@,
{
    "https://wex.nz/tapi"
}

/// The names of the trade-API parameters differ in length or first letter.
proof fn lemma_param_names()
    ensures
        "method"@.len() == 6 && "method"@[0] == 'm',
        "pair"@.len() == 4 && "pair"@[0] == 'p',
        "type"@.len() == 4 && "type"@[0] == 't',
        "rate"@.len() == 4 && "rate"@[0] == 'r',
        "amount"@.len() == 6 && "amount"@[0] == 'a',
        "order_id"@.len() == 8 && "order_id"@[0] == 'o',
        "coinName"@.len() == 8 && "coinName"@[0] == 'c',
        "nonce"@.len() == 5 && "nonce"@[0] == 'n',
        "from"@.len() == 4 && "from"@[0] == 'f',
        "count"@.len() == 5 && "count"@[0] == 'c',
        "from_id"@.len() == 7 && "from_id"@[0] == 'f',
        "end_id"@.len() == 6 && "end_id"@[0] == 'e',
        "order"@.len() == 5 && "order"@[0] == 'o',
        "since"@.len() == 5 && "since"@[0] == 's',
        "end"@.len() == 3 && "end"@[0] == 'e',
{
    reveal_strlit("method");
    reveal_strlit("pair");
    reveal_strlit("type");
    reveal_strlit("rate");
    reveal_strlit("amount");
    reveal_strlit("order_id");
    reveal_strlit("coinName");
    reveal_strlit("nonce");
    reveal_strlit("from");
    reveal_strlit("count");
    reveal_strlit("from_id");
    reveal_strlit("end_id");
    reveal_strlit("order");
    reveal_strlit("since");
    reveal_strlit("end");
}

/// Adds a parameter whose name is not yet set: it goes last.
fn insert_new(p: &mut Params, key: &str, value: String)
    requires
        !has_key(old(p).pairs(), key@),
    ensures
        keys_distinct(final(p).pairs()),
        final(p).pairs() == old(p).pairs().push((key@, value@)),
        final(p)@ == old(p)@.insert(key@, value@),
{
    p.insert(String::from_str(key), value);
}

/// A parameter list holding only the method name.
fn method_params(method: &str) -> (p: Params)
    ensures
        keys_distinct(p.pairs()),
        p.pairs() == seq![("method"@, method@)],
{
    let mut p = Params::new();
    insert_new(&mut p, "method", String::from_str(method));
    assert(p.pairs() =~= seq![("method"@, method@)]);
    p
}

/// Parameters of `getInfo`: balances, key privileges, open orders, server time.
pub fn get_info_params() -> (p: Params)
    ensures
        keys_distinct(p.pairs()),
        p.pairs() == seq![("method"@, "getInfo"@)],
{
    method_params("getInfo")
}

/// Parameters of `Trade`: a limit order on `pair` of side `kind` at `rate`
/// for `amount`, rate and amount passed through as written.
pub fn trade_params(pair: &str, kind: OrderType, rate: &str, amount: &str) -> (p: Params)
    ensures
        keys_distinct(p.pairs()),
        p.pairs() == seq![
            ("method"@, "Trade"@),
            ("pair"@, pair@),
            ("type"@, kind.spec_name()),
            ("rate"@, rate@),
            ("amount"@, amount@),
        ],
{
    proof {
        lemma_param_names();
    }
    let mut p = method_params("Trade");
    let ghost p0 = p.pairs();
    assert(!has_key(p0, "pair"@)) by {
        assert(p0[0].0 != "pair"@);
    }
    insert_new(&mut p, "pair", String::from_str(pair));
    let ghost p1 = p.pairs();
    assert(!has_key(p1, "type"@)) by {
        assert(p1[0].0 != "type"@);
        assert(p1[1].0 != "type"@);
    }
    insert_new(&mut p, "type", String::from_str(kind.as_str()));
    let ghost p2 = p.pairs();
    assert(!has_key(p2, "rate"@)) by {
        assert(p2[0].0 != "rate"@);
        assert(p2[1].0 != "rate"@);
        assert(p2[2].0 != "rate"@);
    }
    insert_new(&mut p, "rate", String::from_str(rate));
    let ghost p3 = p.pairs();
    assert(!has_key(p3, "amount"@)) by {
        assert(p3[0].0 != "amount"@);
        assert(p3[1].0 != "amount"@);
        assert(p3[2].0 != "amount"@);
        assert(p3[3].0 != "amount"@);
    }
    insert_new(&mut p, "amount", String::from_str(amount));
    assert(p.pairs() =~= seq![
        ("method"@, "Trade"@),
        ("pair"@, pair@),
        ("type"@, kind.spec_name()),
        ("rate"@, rate@),
        ("amount"@, amount@),
    ]);
    p
}

/// A parameter list holding the method name and one more parameter.
fn method_params_with(method: &str, key: &str, value: &str) -> (p: Params)
    requires
        key@ != "method"@,
    ensures
        keys_distinct(p.pairs()),
        p.pairs() == seq![("method"@, method@), (key@, value@)],
{
    let mut p = method_params(method);
    let ghost p0 = p.pairs();
    assert(!has_key(p0, key@)) by {
        assert(p0[0].0 != key@);
    }
    insert_new(&mut p, key, String::from_str(value));
    assert(p.pairs() =~= seq![("method"@, method@), (key@, value@)]);
    p
}

/// Parameters of `ActiveOrders`: the open orders, of one pair when given.
pub fn active_orders_params(pair: Option<&str>) -> (p: Params)
    ensures
        keys_distinct(p.pairs()),
        p.pairs() == seq![("method"@, "ActiveOrders"@)] + match pair {
            Some(q) => seq![("pair"@, q@)],
            None => Seq::<SpecPair>::empty(),
        },
{
    proof {
        lemma_param_names();
    }
    match pair {
        Some(q) => {
            let p = method_params_with("ActiveOrders", "pair", q);
            assert(p.pairs() =~= seq![("method"@, "ActiveOrders"@)] + seq![("pair"@, q@)]);
            p
        },
        None => {
            let p = method_params("ActiveOrders");
            assert(p.pairs() =~= seq![("method"@, "ActiveOrders"@)] + Seq::<SpecPair>::empty());
            p
        },
    }
}

/// Parameters of `OrderInfo`: the state of the order `order_id`.
pub fn order_info_params(order_id: &str) -> (p: Params)
    ensures
        keys_distinct(p.pairs()),
        p.pairs() == seq![("method"@, "OrderInfo"@), ("order_id"@, order_id@)],
{
    proof {
        lemma_param_names();
    }
    method_params_with("OrderInfo", "order_id", order_id)
}

/// Parameters of `CancelOrder`: cancels the order `order_id`.
pub fn cancel_order_params(order_id: &str) -> (p: Params)
    ensures
        keys_distinct(p.pairs()),
        p.pairs() == seq![("method"@, "CancelOrder"@), ("order_id"@, order_id@)],
{
    proof {
        lemma_param_names();
    }
    method_params_with("CancelOrder", "order_id", order_id)
}

/// Parameters of `CoinDepositAddress`: the deposit address of a currency.
pub fn coin_deposit_address_params(coin_name: &str) -> (p: Params)
    ensures
        keys_distinct(p.pairs()),
        p.pairs() == seq![("method"@, "CoinDepositAddress"@), ("coinName"@, coin_name@)],
{
    proof {
        lemma_param_names();
    }
    method_params_with("CoinDepositAddress", "coinName", coin_name)
}

/// One parameter when a value is given, none otherwise.
pub open spec fn opt_pair(k: Seq<char>, v: Option<Seq<char>>) -> Seq<SpecPair> {
    match v {
        Some(x) => seq![(k, x)],
        None => Seq::empty(),
    }
}

/// The decimal text of an optional unsigned number.
pub open spec fn opt_decimal(v: Option<u64>) -> Option<Seq<char>> {
    match v {
        Some(x) => Some(spec_decimal(x as nat)),
        None => None,
    }
}

/// The decimal text of an optional signed number.
pub open spec fn opt_signed_decimal(v: Option<i64>) -> Option<Seq<char>> {
    match v {
        Some(x) => Some(spec_signed_decimal(x as int)),
        None => None,
    }
}

/// The text of an optional string.
pub open spec fn opt_text(v: Option<String>) -> Option<Seq<char>> {
    match v {
        Some(x) => Some(x@),
        None => None,
    }
}

/// The id filters that are set, in the order `from`, `count`, `from_id`,
/// `end_id`, in decimal.
pub open spec fn spec_id_pairs(from: Option<u64>, count: Option<u64>, from_id: Option<u64>, end_id: Option<u64>) -> Seq<SpecPair> {
    opt_pair("from"@, opt_decimal(from))
        + opt_pair("count"@, opt_decimal(count))
        + opt_pair("from_id"@, opt_decimal(from_id))
        + opt_pair("end_id"@, opt_decimal(end_id))
}

/// The sort, time and pair filters that are set, in the order `order`,
/// `since`, `end`, `pair`; the order as `asc` or `desc`, times in decimal.
pub open spec fn spec_time_pairs(order: Option<TradeHistorySorting>, since: Option<i64>, end: Option<i64>, pair: Option<String>) -> Seq<SpecPair> {
    opt_pair("order"@, match order {
        Some(o) => Some(o.spec_name()),
        None => None,
    })
        + opt_pair("since"@, opt_signed_decimal(since))
        + opt_pair("end"@, opt_signed_decimal(end))
        + opt_pair("pair"@, opt_text(pair))
}

/// The filters of a history query that are set, in the order `from`,
/// `count`, `from_id`, `end_id`, `order`, `since`, `end`, `pair`.
pub open spec fn spec_query_pairs(q: HistoryQuery) -> Seq<SpecPair> {
    spec_id_pairs(q.from, q.count, q.from_id, q.end_id) + spec_time_pairs(q.order, q.since, q.end, q.pair)
}

/// The parameters of a history method: its name, then the filters that are set.
pub open spec fn spec_history_pairs(method: Seq<char>, cfg: Option<HistoryQuery>) -> Seq<SpecPair> {
    seq![("method"@, method)] + match cfg {
        Some(q) => spec_query_pairs(q),
        None => Seq::<SpecPair>::empty(),
    }
}

/// Every parameter name is one of `names`.
spec fn names_within(ps: Seq<SpecPair>, names: Set<Seq<char>>) -> bool {
    forall|i: int| 0 <= i < ps.len() ==> names.contains(#[trigger] ps[i].0)
}

/// Adds a parameter under a new name when a value is given.
fn insert_opt(p: &mut Params, key: &str, value: Option<String>, Ghost(names): Ghost<Set<Seq<char>>>)
    requires
        keys_distinct(old(p).pairs()),
        names_within(old(p).pairs(), names),
        !names.contains(key@),
    ensures
        keys_distinct(final(p).pairs()),
        final(p).pairs() == old(p).pairs() + opt_pair(key@, opt_text(value)),
        names_within(final(p).pairs(), names.insert(key@)),
{
    let ghost old_pairs = p.pairs();
    match value {
        Some(v) => {
            assert(!has_key(old_pairs, key@)) by {
                if has_key(old_pairs, key@) {
                    let i = choose|i: int| 0 <= i < old_pairs.len() && old_pairs[i].0 == key@;
                    assert(names.contains(old_pairs[i].0));
                }
            }
            let ghost vv = v@;
            insert_new(p, key, v);
            assert(p.pairs() =~= old_pairs + opt_pair(key@, Some(vv)));
        },
        None => {
            assert(p.pairs() =~= old_pairs + opt_pair(key@, None));
        },
    }
}

/// The names that may precede the time filters of a history query.
spec fn id_filter_names() -> Set<Seq<char>> {
    set!["method"@].insert("from"@).insert("count"@).insert("from_id"@).insert("end_id"@)
}

/// Adds the id filters of a history query that are set.
fn insert_id_filters(p: &mut Params, from: Option<u64>, count: Option<u64>, from_id: Option<u64>, end_id: Option<u64>)
    requires
        keys_distinct(old(p).pairs()),
        names_within(old(p).pairs(), set!["method"@]),
    ensures
        keys_distinct(final(p).pairs()),
        final(p).pairs() == old(p).pairs() + spec_id_pairs(from, count, from_id, end_id),
        names_within(final(p).pairs(), id_filter_names()),
{
    proof {
        lemma_param_names();
    }
    let ghost p0 = p.pairs();
    let ghost names = set!["method"@];
    let t = match from {
        Some(x) => Some(u64_to_decimal(x)),
        None => None,
    };
    assert(opt_text(t) == opt_decimal(from));
    insert_opt(p, "from", t, Ghost(names));
    let ghost names = names.insert("from"@);
    let t = match count {
        Some(x) => Some(u64_to_decimal(x)),
        None => None,
    };
    assert(opt_text(t) == opt_decimal(count));
    insert_opt(p, "count", t, Ghost(names));
    let ghost names = names.insert("count"@);
    let t = match from_id {
        Some(x) => Some(u64_to_decimal(x)),
        None => None,
    };
    assert(opt_text(t) == opt_decimal(from_id));
    insert_opt(p, "from_id", t, Ghost(names));
    let ghost names = names.insert("from_id"@);
    let t = match end_id {
        Some(x) => Some(u64_to_decimal(x)),
        None => None,
    };
    assert(opt_text(t) == opt_decimal(end_id));
    insert_opt(p, "end_id", t, Ghost(names));
    assert(p.pairs() =~= p0 + spec_id_pairs(from, count, from_id, end_id));
}

/// Adds the order, time and pair filters of a history query that are set.
fn insert_time_filters(p: &mut Params, order: Option<TradeHistorySorting>, since: Option<i64>, end: Option<i64>, pair: Option<String>)
    requires
        keys_distinct(old(p).pairs()),
        names_within(old(p).pairs(), id_filter_names()),
    ensures
        keys_distinct(final(p).pairs()),
        final(p).pairs() == old(p).pairs() + spec_time_pairs(order, since, end, pair),
{
    proof {
        lemma_param_names();
    }
    let ghost p0 = p.pairs();
    let ghost names = id_filter_names();
    let t = match order {
        Some(o) => Some(String::from_str(o.as_str())),
        None => None,
    };
    assert(opt_text(t) == match order {
        Some(o) => Some(o.spec_name()),
        None => None,
    });
    insert_opt(p, "order", t, Ghost(names));
    let ghost names = names.insert("order"@);
    let t = match since {
        Some(x) => Some(i64_to_decimal(x)),
        None => None,
    };
    assert(opt_text(t) == opt_signed_decimal(since));
    insert_opt(p, "since", t, Ghost(names));
    let ghost names = names.insert("since"@);
    let t = match end {
        Some(x) => Some(i64_to_decimal(x)),
        None => None,
    };
    assert(opt_text(t) == opt_signed_decimal(end));
    insert_opt(p, "end", t, Ghost(names));
    let ghost names = names.insert("end"@);
    insert_opt(p, "pair", pair, Ghost(names));
    assert(p.pairs() =~= p0 + spec_time_pairs(order, since, end, pair));
}

/// The parameters of a history method with its optional filters.
fn history_params(method: &str, cfg: Option<HistoryQuery>) -> (p: Params)
    ensures
        keys_distinct(p.pairs()),
        p.pairs() == spec_history_pairs(method@, cfg),
{
    let mut p = method_params(method);
    match cfg {
        None => {
            assert(p.pairs() =~= spec_history_pairs(method@, cfg));
            p
        },
        Some(q) => {
            let ghost q0 = q;
            let ghost base = p.pairs();
            assert(names_within(p.pairs(), set!["method"@]));
            insert_id_filters(&mut p, q.from, q.count, q.from_id, q.end_id);
            insert_time_filters(&mut p, q.order, q.since, q.end, q.pair);
            assert(p.pairs() =~= base + spec_query_pairs(q0));
            p
        },
    }
}

/// Parameters of `TradeHistory`: the account's trades, filtered by `cfg`.
/// With `since` or `end` set the exchange sorts ascending, and with `since`
/// set it shows at most one week.
pub fn trade_history_params(cfg: Option<HistoryQuery>) -> (p: Params)
    ensures
        keys_distinct(p.pairs()),
        p.pairs() == spec_history_pairs("TradeHistory"@, cfg),
        history_filters_sent(p@, "TradeHistory"@, cfg),
{
    let p = history_params("TradeHistory", cfg);
    proof {
        lemma_history_params("TradeHistory"@, cfg);
    }
    p
}

/// Parameters of `TransHistory`: the account's transactions, filtered by `cfg`.
pub fn trans_history_params(cfg: Option<HistoryQuery>) -> (p: Params)
    ensures
        keys_distinct(p.pairs()),
        p.pairs() == spec_history_pairs("TransHistory"@, cfg),
        history_filters_sent(p@, "TransHistory"@, cfg),
{
    let p = history_params("TransHistory", cfg);
    proof {
        lemma_history_params("TransHistory"@, cfg);
    }
    p
}

/// The `Sign` value of a trade-API request: the HMAC-SHA512 tag of the UTF-8
/// body under the UTF-8 secret, in lowercase hexadecimal.
pub open spec fn spec_signature(secret: Seq<char>, body: Seq<char>) -> Seq<char> {
    spec_hex(spec_hmac_sha512(encode_utf8(secret), encode_utf8(body)))
}

/// A signed trade-API request, ready to be posted to the trade API's address.
pub struct PrivateRequest {
    /// The form body.
    pub body: String,
    /// The HTTP headers: content type, API key, signature.
    pub headers: Vec<String>,
}

/// Prepares a trade-API request: sets the `nonce` parameter to the decimal
/// form of `nonce` (the caller passes the current UNIX time in seconds),
/// encodes the parameters as the body and signs the body with the account's
/// secret.
pub fn private_request(account: &Account, params: &mut Params, nonce: u64) -> (req: PrivateRequest)
    ensures
        final(params).pairs() == spec_insert_pair(old(params).pairs(), "nonce"@, spec_decimal(nonce as nat)),
        final(params)@ == old(params)@.insert("nonce"@, spec_decimal(nonce as nat)),
        keys_distinct(old(params).pairs()),
        keys_distinct(final(params).pairs()),
        req.body@ == spec_form(final(params).pairs()),
        req.headers@.len() == 3,
        req.headers@[0]@ == "Content-Type: application/x-www-form-urlencoded"@,
        req.headers@[1]@ == "Key: "@ + account.key@,
        req.headers@[2]@ == "Sign: "@ + spec_signature(account.secret@, req.body@),
        spec_signature(account.secret@, req.body@).len() == 128,
        req.headers@[2]@ == "Sign: "@ + spec_hex(
            spec_hmac_sha512(encode_utf8(account.secret@), encode_utf8(req.body@)),
        ),
        req.headers@[2]@.len() == 134,
{
    params.insert(String::from_str("nonce"), u64_to_decimal(nonce));
    let body = params.encode();
    let tag = hmac_sha512(account.secret.as_str().as_bytes(), body.as_str().as_bytes());
    let sign = to_hex(tag.as_slice());
    proof {
        lemma_hex_len(tag@);
        reveal_strlit("Sign: ");
    }

    let mut key_header = String::from_str("Key: ");
    key_header.append(account.key.as_str());
    let mut sign_header = String::from_str("Sign: ");
    sign_header.append(sign.as_str());

    let mut headers: Vec<String> = Vec::new();
    headers.push(String::from_str("Content-Type: application/x-www-form-urlencoded"));
    headers.push(key_header);
    headers.push(sign_header);
    PrivateRequest { body, headers }
}

/// The value a signed request sends under `k`: the nonce under `nonce`,
/// otherwise what the caller had set.
pub open spec fn spec_sent_value(params: Seq<SpecPair>, nonce: u64, k: Seq<char>) -> Seq<char> {
    if k == "nonce"@ {
        spec_decimal(nonce as nat)
    } else {
        spec_pairs_map(params)[k]
    }
}

/// A signed request sends the nonce and every parameter the caller had set,
/// each as `name=value` with its value, the nonce replacing any earlier one.
pub proof fn lemma_request_sends_params(params: Seq<SpecPair>, nonce: u64, k: Seq<char>)
    requires
        keys_distinct(params),
        k == "nonce"@ || spec_pairs_map(params).dom().contains(k),
    ensures
        form_sends(
            spec_form(spec_insert_pair(params, "nonce"@, spec_decimal(nonce as nat))),
            k,
            spec_sent_value(params, nonce, k),
        ),
{
    let sent = spec_insert_pair(params, "nonce"@, spec_decimal(nonce as nat));
    lemma_insert_pair(params, "nonce"@, spec_decimal(nonce as nat));
    assert(spec_pairs_map(sent).dom().contains(k));
    assert(spec_pairs_map(sent)[k] == spec_sent_value(params, nonce, k));
    lemma_form_sends_param(sent, k);
}

/// A signed request's body reads back, split at `&` and then at the first
/// `=`, as exactly the parameters the caller had set with the nonce set:
/// none lost, added or repeated, provided no name the caller set holds `&` or
/// `=` and no value holds `&`.
pub proof fn lemma_request_body_decodes(params: Seq<SpecPair>, nonce: u64)
    requires
        form_safe(params),
    ensures
        form_decode(spec_form(spec_insert_pair(params, "nonce"@, spec_decimal(nonce as nat))))
            == spec_insert_pair(params, "nonce"@, spec_decimal(nonce as nat)),
{
    let k = "nonce"@;
    let v = spec_decimal(nonce as nat);
    let sent = spec_insert_pair(params, k, v);
    reveal_strlit("nonce");
    lemma_decimal_digits(nonce as nat);
    assert(!k.contains('&') && !k.contains('='));
    assert(!v.contains('&')) by {
        if v.contains('&') {
            let i = choose|i: int| 0 <= i < v.len() && v[i] == '&';
            assert(48 <= (v[i] as int) <= 57);
        }
    }
    assert(form_safe(sent)) by {
        assert forall|i: int| 0 <= i < sent.len() implies !(#[trigger] sent[i]).0.contains('&')
            && !sent[i].0.contains('=') && !sent[i].1.contains('&') by {
            if i < params.len() {
                let _ = params[i];
            }
        }
    }
    lemma_form_decode(sent);
}

/// The map of an optional parameter: the one entry when a value is given.
proof fn lemma_opt_pair_map(k: Seq<char>, v: Option<Seq<char>>)
    ensures
        spec_pairs_map(opt_pair(k, v)) == match v {
            Some(x) => Map::<Seq<char>, Seq<char>>::empty().insert(k, x),
            None => Map::<Seq<char>, Seq<char>>::empty(),
        },
{
    match v {
        Some(x) => {
            let ps = opt_pair(k, v);
            assert(ps.drop_last() =~= Seq::<SpecPair>::empty());
            assert(spec_pairs_map(ps.drop_last()) == spec_pairs_map(Seq::<SpecPair>::empty()));
            assert(ps.last() == (k, x));
            assert(spec_pairs_map(ps) =~= Map::<Seq<char>, Seq<char>>::empty().insert(k, x));
        },
        None => {
            assert(spec_pairs_map(opt_pair(k, v)) =~= Map::<Seq<char>, Seq<char>>::empty());
        },
    }
}

/// What the id filters set: `from`, `count`, `from_id` and `end_id` each hold
/// the decimal form of the query's number exactly when the query gives one,
/// whatever the other filters are, and nothing else is set.
proof fn lemma_id_filters(from: Option<u64>, count: Option<u64>, from_id: Option<u64>, end_id: Option<u64>)
    ensures
        ({
            let m = spec_pairs_map(spec_id_pairs(from, count, from_id, end_id));
            &&& (m.contains_key("from"@) <==> from is Some)
            &&& (from matches Some(x) ==> m["from"@] == spec_decimal(x as nat))
            &&& (m.contains_key("count"@) <==> count is Some)
            &&& (count matches Some(x) ==> m["count"@] == spec_decimal(x as nat))
            &&& (m.contains_key("from_id"@) <==> from_id is Some)
            &&& (from_id matches Some(x) ==> m["from_id"@] == spec_decimal(x as nat))
            &&& (m.contains_key("end_id"@) <==> end_id is Some)
            &&& (end_id matches Some(x) ==> m["end_id"@] == spec_decimal(x as nat))
            &&& forall|k: Seq<char>| #[trigger] m.contains_key(k)
                ==> k == "from"@ || k == "count"@ || k == "from_id"@ || k == "end_id"@
        }),
{
    lemma_param_names();
    let a = opt_pair("from"@, opt_decimal(from));
    let b = opt_pair("count"@, opt_decimal(count));
    let c = opt_pair("from_id"@, opt_decimal(from_id));
    let d = opt_pair("end_id"@, opt_decimal(end_id));
    lemma_pairs_map_concat(a, b);
    lemma_pairs_map_concat(a + b, c);
    lemma_pairs_map_concat(a + b + c, d);
    lemma_opt_pair_map("from"@, opt_decimal(from));
    lemma_opt_pair_map("count"@, opt_decimal(count));
    lemma_opt_pair_map("from_id"@, opt_decimal(from_id));
    lemma_opt_pair_map("end_id"@, opt_decimal(end_id));
}

/// What the remaining filters set: `order` holds `asc` or `desc`, `since`
/// and `end` the signed decimal form of the time, and `pair` the pair, each
/// exactly when the query gives it, whatever the other filters are, and
/// nothing else is set.
proof fn lemma_time_filters(order: Option<TradeHistorySorting>, since: Option<i64>, end: Option<i64>, pair: Option<String>)
    ensures
        ({
            let m = spec_pairs_map(spec_time_pairs(order, since, end, pair));
            &&& (m.contains_key("order"@) <==> order is Some)
            &&& (order == Some(TradeHistorySorting::Asc) ==> m["order"@] == "asc"@)
            &&& (order == Some(TradeHistorySorting::Desc) ==> m["order"@] == "desc"@)
            &&& (m.contains_key("since"@) <==> since is Some)
            &&& (since matches Some(x) ==> m["since"@] == spec_signed_decimal(x as int))
            &&& (m.contains_key("end"@) <==> end is Some)
            &&& (end matches Some(x) ==> m["end"@] == spec_signed_decimal(x as int))
            &&& (m.contains_key("pair"@) <==> pair is Some)
            &&& (pair matches Some(x) ==> m["pair"@] == x@)
            &&& forall|k: Seq<char>| #[trigger] m.contains_key(k)
                ==> k == "order"@ || k == "since"@ || k == "end"@ || k == "pair"@
        }),
{
    lemma_param_names();
    let ov = match order {
        Some(o) => Some(o.spec_name()),
        None => None,
    };
    let a = opt_pair("order"@, ov);
    let b = opt_pair("since"@, opt_signed_decimal(since));
    let c = opt_pair("end"@, opt_signed_decimal(end));
    let d = opt_pair("pair"@, opt_text(pair));
    lemma_pairs_map_concat(a, b);
    lemma_pairs_map_concat(a + b, c);
    lemma_pairs_map_concat(a + b + c, d);
    lemma_opt_pair_map("order"@, ov);
    lemma_opt_pair_map("since"@, opt_signed_decimal(since));
    lemma_opt_pair_map("end"@, opt_signed_decimal(end));
    lemma_opt_pair_map("pair"@, opt_text(pair));
}

/// What a history request sets, filter by filter: `method` holds the method
/// name; with no query nothing else is set; with a query, `from`, `count`,
/// `from_id` and `end_id` hold the decimal form of the number, `order` holds
/// `asc` or `desc`, `since` and `end` the signed decimal form of the time and
/// `pair` the pair, each exactly when the query gives it, whatever the other
/// filters are; no other name is set.
pub open spec fn history_filters_sent(
    m: Map<Seq<char>, Seq<char>>,
    method: Seq<char>,
    cfg: Option<HistoryQuery>,
) -> bool {
    &&& m.contains_key("method"@)
    &&& m["method"@] == method
    &&& forall|k: Seq<char>| #[trigger] m.contains_key(k) ==>
        k == "method"@ || k == "from"@ || k == "count"@ || k == "from_id"@ || k == "end_id"@
            || k == "order"@ || k == "since"@ || k == "end"@ || k == "pair"@
    &&& match cfg {
        None => m.dom() == set!["method"@],
        Some(q) => {
            &&& (m.contains_key("from"@) <==> q.from is Some)
            &&& (q.from matches Some(x) ==> m["from"@] == spec_decimal(x as nat))
            &&& (m.contains_key("count"@) <==> q.count is Some)
            &&& (q.count matches Some(x) ==> m["count"@] == spec_decimal(x as nat))
            &&& (m.contains_key("from_id"@) <==> q.from_id is Some)
            &&& (q.from_id matches Some(x) ==> m["from_id"@] == spec_decimal(x as nat))
            &&& (m.contains_key("end_id"@) <==> q.end_id is Some)
            &&& (q.end_id matches Some(x) ==> m["end_id"@] == spec_decimal(x as nat))
            &&& (m.contains_key("order"@) <==> q.order is Some)
            &&& (q.order == Some(TradeHistorySorting::Asc) ==> m["order"@] == "asc"@)
            &&& (q.order == Some(TradeHistorySorting::Desc) ==> m["order"@] == "desc"@)
            &&& (m.contains_key("since"@) <==> q.since is Some)
            &&& (q.since matches Some(x) ==> m["since"@] == spec_signed_decimal(x as int))
            &&& (m.contains_key("end"@) <==> q.end is Some)
            &&& (q.end matches Some(x) ==> m["end"@] == spec_signed_decimal(x as int))
            &&& (m.contains_key("pair"@) <==> q.pair is Some)
            &&& (q.pair matches Some(x) ==> m["pair"@] == x@)
        },
    }
}

/// The parameters of a history method hold each filter of the query, and
/// only those, filter by filter.
pub proof fn lemma_history_params(method: Seq<char>, cfg: Option<HistoryQuery>)
    ensures
        history_filters_sent(spec_pairs_map(spec_history_pairs(method, cfg)), method, cfg),
{
    lemma_param_names();
    let head = seq![("method"@, method)];
    assert(head.drop_last() =~= Seq::<SpecPair>::empty());
    assert(spec_pairs_map(head.drop_last()) == spec_pairs_map(Seq::<SpecPair>::empty()));
    assert(spec_pairs_map(head) =~= Map::<Seq<char>, Seq<char>>::empty().insert("method"@, method));
    match cfg {
        None => {
            assert(spec_history_pairs(method, cfg) =~= head);
            assert(spec_pairs_map(head).dom() =~= set!["method"@]);
        },
        Some(q) => {
            let ids = spec_id_pairs(q.from, q.count, q.from_id, q.end_id);
            let times = spec_time_pairs(q.order, q.since, q.end, q.pair);
            lemma_id_filters(q.from, q.count, q.from_id, q.end_id);
            lemma_time_filters(q.order, q.since, q.end, q.pair);
            lemma_pairs_map_concat(ids, times);
            lemma_pairs_map_concat(head, ids + times);
            assert(spec_history_pairs(method, cfg) == head + (ids + times));
        },
    }
}

} // verus!
