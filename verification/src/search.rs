use vstd::prelude::*;
use crate::dict::Dict;
use crate::history::text_or;
use crate::request::pairs_view;
use crate::text::{i64_to_text, int_text};
use crate::value::{
    elem, index, json_array, json_elem, json_get, json_opt_str, json_str, opt_i64, opt_str,
    option_int, option_text, str_of, str_or_empty, text_opt, HayashiValue, JsonValue,
};

verus! {

/// The path of Yahoo's search endpoint.
pub const SEARCH_PATH: &'static str = "/v1/finance/search";

/// `v` brought into `lo..=hi`.
pub open spec fn clamp(v: int, lo: int, hi: int) -> int {
    if v < lo {
        lo
    } else if v > hi {
        hi
    } else {
        v
    }
}

/// The number of search results asked for: the `limit` option (default 10)
/// brought into 1 to 50.
pub open spec fn search_limit(opts: Dict<HayashiValue>) -> int {
    clamp(
        match option_int(opts, "limit"@) {
            Some(l) => l as int,
            None => 10,
        },
        1,
        50,
    )
}

/// A search never asks for fewer than 1 or more than 50 results.
pub proof fn law_search_limit_bounds(opts: Dict<HayashiValue>)
    ensures
        1 <= search_limit(opts) <= 50,
{
}

/// The limit of a search is the `limit` option brought into 1 to 50: a limit
/// of 1 to 50 is kept as it is, a smaller one becomes 1, a larger one 50, and
/// without one it is 10.
pub proof fn law_limit_is_clamped_option(opts: Dict<HayashiValue>)
    ensures
        option_int(opts, "limit"@) matches Some(l) ==> (1 <= l <= 50 ==> search_limit(opts) == l),
        option_int(opts, "limit"@) matches Some(l) ==> (l < 1 ==> search_limit(opts) == 1),
        option_int(opts, "limit"@) matches Some(l) ==> (l > 50 ==> search_limit(opts) == 50),
        option_int(opts, "limit"@) is None ==> search_limit(opts) == 10,
{
}

/// With the `quotes` option off, a search asks for no quotes at all; with it
/// on, for between 1 and 50.
pub proof fn law_quotes_option(query: Seq<char>, opts: Dict<HayashiValue>)
    ensures
        !quotes_on(opts) ==> search_params(query, opts)[1] == ("quotesCount"@, "0"@),
        quotes_on(opts) ==> search_params(query, opts)[1] == ("quotesCount"@, int_text(search_limit(opts)))
            && 1 <= search_limit(opts) <= 50,
{
}

/// A yes/no option: on when its text, or the default, is `true`.
pub open spec fn flag_on(opt: Option<Seq<char>>, default: Seq<char>) -> bool {
    text_or(opt, default) == "true"@
}

/// Are quotes (tickers) to be included? The `quotes` option, on by default.
pub open spec fn quotes_on(opts: Dict<HayashiValue>) -> bool {
    flag_on(option_text(opts, "quotes"@), "true"@)
}

/// Are news to be included? The `news` option, off by default.
pub open spec fn news_on(opts: Dict<HayashiValue>) -> bool {
    flag_on(option_text(opts, "news"@), "false"@)
}

/// The query parameters of a search for `query`: the query; as many quotes as
/// the limit asks, or none when quotes are off; the phrase-match query id
/// when quotes are on; ten news items when news are on, else none.
pub open spec fn search_params(query: Seq<char>, opts: Dict<HayashiValue>) -> Seq<(Seq<char>, Seq<char>)> {
    seq![
        ("q"@, query),
        ("quotesCount"@, if quotes_on(opts) {
            int_text(search_limit(opts))
        } else {
            "0"@
        }),
        ("quotesQueryId"@, if quotes_on(opts) {
            "tss_match_phrase"@
        } else {
            Seq::empty()
        }),
        ("newsCount"@, if news_on(opts) {
            "10"@
        } else {
            "0"@
        }),
    ]
}

fn flag(opt: Option<String>, default: &str) -> (b: bool)
    ensures
        b == flag_on(text_opt(opt), default@),
{
    let t = match opt {
        Some(s) => s,
        None => String::from_str(default),
    };
    t == String::from_str("true")
}

fn limit_of(options: &Dict<HayashiValue>) -> (l: i64)
    ensures
        l == search_limit(*options),
{
    let l = match opt_i64(options, "limit") {
        Some(l) => l,
        None => 10,
    };
    if l < 1 {
        1
    } else if l > 50 {
        50
    } else {
        l
    }
}

/// The query parameters of a search for `query` (see `search_params`).
pub fn search_request(query: &str, options: &Dict<HayashiValue>) -> (r: Vec<(String, String)>)
    ensures
        pairs_view(r@) == search_params(query@, *options),
{
    let limit = limit_of(options);
    let quotes = flag(opt_str(options, "quotes"), "true");
    let news = flag(opt_str(options, "news"), "false");
    let mut r: Vec<(String, String)> = Vec::new();
    r.push((String::from_str("q"), String::from_str(query)));
    let count = if quotes {
        i64_to_text(limit)
    } else {
        String::from_str("0")
    };
    r.push((String::from_str("quotesCount"), count));
    let id = if quotes {
        String::from_str("tss_match_phrase")
    } else {
        String::new()
    };
    r.push((String::from_str("quotesQueryId"), id));
    let count = if news {
        String::from_str("10")
    } else {
        String::from_str("0")
    };
    r.push((String::from_str("newsCount"), count));
    assert(pairs_view(r@) =~= search_params(query@, *options));
    r
}

/// The query parameters of a search for the single best symbol of `query`.
pub fn search_symbol_request(query: &str) -> (r: Vec<(String, String)>)
    ensures
        pairs_view(r@) == seq![
            ("q"@, query@),
            ("quotesCount"@, "1"@),
            ("quotesQueryId"@, "tss_match_phrase"@),
        ],
{
    let mut r: Vec<(String, String)> = Vec::new();
    r.push((String::from_str("q"), String::from_str(query)));
    r.push((String::from_str("quotesCount"), String::from_str("1")));
    r.push((String::from_str("quotesQueryId"), String::from_str("tss_match_phrase")));
    assert(pairs_view(r@) =~= seq![
        ("q"@, query@),
        ("quotesCount"@, "1"@),
        ("quotesQueryId"@, "tss_match_phrase"@),
    ]);
    r
}

/// The symbol of the first result of a search answer, or the error `no
/// results`; the empty text when that result has no symbol.
pub fn first_symbol(json: &JsonValue) -> (r: Result<String, String>)
    ensures
        match elem(index(*json, "quotes"@), 0) {
            Some(q) => r matches Ok(s) && s@ == str_or_empty(q, "symbol"@),
            None => r matches Err(e) && e@ == "no results"@,
        },
{
    let first = match json_get(json, "quotes") {
        Some(v) => json_elem(v, 0),
        None => None,
    };
    match first {
        Some(q) => Ok(json_str(q, "symbol")),
        None => Err(String::from_str("no results")),
    }
}

/// The fields of a search result that become columns, in order.
pub open spec fn search_fields_spec() -> Seq<Seq<char>> {
    seq![
        "symbol"@,
        "shortname"@,
        "longname"@,
        "exch"@,
        "type"@,
        "typeDisp"@,
        "sector"@,
        "industry"@,
    ]
}

fn search_fields() -> (r: Vec<String>)
    ensures
        r@.len() == search_fields_spec().len(),
        forall|i: int| 0 <= i < r@.len() ==> (#[trigger] r@[i])@ == search_fields_spec()[i],
{
    let mut r: Vec<String> = Vec::new();
    r.push(String::from_str("symbol"));
    r.push(String::from_str("shortname"));
    r.push(String::from_str("longname"));
    r.push(String::from_str("exch"));
    r.push(String::from_str("type"));
    r.push(String::from_str("typeDisp"));
    r.push(String::from_str("sector"));
    r.push(String::from_str("industry"));
    r
}

/// The names of the exchanges in `ex`, by code: from every entry whose
/// `exchCode` and `name` are strings; a later entry wins over an earlier one
/// with the same code.
pub open spec fn exchange_names(ex: Seq<JsonValue>) -> Map<Seq<char>, Seq<char>>
    decreases ex.len(),
{
    if ex.len() == 0 {
        Map::empty()
    } else {
        let m = exchange_names(ex.drop_last());
        match (str_of(index(ex.last(), "exchCode"@)), str_of(index(ex.last(), "name"@))) {
            (Some(c), Some(n)) => m.insert(c, n),
            _ => m,
        }
    }
}

/// The name of the exchange of code `code`, or the code itself.
pub open spec fn exchange_name(names: Map<Seq<char>, Seq<char>>, code: Seq<char>) -> Seq<char> {
    if names.contains_key(code) {
        names[code]
    } else {
        code
    }
}

/// An exchange listing with the code `code` and the name `name` (both
/// strings) gives that code that name, unless a later listing with string
/// code and name gives the same code another one.
pub proof fn law_last_listing_names_exchange(ex: Seq<JsonValue>, k: int, code: Seq<char>, name: Seq<char>)
    requires
        0 <= k < ex.len(),
        str_of(index(ex[k], "exchCode"@)) == Some(code),
        str_of(index(ex[k], "name"@)) == Some(name),
        forall|j: int|
            k < j < ex.len() && #[trigger] str_of(index(ex[j], "exchCode"@)) == Some(code) ==> str_of(
                index(ex[j], "name"@),
            ) is None,
    ensures
        exchange_names(ex).contains_key(code),
        exchange_names(ex)[code] == name,
    decreases ex.len(),
{
    if k < ex.len() - 1 {
        let t = ex.drop_last();
        assert forall|j: int|
            k < j < t.len() && #[trigger] str_of(index(t[j], "exchCode"@)) == Some(code) implies str_of(
                index(t[j], "name"@),
            ) is None by {
            assert(t[j] == ex[j]);
            assert(str_of(index(ex[j], "exchCode"@)) == Some(code));
        }
        law_last_listing_names_exchange(t, k, code, name);
        assert(str_of(index(ex[ex.len() - 1], "exchCode"@)) == Some(code) ==> str_of(
            index(ex[ex.len() - 1], "name"@),
        ) is None);
    }
}

/// `cols` is the table of the search results `results`: one column per field
/// of `search_fields_spec`, each cell the field's text (empty when it is not
/// a string); then, when the answer lists exchanges `ex`, an `exchange` column
/// with the name of each result's exchange.
pub open spec fn is_search_table(
    cols: Seq<(String, Vec<HayashiValue>)>,
    results: Seq<JsonValue>,
    ex: Option<Seq<JsonValue>>,
) -> bool {
    &&& cols.len() == search_fields_spec().len() + if ex is Some {
        1int
    } else {
        0int
    }
    &&& forall|f: int|
        0 <= f < search_fields_spec().len() ==> (#[trigger] cols[f]).0@ == search_fields_spec()[f]
            && cols[f].1@.len() == results.len() && forall|k: int|
            0 <= k < results.len() ==> (#[trigger] cols[f].1@[k] matches HayashiValue::Str(s) && s@
                == str_or_empty(results[k], search_fields_spec()[f]))
    &&& ex matches Some(e) ==> {
        let last = cols[search_fields_spec().len() as int];
        &&& last.0@ == "exchange"@
        &&& last.1@.len() == results.len()
        &&& forall|k: int|
            0 <= k < results.len() ==> (#[trigger] last.1@[k] matches HayashiValue::Str(s) && s@
                == exchange_name(exchange_names(e), str_or_empty(results[k], "exch"@)))
    }
}

/// The results a search keeps: the first `limit` of them.
pub open spec fn kept_results(results: Seq<JsonValue>, limit: int) -> Seq<JsonValue> {
    if results.len() <= limit {
        results
    } else {
        results.take(limit)
    }
}

/// A search table holds the first results of the answer, in order: as many
/// as the limit allows (at most 50), and every result when the answer has no
/// more than that.
pub proof fn law_results_within_limit(results: Seq<JsonValue>, opts: Dict<HayashiValue>)
    ensures
        kept_results(results, search_limit(opts)).len() <= search_limit(opts) <= 50,
        kept_results(results, search_limit(opts)).len() == if results.len() <= search_limit(opts) {
            results.len() as int
        } else {
            search_limit(opts)
        },
        forall|i: int|
            0 <= i < kept_results(results, search_limit(opts)).len() ==> #[trigger] kept_results(
                results,
                search_limit(opts),
            )[i] == results[i],
        results.len() <= search_limit(opts) ==> kept_results(results, search_limit(opts)) == results,
{
}

/// The exchanges an answer lists, when `json["exchanges"]` is an array.
pub open spec fn answer_exchanges(json: JsonValue) -> Option<Seq<JsonValue>> {
    match index(json, "exchanges"@) {
        JsonValue::Array(a) => Some(a@),
        _ => None,
    }
}

fn exchange_map(ex: &Vec<JsonValue>) -> (d: Dict<String>)
    ensures
        forall|k: Seq<char>|
            #[trigger] d.as_map().contains_key(k) == exchange_names(ex@).contains_key(k),
        forall|k: Seq<char>|
            #[trigger] d.as_map().contains_key(k) ==> d.as_map()[k]@ == exchange_names(ex@)[k],
{
    let mut d: Dict<String> = Dict::new();
    let mut i: usize = 0;
    while i < ex.len()
        invariant
            i <= ex@.len(),
            forall|k: Seq<char>|
                #[trigger] d.as_map().contains_key(k) == exchange_names(ex@.take(i as int)).contains_key(k),
            forall|k: Seq<char>|
                #[trigger] d.as_map().contains_key(k) ==> d.as_map()[k]@ == exchange_names(ex@.take(i as int))[k],
        decreases ex@.len() - i,
    {
        let code = json_opt_str(&ex[i], "exchCode");
        let name = json_opt_str(&ex[i], "name");
        let ghost before = ex@.take(i as int);
        assert(ex@.take(i + 1).drop_last() =~= before);
        assert(ex@.take(i + 1).last() == ex@[i as int]);
        match (code, name) {
            (Some(c), Some(n)) => {
                d.insert(c, n);
            },
            _ => {},
        }
        i = i + 1;
    }
    assert(ex@.take(ex@.len() as int) =~= ex@);
    d
}

/// Reads the table of a search answer (see `is_search_table`), keeping at
/// most as many results as the `limit` option allows (see `search_limit`),
/// or the error `missing quotes` when it has no array of quotes.
pub fn search_columns(json: &JsonValue, options: &Dict<HayashiValue>) -> (r: Result<
    Vec<(String, Vec<HayashiValue>)>,
    String,
>)
    ensures
        match index(*json, "quotes"@) {
            JsonValue::Array(results) => r matches Ok(cols) && is_search_table(
                cols@,
                kept_results(results@, search_limit(*options)),
                answer_exchanges(*json),
            ),
            _ => r matches Err(e) && e@ == "missing quotes"@,
        },
{
    let all = match json_get(json, "quotes") {
        Some(v) => json_array(v),
        None => None,
    };
    let all = match all {
        Some(a) => a,
        None => {
            return Err(String::from_str("missing quotes"));
        },
    };
    let limit = limit_of(options) as usize;
    let n: usize = if all.len() <= limit {
        all.len()
    } else {
        limit
    };
    let ghost results = kept_results(all@, search_limit(*options));
    assert(results.len() == n);
    assert(forall|j: int| 0 <= j < n ==> #[trigger] results[j] == all@[j]);
    let fields = search_fields();
    let mut cols: Vec<(String, Vec<HayashiValue>)> = Vec::new();
    let mut f: usize = 0;
    while f < fields.len()
        invariant
            n <= all@.len(),
            results.len() == n,
            forall|j: int| 0 <= j < n ==> #[trigger] results[j] == all@[j],
            fields@.len() == search_fields_spec().len(),
            forall|i: int| 0 <= i < fields@.len() ==> (#[trigger] fields@[i])@ == search_fields_spec()[i],
            f <= fields@.len(),
            cols@.len() == f,
            forall|g: int|
                0 <= g < f ==> (#[trigger] cols@[g]).0@ == search_fields_spec()[g]
                    && cols@[g].1@.len() == n && forall|k: int|
                    0 <= k < n ==> (#[trigger] cols@[g].1@[k] matches HayashiValue::Str(s)
                        && s@ == str_or_empty(results[k], search_fields_spec()[g])),
        decreases fields@.len() - f,
    {
        let name = &fields[f];
        let mut values: Vec<HayashiValue> = Vec::new();
        let mut k: usize = 0;
        while k < n
            invariant
                n <= all@.len(),
                results.len() == n,
                forall|j: int| 0 <= j < n ==> #[trigger] results[j] == all@[j],
                k <= n,
                values@.len() == k,
                forall|j: int|
                    0 <= j < k ==> (#[trigger] values@[j] matches HayashiValue::Str(s) && s@
                        == str_or_empty(results[j], name@)),
            decreases n - k,
        {
            values.push(HayashiValue::Str(json_str(&all[k], name.as_str())));
            k = k + 1;
        }
        cols.push((name.clone(), values));
        f = f + 1;
    }
    let exchanges = match json_get(json, "exchanges") {
        Some(v) => json_array(v),
        None => None,
    };
    match exchanges {
        Some(ex) => {
            let names_by_code = exchange_map(ex);
            let mut names: Vec<HayashiValue> = Vec::new();
            let mut k: usize = 0;
            while k < n
                invariant
                    n <= all@.len(),
                    results.len() == n,
                    forall|j: int| 0 <= j < n ==> #[trigger] results[j] == all@[j],
                    k <= n,
                    names@.len() == k,
                    forall|c: Seq<char>|
                        #[trigger] names_by_code.as_map().contains_key(c) == exchange_names(ex@).contains_key(c),
                    forall|c: Seq<char>|
                        #[trigger] names_by_code.as_map().contains_key(c) ==> names_by_code.as_map()[c]@
                            == exchange_names(ex@)[c],
                    forall|j: int|
                        0 <= j < k ==> (#[trigger] names@[j] matches HayashiValue::Str(s) && s@
                            == exchange_name(exchange_names(ex@), str_or_empty(results[j], "exch"@))),
                decreases n - k,
            {
                let code = json_str(&all[k], "exch");
                let name = match names_by_code.get(code.as_str()) {
                    Some(nm) => nm.clone(),
                    None => code,
                };
                names.push(HayashiValue::Str(name));
                k = k + 1;
            }
            cols.push((String::from_str("exchange"), names));
        },
        None => {},
    }
    Ok(cols)
}

} // verus!
