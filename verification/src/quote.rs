use vstd::prelude::*;
use crate::dict::Dict;
use crate::text::{join, join_text, texts};
use crate::value::{
    converts, elem, index, index_to_hayashi, json_array, json_elem, json_get2, json_number,
    HayashiValue, JsonValue, Number,
};

verus! {

/// The path of Yahoo's quote endpoint.
pub const QUOTE_PATH: &'static str = "/v7/finance/quote";

/// The fields that `quotes` puts in its table, in order.
pub open spec fn quote_fields_spec() -> Seq<Seq<char>> {
    seq![
        "symbol"@,
        "shortName"@,
        "longName"@,
        "currency"@,
        "regularMarketPrice"@,
        "regularMarketChange"@,
        "regularMarketChangePercent"@,
        "regularMarketPreviousClose"@,
        "regularMarketOpen"@,
        "regularMarketDayHigh"@,
        "regularMarketDayLow"@,
        "regularMarketVolume"@,
        "fiftyTwoWeekHigh"@,
        "fiftyTwoWeekLow"@,
        "trailingPE"@,
        "forwardPE"@,
        "dividendYield"@,
    ]
}

/// The fields that `quotes` puts in its table, in order.
pub fn quote_fields() -> (r: Vec<String>)
    ensures
        texts(r@) == quote_fields_spec(),
{
    let mut r: Vec<String> = Vec::new();
    r.push(String::from_str("symbol"));
    r.push(String::from_str("shortName"));
    r.push(String::from_str("longName"));
    r.push(String::from_str("currency"));
    r.push(String::from_str("regularMarketPrice"));
    r.push(String::from_str("regularMarketChange"));
    r.push(String::from_str("regularMarketChangePercent"));
    r.push(String::from_str("regularMarketPreviousClose"));
    r.push(String::from_str("regularMarketOpen"));
    r.push(String::from_str("regularMarketDayHigh"));
    r.push(String::from_str("regularMarketDayLow"));
    r.push(String::from_str("regularMarketVolume"));
    r.push(String::from_str("fiftyTwoWeekHigh"));
    r.push(String::from_str("fiftyTwoWeekLow"));
    r.push(String::from_str("trailingPE"));
    r.push(String::from_str("forwardPE"));
    r.push(String::from_str("dividendYield"));
    assert(texts(r@) =~= quote_fields_spec());
    r
}

/// The query parameters of a quote request for the given symbols.
pub fn quote_params(symbols: &str) -> (r: Vec<(String, String)>)
    ensures
        r@.len() == 1,
        r@[0].0@ == "symbols"@,
        r@[0].1@ == symbols@,
{
    let mut r: Vec<(String, String)> = Vec::new();
    r.push((String::from_str("symbols"), String::from_str(symbols)));
    r
}

/// The symbols of several tickers, separated by commas.
pub fn join_symbols(tickers: &Vec<String>) -> (r: String)
    ensures
        r@ == join_text(texts(tickers@), ","@),
{
    join(tickers, ",")
}

/// The quote results of a quote answer: `json["quoteResponse"]["result"]`.
pub open spec fn quote_results(json: JsonValue) -> JsonValue {
    index(index(json, "quoteResponse"@), "result"@)
}

/// The first quote of a quote answer, or the error `ticker not found`.
pub fn first_quote(json: &JsonValue) -> (r: Result<&JsonValue, String>)
    ensures
        match elem(quote_results(*json), 0) {
            Some(q) => r matches Ok(v) && *v == q,
            None => r matches Err(e) && e@ == "ticker not found"@,
        },
{
    let first = match json_get2(json, "quoteResponse", "result") {
        Some(results) => json_elem(results, 0),
        None => None,
    };
    match first {
        Some(q) => Ok(q),
        None => Err(String::from_str("ticker not found")),
    }
}

/// The price of a quote: its `regularMarketPrice` when that is a number,
/// else the error `price not available`.
pub fn quote_price(q: &JsonValue) -> (r: Result<Number, String>)
    ensures
        match index(*q, "regularMarketPrice"@) {
            JsonValue::Number(n) => r == Ok::<Number, String>(n),
            _ => r matches Err(e) && e@ == "price not available"@,
        },
{
    match json_number(q, "regularMarketPrice") {
        Some(n) => Ok(n.duplicate()),
        None => Err(String::from_str("price not available")),
    }
}

/// `key` when the field `field` of `q` is a number, else nothing.
pub open spec fn number_key(q: JsonValue, field: Seq<char>, key: Seq<char>) -> Seq<Seq<char>> {
    if index(q, field) is Number {
        seq![key]
    } else {
        Seq::empty()
    }
}

/// `key` mapped to the field `field` of `q` when that is a number.
pub open spec fn number_entry(q: JsonValue, field: Seq<char>, key: Seq<char>) -> Map<Seq<char>, Number> {
    match index(q, field) {
        JsonValue::Number(n) => map![key => n],
        _ => Map::empty(),
    }
}

fn insert_number(d: &mut Dict<Number>, q: &JsonValue, field: &str, key: &str)
    ensures
        final(d).as_map() == old(d).as_map().union_prefer_right(number_entry(*q, field@, key@)),
        !old(d).as_map().contains_key(key@) ==> final(d).key_seq() == old(d).key_seq() + number_key(
            *q,
            field@,
            key@,
        ),
{
    match json_number(q, field) {
        Some(n) => {
            d.insert(String::from_str(key), n.duplicate());
            assert(final(d).as_map() =~= old(d).as_map().union_prefer_right(number_entry(*q, field@, key@)));
            assert(old(d).key_seq().push(key@) =~= old(d).key_seq() + number_key(*q, field@, key@));
        },
        None => {
            assert(old(d).as_map().union_prefer_right(number_entry(*q, field@, key@)) =~= old(d).as_map());
            assert(old(d).key_seq() + number_key(*q, field@, key@) =~= old(d).key_seq());
        },
    }
}

/// The 52-week range of a quote: `high` for its `fiftyTwoWeekHigh` and `low`
/// for its `fiftyTwoWeekLow`, each only when that field is a number, in that
/// order.
pub fn week_range(q: &JsonValue) -> (d: Dict<Number>)
    ensures
        d.as_map() == number_entry(*q, "fiftyTwoWeekHigh"@, "high"@).union_prefer_right(
            number_entry(*q, "fiftyTwoWeekLow"@, "low"@),
        ),
        d.key_seq() == number_key(*q, "fiftyTwoWeekHigh"@, "high"@) + number_key(
            *q,
            "fiftyTwoWeekLow"@,
            "low"@,
        ),
{
    let mut d: Dict<Number> = Dict::new();
    insert_number(&mut d, q, "fiftyTwoWeekHigh", "high");
    proof {
        reveal_strlit("high");
        reveal_strlit("low");
        assert("high"@.len() != "low"@.len());
        assert(Map::<Seq<char>, Number>::empty().union_prefer_right(
            number_entry(*q, "fiftyTwoWeekHigh"@, "high"@),
        ) =~= number_entry(*q, "fiftyTwoWeekHigh"@, "high"@));
        assert(Seq::<Seq<char>>::empty() + number_key(*q, "fiftyTwoWeekHigh"@, "high"@) =~= number_key(
            *q,
            "fiftyTwoWeekHigh"@,
            "high"@,
        ));
    }
    insert_number(&mut d, q, "fiftyTwoWeekLow", "low");
    d
}

/// The table of a quote answer: one column per field of `quote_fields_spec`,
/// one converted value per quote (null when a quote lacks the field); the
/// error `missing quote result` when the answer holds no array of results.
pub fn quote_columns(json: &JsonValue) -> (r: Result<Vec<(String, Vec<HayashiValue>)>, String>)
    ensures
        match quote_results(*json) {
            JsonValue::Array(results) => r matches Ok(cols) && cols@.len()
                == quote_fields_spec().len() && forall|f: int|
                0 <= f < cols@.len() ==> (#[trigger] cols@[f]).0@ == quote_fields_spec()[f]
                    && cols@[f].1@.len() == results@.len() && forall|k: int|
                    0 <= k < results@.len() ==> converts(
                        index(results@[k], quote_fields_spec()[f]),
                        #[trigger] cols@[f].1@[k],
                    ),
            _ => r matches Err(e) && e@ == "missing quote result"@,
        },
{
    let results = match json_get2(json, "quoteResponse", "result") {
        Some(v) => json_array(v),
        None => None,
    };
    let results = match results {
        Some(a) => a,
        None => {
            return Err(String::from_str("missing quote result"));
        },
    };
    let fields = quote_fields();
    let mut cols: Vec<(String, Vec<HayashiValue>)> = Vec::new();
    let mut f: usize = 0;
    while f < fields.len()
        invariant
            quote_results(*json) == JsonValue::Array(*results),
            texts(fields@) == quote_fields_spec(),
            f <= fields@.len(),
            cols@.len() == f,
            forall|g: int|
                0 <= g < f ==> (#[trigger] cols@[g]).0@ == quote_fields_spec()[g]
                    && cols@[g].1@.len() == results@.len() && forall|k: int|
                    0 <= k < results@.len() ==> converts(
                        index(results@[k], quote_fields_spec()[g]),
                        #[trigger] cols@[g].1@[k],
                    ),
        decreases fields@.len() - f,
    {
        let name = &fields[f];
        assert(name@ == quote_fields_spec()[f as int]);
        let mut values: Vec<HayashiValue> = Vec::new();
        let mut k: usize = 0;
        while k < results.len()
            invariant
                k <= results@.len(),
                values@.len() == k,
                forall|j: int|
                    0 <= j < k ==> converts(index(results@[j], name@), #[trigger] values@[j]),
            decreases results@.len() - k,
        {
            values.push(index_to_hayashi(&results[k], name.as_str()));
            k = k + 1;
        }
        cols.push((name.clone(), values));
        f = f + 1;
    }
    Ok(cols)
}

} // verus!
