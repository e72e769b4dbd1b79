use vstd::prelude::*;
use crate::dates::{chrono_ymd_parse, is_date_text_of_millis, parse_date, timestamp_ms_to_date, unix_time};
use crate::dict::Dict;
use crate::frame::{Cells, Column};
use crate::request::pairs_view;
use crate::text::{i64_to_text, int_text};
use crate::value::{
    array_number, as_i64_or_zero, as_number, elem, index, int_or_zero, json_array, json_elem,
    json_get, json_get2, number_at, opt_str, option_text, text_opt, HayashiValue,
    JsonValue, Number,
};

verus! {

/// Daily (or weekly, monthly) prices of a ticker: one row per time stamp.
#[derive(Debug, PartialEq)]
pub struct History {
    pub dates: Vec<String>,
    pub open: Vec<Option<Number>>,
    pub high: Vec<Option<Number>>,
    pub low: Vec<Option<Number>>,
    pub close: Vec<Option<Number>>,
    pub adj_close: Vec<Option<Number>>,
    pub volume: Vec<Option<Number>>,
}

/// An option's text, or `default` when it has none.
pub open spec fn text_or(opt: Option<Seq<char>>, default: Seq<char>) -> Seq<char> {
    match opt {
        Some(t) => t,
        None => default,
    }
}

/// The Unix time of a `YYYY-MM-DD` option at `h:m:s` UTC; none when the
/// option is absent or chrono does not parse it.
pub open spec fn period(opt: Option<Seq<char>>, h: int, m: int, s: int) -> Option<int> {
    match opt {
        Some(t) => match chrono_ymd_parse(t) {
            Some((y, mo, d)) => Some(unix_time(y as int, mo as int, d as int, h, m, s)),
            None => None,
        },
        None => None,
    }
}

/// A parameter for a period bound, if there is one.
pub open spec fn period_param(name: Seq<char>, p: Option<int>) -> Seq<(Seq<char>, Seq<char>)> {
    match p {
        Some(t) => seq![(name, int_text(t))],
        None => Seq::empty(),
    }
}

/// The query parameters of a history request: `interval` (default `1d`);
/// then either `period1` (the start date at 00:00:00 UTC) and `period2` (the
/// end date at 23:59:59 UTC), each when its date is given and parses, or,
/// when neither is there, `range` (default `1y`). A start or end date
/// overrides the range, which is then not sent.
pub open spec fn history_params(opts: Dict<HayashiValue>) -> Seq<(Seq<char>, Seq<char>)> {
    let p1 = period(option_text(opts, "start"@), 0, 0, 0);
    let p2 = period(option_text(opts, "end"@), 23, 59, 59);
    seq![("interval"@, text_or(option_text(opts, "interval"@), "1d"@))] + (if p1 is None && p2 is None {
        seq![("range"@, text_or(option_text(opts, "range"@), "1y"@))]
    } else {
        Seq::empty()
    }) + period_param("period1"@, p1) + period_param("period2"@, p2)
}

/// A start or end date that parses overrides the range: the request then
/// holds no `range` parameter.
pub proof fn law_dates_override_range(opts: Dict<HayashiValue>)
    requires
        period(option_text(opts, "start"@), 0, 0, 0) is Some || period(option_text(opts, "end"@), 23, 59, 59) is Some,
    ensures
        forall|i: int| 0 <= i < history_params(opts).len() ==> (#[trigger] history_params(opts)[i]).0 != "range"@,
{
    reveal_strlit("range");
    reveal_strlit("interval");
    reveal_strlit("period1");
    reveal_strlit("period2");
    let ps = history_params(opts);
    assert forall|i: int| 0 <= i < ps.len() implies (#[trigger] ps[i]).0 != "range"@ by {
        assert(ps[i].0.len() != "range"@.len());
    }
}

fn option_or(opt: Option<String>, default: &str) -> (r: String)
    ensures
        r@ == text_or(text_opt(opt), default@),
{
    match opt {
        Some(s) => s,
        None => String::from_str(default),
    }
}

fn period_of(text: &Option<String>, h: u32, m: u32, s: u32) -> (r: Option<i64>)
    requires
        h < 24,
        m < 60,
        s < 60,
    ensures
        match period(text_opt(*text), h as int, m as int, s as int) {
            Some(t) => r matches Some(x) && x == t,
            None => r is None,
        },
{
    match text {
        Some(t) => match parse_date(t.as_str()) {
            Some(d) => Some(d.unix_seconds_at(h, m, s)),
            None => None,
        },
        None => None,
    }
}

/// The path and query parameters of a history request for `ticker` (see
/// `history_params`).
pub fn history_request(ticker: &str, options: &Dict<HayashiValue>) -> (r: (
    String,
    Vec<(String, String)>,
))
    ensures
        r.0@ == "/v8/finance/chart/"@ + ticker@,
        pairs_view(r.1@) == history_params(*options),
{
    let interval = option_or(opt_str(options, "interval"), "1d");
    let range = option_or(opt_str(options, "range"), "1y");
    let start = opt_str(options, "start");
    let end = opt_str(options, "end");
    let mut path = String::from_str("/v8/finance/chart/");
    path.append(ticker);
    let p1 = period_of(&start, 0, 0, 0);
    let p2 = period_of(&end, 23, 59, 59);
    let mut params: Vec<(String, String)> = Vec::new();
    params.push((String::from_str("interval"), interval));
    if p1.is_none() && p2.is_none() {
        params.push((String::from_str("range"), range));
    }
    let ghost head = pairs_view(params@);
    if let Some(t) = p1 {
        params.push((String::from_str("period1"), i64_to_text(t)));
    }
    let ghost mid = pairs_view(params@);
    assert(mid =~= head + period_param("period1"@, period(text_opt(start), 0, 0, 0)));
    if let Some(t) = p2 {
        params.push((String::from_str("period2"), i64_to_text(t)));
    }
    assert(pairs_view(params@) =~= mid + period_param("period2"@, period(text_opt(end), 23, 59, 59)));
    assert(pairs_view(params@) =~= history_params(*options));
    (path, params)
}

/// The first chart of a chart answer: `json["chart"]["result"][0]`.
pub open spec fn chart_result(json: JsonValue) -> Option<JsonValue> {
    elem(index(index(json, "chart"@), "result"@), 0)
}

/// The first quote indicator of a chart: `result["indicators"]["quote"][0]`.
pub open spec fn chart_quote(result: JsonValue) -> Option<JsonValue> {
    elem(index(index(result, "indicators"@), "quote"@), 0)
}

/// The adjusted closes of a chart, `result["indicators"]["adjclose"][0]["adjclose"]`,
/// when that is an array.
pub open spec fn chart_adjclose(result: JsonValue) -> Option<JsonValue> {
    match elem(index(index(result, "indicators"@), "adjclose"@), 0) {
        Some(o) => match index(o, "adjclose"@) {
            JsonValue::Array(a) => Some(JsonValue::Array(a)),
            _ => None,
        },
        None => None,
    }
}

/// The `i`-th item of a JSON array if it is a number.
pub open spec fn number_item(a: JsonValue, i: int) -> Option<Number> {
    match elem(a, i) {
        Some(JsonValue::Number(n)) => Some(n),
        _ => None,
    }
}

/// Row `i` of `h` is right for time stamp `ts[i]` (see `is_history_of`).
pub open spec fn history_row(
    h: History,
    ts: Seq<JsonValue>,
    quote: JsonValue,
    adj: Option<JsonValue>,
    i: int,
) -> bool {
    &&& is_date_text_of_millis(h.dates@[i]@, int_or_zero(ts[i]).wrapping_mul(1000) as int)
    &&& h.open@[i] == number_at(quote, "open"@, i)
    &&& h.high@[i] == number_at(quote, "high"@, i)
    &&& h.low@[i] == number_at(quote, "low"@, i)
    &&& h.close@[i] == number_at(quote, "close"@, i)
    &&& h.volume@[i] == number_at(quote, "volume"@, i)
    &&& h.adj_close@[i] == match adj {
        Some(a) => number_item(a, i),
        None => number_at(quote, "close"@, i),
    }
}

/// `h` is the table of the time stamps `ts`, the quote indicator `quote` and
/// the adjusted closes `adj`: the date of each time stamp (seconds, read as
/// milliseconds by multiplying with 1000, wrapping on overflow), the
/// numbers at the same place in each series, and for the adjusted close the
/// close itself when there are no adjusted closes.
pub open spec fn is_history_of(
    h: History,
    ts: Seq<JsonValue>,
    quote: JsonValue,
    adj: Option<JsonValue>,
) -> bool {
    &&& h.dates@.len() == ts.len()
    &&& h.open@.len() == ts.len()
    &&& h.high@.len() == ts.len()
    &&& h.low@.len() == ts.len()
    &&& h.close@.len() == ts.len()
    &&& h.adj_close@.len() == ts.len()
    &&& h.volume@.len() == ts.len()
    &&& forall|i: int| 0 <= i < ts.len() ==> #[trigger] history_row(h, ts, quote, adj, i)
}

/// The number at place `i` of the JSON array `a`, if that item is a number.
pub open spec fn number_in(a: Seq<JsonValue>, i: int) -> Option<Number> {
    if 0 <= i < a.len() {
        match a[i] {
            JsonValue::Number(n) => Some(n),
            _ => None,
        }
    } else {
        None
    }
}

/// The series `field` of a quote indicator, as the items of its array.
pub open spec fn series(quote: JsonValue, field: Seq<char>) -> Seq<JsonValue> {
    match index(quote, field) {
        JsonValue::Array(a) => a@,
        _ => Seq::empty(),
    }
}

/// The parts of a chart that a history table reads: the first quote
/// indicator, and the adjusted closes whenever the first `adjclose` indicator
/// holds an array of them.
pub proof fn law_chart_parts(res: JsonValue)
    ensures
        index(index(res, "indicators"@), "quote"@) matches JsonValue::Array(l) ==> (l@.len() > 0
            ==> chart_quote(res) == Some(l@[0])),
        index(index(res, "indicators"@), "adjclose"@) matches JsonValue::Array(l) ==> (l@.len() > 0
            && index(l@[0], "adjclose"@) is Array ==> chart_adjclose(res) == Some(
            index(l@[0], "adjclose"@),
        )),
{
}

/// Each row of a history table takes its prices from the same place in the
/// series of the answer: open, high, low, close and volume from the quote
/// indicator's arrays of those names (empty where the item is missing or not
/// a number); the adjusted close from the adjusted closes when the answer
/// holds them (never from the close), else the row's close.
pub proof fn law_rows_follow_series(
    h: History,
    ts: Seq<JsonValue>,
    quote: JsonValue,
    adj: Option<JsonValue>,
    i: int,
)
    requires
        is_history_of(h, ts, quote, adj),
        0 <= i < ts.len(),
    ensures
        h.open@[i] == number_in(series(quote, "open"@), i),
        h.high@[i] == number_in(series(quote, "high"@), i),
        h.low@[i] == number_in(series(quote, "low"@), i),
        h.close@[i] == number_in(series(quote, "close"@), i),
        h.volume@[i] == number_in(series(quote, "volume"@), i),
        adj matches Some(JsonValue::Array(a)) ==> h.adj_close@[i] == number_in(a@, i),
        adj is None ==> h.adj_close@[i] == h.close@[i],
{
    assert(history_row(h, ts, quote, adj, i));
}

/// Reads the table of a chart answer, or says what is missing: `no chart
/// data returned`, `missing timestamps`, `missing quote indicators`.
pub fn history_table(json: &JsonValue) -> (r: Result<History, String>)
    ensures
        match chart_result(*json) {
            None => r matches Err(e) && e@ == "no chart data returned"@,
            Some(res) => match index(res, "timestamp"@) {
                JsonValue::Array(ts) => match chart_quote(res) {
                    None => r matches Err(e) && e@ == "missing quote indicators"@,
                    Some(q) => r matches Ok(h) && is_history_of(h, ts@, q, chart_adjclose(res)),
                },
                _ => r matches Err(e) && e@ == "missing timestamps"@,
            },
        },
{
    let result = match json_get2(json, "chart", "result") {
        Some(v) => json_elem(v, 0),
        None => None,
    };
    let result = match result {
        Some(v) => v,
        None => {
            return Err(String::from_str("no chart data returned"));
        },
    };
    let timestamps = match json_get(result, "timestamp") {
        Some(v) => json_array(v),
        None => None,
    };
    let timestamps = match timestamps {
        Some(a) => a,
        None => {
            return Err(String::from_str("missing timestamps"));
        },
    };
    let quote = match json_get2(result, "indicators", "quote") {
        Some(v) => json_elem(v, 0),
        None => None,
    };
    let quote = match quote {
        Some(q) => q,
        None => {
            return Err(String::from_str("missing quote indicators"));
        },
    };
    let adj_obj = match json_get2(result, "indicators", "adjclose") {
        Some(v) => json_elem(v, 0),
        None => None,
    };
    let adjclose: Option<&JsonValue> = match adj_obj {
        Some(o) => match json_get(o, "adjclose") {
            Some(a) => match a {
                JsonValue::Array(_) => Some(a),
                _ => None,
            },
            None => None,
        },
        None => None,
    };
    assert(match adjclose {
        Some(a) => chart_adjclose(*result) == Some(*a),
        None => chart_adjclose(*result) is None,
    });
    let mut h = History {
        dates: Vec::new(),
        open: Vec::new(),
        high: Vec::new(),
        low: Vec::new(),
        close: Vec::new(),
        adj_close: Vec::new(),
        volume: Vec::new(),
    };
    let n = timestamps.len();
    let mut i: usize = 0;
    while i < n
        invariant
            n == timestamps@.len(),
            i <= n,
            match adjclose {
                Some(a) => chart_adjclose(*result) == Some(*a),
                None => chart_adjclose(*result) is None,
            },
            h.dates@.len() == i,
            h.open@.len() == i,
            h.high@.len() == i,
            h.low@.len() == i,
            h.close@.len() == i,
            h.adj_close@.len() == i,
            h.volume@.len() == i,
            forall|j: int|
                0 <= j < i ==> #[trigger] history_row(
                    h,
                    timestamps@,
                    *quote,
                    chart_adjclose(*result),
                    j,
                ),
        decreases n - i,
    {
        let ghost old_h = h;
        let ms = as_i64_or_zero(&timestamps[i]).wrapping_mul(1000);
        h.dates.push(timestamp_ms_to_date(ms));
        h.open.push(array_number(quote, "open", i));
        h.high.push(array_number(quote, "high", i));
        h.low.push(array_number(quote, "low", i));
        let c = array_number(quote, "close", i);
        let adj = match adjclose {
            Some(a) => match json_elem(a, i) {
                Some(x) => as_number(x),
                None => None,
            },
            None => match &c {
                Some(x) => Some(x.duplicate()),
                None => None,
            },
        };
        h.close.push(c);
        h.volume.push(array_number(quote, "volume", i));
        h.adj_close.push(adj);
        assert(history_row(h, timestamps@, *quote, chart_adjclose(*result), i as int));
        assert forall|j: int| 0 <= j < i implies #[trigger] history_row(
            h,
            timestamps@,
            *quote,
            chart_adjclose(*result),
            j,
        ) by {
            assert(history_row(old_h, timestamps@, *quote, chart_adjclose(*result), j));
            assert(h.dates@[j] == old_h.dates@[j]);
            assert(h.open@[j] == old_h.open@[j]);
            assert(h.high@[j] == old_h.high@[j]);
            assert(h.low@[j] == old_h.low@[j]);
            assert(h.close@[j] == old_h.close@[j]);
            assert(h.volume@[j] == old_h.volume@[j]);
            assert(h.adj_close@[j] == old_h.adj_close@[j]);
        }
        i = i + 1;
    }
    Ok(h)
}

/// `c` is the nullable numeric column `values` under `name`.
pub open spec fn is_number_column(c: Column, name: Seq<char>, values: Vec<Option<Number>>) -> bool {
    c.name@ == name && c.nullable && c.cells == Cells::Numbers(values)
}

/// The data frame of a history table: the `date` column of texts, never
/// missing, then the nullable numeric columns `open`, `high`, `low`,
/// `close`, `adj_close` and `volume`.
pub fn history_frame(h: History) -> (r: Vec<Column>)
    ensures
        r@.len() == 7,
        r@[0].name@ == "date"@ && !r@[0].nullable && r@[0].cells == Cells::Texts(h.dates),
        is_number_column(r@[1], "open"@, h.open),
        is_number_column(r@[2], "high"@, h.high),
        is_number_column(r@[3], "low"@, h.low),
        is_number_column(r@[4], "close"@, h.close),
        is_number_column(r@[5], "adj_close"@, h.adj_close),
        is_number_column(r@[6], "volume"@, h.volume),
{
    let mut r: Vec<Column> = Vec::new();
    r.push(Column { name: String::from_str("date"), nullable: false, cells: Cells::Texts(h.dates) });
    r.push(Column { name: String::from_str("open"), nullable: true, cells: Cells::Numbers(h.open) });
    r.push(Column { name: String::from_str("high"), nullable: true, cells: Cells::Numbers(h.high) });
    r.push(Column { name: String::from_str("low"), nullable: true, cells: Cells::Numbers(h.low) });
    r.push(Column { name: String::from_str("close"), nullable: true, cells: Cells::Numbers(h.close) });
    r.push(
        Column { name: String::from_str("adj_close"), nullable: true, cells: Cells::Numbers(h.adj_close) },
    );
    r.push(Column { name: String::from_str("volume"), nullable: true, cells: Cells::Numbers(h.volume) });
    r
}

} // verus!
