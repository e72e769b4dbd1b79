use hayahoo::dates::{format_ymd, parse_date, timestamp_ms_to_date};
use hayahoo::dict::Dict;
use hayahoo::frame::{build_mixed_df, build_string_df, Cells, Column};
use hayahoo::history::{history_frame, history_request, history_table};
use hayahoo::info::{info_request, summary_dict};
use hayahoo::quote::{
    first_quote, join_symbols, quote_columns, quote_fields, quote_params, quote_price, week_range,
};
use hayahoo::request::{request_url, set_apikey, Session, YAHOO_BASE};
use hayahoo::search::{first_symbol, search_columns, search_request, search_symbol_request};
use hayahoo::text::{i64_to_text, join, parse_i64, trim};
use hayahoo::value::{
    json_value_to_hayashi, opt_i64, opt_str, Float64, HayashiValue, JsonValue, Number,
};

fn float(f: f64) -> Float64 {
    Float64 { bits: f.to_bits(), text: f.to_string(), truncated: f as i64 }
}

fn object(entries: Vec<(&str, JsonValue)>) -> JsonValue {
    let mut d = Dict::new();
    for (k, v) in entries {
        d.insert(k.to_string(), v);
    }
    JsonValue::Object(d)
}

fn text(s: &str) -> JsonValue {
    JsonValue::String(s.to_string())
}

fn jint(i: i64) -> JsonValue {
    JsonValue::Number(Number::Int(i))
}

fn options(entries: Vec<(&str, HayashiValue)>) -> Dict<HayashiValue> {
    let mut d = Dict::new();
    for (k, v) in entries {
        d.insert(k.to_string(), v);
    }
    d
}

fn pairs(v: &[(String, String)]) -> Vec<(&str, &str)> {
    v.iter().map(|(a, b)| (a.as_str(), b.as_str())).collect()
}

#[test]
fn dict_insert_get_and_replace() {
    let mut d: Dict<i64> = Dict::new();
    assert_eq!(d.len(), 0);
    d.insert("a".to_string(), 1);
    d.insert("b".to_string(), 2);
    assert_eq!(d.get("a"), Some(&1));
    assert_eq!(d.get("b"), Some(&2));
    assert_eq!(d.get("c"), None);
    d.insert("a".to_string(), 3);
    assert_eq!(d.len(), 2);
    assert_eq!(d.get("a"), Some(&3));
    assert_eq!(d.key_at(0), "a");
    assert_eq!(d.key_at(1), "b");
    assert_eq!(*d.value_at(0), 3);
}

#[test]
fn integer_text_both_ways() {
    assert_eq!(i64_to_text(0), "0");
    assert_eq!(i64_to_text(-45), "-45");
    assert_eq!(i64_to_text(1705276800), "1705276800");
    assert_eq!(i64_to_text(i64::MIN), "-9223372036854775808");
    assert_eq!(i64_to_text(i64::MAX), "9223372036854775807");
    for v in [0i64, 7, -7, 10, 99, 100, i64::MAX, i64::MIN, -1000000007] {
        assert_eq!(parse_i64(&i64_to_text(v)), Some(v));
        assert_eq!(i64_to_text(v), v.to_string());
    }
}

#[test]
fn integer_parsing_like_std() {
    for s in [
        "", "+", "-", "12", "+12", "-12", "007", "1 ", " 1", "1a", "+-1", "9223372036854775807",
        "9223372036854775808", "-9223372036854775808", "-9223372036854775809",
        "99999999999999999999999", "٣",
    ] {
        assert_eq!(parse_i64(s), s.parse::<i64>().ok(), "text {:?}", s);
    }
}

#[test]
fn trimming_like_std() {
    for s in ["", "  ", " abc ", "\tq\r\n", "\u{3000}x\u{a0}", "a b", "\u{200b}z"] {
        assert_eq!(trim(s), s.trim(), "text {:?}", s);
    }
}

#[test]
fn joining_texts() {
    let v = vec!["AAPL".to_string(), "MSFT".to_string(), "BTC-USD".to_string()];
    assert_eq!(join(&v, ","), "AAPL,MSFT,BTC-USD");
    assert_eq!(join_symbols(&v), "AAPL,MSFT,BTC-USD");
    assert_eq!(join(&Vec::new(), ","), "");
    assert_eq!(join(&vec!["x".to_string()], ", "), "x");
}

#[test]
fn request_urls() {
    let none: Vec<(String, String)> = Vec::new();
    assert_eq!(request_url("/v8/finance/chart/AAPL", &none, ""), format!("{}/v8/finance/chart/AAPL", YAHOO_BASE));
    let ps = vec![("interval".to_string(), "1d".to_string()), ("range".to_string(), "1y".to_string())];
    assert_eq!(
        request_url("/p", &ps, ""),
        "https://query1.finance.yahoo.com/p?interval=1d&range=1y"
    );
    assert_eq!(
        request_url("/p", &ps, "abc"),
        "https://query1.finance.yahoo.com/p?interval=1d&range=1y&crumb=abc"
    );
    assert_eq!(request_url("/p", &none, "abc"), "https://query1.finance.yahoo.com/p?crumb=abc");
    assert_eq!(pairs(&ps), vec![("interval", "1d"), ("range", "1y")]);
}

#[test]
fn session_keeps_valid_crumb_only() {
    let mut s = Session::new();
    assert_eq!(s.cached_crumb(), None);
    assert_eq!(s.accept_crumb("   \n"), Err("Yahoo crumb invalid".to_string()));
    assert_eq!(s.cached_crumb(), None);
    let long = "x".repeat(65);
    assert_eq!(s.accept_crumb(&long), Err("Yahoo crumb invalid".to_string()));
    assert_eq!(s.cached_crumb(), None);
    assert_eq!(s.accept_crumb(" Ab/c.d\n"), Ok("Ab/c.d".to_string()));
    assert_eq!(s.cached_crumb(), Some("Ab/c.d".to_string()));
    // a held crumb is never replaced, whatever the next answer is
    assert_eq!(s.accept_crumb("other"), Ok("Ab/c.d".to_string()));
    assert_eq!(s.accept_crumb(&long), Ok("Ab/c.d".to_string()));
    assert_eq!(s.cached_crumb(), Some("Ab/c.d".to_string()));
    // 32 two-byte characters: 64 bytes, kept; 33 of them: 66 bytes, refused
    let mut t = Session::new();
    assert!(t.accept_crumb(&"é".repeat(33)).is_err());
    assert_eq!(t.cached_crumb(), None);
    assert_eq!(t.accept_crumb(&"é".repeat(32)), Ok("é".repeat(32)));
    assert_eq!(t.cached_crumb(), Some("é".repeat(32)));
    set_apikey("ignored".to_string());
}

#[test]
fn date_formatting() {
    assert_eq!(format_ymd(2024, 1, 15), "2024-01-15");
    assert_eq!(format_ymd(999, 12, 3), "0999-12-03");
    assert_eq!(format_ymd(-1, 2, 29), "-0001-02-29");
    assert_eq!(format_ymd(10000, 1, 1), "+10000-01-01");
    assert_eq!(format_ymd(-262143, 1, 1), "-262143-01-01");
}

#[test]
fn dates_from_milliseconds() {
    assert_eq!(timestamp_ms_to_date(-1), "1969-12-31");
    assert_eq!(timestamp_ms_to_date(86_399_999), "1970-01-01");
    assert_eq!(timestamp_ms_to_date(86_400_000), "1970-01-02");
    assert_eq!(timestamp_ms_to_date(951_782_400_000), "2000-02-29");
    assert_eq!(timestamp_ms_to_date(i64::MAX), "");
    assert_eq!(timestamp_ms_to_date(i64::MIN), "");
}

#[test]
fn parsing_dates() {
    let d = parse_date("0999-01-01").unwrap();
    assert_eq!((d.year(), d.month(), d.day()), (999, 1, 1));
    assert_eq!(parse_date("2023-02-29"), None);
    assert_eq!(parse_date("2024-02-29").map(|d| d.day()), Some(29));
    let written = timestamp_ms_to_date(1_705_276_800_000);
    let back = parse_date(&written).unwrap();
    assert_eq!((back.year(), back.month(), back.day()), (2024, 1, 15));
    assert_eq!(back.unix_seconds_at(0, 0, 0), 1_705_276_800);
    assert_eq!(back.unix_seconds_at(23, 59, 59), 1_705_276_800 + 86_399);
    assert_eq!(parse_date("1969-12-31").unwrap().unix_seconds_at(0, 0, 0), -86_400);
    // texts of the shape DDDD-DD-DD parse exactly when they name a valid date
    assert_eq!(parse_date("2024-13-01"), None);
    assert_eq!(parse_date("2024-00-10"), None);
    assert_eq!(parse_date("2024-04-31"), None);
    assert_eq!(parse_date("1900-02-29"), None);
    let d = parse_date("2000-02-29").unwrap();
    assert_eq!((d.year(), d.month(), d.day()), (2000, 2, 29));
    assert_eq!(parse_date("0000-01-01").map(|d| d.year()), Some(0));
    // a text that cannot begin a year gives nothing
    assert_eq!(parse_date(""), None);
    assert_eq!(parse_date("x2024-01-01"), None);
}

#[test]
fn millisecond_dates_read_back() {
    for (ms, ymd) in [
        (0i64, (1970, 1, 1)),
        (86_399_999, (1970, 1, 1)),
        (951_782_400_000, (2000, 2, 29)),
        (253_402_300_799_999, (9999, 12, 31)),
    ] {
        let d = parse_date(&timestamp_ms_to_date(ms)).unwrap();
        assert_eq!((d.year(), d.month(), d.day()), ymd);
        assert_eq!(d.unix_seconds_at(0, 0, 0), ms / 86_400_000 * 86_400);
    }
}

#[test]
fn options_as_text_and_integer() {
    let o = options(vec![
        ("s", HayashiValue::Str("abc".to_string())),
        ("i", HayashiValue::Int(-12)),
        ("f", HayashiValue::Float(float(1.5))),
        ("n", HayashiValue::Str("42".to_string())),
        ("l", HayashiValue::List(Vec::new())),
    ]);
    assert_eq!(opt_str(&o, "s"), Some("abc".to_string()));
    assert_eq!(opt_str(&o, "i"), Some("-12".to_string()));
    assert_eq!(opt_str(&o, "f"), Some("1.5".to_string()));
    assert_eq!(opt_str(&o, "l"), None);
    assert_eq!(opt_str(&o, "missing"), None);
    assert_eq!(opt_i64(&o, "i"), Some(-12));
    assert_eq!(opt_i64(&o, "f"), Some(1));
    assert_eq!(opt_i64(&o, "n"), Some(42));
    assert_eq!(opt_i64(&o, "s"), None);
    assert_eq!(opt_i64(&o, "l"), None);
    // an integer option read as text and back gives the integer
    let t = opt_str(&o, "i").unwrap();
    let o2 = options(vec![("i", HayashiValue::Str(t))]);
    assert_eq!(opt_i64(&o2, "i"), Some(-12));
}

#[test]
fn json_to_hayashi_values() {
    assert_eq!(json_value_to_hayashi(&JsonValue::Null), HayashiValue::Str(String::new()));
    assert_eq!(json_value_to_hayashi(&JsonValue::Bool(true)), HayashiValue::Str("true".to_string()));
    assert_eq!(json_value_to_hayashi(&JsonValue::Bool(false)), HayashiValue::Str("false".to_string()));
    let arr = JsonValue::Array(vec![jint(1), text("x"), JsonValue::Null]);
    assert_eq!(
        json_value_to_hayashi(&arr),
        HayashiValue::List(vec![
            HayashiValue::Int(1),
            HayashiValue::Str("x".to_string()),
            HayashiValue::Str(String::new()),
        ])
    );
    let nested = object(vec![("inner", object(vec![("k", jint(5))]))]);
    match json_value_to_hayashi(&nested) {
        HayashiValue::Dict(d) => match d.get("inner") {
            Some(HayashiValue::Dict(e)) => assert_eq!(e.get("k"), Some(&HayashiValue::Int(5))),
            other => panic!("unexpected {:?}", other),
        },
        other => panic!("unexpected {:?}", other),
    }
    assert_eq!(hayahoo::value::json_object_to_dict(&jint(3)).len(), 0);
}

fn chart() -> JsonValue {
    object(vec![(
        "chart",
        object(vec![(
            "result",
            JsonValue::Array(vec![object(vec![
                ("timestamp", JsonValue::Array(vec![jint(1_705_276_800), jint(1_705_363_200)])),
                (
                    "indicators",
                    object(vec![(
                        "quote",
                        JsonValue::Array(vec![object(vec![
                            ("open", JsonValue::Array(vec![jint(10), JsonValue::Null])),
                            ("high", JsonValue::Array(vec![jint(12), jint(13)])),
                            ("low", JsonValue::Array(vec![jint(9)])),
                            ("close", JsonValue::Array(vec![jint(11), jint(12)])),
                            ("volume", JsonValue::Array(vec![jint(1000), jint(2000)])),
                        ])]),
                    )]),
                ),
            ])]),
        )]),
    )])
}

#[test]
fn history_tables() {
    let h = history_table(&chart()).unwrap();
    assert_eq!(h.dates, vec!["2024-01-15".to_string(), "2024-01-16".to_string()]);
    assert_eq!(h.open, vec![Some(Number::Int(10)), None]);
    assert_eq!(h.low, vec![Some(Number::Int(9)), None]);
    assert_eq!(h.close, vec![Some(Number::Int(11)), Some(Number::Int(12))]);
    // without adjusted closes, the close stands in
    assert_eq!(h.adj_close, h.close);
    assert_eq!(h.volume, vec![Some(Number::Int(1000)), Some(Number::Int(2000))]);
    let frame = history_frame(history_table(&chart()).unwrap());
    let names: Vec<&str> = frame.iter().map(|c| c.name.as_str()).collect();
    assert_eq!(names, vec!["date", "open", "high", "low", "close", "adj_close", "volume"]);
    assert!(!frame[0].nullable && frame[1..].iter().all(|c| c.nullable));
    assert_eq!(frame[0].cells, Cells::Texts(vec!["2024-01-15".to_string(), "2024-01-16".to_string()]));
    assert_eq!(frame[1].cells, Cells::Numbers(vec![Some(Number::Int(10)), None]));
    assert_eq!(history_table(&object(vec![])), Err("no chart data returned".to_string()));
    let no_ts = object(vec![("chart", object(vec![("result", JsonValue::Array(vec![object(vec![])]))]))]);
    assert_eq!(history_table(&no_ts), Err("missing timestamps".to_string()));
    let no_quote = object(vec![(
        "chart",
        object(vec![(
            "result",
            JsonValue::Array(vec![object(vec![("timestamp", JsonValue::Array(vec![]))])]),
        )]),
    )]);
    assert_eq!(history_table(&no_quote), Err("missing quote indicators".to_string()));
}

#[test]
fn history_request_parameters() {
    let (path, ps) = history_request("AAPL", &Dict::new());
    assert_eq!(path, "/v8/finance/chart/AAPL");
    assert_eq!(pairs(&ps), vec![("interval", "1d"), ("range", "1y")]);
    let o = options(vec![
        ("start", HayashiValue::Str("2023-01-01".to_string())),
        ("end", HayashiValue::Str("2023-12-31".to_string())),
        ("interval", HayashiValue::Str("1wk".to_string())),
    ]);
    let (_, ps) = history_request("AAPL", &o);
    assert_eq!(
        pairs(&ps),
        vec![
            ("interval", "1wk"),
            ("period1", "1672531200"),
            ("period2", "1704067199"),
        ]
    );
    let bad = options(vec![("start", HayashiValue::Str("soon".to_string()))]);
    let (_, ps) = history_request("X", &bad);
    assert_eq!(pairs(&ps), vec![("interval", "1d"), ("range", "1y")]);
    // an end date alone overrides the range too
    let o = options(vec![
        ("end", HayashiValue::Str("1970-01-01".to_string())),
        ("range", HayashiValue::Str("5y".to_string())),
    ]);
    let (_, ps) = history_request("X", &o);
    assert_eq!(pairs(&ps), vec![("interval", "1d"), ("period2", "86399")]);
    let o = options(vec![("range", HayashiValue::Str("max".to_string()))]);
    let (_, ps) = history_request("X", &o);
    assert_eq!(pairs(&ps), vec![("interval", "1d"), ("range", "max")]);
}

fn quote_answer() -> JsonValue {
    object(vec![(
        "quoteResponse",
        object(vec![(
            "result",
            JsonValue::Array(vec![
                object(vec![("symbol", text("AAPL")), ("regularMarketPrice", jint(190))]),
                object(vec![("symbol", text("MSFT"))]),
            ]),
        )]),
    )])
}

#[test]
fn quote_answers() {
    let json = quote_answer();
    let q = first_quote(&json).unwrap();
    assert_eq!(hayahoo::value::json_str(q, "symbol"), "AAPL");
    assert_eq!(first_quote(&object(vec![])).err(), Some("ticker not found".to_string()));
    let cols = quote_columns(&json).unwrap();
    assert_eq!(cols.len(), 17);
    assert_eq!(cols.len(), quote_fields().len());
    assert_eq!(cols[0].0, "symbol");
    assert_eq!(cols[0].1, vec![HayashiValue::Str("AAPL".into()), HayashiValue::Str("MSFT".into())]);
    assert_eq!(cols[4].0, "regularMarketPrice");
    assert_eq!(cols[4].1, vec![HayashiValue::Int(190), HayashiValue::Str(String::new())]);
    assert_eq!(cols[16].0, "dividendYield");
    assert_eq!(quote_columns(&object(vec![])).err(), Some("missing quote result".to_string()));
    assert_eq!(pairs(&quote_params("AAPL,MSFT")), vec![("symbols", "AAPL,MSFT")]);
    assert_eq!(quote_price(q), Ok(Number::Int(190)));
    let msft = object(vec![("symbol", text("MSFT")), ("regularMarketPrice", text("n/a"))]);
    assert_eq!(quote_price(&msft), Err("price not available".to_string()));
    let wk = week_range(&object(vec![("fiftyTwoWeekHigh", jint(200)), ("fiftyTwoWeekLow", JsonValue::Number(Number::Float(float(120.5))))]));
    assert_eq!(wk.len(), 2);
    assert_eq!(wk.key_at(0), "high");
    assert_eq!(wk.get("high"), Some(&Number::Int(200)));
    assert_eq!(wk.get("low"), Some(&Number::Float(float(120.5))));
    let wk = week_range(&object(vec![("fiftyTwoWeekLow", jint(7)), ("fiftyTwoWeekHigh", JsonValue::Null)]));
    assert_eq!(wk.len(), 1);
    assert_eq!(wk.key_at(0), "low");
}

#[test]
fn search_requests() {
    let ps = search_request("apple", &Dict::new());
    assert_eq!(
        pairs(&ps),
        vec![("q", "apple"), ("quotesCount", "10"), ("quotesQueryId", "tss_match_phrase"), ("newsCount", "0")]
    );
    let o = options(vec![
        ("limit", HayashiValue::Int(100)),
        ("quotes", HayashiValue::Str("false".into())),
        ("news", HayashiValue::Str("true".into())),
    ]);
    assert_eq!(
        pairs(&search_request("a", &o)),
        vec![("q", "a"), ("quotesCount", "0"), ("quotesQueryId", ""), ("newsCount", "10")]
    );
    let o = options(vec![("limit", HayashiValue::Int(100)), ("quotes", HayashiValue::Str("true".into()))]);
    assert_eq!(search_request("a", &o)[1].1, "50");
    let o = options(vec![("limit", HayashiValue::Str("-3".into()))]);
    assert_eq!(search_request("a", &o)[1].1, "1");
    let o = options(vec![("limit", HayashiValue::Float(float(7.9)))]);
    assert_eq!(search_request("a", &o)[1].1, "7");
    assert_eq!(
        pairs(&search_symbol_request("apple")),
        vec![("q", "apple"), ("quotesCount", "1"), ("quotesQueryId", "tss_match_phrase")]
    );
}

#[test]
fn search_answers() {
    let json = object(vec![
        (
            "quotes",
            JsonValue::Array(vec![
                object(vec![("symbol", text("AAPL")), ("exch", text("NMS")), ("type", text("EQUITY"))]),
                object(vec![("symbol", text("APC.F")), ("exch", text("FRA"))]),
            ]),
        ),
        (
            "exchanges",
            JsonValue::Array(vec![
                object(vec![("exchCode", text("NMS")), ("name", text("NasdaqGS"))]),
                object(vec![("exchCode", text("XXX"))]),
                object(vec![("exchCode", text("NMS")), ("name", text("Nasdaq"))]),
            ]),
        ),
    ]);
    let cols = search_columns(&json, &Dict::new()).unwrap();
    assert_eq!(cols.len(), 9);
    assert_eq!(cols[0].1, vec![HayashiValue::Str("AAPL".into()), HayashiValue::Str("APC.F".into())]);
    assert_eq!(cols[4].0, "type");
    assert_eq!(cols[4].1, vec![HayashiValue::Str("EQUITY".into()), HayashiValue::Str(String::new())]);
    assert_eq!(cols[8].0, "exchange");
    assert_eq!(cols[8].1, vec![HayashiValue::Str("Nasdaq".into()), HayashiValue::Str("FRA".into())]);
    assert_eq!(search_columns(&object(vec![]), &Dict::new()).err(), Some("missing quotes".to_string()));
    let only_quotes = object(vec![("quotes", JsonValue::Array(vec![]))]);
    assert_eq!(search_columns(&only_quotes, &Dict::new()).unwrap().len(), 8);
    // the limit caps the rows kept
    let one = options(vec![("limit", HayashiValue::Int(1))]);
    let cols = search_columns(&json, &one).unwrap();
    assert_eq!(cols.len(), 9);
    assert!(cols.iter().all(|c| c.1.len() == 1));
    assert_eq!(cols[0].1, vec![HayashiValue::Str("AAPL".into())]);
    assert_eq!(cols[8].1, vec![HayashiValue::Str("Nasdaq".into())]);
    assert_eq!(first_symbol(&json), Ok("AAPL".to_string()));
    assert_eq!(first_symbol(&object(vec![])), Err("no results".to_string()));
}

#[test]
fn summary_answers() {
    let json = object(vec![(
        "quoteSummary",
        object(vec![(
            "result",
            JsonValue::Array(vec![object(vec![
                ("price", object(vec![("result", JsonValue::Array(vec![object(vec![("a", jint(1))])]))])),
                ("empty", object(vec![("result", JsonValue::Array(vec![]))])),
                ("plain", jint(3)),
            ])]),
        )]),
    )]);
    let d = summary_dict(&json).unwrap();
    assert_eq!(d.len(), 3);
    match d.get("price") {
        Some(HayashiValue::Dict(p)) => match p.get("result") {
            Some(HayashiValue::List(l)) => assert_eq!(l.len(), 1),
            other => panic!("unexpected {:?}", other),
        },
        other => panic!("unexpected {:?}", other),
    }
    assert_eq!(d.get("plain"), Some(&HayashiValue::Int(3)));
    // a module given as a plain object appears under its name, converted
    let json = object(vec![(
        "quoteSummary",
        object(vec![(
            "result",
            JsonValue::Array(vec![object(vec![("price", object(vec![("currency", text("USD"))]))])]),
        )]),
    )]);
    let d = summary_dict(&json).unwrap();
    assert_eq!(d.len(), 1);
    match d.get("price") {
        Some(HayashiValue::Dict(p)) => {
            assert_eq!(p.get("currency"), Some(&HayashiValue::Str("USD".to_string())))
        }
        other => panic!("unexpected {:?}", other),
    }
    // a summary that is not an object gives no modules
    let json = object(vec![("quoteSummary", object(vec![("result", JsonValue::Array(vec![jint(1)]))]))]);
    assert_eq!(summary_dict(&json).unwrap().len(), 0);
    assert_eq!(summary_dict(&object(vec![])).err(), Some("no summary data returned".to_string()));
    let (path, ps) = info_request("AAPL", &Dict::new());
    assert_eq!(path, "/v11/finance/quoteSummary/AAPL");
    assert_eq!(pairs(&ps), vec![("modules", "summaryProfile,financialData,defaultKeyStatistics,price")]);
}

#[test]
fn data_frames() {
    let cols = vec![
        ("n".to_string(), vec![HayashiValue::Int(1), HayashiValue::Str("x".into()), HayashiValue::Float(float(2.5))]),
        ("s".to_string(), vec![HayashiValue::Str("a".into()), HayashiValue::Int(2), HayashiValue::Int(3)]),
        ("b".to_string(), vec![HayashiValue::Str("p".into()), HayashiValue::Str("q".into()), HayashiValue::Str("r".into())]),
    ];
    let df = build_mixed_df(cols).unwrap();
    assert_eq!(df.len(), 3);
    assert_eq!(
        df[0],
        Column {
            name: "n".into(),
            nullable: true,
            cells: Cells::Numbers(vec![Some(Number::Int(1)), None, Some(Number::Float(float(2.5)))]),
        }
    );
    assert_eq!(
        df[1],
        Column { name: "s".into(), nullable: true, cells: Cells::Texts(vec!["a".into(), String::new(), String::new()]) }
    );
    // the same strings through both builders: same texts, only the nullability differs
    let sdf = build_string_df(vec![("b".to_string(), vec!["p".to_string(), "q".to_string(), "r".to_string()])]);
    assert_eq!(
        sdf,
        vec![Column { name: "b".into(), nullable: false, cells: Cells::Texts(vec!["p".into(), "q".into(), "r".into()]) }]
    );
    assert_eq!(df[2].cells, sdf[0].cells);
    assert!(df[2].nullable && !sdf[0].nullable);
    // columns without rows are text columns
    let empty = build_mixed_df(vec![("e".to_string(), vec![])]).unwrap();
    assert_eq!(empty, vec![Column { name: "e".into(), nullable: true, cells: Cells::Texts(vec![]) }]);
}
