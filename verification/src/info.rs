use vstd::prelude::*;
use crate::dict::Dict;
use crate::history::text_or;
use crate::request::pairs_view;
use crate::value::{
    converts, elem, index, json_elem, json_get2, json_object_to_dict, opt_str, option_text,
    HayashiValue, JsonValue,
};

verus! {

/// The quote summary modules asked for when the options name none.
pub const DEFAULT_MODULES: &'static str = "summaryProfile,financialData,defaultKeyStatistics,price";

/// The path and query parameters of a quote summary request for `ticker`:
/// the `modules` option, or `DEFAULT_MODULES`.
pub fn info_request(ticker: &str, options: &Dict<HayashiValue>) -> (r: (String, Vec<(String, String)>))
    ensures
        r.0@ == "/v11/finance/quoteSummary/"@ + ticker@,
        pairs_view(r.1@) == seq![("modules"@, text_or(option_text(*options, "modules"@), DEFAULT_MODULES@))],
{
    let o = opt_str(options, "modules");
    let modules = match o {
        Some(m) => m,
        None => String::from_str(DEFAULT_MODULES),
    };
    let mut path = String::from_str("/v11/finance/quoteSummary/");
    path.append(ticker);
    let mut params: Vec<(String, String)> = Vec::new();
    params.push((String::from_str("modules"), modules));
    assert(pairs_view(params@) =~= seq![("modules"@, text_or(option_text(*options, "modules"@), DEFAULT_MODULES@))]);
    (path, params)
}

/// The summary of a quote summary answer: `json["quoteSummary"]["result"][0]`.
pub open spec fn summary_result(json: JsonValue) -> Option<JsonValue> {
    elem(index(index(json, "quoteSummary"@), "result"@), 0)
}

/// `d` holds each module of `summary`, converted, under the module's name,
/// keys in order; a summary that is not an object gives no modules.
pub open spec fn summarizes(summary: JsonValue, d: Dict<HayashiValue>) -> bool {
    match summary {
        JsonValue::Object(_) => converts(summary, HayashiValue::Dict(d)),
        _ => d.as_map() == Map::<Seq<char>, HayashiValue>::empty(),
    }
}

/// Reads the modules of a quote summary answer (see `summarizes`), or the
/// error `no summary data returned`.
pub fn summary_dict(json: &JsonValue) -> (r: Result<Dict<HayashiValue>, String>)
    ensures
        match summary_result(*json) {
            None => r matches Err(e) && e@ == "no summary data returned"@,
            Some(s) => r matches Ok(d) && summarizes(s, d),
        },
{
    let summary = match json_get2(json, "quoteSummary", "result") {
        Some(v) => json_elem(v, 0),
        None => None,
    };
    match summary {
        Some(s) => Ok(json_object_to_dict(s)),
        None => Err(String::from_str("no summary data returned")),
    }
}

} // verus!
