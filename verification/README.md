# hayahoo

A Yahoo Finance data plugin for the Hayashi language: quotes, historical
prices, quote summaries and ticker search, from the public Yahoo Finance REST
endpoints (no API key needed).

The library under `src/` is verified with Verus. It holds everything that
decides or computes:

- `text`: decimal text of integers (both ways), trimming, joining;
- `dict`: an insertion-ordered dictionary with text keys;
- `value`: JSON values and Hayashi values, lookups in JSON, the conversion
  from JSON to Hayashi values, and reading plugin options;
- `dates`: the Gregorian calendar; `YYYY-MM-DD` dates parsed and Unix times
  turned into dates through chrono, dates written by the library itself;
- `request`: request URLs and the session crumb (kept once obtained);
- `frame`: data frames made of named columns, each marked nullable or not;
- `quote`, `history`, `info`, `search`: the parameters of each request and
  the reading of each answer.

`app/` is the network side: HTTP with ureq, JSON decoding with serde_json,
and the conversions between those values (floats among them) and the
library's types.
