//! The benchmark endpoint: its parameters and the lines of its CSV report.
use vstd::prelude::*;
use crate::numbers::{parse_unsigned_spec, parse_usize};
use crate::text::push_str;
use crate::urls::{query_get, query_param, qstring_safe};

verus! {

/// How many times a benchmark runs: the number given by the query parameter
/// `name`, or 1 when it is missing or not a number.
pub open spec fn bench_count_spec(query: Seq<char>, name: Seq<char>) -> usize {
    match query_param(query, name) {
        Some(v) => match parse_unsigned_spec(v, usize::MAX as nat) {
            Some(n) => n as usize,
            None => 1,
        },
        None => 1,
    }
}

/// How many times a benchmark runs, as the query string asks.
pub fn bench_count(query: &str, name: &str) -> (r: usize)
    requires
        qstring_safe(query@),
    ensures
        r == bench_count_spec(query@, name@),
{
    match query_get(query, name) {
        Some(v) => match parse_usize(v.as_str()) {
            Some(n) => n,
            None => 1,
        },
        None => 1,
    }
}

/// The header line of the report.
pub fn csv_header() -> (r: String)
    ensures
        r@ == "bench_name,metric,value\n"@,
{
    String::from_str("bench_name,metric,value\n")
}

/// One line of the report: `bench,metric,value` and a line break.
pub fn csv_line(bench: &str, metric: &str, value: &str) -> (r: String)
    ensures
        r@ == bench@ + ","@ + metric@ + ","@ + value@ + "\n"@,
{
    let mut r = String::new();
    push_str(&mut r, bench);
    push_str(&mut r, ",");
    push_str(&mut r, metric);
    push_str(&mut r, ",");
    push_str(&mut r, value);
    push_str(&mut r, "\n");
    r
}

} // verus!
