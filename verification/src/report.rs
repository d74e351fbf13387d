//! Rendering of outcomes: the per-URL status line and the JSON report.
//! Everything here computes strings; writing them to the terminal or to a
//! file is the binary's concern.

use vstd::prelude::*;
use crate::outcome::{ProbeOutcome, ProbeStatus};
use crate::config::{dec_val, is_dec_digits};

verus! {

/// Relies on alloc's String::push: appends one character.
pub assume_specification[ String::push ](s: &mut String, c: char)
    ensures
        final(s)@ == old(s)@.push(c),
;

/// The character of one decimal digit.
pub open spec fn digit_char(d: int) -> char {
    if d == 0 {
        '0'
    } else if d == 1 {
        '1'
    } else if d == 2 {
        '2'
    } else if d == 3 {
        '3'
    } else if d == 4 {
        '4'
    } else if d == 5 {
        '5'
    } else if d == 6 {
        '6'
    } else if d == 7 {
        '7'
    } else if d == 8 {
        '8'
    } else {
        '9'
    }
}

/// The canonical decimal rendering of a non-negative value: no sign, no
/// leading zero except for the value zero itself.
pub open spec fn dec_digits_of(v: int) -> Seq<char>
    decreases v,
{
    if v < 10 {
        seq![digit_char(v)]
    } else {
        dec_digits_of(v / 10).push(digit_char(v % 10))
    }
}

/// The one-character string of one decimal digit.
fn digit_str(d: u64) -> (r: &'static str)
    requires
        d < 10,
    ensures
        r@ =~= seq![digit_char(d as int)],
{
    if d == 0 {
        proof {
            reveal_strlit("0");
        }
        "0"
    } else if d == 1 {
        proof {
            reveal_strlit("1");
        }
        "1"
    } else if d == 2 {
        proof {
            reveal_strlit("2");
        }
        "2"
    } else if d == 3 {
        proof {
            reveal_strlit("3");
        }
        "3"
    } else if d == 4 {
        proof {
            reveal_strlit("4");
        }
        "4"
    } else if d == 5 {
        proof {
            reveal_strlit("5");
        }
        "5"
    } else if d == 6 {
        proof {
            reveal_strlit("6");
        }
        "6"
    } else if d == 7 {
        proof {
            reveal_strlit("7");
        }
        "7"
    } else if d == 8 {
        proof {
            reveal_strlit("8");
        }
        "8"
    } else {
        proof {
            reveal_strlit("9");
        }
        "9"
    }
}

/// Append the decimal rendering of `v` to `out`.
fn push_dec(v: u64, out: &mut String)
    ensures
        final(out)@ == old(out)@ + dec_digits_of(v as int),
    decreases v,
{
    if v < 10 {
        out.append(digit_str(v));
        proof {
            assert(final(out)@ =~= old(out)@ + dec_digits_of(v as int));
        }
    } else {
        let q = v / 10;
        let rm = v % 10;
        push_dec(q, out);
        out.append(digit_str(rm));
        proof {
            assert(final(out)@ =~= old(out)@ + dec_digits_of(v as int));
        }
    }
}

/// The decimal rendering of `v` as a string.
pub fn u64_to_dec(v: u64) -> (r: String)
    ensures
        r@ == dec_digits_of(v as int),
{
    let mut out = String::new();
    push_dec(v, &mut out);
    proof {
        assert(out@ =~= dec_digits_of(v as int));
    }
    out
}

/// An error text made safe for a double-quoted JSON string the way the
/// report does it: every double quote becomes a single quote.
pub open spec fn quotes_replaced(s: Seq<char>) -> Seq<char> {
    s.map_values(|c: char| if c == '"' { '\'' } else { c })
}

/// Replace every double quote by a single quote.
pub fn replace_quotes(s: &str) -> (r: String)
    ensures
        r@ == quotes_replaced(s@),
{
    let n = s.unicode_len();
    let mut out = String::new();
    let mut i: usize = 0;
    proof {
        assert(out@ =~= quotes_replaced(s@).subrange(0, 0));
    }
    while i < n
        invariant
            i <= n,
            n == s@.len(),
            out@ == quotes_replaced(s@).subrange(0, i as int),
        decreases n - i,
    {
        let c = s.get_char(i);
        if c == '"' {
            out.push('\'');
        } else {
            out.push(c);
        }
        proof {
            assert(out@ =~= quotes_replaced(s@).subrange(0, i as int + 1));
        }
        i = i + 1;
    }
    proof {
        assert(quotes_replaced(s@).subrange(0, n as int) =~= quotes_replaced(s@));
    }
    out
}

/// The status line printed for one outcome as it completes.
pub open spec fn spec_status_line(o: ProbeOutcome) -> Seq<char> {
    match o.status {
        ProbeStatus::Success(code) => "["@ + dec_digits_of(code as int) + "] OK "@ + o.url@
            + " in "@ + dec_digits_of(o.elapsed_ms as int) + "ms"@,
        ProbeStatus::Failure(e) => "[ERROR] "@ + o.url@ + " failed: "@ + e@ + " (after "@
            + dec_digits_of(o.elapsed_ms as int) + "ms)"@,
    }
}

/// Render the status line for one outcome: the status code or the error,
/// the URL, and the elapsed time.
pub fn status_line(o: &ProbeOutcome) -> (r: String)
    ensures
        r@ == spec_status_line(*o),
{
    match &o.status {
        ProbeStatus::Success(code) => {
            let mut out = String::from_str("[");
            push_dec(*code as u64, &mut out);
            out.append("] OK ");
            out.append(o.url.as_str());
            out.append(" in ");
            push_dec(o.elapsed_ms, &mut out);
            out.append("ms");
            proof {
                assert(out@ =~= spec_status_line(*o));
            }
            out
        },
        ProbeStatus::Failure(e) => {
            let mut out = String::from_str("[ERROR] ");
            out.append(o.url.as_str());
            out.append(" failed: ");
            out.append(e.as_str());
            out.append(" (after ");
            push_dec(o.elapsed_ms, &mut out);
            out.append("ms)");
            proof {
                assert(out@ =~= spec_status_line(*o));
            }
            out
        },
    }
}

/// The status field of one JSON record: the bare code on success, the
/// quote-sanitised error text in quotes on failure.
pub open spec fn spec_status_json(s: ProbeStatus) -> Seq<char> {
    match s {
        ProbeStatus::Success(code) => dec_digits_of(code as int),
        ProbeStatus::Failure(e) => "\""@ + quotes_replaced(e@) + "\""@,
    }
}

/// One JSON record of the report.
pub open spec fn spec_json_line(o: ProbeOutcome) -> Seq<char> {
    "  {\"url\": \""@ + o.url@ + "\", \"status\": "@ + spec_status_json(o.status)
        + ", \"time_ms\": "@ + dec_digits_of(o.elapsed_ms as int) + ", \"timestamp_ms\": "@
        + dec_digits_of(o.observed_at_ms as int) + "}"@
}

/// Render one outcome as a JSON object: URL, numeric status or quoted error
/// text, elapsed milliseconds, and the completion timestamp in milliseconds.
pub fn json_line(o: &ProbeOutcome) -> (r: String)
    ensures
        r@ == spec_json_line(*o),
{
    let mut out = String::from_str("  {\"url\": \"");
    out.append(o.url.as_str());
    out.append("\", \"status\": ");
    match &o.status {
        ProbeStatus::Success(code) => {
            push_dec(*code as u64, &mut out);
        },
        ProbeStatus::Failure(e) => {
            out.append("\"");
            let esc = replace_quotes(e.as_str());
            out.append(esc.as_str());
            out.append("\"");
        },
    }
    out.append(", \"time_ms\": ");
    push_dec(o.elapsed_ms, &mut out);
    out.append(", \"timestamp_ms\": ");
    push_dec(o.observed_at_ms, &mut out);
    out.append("}");
    proof {
        assert(out@ =~= spec_json_line(*o));
    }
    out
}

/// The report body: one JSON record per outcome, each on its own line,
/// separated by commas.
pub open spec fn spec_report_body(outs: Seq<ProbeOutcome>) -> Seq<char>
    decreases outs.len(),
{
    if outs.len() == 0 {
        Seq::empty()
    } else if outs.len() == 1 {
        spec_json_line(outs[0]) + "\n"@
    } else {
        spec_json_line(outs[0]) + ",\n"@ + spec_report_body(outs.drop_first())
    }
}

/// The whole JSON report: an array of one record per outcome.
pub open spec fn spec_report(outs: Seq<ProbeOutcome>) -> Seq<char> {
    "[\n"@ + spec_report_body(outs) + "]\n"@
}

/// Render the whole report: a JSON array holding, in the order given, one
/// record per outcome.
pub fn render_report(results: &Vec<ProbeOutcome>) -> (r: String)
    ensures
        r@ == spec_report(results@),
{
    let n = results.len();
    let mut out = String::from_str("[\n");
    let mut i: usize = 0;
    proof {
        assert(results@.skip(0) =~= results@);
    }
    while i < n
        invariant
            i <= n,
            n == results@.len(),
            out@ == "[\n"@ + spec_report_body(results@) && i == n || out@ + spec_report_body(
                results@.skip(i as int),
            ) == "[\n"@ + spec_report_body(results@),
        decreases n - i,
    {
        proof {
            assert(results@.skip(i as int)[0] == results@[i as int]);
            assert(results@.skip(i as int).drop_first() =~= results@.skip(i as int + 1));
        }
        let line = json_line(&results[i]);
        out.append(line.as_str());
        if i + 1 < n {
            out.append(",\n");
        } else {
            out.append("\n");
        }
        proof {
            if i + 1 < n {
                assert(out@ + spec_report_body(results@.skip(i as int + 1)) =~= "[\n"@
                    + spec_report_body(results@));
            } else {
                assert(results@.skip(i as int).len() == 1);
                assert(out@ =~= "[\n"@ + spec_report_body(results@));
            }
        }
        i = i + 1;
    }
    proof {
        if n == 0 {
            assert(results@.skip(0) =~= results@);
            assert(out@ =~= "[\n"@ + spec_report_body(results@));
        }
    }
    out.append("]\n");
    proof {
        assert(out@ =~= spec_report(results@));
    }
    out
}


/// The rendering has no leading zero, except for the value zero itself.
pub proof fn lemma_dec_digits_canonical(v: int)
    requires
        v >= 1,
    ensures
        dec_digits_of(v).len() >= 1,
        dec_digits_of(v)[0] != '0',
    decreases v,
{
    if v >= 10 {
        lemma_dec_digits_canonical(v / 10);
    }
}

/// Rendering a value and reading the digits back gives the value: the
/// decimal renderer and the decimal parser agree.
pub proof fn lemma_dec_digits_round_trip(v: int)
    requires
        v >= 0,
    ensures
        is_dec_digits(dec_digits_of(v)),
        dec_val(dec_digits_of(v)) == v,
    decreases v,
{
    if v < 10 {
        assert(dec_digits_of(v).drop_last() =~= Seq::<char>::empty());
        assert(digit_char(v) as u32 == 48 + v);
        assert(dec_val(Seq::<char>::empty()) == 0);
        assert(dec_digits_of(v).last() == digit_char(v));
        assert(dec_val(dec_digits_of(v)) == 0 * 10 + (digit_char(v) as u32 - 48));
    } else {
        lemma_dec_digits_round_trip(v / 10);
        let d = v % 10;
        assert(0 <= d < 10);
        assert(digit_char(d) as u32 == 48 + d);
        assert(dec_digits_of(v).drop_last() =~= dec_digits_of(v / 10));
        assert(dec_digits_of(v).last() == digit_char(d));
        assert(dec_val(dec_digits_of(v)) == dec_val(dec_digits_of(v / 10)) * 10 + d);
        assert(v == (v / 10) * 10 + d);
    }
}


} // verus!
