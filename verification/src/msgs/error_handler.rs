//! Turning robot error reports into readable lines.
use vstd::prelude::*;

use crate::json::{Json, JsonValue, view_json_seq};
use crate::text::{string_views, hex_digits, int_text, i64_to_text, push_str, str_equal, string_from_str, u64_to_hex};

verus! {

broadcast use vstd::string::group_string_axioms;

/// The uppercase hexadecimal text of a non-negative code.
pub open spec fn hex_code_text(code: int) -> Option<Seq<char>> {
    if code < 0 {
        None
    } else {
        Some(hex_digits(code as nat, true))
    }
}

/// The description of an error code reported by `source`; unknown pairs read `source-code`.
pub open spec fn error_code_text(source: int, code: Seq<char>) -> Seq<char> {
    if source == 100 && code == "1"@ {
        "DDS message timeout"@
    } else if source == 100 && code == "10"@ {
        "Battery communication error"@
    } else if source == 300 && code == "1"@ {
        "Overcurrent"@
    } else {
        int_text(source) + "-"@ + code
    }
}

/// The name of an error source; unknown sources read as their number.
pub open spec fn error_source_text(source: int) -> Seq<char> {
    if source == 100 {
        "Communication firmware malfunction"@
    } else if source == 300 {
        "Motor malfunction"@
    } else if source == 400 {
        "Radar malfunction"@
    } else {
        int_text(source)
    }
}

/// A number as the report reads it: the integer when it fits an `i64`, else 0.
pub open spec fn report_int(j: Json) -> int {
    match j.as_i64() {
        Some(v) => v as int,
        None => 0,
    }
}

/// The line for one report entry `[timestamp, source, code]`, if the entry is well formed.
pub open spec fn error_entry_line(e: Json) -> Option<Seq<char>> {
    match e {
        Json::Array(items) => {
            if items.len() != 3 {
                None
            } else {
                let ts = report_int(items[0]);
                let src = report_int(items[1]);
                let code = report_int(items[2]);
                match hex_code_text(code) {
                    Some(hex) => Some(
                        "time="@ + int_text(ts) + ", source="@ + error_source_text(src) + ", code="@
                            + error_code_text(src, hex),
                    ),
                    None => None,
                }
            }
        },
        _ => None,
    }
}

/// The lines for a list of report entries, skipping malformed ones.
pub open spec fn error_lines(es: Seq<Json>) -> Seq<Seq<char>>
    decreases es.len(),
{
    if es.len() == 0 {
        Seq::empty()
    } else {
        let rest = error_lines(es.drop_last());
        match error_entry_line(es.last()) {
            Some(l) => rest.push(l),
            None => rest,
        }
    }
}

/// The lines for a whole error message: its `data` member must be an array of entries.
pub open spec fn error_report_lines(msg: Json) -> Seq<Seq<char>> {
    match msg.field("data"@) {
        Some(Json::Array(es)) => error_lines(es),
        _ => Seq::empty(),
    }
}

/// Formats a non-negative code in uppercase hexadecimal; a negative code is refused.
pub fn integer_to_hex_string(error_code: i64) -> (r: Result<String, String>)
    ensures
        match r {
            Ok(s) => error_code >= 0 && s@ == hex_digits(error_code as nat, true),
            Err(e) => error_code < 0 && e@ == "Input must be non-negative"@,
        },
{
    if error_code < 0 {
        return Err("Input must be non-negative".to_string());
    }
    Ok(u64_to_hex(error_code as u64, true))
}

/// The description of error `error_code` from `error_source`.
pub fn get_error_code_text(error_source: i64, error_code: &str) -> (r: String)
    ensures
        r@ == error_code_text(error_source as int, error_code@),
{
    if error_source == 100 && str_equal(error_code, "1") {
        "DDS message timeout".to_string()
    } else if error_source == 100 && str_equal(error_code, "10") {
        "Battery communication error".to_string()
    } else if error_source == 300 && str_equal(error_code, "1") {
        "Overcurrent".to_string()
    } else {
        let mut s = i64_to_text(error_source);
        push_str(&mut s, "-");
        push_str(&mut s, error_code);
        s
    }
}

/// The name of error source `error_source`.
pub fn get_error_source_text(error_source: i64) -> (r: String)
    ensures
        r@ == error_source_text(error_source as int),
{
    if error_source == 100 {
        "Communication firmware malfunction".to_string()
    } else if error_source == 300 {
        "Motor malfunction".to_string()
    } else if error_source == 400 {
        "Radar malfunction".to_string()
    } else {
        i64_to_text(error_source)
    }
}

fn report_number(v: &JsonValue) -> (r: i64)
    ensures
        r as int == report_int(v@),
{
    match v.as_i64() {
        Some(n) => n,
        None => 0,
    }
}

fn entry_line(error: &JsonValue) -> (r: Option<String>)
    ensures
        match r {
            Some(s) => error_entry_line(error@) == Some(s@),
            None => error_entry_line(error@) is None,
        },
{
    let items = match error.as_array() {
        Some(items) => items,
        None => return None,
    };
    proof {
        crate::json::lemma_view_json_seq(items@);
    }
    if items.len() != 3 {
        return None;
    }
    let timestamp = report_number(&items[0]);
    let error_source = report_number(&items[1]);
    let error_code_int = report_number(&items[2]);
    let error_code_hex = match integer_to_hex_string(error_code_int) {
        Ok(value) => value,
        Err(_) => return None,
    };
    let error_code_text = get_error_code_text(error_source, error_code_hex.as_str());
    let error_source_text = get_error_source_text(error_source);
    let mut line = string_from_str("time=");
    let ts = i64_to_text(timestamp);
    push_str(&mut line, ts.as_str());
    push_str(&mut line, ", source=");
    push_str(&mut line, error_source_text.as_str());
    push_str(&mut line, ", code=");
    push_str(&mut line, error_code_text.as_str());
    Some(line)
}

/// One readable line per well-formed entry of the message's `data` array.
pub fn handle_error(message: &JsonValue) -> (lines: Vec<String>)
    ensures
        string_views(lines@) == error_report_lines(message@),
{
    let mut lines: Vec<String> = Vec::new();
    let data = match message.get("data") {
        Some(d) => d,
        None => {
            proof {
                assert(string_views(lines@) =~= Seq::<Seq<char>>::empty());
            }
            return lines;
        },
    };
    let entries = match data.as_array() {
        Some(a) => a,
        None => {
            proof {
                assert(string_views(lines@) =~= Seq::<Seq<char>>::empty());
            }
            return lines;
        },
    };
    let ghost es = view_json_seq(entries@);
    proof {
        crate::json::lemma_view_json_seq(entries@);
    }
    let mut i: usize = 0;
    while i < entries.len()
        invariant
            i <= entries.len(),
            es =~= Seq::new(entries@.len(), |k: int| entries@[k]@),
            string_views(lines@) =~= error_lines(es.subrange(0, i as int)),
        decreases entries.len() - i,
    {
        let line = entry_line(&entries[i]);
        proof {
            assert(es.subrange(0, i + 1).drop_last() =~= es.subrange(0, i as int));
            assert(es.subrange(0, i + 1).last() == entries@[i as int]@);
        }
        match line {
            Some(l) => {
                lines.push(l);
            },
            None => {},
        }
        i = i + 1;
    }
    proof {
        assert(es.subrange(0, entries.len() as int) =~= es);
    }
    lines
}

} // verus!
