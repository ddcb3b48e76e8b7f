//! Usage analytics: the parts of the report that involve no floating point.
//!
//! Summing and ordering the series amounts is floating-point work and is done by
//! the caller; this module reads the payload and writes the report's header.
use vstd::prelude::*;
use crate::format::billing::audit::strings_in;
use crate::json::{Json, spec_get};
use crate::text::{join, join_strings, texts};
use crate::util::{elems, elems_of, field2, field3, get_either, get_either_of, opt, spec_field};

verus! {

/// `limitReached` (or `limit_reached`) is `true`.
pub open spec fn limit_reached(v: Json) -> bool {
    match get_either(v, "limitReached"@, "limit_reached"@) {
        Some(Json::Bool(b)) => b,
        _ => false,
    }
}

pub open spec fn series_of(v: Json) -> Seq<Json> {
    elems(spec_field(v, seq!["timeSeries"@, "time_series"@]))
}

/// The opening lines of the usage report, and the closing line when there is
/// no series.
pub open spec fn spec_usage_header(v: Json, start: Seq<char>, end: Seq<char>, unit: Seq<char>) -> Seq<
    char,
> {
    "Usage analytics  "@ + start + " → "@ + end + "  ("@ + unit + ")\n"@ + (if limit_reached(v) {
        "WARNING: result cardinality limit reached — partial data.\n"@
    } else {
        seq![]
    }) + (if series_of(v).len() == 0 { "\nNo time series returned.\n"@ } else { seq![] })
}

/// The label of a series: its group labels joined by ` / `, or `(ungrouped)`.
pub open spec fn series_label(s: Json) -> Seq<char> {
    match spec_field(s, seq!["groupLabels"@, "group_labels"@, "group"@]) {
        Some(Json::Array(a)) => {
            let l = join(strings_in(a@), " / "@);
            if l.len() > 0 { l } else { "(ungrouped)"@ }
        },
        _ => "(ungrouped)"@,
    }
}

/// The entries of a data point's `values` array.
pub open spec fn point_values(p: Json) -> Seq<Json> {
    match spec_get(p, "values"@) {
        Some(Json::Array(a)) => a@,
        _ => seq![],
    }
}

pub open spec fn points_values(ps: Seq<Json>) -> Seq<Json>
    decreases ps.len(),
{
    if ps.len() == 0 { seq![] } else { points_values(ps.drop_last()) + point_values(ps.last()) }
}

/// Every value entry of a series, data point by data point.
pub open spec fn series_values(s: Json) -> Seq<Json> {
    points_values(elems(spec_field(s, seq!["dataPoints"@, "data_points"@])))
}

/// One series of the usage payload: its label and its raw value entries.
pub struct UsageSeries<'a> {
    pub label: String,
    pub values: Vec<&'a Json>,
}

pub open spec fn refs_view(s: Seq<&Json>) -> Seq<Json> {
    s.map_values(|r: &Json| *r)
}

/// Writes the header of the usage report.
pub fn usage_header(v: &Json, start: &str, end: &str, unit: &str) -> (r: String)
    ensures
        r@ == spec_usage_header(*v, start@, end@, unit@),
{
    let limit = match get_either_of(v, "limitReached", "limit_reached") {
        Some(x) => match x.as_bool() {
            Some(b) => b,
            None => false,
        },
        None => false,
    };
    let series = elems_of(field2(v, "timeSeries", "time_series"));
    let mut r = String::from_str("Usage analytics  ");
    r.append(start);
    r.append(" → ");
    r.append(end);
    r.append("  (");
    r.append(unit);
    r.append(")\n");
    if limit {
        r.append("WARNING: result cardinality limit reached — partial data.\n");
    }
    if series.len() == 0 {
        r.append("\nNo time series returned.\n");
    }
    r
}

fn label_of(s: &Json) -> (r: String)
    ensures
        r@ == series_label(*s),
{
    match field3(s, "groupLabels", "group_labels", "group") {
        Some(x) => match x.as_array() {
            Some(a) => {
                let mut parts: Vec<String> = Vec::new();
                let mut i: usize = 0;
                while i < a.len()
                    invariant
                        i <= a@.len(),
                        texts(parts@) == strings_in(a@.take(i as int)),
                    decreases a@.len() - i,
                {
                    assert(a@.take(i + 1).drop_last() =~= a@.take(i as int));
                    if let Some(t) = a[i].as_str() {
                        let ghost before = texts(parts@);
                        parts.push(String::from_str(t));
                        assert(texts(parts@) =~= before.push(t@));
                    }
                    i = i + 1;
                }
                assert(a@.take(a@.len() as int) =~= a@);
                let l = join_strings(&parts, " / ");
                if l.as_str().unicode_len() > 0 {
                    l
                } else {
                    String::from_str("(ungrouped)")
                }
            },
            None => String::from_str("(ungrouped)"),
        },
        None => String::from_str("(ungrouped)"),
    }
}

fn values_of<'a>(s: &'a Json) -> (r: Vec<&'a Json>)
    ensures
        refs_view(r@) == series_values(*s),
{
    let pts = elems_of(field2(s, "dataPoints", "data_points"));
    let mut out: Vec<&'a Json> = Vec::new();
    let mut i: usize = 0;
    while i < pts.len()
        invariant
            i <= pts@.len(),
            refs_view(out@) == points_values(pts@.take(i as int)),
        decreases pts@.len() - i,
    {
        assert(pts@.take(i + 1).drop_last() =~= pts@.take(i as int));
        let ghost before = refs_view(out@);
        let vals: &[Json] = match pts[i].get("values") {
            Some(x) => match x.as_array() {
                Some(a) => a.as_slice(),
                None => &[],
            },
            None => &[],
        };
        assert(vals@ == point_values(pts@[i as int]));
        let mut j: usize = 0;
        while j < vals.len()
            invariant
                j <= vals@.len(),
                refs_view(out@) == before + vals@.take(j as int),
            decreases vals@.len() - j,
        {
            let ghost b2 = refs_view(out@);
            out.push(&vals[j]);
            assert(refs_view(out@) =~= b2.push(vals@[j as int]));
            assert(vals@.take(j + 1) =~= vals@.take(j as int).push(vals@[j as int]));
            j = j + 1;
        }
        assert(vals@.take(vals@.len() as int) =~= vals@);
        i = i + 1;
    }
    assert(pts@.take(pts@.len() as int) =~= pts@);
    out
}

/// The series of a usage payload with their labels and value entries, in order.
pub fn usage_series<'a>(v: &'a Json) -> (r: Vec<UsageSeries<'a>>)
    ensures
        r@.len() == series_of(*v).len(),
        forall|i: int|
            0 <= i < r@.len() ==> (#[trigger] r@[i]).label@ == series_label(series_of(*v)[i])
                && refs_view(r@[i].values@) == series_values(series_of(*v)[i]),
{
    let series = elems_of(field2(v, "timeSeries", "time_series"));
    let mut out: Vec<UsageSeries<'a>> = Vec::new();
    let mut i: usize = 0;
    while i < series.len()
        invariant
            i <= series@.len(),
            series@ == series_of(*v),
            out@.len() == i,
            forall|k: int|
                0 <= k < i ==> (#[trigger] out@[k]).label@ == series_label(series@[k])
                    && refs_view(out@[k].values@) == series_values(series@[k]),
        decreases series@.len() - i,
    {
        let label = label_of(&series[i]);
        let values = values_of(&series[i]);
        out.push(UsageSeries { label, values });
        i = i + 1;
    }
    out
}

} // verus!
