//! Invoice list/detail and current-period preview.
use vstd::prelude::*;
use crate::format::billing::money::{cell, money_cell, parse_cents, spec_parse_cents};
use crate::json::{Json, spec_get};
use crate::sorting::{
    insert_desc, lemma_leading_ge_bound, lemma_leading_ge_scan, lemma_sort_len, lemma_sort_permutes,
    lemma_sort_sorted, lemma_sort_stable, level, sort_desc, sorted_desc, total_preorder,
};
use crate::text::{
    byte_len, boundary_index, byte_prefix, chars_of, dec, is_boundary, pad_left, pad_right, parse_i64,
    parse_int, padded_left, padded_right, prefix_byte_len, str_equal, string_of_range, u64_text,
    zero_pad, zero_padded,
};
use crate::util::{
    cents_signed_to_dollars, elems, elems_of, field1, field2, field4, field_in, fstr1, fstr2, fstr4,
    get_either, get_either_of, i64_or0, i64_or_zero, opt, opt_text, or_json, or_text, signed_dollars,
    spec_field, spec_field_str, text_or,
};

verus! {

/// `s.take(n)` when `s` is longer than `n`, else `s`.
pub open spec fn first_n<T>(s: Seq<T>, n: int) -> Seq<T> {
    if s.len() <= n { s } else { s.take(n) }
}

/// The referenced values of a sequence of references.
pub open spec fn derefs(s: Seq<&Json>) -> Seq<Json> {
    s.map_values(|r: &Json| *r)
}

// ---------------------------------------------------------------- preview summary

/// The invoice body of a preview: `coreInvoice`, or the payload itself.
pub open spec fn core_of(v: Json) -> Json {
    or_json(spec_field(v, seq!["coreInvoice"@, "core_invoice"@]), v)
}

pub open spec fn preview_head(v: Json) -> Seq<char> {
    let cycle = spec_field(v, seq!["billingCycle"@, "billing_cycle"@]);
    let year = i64_or0(field_in(cycle, seq!["year"@]));
    let month = i64_or0(field_in(cycle, seq!["month"@]));
    let core = core_of(v);
    "Current postpaid period: "@ + zero_pad(year as int, 4) + "-"@ + zero_pad(month as int, 2)
        + "\n\n"@ + "  Amount after tax:   "@ + cell(
        spec_field(core, seq!["amountAfterVat"@, "amount_after_vat"@]),
    ) + "\n"@ + "  Amount before tax:  "@ + cell(
        spec_field(core, seq!["amountBeforeVat"@, "amount_before_vat"@]),
    ) + "\n"@ + "  VAT:                "@ + cell(spec_field(core, seq!["vatCost"@, "vat_cost"@]))
        + "\n"@ + "  Effective spend limit: "@ + cell(
        spec_field(v, seq!["effectiveSpendingLimit"@, "effective_spending_limit"@]),
    ) + "\n"@ + "  Default credits:    "@ + cell(
        spec_field(v, seq!["defaultCredits"@, "default_credits"@]),
    ) + "\n"@ + "  Prepaid credits:    "@ + cell(
        spec_field(core, seq!["prepaidCredits"@, "prepaid_credits"@]),
    ) + "\n"@ + "  Prepaid used:       "@ + cell(
        spec_field(core, seq!["prepaidCreditsUsed"@, "prepaid_credits_used"@]),
    ) + "\n"@
}

/// The headroom line, present when both the spend and the limit can be read.
pub open spec fn headroom(v: Json) -> Seq<char> {
    let core = core_of(v);
    match (
        spec_parse_cents(spec_field(core, seq!["amountAfterVat"@, "amount_after_vat"@])),
        spec_parse_cents(spec_field(v, seq!["effectiveSpendingLimit"@, "effective_spending_limit"@])),
    ) {
        (Some(spent), Some(lim)) => "  Headroom to soft limit: "@ + signed_dollars(
            vstd::wrapping::i64_specs::wrapping_sub(lim, spent) as int,
        ) + "\n"@,
        _ => seq![],
    }
}

// ---------------------------------------------------------------- line groups

/// A product group: description, summed cents, summed units.
pub type GroupV = (Seq<char>, i64, i64);

pub open spec fn line_desc(l: Json) -> Seq<char> {
    or_text(spec_field_str(l, seq!["description"@]), "(unknown)"@)
}

pub open spec fn line_amount(l: Json) -> i64 {
    match spec_parse_cents(spec_field(l, seq!["amount"@])) {
        Some(c) => c,
        None => 0,
    }
}

pub open spec fn line_units(l: Json) -> i64 {
    match spec_field_str(l, seq!["numUnits"@, "num_units"@]) {
        Some(s) => match parse_i64(s) {
            Some(n) => n,
            None => 0,
        },
        None => 0,
    }
}

pub open spec fn is_first_group(gs: Seq<GroupV>, d: Seq<char>, k: int) -> bool {
    0 <= k < gs.len() && gs[k].0 == d && forall|j: int| 0 <= j < k ==> gs[j].0 != d
}

/// Lines summed by description, groups in order of first appearance.
pub open spec fn aggregate(lines: Seq<Json>) -> Seq<GroupV>
    decreases lines.len(),
{
    if lines.len() == 0 {
        seq![]
    } else {
        let acc = aggregate(lines.drop_last());
        let l = lines.last();
        let d = line_desc(l);
        if exists|k: int| is_first_group(acc, d, k) {
            let k = choose|k: int| is_first_group(acc, d, k);
            acc.update(
                k,
                (
                    d,
                    vstd::wrapping::i64_specs::wrapping_add(acc[k].1, line_amount(l)),
                    vstd::wrapping::i64_specs::wrapping_add(acc[k].2, line_units(l)),
                ),
            )
        } else {
            acc.push((d, line_amount(l), line_units(l)))
        }
    }
}

/// Larger amounts first.
pub open spec fn group_ge() -> spec_fn(GroupV, GroupV) -> bool {
    |a: GroupV, b: GroupV| a.1 >= b.1
}

pub open spec fn group_row(g: GroupV) -> Seq<char> {
    "  "@ + pad_left(signed_dollars(g.1 as int), 10) + "  "@ + g.0 + "\n"@
}

pub open spec fn group_rows(gs: Seq<GroupV>) -> Seq<char>
    decreases gs.len(),
{
    if gs.len() == 0 { seq![] } else { group_rows(gs.drop_last()) + group_row(gs.last()) }
}

pub open spec fn groups_section(lines: Seq<Json>) -> Seq<char> {
    let gs = sort_desc(aggregate(lines), group_ge());
    "\nLine items by product ("@ + dec(lines.len()) + " raw lines → "@ + dec(gs.len())
        + " groups):\n"@ + group_rows(first_n(gs, 25)) + if gs.len() > 25 {
        "  … +"@ + dec((gs.len() - 25) as nat) + " more groups\n"@
    } else {
        seq![]
    }
}

// ---------------------------------------------------------------- priced lines

pub open spec fn positive_lines(ls: Seq<Json>) -> Seq<Json>
    decreases ls.len(),
{
    if ls.len() == 0 {
        seq![]
    } else if line_amount(ls.last()) > 0 {
        positive_lines(ls.drop_last()).push(ls.last())
    } else {
        positive_lines(ls.drop_last())
    }
}

pub open spec fn line_ge() -> spec_fn(Json, Json) -> bool {
    |a: Json, b: Json| line_amount(a) >= line_amount(b)
}

pub open spec fn str_or_empty(l: Json, keys: Seq<Seq<char>>) -> Seq<char> {
    or_text(spec_field_str(l, keys), seq![])
}

pub open spec fn priced_row(l: Json) -> Seq<char> {
    "  "@ + pad_left(cell(spec_field(l, seq!["amount"@])), 10) + "  "@ + str_or_empty(
        l,
        seq!["description"@],
    ) + " | "@ + str_or_empty(l, seq!["unitType"@, "unit_type"@]) + " x"@ + str_or_empty(
        l,
        seq!["numUnits"@, "num_units"@],
    ) + " @ "@ + str_or_empty(l, seq!["clusterName"@, "cluster_name"@]) + "\n"@
}

pub open spec fn priced_rows(ls: Seq<Json>) -> Seq<char>
    decreases ls.len(),
{
    if ls.len() == 0 { seq![] } else { priced_rows(ls.drop_last()) + priced_row(ls.last()) }
}

pub open spec fn priced_section(lines: Seq<Json>) -> Seq<char> {
    "\nTop raw lines (amount > $0):\n"@ + priced_rows(
        first_n(sort_desc(positive_lines(lines), line_ge()), 15),
    )
}

/// The whole current-period preview.
pub open spec fn spec_fmt_invoice_preview(v: Json) -> Seq<char> {
    let lines = elems(spec_field(core_of(v), seq!["lines"@]));
    preview_head(v) + headroom(v) + if lines.len() > 0 {
        groups_section(lines) + priced_section(lines)
    } else {
        "\n(no line items yet this period)\n"@
    }
}


// ---------------------------------------------------------------- exec: lines

pub open spec fn gview(g: (String, i64, i64)) -> GroupV {
    (g.0@, g.1, g.2)
}

pub open spec fn gviews(s: Seq<(String, i64, i64)>) -> Seq<GroupV> {
    s.map_values(|g: (String, i64, i64)| gview(g))
}

fn line_amount_of(l: &Json) -> (a: i64)
    ensures
        a == line_amount(*l),
{
    match parse_cents(field1(l, "amount")) {
        Some(c) => c,
        None => 0,
    }
}

fn line_units_of(l: &Json) -> (u: i64)
    ensures
        u == line_units(*l),
{
    match fstr2(l, "numUnits", "num_units") {
        Some(s) => match parse_int(s.as_str()) {
            Some(n) => n,
            None => 0,
        },
        None => 0,
    }
}

fn line_desc_of(l: &Json) -> (d: String)
    ensures
        d@ == line_desc(*l),
{
    text_or(fstr1(l, "description"), "(unknown)")
}

#[verifier::spinoff_prover]
fn aggregate_lines(lines: &[Json]) -> (r: Vec<(String, i64, i64)>)
    ensures
        gviews(r@) == aggregate(lines@),
{
    let mut gs: Vec<(String, i64, i64)> = Vec::new();
    let mut i: usize = 0;
    while i < lines.len()
        invariant
            i <= lines@.len(),
            gviews(gs@) == aggregate(lines@.take(i as int)),
        decreases lines@.len() - i,
    {
        let l = &lines[i];
        let d = line_desc_of(l);
        let a = line_amount_of(l);
        let u = line_units_of(l);
        let ghost acc = gviews(gs@);
        assert(lines@.take(i + 1).drop_last() =~= lines@.take(i as int));
        assert(lines@.take(i + 1).last() == lines@[i as int]);
        let mut k: usize = 0;
        while k < gs.len() && !str_equal(gs[k].0.as_str(), d.as_str())
            invariant
                k <= gs@.len(),
                acc == gviews(gs@),
                forall|j: int| 0 <= j < k ==> acc[j].0 != d@,
            decreases gs@.len() - k,
        {
            k = k + 1;
        }
        if k < gs.len() {
            let na = gs[k].1.wrapping_add(a);
            let nu = gs[k].2.wrapping_add(u);
            assert(is_first_group(acc, d@, k as int));
            assert forall|j: int| is_first_group(acc, d@, j) implies j == k by {
                if j > k {
                    assert(acc[k as int].0 == d@);
                }
            }
            gs.set(k, (d, na, nu));
            assert(gviews(gs@) =~= acc.update(k as int, (d@, na, nu)));
        } else {
            assert(!exists|j: int| is_first_group(acc, d@, j));
            gs.push((d, a, u));
            assert(gviews(gs@) =~= acc.push((d@, a, u)));
        }
        i = i + 1;
    }
    assert(lines@.take(lines@.len() as int) =~= lines@);
    gs
}

#[verifier::spinoff_prover]
fn sort_groups(gs: &Vec<(String, i64, i64)>) -> (r: Vec<(String, i64, i64)>)
    ensures
        gviews(r@) == sort_desc(gviews(gs@), group_ge()),
{
    let mut out: Vec<(String, i64, i64)> = Vec::new();
    let mut i: usize = 0;
    while i < gs.len()
        invariant
            i <= gs@.len(),
            gviews(out@) == sort_desc(gviews(gs@).take(i as int), group_ge()),
        decreases gs@.len() - i,
    {
        let x = (gs[i].0.clone(), gs[i].1, gs[i].2);
        let ghost before = gviews(out@);
        let mut p: usize = 0;
        while p < out.len() && out[p].1 >= x.1
            invariant
                p <= out@.len(),
                before == gviews(out@),
                forall|j: int| 0 <= j < p ==> (#[trigger] out@[j]).1 >= x.1,
            decreases out@.len() - p,
        {
            p = p + 1;
        }
        proof {
            assert forall|j: int| 0 <= j < p implies group_ge()(#[trigger] before[j], gview(x)) by {
                assert(before[j] == gview(out@[j]));
            }
            if p < out@.len() {
                assert(before[p as int] == gview(out@[p as int]));
            }
            lemma_leading_ge_scan(before, gview(x), group_ge(), p as int);
            assert(gviews(gs@).take(i + 1).drop_last() =~= gviews(gs@).take(i as int));
            assert(gviews(gs@).take(i + 1).last() == gview(x));
        }
        out.insert(p, x);
        assert(gviews(out@) =~= before.insert(p as int, gview(x)));
        i = i + 1;
    }
    assert(gviews(gs@).take(gs@.len() as int) =~= gviews(gs@));
    out
}

fn group_row_text(g: &(String, i64, i64)) -> (r: String)
    ensures
        r@ == group_row(gview(*g)),
{
    let mut r = String::from_str("  ");
    let amt = cents_signed_to_dollars(g.1);
    let cellt = padded_left(amt.as_str(), 10);
    r.append(cellt.as_str());
    r.append("  ");
    r.append(g.0.as_str());
    r.append("\n");
    r
}

#[verifier::spinoff_prover]
fn groups_text(lines: &[Json]) -> (r: String)
    ensures
        r@ == groups_section(lines@),
{
    let agg = aggregate_lines(lines);
    let gs = sort_groups(&agg);
    proof {
        lemma_sort_len(gviews(agg@), group_ge());
    }
    let ghost gv = gviews(gs@);
    let mut r = String::from_str("\nLine items by product (");
    let n1 = u64_text(lines.len() as u64);
    r.append(n1.as_str());
    r.append(" raw lines → ");
    let n2 = u64_text(gs.len() as u64);
    r.append(n2.as_str());
    r.append(" groups):\n");
    let ghost head = r@;
    let shown: usize = if gs.len() <= 25 { gs.len() } else { 25 };
    assert(first_n(gv, 25) =~= gv.take(shown as int));
    let mut i: usize = 0;
    while i < shown
        invariant
            i <= shown <= gs@.len(),
            gv == gviews(gs@),
            r@ == head + group_rows(gv.take(i as int)),
        decreases shown - i,
    {
        let row = group_row_text(&gs[i]);
        assert(gv.take(i + 1).drop_last() =~= gv.take(i as int));
        r.append(row.as_str());
        i = i + 1;
    }
    if gs.len() > 25 {
        r.append("  … +");
        let n3 = u64_text((gs.len() - 25) as u64);
        r.append(n3.as_str());
        r.append(" more groups\n");
    }
    r
}

fn positive_refs<'a>(lines: &'a [Json]) -> (r: Vec<&'a Json>)
    ensures
        derefs(r@) == positive_lines(lines@),
{
    let mut out: Vec<&'a Json> = Vec::new();
    let mut i: usize = 0;
    while i < lines.len()
        invariant
            i <= lines@.len(),
            derefs(out@) == positive_lines(lines@.take(i as int)),
        decreases lines@.len() - i,
    {
        assert(lines@.take(i + 1).drop_last() =~= lines@.take(i as int));
        assert(lines@.take(i + 1).last() == lines@[i as int]);
        if line_amount_of(&lines[i]) > 0 {
            let ghost before = derefs(out@);
            out.push(&lines[i]);
            assert(derefs(out@) =~= before.push(lines@[i as int]));
        }
        i = i + 1;
    }
    assert(lines@.take(lines@.len() as int) =~= lines@);
    out
}

#[verifier::spinoff_prover]
fn sort_refs<'a>(xs: &Vec<&'a Json>) -> (r: Vec<&'a Json>)
    ensures
        derefs(r@) == sort_desc(derefs(xs@), line_ge()),
{
    let mut out: Vec<&'a Json> = Vec::new();
    let mut i: usize = 0;
    while i < xs.len()
        invariant
            i <= xs@.len(),
            derefs(out@) == sort_desc(derefs(xs@).take(i as int), line_ge()),
        decreases xs@.len() - i,
    {
        let x = xs[i];
        let kx = line_amount_of(x);
        let ghost before = derefs(out@);
        let mut p: usize = 0;
        while p < out.len() && line_amount_of(out[p]) >= kx
            invariant
                p <= out@.len(),
                before == derefs(out@),
                kx == line_amount(*x),
                forall|j: int| 0 <= j < p ==> line_amount(*(#[trigger] out@[j])) >= kx,
            decreases out@.len() - p,
        {
            p = p + 1;
        }
        proof {
            assert forall|j: int| 0 <= j < p implies line_ge()(#[trigger] before[j], *x) by {
                assert(before[j] == *out@[j]);
            }
            if p < out@.len() {
                assert(before[p as int] == *out@[p as int]);
            }
            lemma_leading_ge_scan(before, *x, line_ge(), p as int);
            assert(derefs(xs@).take(i + 1).drop_last() =~= derefs(xs@).take(i as int));
            assert(derefs(xs@).take(i + 1).last() == *x);
        }
        out.insert(p, x);
        assert(derefs(out@) =~= before.insert(p as int, *x));
        i = i + 1;
    }
    assert(derefs(xs@).take(xs@.len() as int) =~= derefs(xs@));
    out
}

fn str_or_blank(o: Option<String>) -> (r: String)
    ensures
        r@ == or_text(opt_text(o), seq![]),
{
    match o {
        Some(s) => s,
        None => String::new(),
    }
}

fn priced_row_text(l: &Json) -> (r: String)
    ensures
        r@ == priced_row(*l),
{
    let desc = str_or_blank(fstr1(l, "description"));
    let unit = str_or_blank(fstr2(l, "unitType", "unit_type"));
    let cluster = str_or_blank(fstr2(l, "clusterName", "cluster_name"));
    let units = str_or_blank(fstr2(l, "numUnits", "num_units"));
    let amt = money_cell(field1(l, "amount"));
    let mut r = String::from_str("  ");
    let c = padded_left(amt.as_str(), 10);
    r.append(c.as_str());
    r.append("  ");
    r.append(desc.as_str());
    r.append(" | ");
    r.append(unit.as_str());
    r.append(" x");
    r.append(units.as_str());
    r.append(" @ ");
    r.append(cluster.as_str());
    r.append("\n");
    r
}

#[verifier::spinoff_prover]
fn priced_text(lines: &[Json]) -> (r: String)
    ensures
        r@ == priced_section(lines@),
{
    let pos = positive_refs(lines);
    let sorted = sort_refs(&pos);
    let ghost sv = derefs(sorted@);
    let mut r = String::from_str("\nTop raw lines (amount > $0):\n");
    let ghost head = r@;
    let shown: usize = if sorted.len() <= 15 { sorted.len() } else { 15 };
    assert(first_n(sv, 15) =~= sv.take(shown as int));
    let mut i: usize = 0;
    while i < shown
        invariant
            i <= shown <= sorted@.len(),
            sv == derefs(sorted@),
            r@ == head + priced_rows(sv.take(i as int)),
        decreases shown - i,
    {
        let row = priced_row_text(sorted[i]);
        assert(sv.take(i + 1).drop_last() =~= sv.take(i as int));
        assert(sv[i as int] == *sorted@[i as int]);
        r.append(row.as_str());
        i = i + 1;
    }
    r
}


// ---------------------------------------------------------------- exec: preview

fn append_cell(r: &mut String, label: &str, v: Option<&Json>)
    ensures
        final(r)@ == old(r)@ + label@ + cell(opt(v)) + "\n"@,
{
    r.append(label);
    let c = money_cell(v);
    r.append(c.as_str());
    r.append("\n");
}

#[verifier::spinoff_prover]
fn preview_head_text(v: &Json) -> (r: String)
    ensures
        r@ == preview_head(*v),
{
    let cycle = field2(v, "billingCycle", "billing_cycle");
    let year = match cycle {
        Some(c) => i64_or_zero(field1(c, "year")),
        None => 0,
    };
    let month = match cycle {
        Some(c) => i64_or_zero(field1(c, "month")),
        None => 0,
    };
    let core = match field2(v, "coreInvoice", "core_invoice") {
        Some(c) => c,
        None => v,
    };
    let mut r = String::from_str("Current postpaid period: ");
    let y = zero_padded(year, 4);
    r.append(y.as_str());
    r.append("-");
    let m = zero_padded(month, 2);
    r.append(m.as_str());
    r.append("\n\n");
    append_cell(&mut r, "  Amount after tax:   ", field2(core, "amountAfterVat", "amount_after_vat"));
    append_cell(&mut r, "  Amount before tax:  ", field2(core, "amountBeforeVat", "amount_before_vat"));
    append_cell(&mut r, "  VAT:                ", field2(core, "vatCost", "vat_cost"));
    append_cell(
        &mut r,
        "  Effective spend limit: ",
        field2(v, "effectiveSpendingLimit", "effective_spending_limit"),
    );
    append_cell(&mut r, "  Default credits:    ", field2(v, "defaultCredits", "default_credits"));
    append_cell(&mut r, "  Prepaid credits:    ", field2(core, "prepaidCredits", "prepaid_credits"));
    append_cell(
        &mut r,
        "  Prepaid used:       ",
        field2(core, "prepaidCreditsUsed", "prepaid_credits_used"),
    );
    r
}

fn headroom_text(v: &Json) -> (r: String)
    ensures
        r@ == headroom(*v),
{
    let core = match field2(v, "coreInvoice", "core_invoice") {
        Some(c) => c,
        None => v,
    };
    let spent = parse_cents(field2(core, "amountAfterVat", "amount_after_vat"));
    let lim = parse_cents(field2(v, "effectiveSpendingLimit", "effective_spending_limit"));
    match (spent, lim) {
        (Some(spent), Some(lim)) => {
            let remain = lim.wrapping_sub(spent);
            let mut r = String::from_str("  Headroom to soft limit: ");
            let d = cents_signed_to_dollars(remain);
            r.append(d.as_str());
            r.append("\n");
            r
        },
        _ => String::new(),
    }
}

/// Renders the current postpaid period: totals, headroom to the soft limit,
/// spend by product (largest first) and the largest priced lines.
pub fn fmt_invoice_preview(v: &Json) -> (r: String)
    ensures
        r@ == spec_fmt_invoice_preview(*v),
{
    let mut r = preview_head_text(v);
    let h = headroom_text(v);
    r.append(h.as_str());
    let core = match field2(v, "coreInvoice", "core_invoice") {
        Some(c) => c,
        None => v,
    };
    let lines = elems_of(field1(core, "lines"));
    if lines.len() > 0 {
        let g = groups_text(lines);
        r.append(g.as_str());
        let p = priced_text(lines);
        r.append(p.as_str());
    } else {
        r.append("\n(no line items yet this period)\n");
    }
    r
}

// ---------------------------------------------------------------- invoice list

/// The billing cycle of an invoice: `monthly.billingCycle` (or `billing_cycle`).
pub open spec fn invoice_cycle(inv: Json) -> Option<Json> {
    match spec_get(inv, "monthly"@) {
        Some(m) => get_either(m, "billingCycle"@, "billing_cycle"@),
        None => None,
    }
}

/// `YYYY-MM` of a billing cycle.
pub open spec fn cycle_text(c: Json) -> Seq<char> {
    zero_pad(i64_or0(spec_get(c, "year"@)) as int, 4) + "-"@ + zero_pad(
        i64_or0(spec_get(c, "month"@)) as int,
        2,
    )
}

pub open spec fn invoice_id(inv: Json) -> Seq<char> {
    or_text(
        spec_field_str(inv, seq!["invoiceId"@, "invoice_id"@, "invoiceNumber"@, "invoice_number"@]),
        "-"@,
    )
}

/// An id over 24 bytes can be cut at byte 20.
pub open spec fn id_cuttable(inv: Json) -> bool {
    byte_len(invoice_id(inv)) > 24 ==> is_boundary(invoice_id(inv), 20)
}

pub open spec fn short_id(inv: Json) -> Seq<char> {
    if byte_len(invoice_id(inv)) > 24 {
        byte_prefix(invoice_id(inv), 20) + "…"@
    } else {
        invoice_id(inv)
    }
}

pub open spec fn created_date(inv: Json) -> Seq<char> {
    match spec_field_str(inv, seq!["createTime"@, "create_time"@]) {
        Some(s) => first_n(s, 10),
        None => "-"@,
    }
}

pub open spec fn invoice_row(inv: Json) -> Seq<char> {
    let cycle = match invoice_cycle(inv) {
        Some(c) => cycle_text(c),
        None => "-"@,
    };
    "  "@ + pad_right(created_date(inv), 12) + " "@ + pad_right(
        or_text(spec_field_str(inv, seq!["invoiceStatus"@, "status"@]), "-"@),
        10,
    ) + " "@ + pad_left(cell(spec_field(inv, seq!["total"@])), 10) + "  "@ + pad_right(cycle, 7)
        + "  "@ + short_id(inv) + "\n"@
}

pub open spec fn invoice_rows(invs: Seq<Json>) -> Seq<char>
    decreases invs.len(),
{
    if invs.len() == 0 { seq![] } else { invoice_rows(invs.drop_last()) + invoice_row(invs.last()) }
}

/// The column header of the invoice table.
pub open spec fn invoice_header() -> Seq<char> {
    "  "@ + pad_right("created"@, 12) + " "@ + pad_right("status"@, 10) + " "@ + pad_left(
        "total"@,
        10,
    ) + "  "@ + pad_right("cycle"@, 7) + "  "@ + "invoice_id"@ + "\n"@
}

pub open spec fn spec_fmt_invoices(v: Json) -> Seq<char> {
    let invs = elems(spec_field(v, seq!["invoices"@]));
    if invs.len() == 0 {
        "No invoices found.\n"@
    } else {
        "Invoices ("@ + dec(invs.len()) + ")\n\n"@ + invoice_header() + invoice_rows(invs)
            + "\nUse get_invoice with invoice_id for line-item detail.\n"@
    }
}

/// Every invoice id that the table shortens can be cut at byte 20.
pub open spec fn invoices_cuttable(v: Json) -> bool {
    let invs = elems(spec_field(v, seq!["invoices"@]));
    forall|i: int| 0 <= i < invs.len() ==> id_cuttable(#[trigger] invs[i])
}

/// The header row of the invoice table, for the given five column titles.
pub fn format_args_str(template: &str, cols: &[&str]) -> (r: String)
    requires
        cols@.len() >= 5,
    ensures
        r@ == "  "@ + pad_right(cols@[0]@, 12) + " "@ + pad_right(cols@[1]@, 10) + " "@ + pad_left(
            cols@[2]@,
            10,
        ) + "  "@ + pad_right(cols@[3]@, 7) + "  "@ + cols@[4]@ + "\n"@,
{
    let _ = template;
    let mut r = String::from_str("  ");
    let a = padded_right(cols[0], 12);
    r.append(a.as_str());
    r.append(" ");
    let b = padded_right(cols[1], 10);
    r.append(b.as_str());
    r.append(" ");
    let c = padded_left(cols[2], 10);
    r.append(c.as_str());
    r.append("  ");
    let d = padded_right(cols[3], 7);
    r.append(d.as_str());
    r.append("  ");
    r.append(cols[4]);
    r.append("\n");
    r
}

fn cycle_text_of(c: &Json) -> (r: String)
    ensures
        r@ == cycle_text(*c),
{
    let y = zero_padded(i64_or_zero(c.get("year")), 4);
    let m = zero_padded(i64_or_zero(c.get("month")), 2);
    let mut r = y;
    r.append("-");
    r.append(m.as_str());
    r
}

fn invoice_cycle_of(inv: &Json) -> (r: Option<&Json>)
    ensures
        opt(r) == invoice_cycle(*inv),
{
    match inv.get("monthly") {
        Some(m) => get_either_of(m, "billingCycle", "billing_cycle"),
        None => None,
    }
}

fn first_chars(s: &str, n: usize) -> (r: String)
    ensures
        r@ == first_n(s@, n as int),
{
    let v = chars_of(s);
    if v.len() <= n {
        string_of_range(&v, 0, v.len())
    } else {
        string_of_range(&v, 0, n)
    }
}

/// Whether the id of `inv` can be shortened as the table does.
pub fn id_is_cuttable(inv: &Json) -> (b: bool)
    ensures
        b == id_cuttable(*inv),
{
    let id = text_or(fstr4(inv, "invoiceId", "invoice_id", "invoiceNumber", "invoice_number"), "-");
    let v = chars_of(id.as_str());
    let n = prefix_byte_len(&v, v.len());
    assert(v@.take(v@.len() as int) =~= v@);
    if n > 24 {
        boundary_index(&v, 20).is_some()
    } else {
        true
    }
}

fn short_id_of(inv: &Json) -> (r: String)
    requires
        id_cuttable(*inv),
    ensures
        r@ == short_id(*inv),
{
    let id = text_or(fstr4(inv, "invoiceId", "invoice_id", "invoiceNumber", "invoice_number"), "-");
    let v = chars_of(id.as_str());
    let n = prefix_byte_len(&v, v.len());
    assert(v@.take(v@.len() as int) =~= v@);
    if n > 24 {
        match boundary_index(&v, 20) {
            Some(k) => {
                let mut r = string_of_range(&v, 0, k);
                assert(v@.subrange(0, k as int) =~= v@.take(k as int));
                r.append("…");
                r
            },
            None => {
                assert(false);
                id
            },
        }
    } else {
        id
    }
}

#[verifier::spinoff_prover]
fn invoice_row_text(inv: &Json) -> (r: String)
    requires
        id_cuttable(*inv),
    ensures
        r@ == invoice_row(*inv),
{
    let created = match fstr2(inv, "createTime", "create_time") {
        Some(s) => first_chars(s.as_str(), 10),
        None => String::from_str("-"),
    };
    let status = text_or(fstr2(inv, "invoiceStatus", "status"), "-");
    let total = money_cell(field1(inv, "total"));
    let cycle = match invoice_cycle_of(inv) {
        Some(c) => cycle_text_of(c),
        None => String::from_str("-"),
    };
    let id_short = short_id_of(inv);
    let mut r = String::from_str("  ");
    let a = padded_right(created.as_str(), 12);
    r.append(a.as_str());
    r.append(" ");
    let b = padded_right(status.as_str(), 10);
    r.append(b.as_str());
    r.append(" ");
    let c = padded_left(total.as_str(), 10);
    r.append(c.as_str());
    r.append("  ");
    let d = padded_right(cycle.as_str(), 7);
    r.append(d.as_str());
    r.append("  ");
    r.append(id_short.as_str());
    r.append("\n");
    r
}

/// Whether every invoice id in the list can be shortened as the table does.
pub fn invoices_are_cuttable(v: &Json) -> (b: bool)
    ensures
        b == invoices_cuttable(*v),
{
    let invs = elems_of(field1(v, "invoices"));
    let mut i: usize = 0;
    while i < invs.len()
        invariant
            i <= invs@.len(),
            invs@ == elems(spec_field(*v, seq!["invoices"@])),
            forall|j: int| 0 <= j < i ==> id_cuttable(#[trigger] invs@[j]),
        decreases invs@.len() - i,
    {
        if !id_is_cuttable(&invs[i]) {
            return false;
        }
        i = i + 1;
    }
    true
}

/// Renders the invoice table; ids over 24 bytes are cut to their first 20.
#[verifier::spinoff_prover]
pub fn fmt_invoices(v: &Json) -> (r: String)
    requires
        invoices_cuttable(*v),
    ensures
        r@ == spec_fmt_invoices(*v),
{
    let invs = elems_of(field1(v, "invoices"));
    if invs.len() == 0 {
        return String::from_str("No invoices found.\n");
    }
    let mut r = String::from_str("Invoices (");
    let n = u64_text(invs.len() as u64);
    r.append(n.as_str());
    r.append(")\n\n");
    let cols: [&str; 5] = ["created", "status", "total", "cycle", "invoice_id"];
    let header = format_args_str("  {:<12} {:<10} {:>10}  {:<7}  {}\n", &cols);
    r.append(header.as_str());
    let ghost head = r@;
    let mut i: usize = 0;
    while i < invs.len()
        invariant
            i <= invs@.len(),
            invs@ == elems(spec_field(*v, seq!["invoices"@])),
            invoices_cuttable(*v),
            r@ == head + invoice_rows(invs@.take(i as int)),
        decreases invs@.len() - i,
    {
        let row = invoice_row_text(&invs[i]);
        assert(invs@.take(i + 1).drop_last() =~= invs@.take(i as int));
        r.append(row.as_str());
        i = i + 1;
    }
    assert(invs@.take(invs@.len() as int) =~= invs@);
    r.append("\nUse get_invoice with invoice_id for line-item detail.\n");
    r
}


// ---------------------------------------------------------------- invoice detail

pub open spec fn detail_line(l: Json) -> Seq<char> {
    "  "@ + pad_left(cell(spec_field(l, seq!["amount"@])), 10) + "  "@ + str_or_empty(
        l,
        seq!["description"@],
    ) + " | "@ + str_or_empty(l, seq!["unitType"@, "unit_type"@]) + " x"@ + str_or_empty(
        l,
        seq!["numUnits"@, "num_units"@],
    ) + "\n"@
}

pub open spec fn detail_lines(ls: Seq<Json>) -> Seq<char>
    decreases ls.len(),
{
    if ls.len() == 0 { seq![] } else { detail_lines(ls.drop_last()) + detail_line(ls.last()) }
}

pub open spec fn detail_head(inv: Json) -> Seq<char> {
    let num = or_text(spec_field_str(inv, seq!["invoiceNumber"@, "invoice_number"@]), seq![]);
    "Invoice detail\n"@ + "  ID:      "@ + or_text(
        spec_field_str(inv, seq!["invoiceId"@, "invoice_id"@]),
        "-"@,
    ) + "\n"@ + if num.len() > 0 {
        "  Number:  "@ + num + "\n"@
    } else {
        seq![]
    } + "  Status:  "@ + or_text(spec_field_str(inv, seq!["invoiceStatus"@, "status"@]), "-"@)
        + "\n"@ + "  Created: "@ + or_text(
        spec_field_str(inv, seq!["createTime"@, "create_time"@]),
        "-"@,
    ) + "\n"@ + "  Subtotal:"@ + cell(spec_field(inv, seq!["subtotal"@])) + "\n"@ + "  Tax:     "@
        + cell(spec_field(inv, seq!["tax"@])) + "\n"@ + "  Total:   "@ + cell(
        spec_field(inv, seq!["total"@]),
    ) + "\n"@ + match invoice_cycle(inv) {
        Some(c) => "  Cycle:   "@ + cycle_text(c) + "\n"@,
        None => seq![],
    }
}

pub open spec fn spec_fmt_invoice_detail(inv: Json) -> Seq<char> {
    let lines = elems(spec_field(inv, seq!["lines"@]));
    detail_head(inv) + if lines.len() > 0 {
        "\nLine items ("@ + dec(lines.len()) + "):\n"@ + detail_lines(first_n(lines, 40)) + if lines.len()
            > 40 {
            "  … +"@ + dec((lines.len() - 40) as nat) + " more lines\n"@
        } else {
            seq![]
        }
    } else {
        seq![]
    }
}

fn detail_line_text(l: &Json) -> (r: String)
    ensures
        r@ == detail_line(*l),
{
    let desc = str_or_blank(fstr1(l, "description"));
    let unit = str_or_blank(fstr2(l, "unitType", "unit_type"));
    let units = str_or_blank(fstr2(l, "numUnits", "num_units"));
    let amt = money_cell(field1(l, "amount"));
    let mut r = String::from_str("  ");
    let c = padded_left(amt.as_str(), 10);
    r.append(c.as_str());
    r.append("  ");
    r.append(desc.as_str());
    r.append(" | ");
    r.append(unit.as_str());
    r.append(" x");
    r.append(units.as_str());
    r.append("\n");
    r
}

#[verifier::spinoff_prover]
fn detail_head_text(inv: &Json) -> (r: String)
    ensures
        r@ == detail_head(*inv),
{
    let id = text_or(fstr2(inv, "invoiceId", "invoice_id"), "-");
    let num = str_or_blank(fstr2(inv, "invoiceNumber", "invoice_number"));
    let status = text_or(fstr2(inv, "invoiceStatus", "status"), "-");
    let created = text_or(fstr2(inv, "createTime", "create_time"), "-");
    let total = money_cell(field1(inv, "total"));
    let sub = money_cell(field1(inv, "subtotal"));
    let tax = money_cell(field1(inv, "tax"));
    let mut r = String::from_str("Invoice detail\n");
    r.append("  ID:      ");
    r.append(id.as_str());
    r.append("\n");
    if num.as_str().unicode_len() > 0 {
        r.append("  Number:  ");
        r.append(num.as_str());
        r.append("\n");
    }
    r.append("  Status:  ");
    r.append(status.as_str());
    r.append("\n");
    r.append("  Created: ");
    r.append(created.as_str());
    r.append("\n");
    r.append("  Subtotal:");
    r.append(sub.as_str());
    r.append("\n");
    r.append("  Tax:     ");
    r.append(tax.as_str());
    r.append("\n");
    r.append("  Total:   ");
    r.append(total.as_str());
    r.append("\n");
    match invoice_cycle_of(inv) {
        Some(c) => {
            r.append("  Cycle:   ");
            let t = cycle_text_of(c);
            r.append(t.as_str());
            r.append("\n");
        },
        None => {},
    }
    r
}

/// Renders one invoice with up to 40 of its line items.
#[verifier::spinoff_prover]
pub fn fmt_invoice_detail(inv: &Json) -> (r: String)
    ensures
        r@ == spec_fmt_invoice_detail(*inv),
{
    let mut r = detail_head_text(inv);
    let lines = elems_of(field1(inv, "lines"));
    if lines.len() > 0 {
        r.append("\nLine items (");
        let n = u64_text(lines.len() as u64);
        r.append(n.as_str());
        r.append("):\n");
        let ghost head = r@;
        let shown: usize = if lines.len() <= 40 { lines.len() } else { 40 };
        assert(first_n(lines@, 40) =~= lines@.take(shown as int));
        let mut i: usize = 0;
        while i < shown
            invariant
                i <= shown <= lines@.len(),
                r@ == head + detail_lines(lines@.take(i as int)),
            decreases shown - i,
        {
            let row = detail_line_text(&lines[i]);
            assert(lines@.take(i + 1).drop_last() =~= lines@.take(i as int));
            r.append(row.as_str());
            i = i + 1;
        }
        if lines.len() > 40 {
            r.append("  … +");
            let m = u64_text((lines.len() - 40) as u64);
            r.append(m.as_str());
            r.append(" more lines\n");
        }
    }
    r
}


// ---------------------------------------------------------------- laws

proof fn lemma_group_order()
    ensures
        total_preorder(group_ge()),
{
}

proof fn lemma_line_order()
    ensures
        total_preorder(line_ge()),
{
}

/// The product breakdown of a preview lists the groups by descending amount,
/// drops none of them, and lists groups of equal amount in the order in which
/// their descriptions first appear among the lines.
pub proof fn lemma_product_breakdown_order(lines: Seq<Json>, g: GroupV)
    ensures
        sorted_desc(sort_desc(aggregate(lines), group_ge()), group_ge()),
        sort_desc(aggregate(lines), group_ge()).to_multiset() == aggregate(lines).to_multiset(),
        sort_desc(aggregate(lines), group_ge()).filter(|y: GroupV| level(group_ge(), y, g))
            == aggregate(lines).filter(|y: GroupV| level(group_ge(), y, g)),
{
    lemma_group_order();
    lemma_sort_sorted(aggregate(lines), group_ge());
    lemma_sort_permutes(aggregate(lines), group_ge());
    lemma_sort_stable(aggregate(lines), group_ge(), g);
}

/// The priced lines of a preview are listed by descending amount, none dropped,
/// lines of equal amount in their original order.
pub proof fn lemma_priced_lines_order(lines: Seq<Json>, l: Json)
    ensures
        sorted_desc(sort_desc(positive_lines(lines), line_ge()), line_ge()),
        sort_desc(positive_lines(lines), line_ge()).to_multiset() == positive_lines(lines).to_multiset(),
        sort_desc(positive_lines(lines), line_ge()).filter(|y: Json| level(line_ge(), y, l))
            == positive_lines(lines).filter(|y: Json| level(line_ge(), y, l)),
{
    lemma_line_order();
    lemma_sort_sorted(positive_lines(lines), line_ge());
    lemma_sort_permutes(positive_lines(lines), line_ge());
    lemma_sort_stable(positive_lines(lines), line_ge(), l);
}


/// The amounts of the lines described `d`, added up in order as the breakdown
/// adds them (with wrap-around on overflow).
pub open spec fn lines_amount(lines: Seq<Json>, d: Seq<char>) -> i64
    decreases lines.len(),
{
    if lines.len() == 0 {
        0
    } else if line_desc(lines.last()) == d {
        vstd::wrapping::i64_specs::wrapping_add(lines_amount(lines.drop_last(), d), line_amount(lines.last()))
    } else {
        lines_amount(lines.drop_last(), d)
    }
}

/// The units of the lines described `d`, added up in the same way.
pub open spec fn lines_units(lines: Seq<Json>, d: Seq<char>) -> i64
    decreases lines.len(),
{
    if lines.len() == 0 {
        0
    } else if line_desc(lines.last()) == d {
        vstd::wrapping::i64_specs::wrapping_add(lines_units(lines.drop_last(), d), line_units(lines.last()))
    } else {
        lines_units(lines.drop_last(), d)
    }
}

/// `d` describes one of the lines.
pub open spec fn described(lines: Seq<Json>, d: Seq<char>) -> bool {
    exists|i: int| 0 <= i < lines.len() && #[trigger] line_desc(lines[i]) == d
}

/// `d` names one of the groups.
pub open spec fn grouped(gs: Seq<GroupV>, d: Seq<char>) -> bool {
    exists|k: int| 0 <= k < gs.len() && (#[trigger] gs[k]).0 == d
}

proof fn lemma_absent_sums(lines: Seq<Json>, d: Seq<char>)
    requires
        !described(lines, d),
    ensures
        lines_amount(lines, d) == 0,
        lines_units(lines, d) == 0,
    decreases lines.len(),
{
    if lines.len() > 0 {
        let prev = lines.drop_last();
        assert(!described(prev, d)) by {
            if described(prev, d) {
                let i = choose|i: int| 0 <= i < prev.len() && #[trigger] line_desc(prev[i]) == d;
                assert(lines[i] == prev[i]);
                assert(line_desc(lines[i]) == d);
            }
        }
        assert(line_desc(lines[lines.len() - 1]) != d);
        lemma_absent_sums(prev, d);
    }
}

/// The product breakdown has one group per description found among the lines,
/// and each group holds the amounts and units of exactly the lines so described.
pub proof fn lemma_aggregate_groups(lines: Seq<Json>)
    ensures
        forall|i: int, j: int|
            0 <= i < j < aggregate(lines).len() ==> (#[trigger] aggregate(lines)[i]).0 != (
            #[trigger] aggregate(lines)[j]).0,
        forall|d: Seq<char>| grouped(aggregate(lines), d) <==> described(lines, d),
        forall|k: int|
            0 <= k < aggregate(lines).len() ==> (#[trigger] aggregate(lines)[k]).1 == lines_amount(
                lines,
                aggregate(lines)[k].0,
            ) && aggregate(lines)[k].2 == lines_units(lines, aggregate(lines)[k].0),
    decreases lines.len(),
{
    if lines.len() > 0 {
        let prev = lines.drop_last();
        lemma_aggregate_groups(prev);
        let acc = aggregate(prev);
        let l = lines.last();
        let d = line_desc(l);
        let gs = aggregate(lines);
        assert(forall|i: int| 0 <= i < prev.len() ==> prev[i] == lines[i]);
        assert forall|e: Seq<char>| described(lines, e) <==> (described(prev, e) || e == d) by {
            if described(lines, e) {
                let i = choose|i: int| 0 <= i < lines.len() && #[trigger] line_desc(lines[i]) == e;
                if i < prev.len() {
                    assert(line_desc(prev[i]) == e);
                }
            }
            if described(prev, e) {
                let i = choose|i: int| 0 <= i < prev.len() && #[trigger] line_desc(prev[i]) == e;
                assert(line_desc(lines[i]) == e);
            }
            if e == d {
                assert(line_desc(lines[lines.len() - 1]) == e);
            }
        }
        if exists|k: int| is_first_group(acc, d, k) {
            let k = choose|k: int| is_first_group(acc, d, k);
            assert(gs == acc.update(
                k,
                (
                    d,
                    vstd::wrapping::i64_specs::wrapping_add(acc[k].1, line_amount(l)),
                    vstd::wrapping::i64_specs::wrapping_add(acc[k].2, line_units(l)),
                ),
            ));
            assert(forall|j: int| 0 <= j < gs.len() ==> (#[trigger] gs[j]).0 == acc[j].0);
            assert forall|e: Seq<char>| grouped(gs, e) <==> grouped(acc, e) by {
                if grouped(gs, e) {
                    let j = choose|j: int| 0 <= j < gs.len() && (#[trigger] gs[j]).0 == e;
                    assert(acc[j].0 == e);
                }
                if grouped(acc, e) {
                    let j = choose|j: int| 0 <= j < acc.len() && (#[trigger] acc[j]).0 == e;
                    assert(gs[j].0 == e);
                }
            }
            assert(grouped(acc, d)) by {
                assert(acc[k].0 == d);
            }
        } else {
            assert forall|j: int| 0 <= j < acc.len() implies (#[trigger] acc[j]).0 != d by {
                if acc[j].0 == d {
                    assert(is_first_group(acc, d, j));
                }
            }
            assert(!grouped(acc, d));
            assert(!described(prev, d));
            lemma_absent_sums(prev, d);
            assert(gs == acc.push((d, line_amount(l), line_units(l))));
            assert forall|e: Seq<char>| grouped(gs, e) <==> (grouped(acc, e) || e == d) by {
                if grouped(gs, e) {
                    let j = choose|j: int| 0 <= j < gs.len() && (#[trigger] gs[j]).0 == e;
                    if j < acc.len() {
                        assert(acc[j].0 == e);
                    }
                }
                if grouped(acc, e) {
                    let j = choose|j: int| 0 <= j < acc.len() && (#[trigger] acc[j]).0 == e;
                    assert(gs[j].0 == e);
                }
                if e == d {
                    assert(gs[acc.len() as int].0 == e);
                }
            }
        }
    }
}


/// Where the first line described `d` stands.
pub open spec fn first_at(lines: Seq<Json>, d: Seq<char>) -> int
    decreases lines.len(),
{
    if lines.len() == 0 {
        0
    } else if described(lines.drop_last(), d) {
        first_at(lines.drop_last(), d)
    } else {
        lines.len() - 1
    }
}

proof fn lemma_first_at_bound(lines: Seq<Json>, d: Seq<char>)
    requires
        described(lines, d),
    ensures
        0 <= first_at(lines, d) < lines.len(),
    decreases lines.len(),
{
    let prev = lines.drop_last();
    if described(prev, d) {
        lemma_first_at_bound(prev, d);
    }
}

/// Before ordering by amount, the groups stand in the order in which their
/// descriptions first appear among the lines.
pub proof fn lemma_aggregate_order(lines: Seq<Json>)
    ensures
        forall|i: int, j: int|
            0 <= i < j < aggregate(lines).len() ==> first_at(lines, (#[trigger] aggregate(lines)[i]).0)
                < first_at(lines, (#[trigger] aggregate(lines)[j]).0),
    decreases lines.len(),
{
    if lines.len() > 0 {
        let prev = lines.drop_last();
        lemma_aggregate_order(prev);
        lemma_aggregate_groups(prev);
        lemma_aggregate_groups(lines);
        let acc = aggregate(prev);
        let gs = aggregate(lines);
        let d = line_desc(lines.last());
        assert forall|k: int| 0 <= k < acc.len() implies first_at(lines, (#[trigger] acc[k]).0)
            == first_at(prev, acc[k].0) && first_at(prev, acc[k].0) < prev.len() by {
            assert(grouped(acc, acc[k].0));
            lemma_first_at_bound(prev, acc[k].0);
        }
        if exists|k: int| is_first_group(acc, d, k) {
            let k = choose|k: int| is_first_group(acc, d, k);
            assert(forall|j: int| 0 <= j < gs.len() ==> (#[trigger] gs[j]).0 == acc[j].0);
        } else {
            assert forall|j: int| 0 <= j < acc.len() implies (#[trigger] acc[j]).0 != d by {
                if acc[j].0 == d {
                    assert(is_first_group(acc, d, j));
                }
            }
            assert(!grouped(acc, d));
            assert(!described(prev, d));
            assert(gs == acc.push((d, line_amount(lines.last()), line_units(lines.last()))));
            assert(first_at(lines, d) == lines.len() - 1);
            assert(forall|j: int| 0 <= j < acc.len() ==> (#[trigger] gs[j]) == acc[j]);
        }
    }
}


/// The preview opens with the period, then the amount after tax, the amount
/// before tax and the VAT of the invoice body (`coreInvoice`, else the payload),
/// each read from its own member.
pub proof fn lemma_preview_amounts(v: Json)
    ensures
        ({
            let body = or_json(spec_field(v, seq!["coreInvoice"@, "core_invoice"@]), v);
            let cycle = spec_field(v, seq!["billingCycle"@, "billing_cycle"@]);
            let pre = "Current postpaid period: "@ + zero_pad(i64_or0(field_in(cycle, seq!["year"@])) as int, 4)
                + "-"@ + zero_pad(i64_or0(field_in(cycle, seq!["month"@])) as int, 2) + "\n\n"@
                + "  Amount after tax:   "@ + cell(spec_field(body, seq!["amountAfterVat"@, "amount_after_vat"@]))
                + "\n"@ + "  Amount before tax:  "@ + cell(
                spec_field(body, seq!["amountBeforeVat"@, "amount_before_vat"@]),
            ) + "\n"@ + "  VAT:                "@ + cell(spec_field(body, seq!["vatCost"@, "vat_cost"@]))
                + "\n"@;
            &&& spec_fmt_invoice_preview(v).len() >= pre.len()
            &&& spec_fmt_invoice_preview(v).subrange(0, pre.len() as int) == pre
        }),
{
    let body = or_json(spec_field(v, seq!["coreInvoice"@, "core_invoice"@]), v);
    let cycle = spec_field(v, seq!["billingCycle"@, "billing_cycle"@]);
    let pre = "Current postpaid period: "@ + zero_pad(i64_or0(field_in(cycle, seq!["year"@])) as int, 4)
        + "-"@ + zero_pad(i64_or0(field_in(cycle, seq!["month"@])) as int, 2) + "\n\n"@
        + "  Amount after tax:   "@ + cell(spec_field(body, seq!["amountAfterVat"@, "amount_after_vat"@]))
        + "\n"@ + "  Amount before tax:  "@ + cell(
        spec_field(body, seq!["amountBeforeVat"@, "amount_before_vat"@]),
    ) + "\n"@ + "  VAT:                "@ + cell(spec_field(body, seq!["vatCost"@, "vat_cost"@]))
        + "\n"@;
    let text = spec_fmt_invoice_preview(v);
    let tail = text.subrange(pre.len() as int, text.len() as int);
    let head = preview_head(v);
    let later = head.subrange(pre.len() as int, head.len() as int);
    assert(head =~= pre + later);
    assert(text =~= pre + (later + text.subrange(head.len() as int, text.len() as int)));
    assert(text.subrange(0, pre.len() as int) =~= pre);
}

} // verus!
