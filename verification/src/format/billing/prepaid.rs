//! Prepaid balance ledger formatting.
use vstd::prelude::*;
use crate::format::billing::invoices::{derefs, first_n};
use crate::format::billing::money::{parse_cents, spec_parse_cents};
use crate::json::{Json, spec_get};
use crate::sorting::{
    lemma_leading_ge_scan, lemma_sort_len, lemma_sort_permutes, lemma_sort_sorted, lemma_sort_stable, level, sort_desc,
    sorted_desc, total_preorder,
};
use crate::text::{
    lemma_str_lt_asym, lemma_str_lt_total, lemma_str_lt_trans,
    boundary_index, byte_len, byte_prefix, chars_of, dec, int_text, is_boundary, i64_text, magnitude,
    pad_right, padded_right, prefix_byte_len, str_equal, str_less, str_lt, string_of_range, u64_text,
    zero_pad, zero_padded,
};
use crate::util::{
    cents_signed_to_dollars, cents_to_dollars, dollars, elems, elems_of, field1, fstr2, fstr3, fstr4,
    i64_or0, opt_text, or_text, signed_dollars, spec_field, spec_field_str, text_or,
};

verus! {

/// The ordering key of a ledger change: its creation time text.
pub open spec fn change_key(c: Json) -> Seq<char> {
    or_text(spec_field_str(c, seq!["createTime"@, "create_ts"@, "createTs"@]), seq![])
}

/// Newest first: `e` stays before `x` unless its key is smaller.
pub open spec fn change_ge() -> spec_fn(Json, Json) -> bool {
    |e: Json, x: Json| !str_lt(change_key(e), change_key(x))
}

pub open spec fn change_amount(c: Json) -> i64 {
    match spec_parse_cents(spec_field(c, seq!["amount"@])) {
        Some(a) => a,
        None => 0,
    }
}

pub open spec fn change_origin(c: Json) -> Seq<char> {
    or_text(spec_field_str(c, seq!["changeOrigin"@, "change_origin"@]), "-"@)
}

/// The amount column: purchases and refunds as credit, spend as spend.
pub open spec fn amount_label(origin: Seq<char>, amt: i64) -> Seq<char> {
    if (origin == "PURCHASE"@ || origin == "AUTO_PURCHASE"@ || origin == "REFUND"@) && amt < 0 {
        "credit "@ + dollars((-amt) as nat)
    } else if origin == "SPEND"@ && amt > 0 {
        "spend  "@ + dollars(amt as nat)
    } else {
        signed_dollars(amt as int)
    }
}

pub open spec fn change_when(c: Json) -> Seq<char> {
    match spec_field_str(c, seq!["createTime"@, "createTs"@, "create_ts"@]) {
        Some(s) => s,
        None => match (spec_get(c, "spendBpKeyYear"@), spec_get(c, "spendBpKeyMonth"@)) {
            (Some(y), Some(m)) => match (
                crate::json::spec_as_i64(y),
                crate::json::spec_as_i64(m),
            ) {
                (Some(y), Some(m)) => zero_pad(y as int, 4) + "-"@ + zero_pad(m as int, 2),
                _ => "-"@,
            },
            _ => "-"@,
        },
    }
}

pub open spec fn change_invoice(c: Json) -> Seq<char> {
    or_text(
        spec_field_str(c, seq!["invoice_number"@, "invoiceNumber"@, "invoiceId"@, "invoice_id"@]),
        seq![],
    )
}

/// An invoice reference over 16 bytes can be cut at byte 12.
pub open spec fn invoice_cuttable(c: Json) -> bool {
    byte_len(change_invoice(c)) > 16 ==> is_boundary(change_invoice(c), 12)
}

pub open spec fn invoice_suffix(c: Json) -> Seq<char> {
    let inv = change_invoice(c);
    if inv.len() == 0 {
        seq![]
    } else if byte_len(inv) > 16 {
        " inv="@ + byte_prefix(inv, 12)
    } else {
        " inv="@ + inv
    }
}

pub open spec fn status_suffix(c: Json) -> Seq<char> {
    let st = or_text(spec_field_str(c, seq!["topupStatus"@, "topup_status"@]), seq![]);
    if st.len() == 0 { seq![] } else { " ["@ + st + "]"@ }
}

pub open spec fn change_row(c: Json) -> Seq<char> {
    "  "@ + pad_right(change_when(c), 24) + " "@ + pad_right(change_origin(c), 14) + " "@ + pad_right(
        amount_label(change_origin(c), change_amount(c)),
        16,
    ) + status_suffix(c) + invoice_suffix(c) + "\n"@
}

pub open spec fn change_rows(cs: Seq<Json>) -> Seq<char>
    decreases cs.len(),
{
    if cs.len() == 0 { seq![] } else { change_rows(cs.drop_last()) + change_row(cs.last()) }
}

/// The changes shown: newest first, at most 20.
pub open spec fn shown_changes(v: Json) -> Seq<Json> {
    first_n(sort_desc(elems(spec_field(v, seq!["changes"@])), change_ge()), 20)
}

pub open spec fn total_text(v: Json) -> Seq<char> {
    match spec_parse_cents(spec_field(v, seq!["total"@])) {
        Some(t) => "  Ledger total (raw cents): "@ + int_text(t as int) + "\n  Available credit (approx): "@
            + dollars(if t <= 0 { (-t) as nat } else { t as nat }) + "\n"@,
        None => "  Total: (unknown)\n"@,
    }
}

pub open spec fn spec_fmt_prepaid(v: Json) -> Seq<char> {
    "Prepaid credit balance\n\n"@ + total_text(v) + "\nRecent balance changes ("@ + dec(
        elems(spec_field(v, seq!["changes"@])).len(),
    ) + ", showing up to 20):\n"@ + change_rows(shown_changes(v))
        + "\nTop up with top_up (confirm=\"TOP-UP\", amount_cents=…).\n"@
}

/// Every shown change's invoice reference can be shortened as the ledger does.
pub open spec fn prepaid_cuttable(v: Json) -> bool {
    forall|i: int| 0 <= i < shown_changes(v).len() ==> invoice_cuttable(#[trigger] shown_changes(v)[i])
}

fn change_key_of(c: &Json) -> (r: String)
    ensures
        r@ == change_key(*c),
{
    match fstr3(c, "createTime", "create_ts", "createTs") {
        Some(s) => s,
        None => String::new(),
    }
}

#[verifier::spinoff_prover]
fn sort_changes<'a>(xs: &[Json]) -> (r: Vec<&Json>)
    ensures
        derefs(r@) == sort_desc(xs@, change_ge()),
{
    let mut out: Vec<&Json> = Vec::new();
    let mut i: usize = 0;
    while i < xs.len()
        invariant
            i <= xs@.len(),
            derefs(out@) == sort_desc(xs@.take(i as int), change_ge()),
        decreases xs@.len() - i,
    {
        let x = &xs[i];
        let kx = change_key_of(x);
        let ghost before = derefs(out@);
        let mut p: usize = 0;
        while p < out.len() && !str_less(change_key_of(out[p]).as_str(), kx.as_str())
            invariant
                p <= out@.len(),
                before == derefs(out@),
                kx@ == change_key(*x),
                forall|j: int| 0 <= j < p ==> !str_lt(change_key(*(#[trigger] out@[j])), kx@),
            decreases out@.len() - p,
        {
            p = p + 1;
        }
        proof {
            assert forall|j: int| 0 <= j < p implies change_ge()(#[trigger] before[j], *x) by {
                assert(before[j] == *out@[j]);
            }
            if p < out@.len() {
                assert(before[p as int] == *out@[p as int]);
            }
            lemma_leading_ge_scan(before, *x, change_ge(), p as int);
            assert(xs@.take(i + 1).drop_last() =~= xs@.take(i as int));
            assert(xs@.take(i + 1).last() == *x);
        }
        out.insert(p, x);
        assert(derefs(out@) =~= before.insert(p as int, *x));
        i = i + 1;
    }
    assert(xs@.take(xs@.len() as int) =~= xs@);
    out
}

fn amount_label_text(origin: &str, amt: i64) -> (r: String)
    ensures
        r@ == amount_label(origin@, amt),
{
    if (str_equal(origin, "PURCHASE") || str_equal(origin, "AUTO_PURCHASE") || str_equal(
        origin,
        "REFUND",
    )) && amt < 0 {
        let mut r = String::from_str("credit ");
        let d = cents_to_dollars(magnitude(amt));
        r.append(d.as_str());
        r
    } else if str_equal(origin, "SPEND") && amt > 0 {
        let mut r = String::from_str("spend  ");
        let d = cents_to_dollars(amt as u64);
        r.append(d.as_str());
        r
    } else {
        cents_signed_to_dollars(amt)
    }
}

fn change_when_text(c: &Json) -> (r: String)
    ensures
        r@ == change_when(*c),
{
    match fstr3(c, "createTime", "createTs", "create_ts") {
        Some(s) => s,
        None => {
            let y = match c.get("spendBpKeyYear") {
                Some(x) => x.as_i64(),
                None => None,
            };
            let m = match c.get("spendBpKeyMonth") {
                Some(x) => x.as_i64(),
                None => None,
            };
            match (y, m) {
                (Some(y), Some(m)) => {
                    let mut r = zero_padded(y, 4);
                    r.append("-");
                    let mm = zero_padded(m, 2);
                    r.append(mm.as_str());
                    r
                },
                _ => String::from_str("-"),
            }
        },
    }
}

fn invoice_text(c: &Json) -> (r: String)
    ensures
        r@ == change_invoice(*c),
{
    match fstr4(c, "invoice_number", "invoiceNumber", "invoiceId", "invoice_id") {
        Some(s) => s,
        None => String::new(),
    }
}

/// Whether the invoice reference of `c` can be shortened as the ledger does.
pub fn invoice_is_cuttable(c: &Json) -> (b: bool)
    ensures
        b == invoice_cuttable(*c),
{
    let inv = invoice_text(c);
    let v = chars_of(inv.as_str());
    let n = prefix_byte_len(&v, v.len());
    assert(v@.take(v@.len() as int) =~= v@);
    if n > 16 {
        boundary_index(&v, 12).is_some()
    } else {
        true
    }
}

fn invoice_suffix_text(c: &Json) -> (r: String)
    requires
        invoice_cuttable(*c),
    ensures
        r@ == invoice_suffix(*c),
{
    let inv = invoice_text(c);
    let v = chars_of(inv.as_str());
    if v.len() == 0 {
        return String::new();
    }
    let n = prefix_byte_len(&v, v.len());
    assert(v@.take(v@.len() as int) =~= v@);
    let mut r = String::from_str(" inv=");
    if n > 16 {
        match boundary_index(&v, 12) {
            Some(k) => {
                let p = string_of_range(&v, 0, k);
                assert(v@.subrange(0, k as int) =~= v@.take(k as int));
                r.append(p.as_str());
            },
            None => {
                assert(false);
            },
        }
    } else {
        r.append(inv.as_str());
    }
    r
}

fn status_suffix_text(c: &Json) -> (r: String)
    ensures
        r@ == status_suffix(*c),
{
    let st = match fstr2(c, "topupStatus", "topup_status") {
        Some(s) => s,
        None => String::new(),
    };
    if st.as_str().unicode_len() == 0 {
        String::new()
    } else {
        let mut r = String::from_str(" [");
        r.append(st.as_str());
        r.append("]");
        r
    }
}

#[verifier::spinoff_prover]
fn change_row_text(c: &Json) -> (r: String)
    requires
        invoice_cuttable(*c),
    ensures
        r@ == change_row(*c),
{
    let origin = text_or(fstr2(c, "changeOrigin", "change_origin"), "-");
    let amt = match parse_cents(field1(c, "amount")) {
        Some(a) => a,
        None => 0,
    };
    let label = amount_label_text(origin.as_str(), amt);
    let when = change_when_text(c);
    let st = status_suffix_text(c);
    let inv = invoice_suffix_text(c);
    let mut r = String::from_str("  ");
    let a = padded_right(when.as_str(), 24);
    r.append(a.as_str());
    r.append(" ");
    let b = padded_right(origin.as_str(), 14);
    r.append(b.as_str());
    r.append(" ");
    let l = padded_right(label.as_str(), 16);
    r.append(l.as_str());
    r.append(st.as_str());
    r.append(inv.as_str());
    r.append("\n");
    r
}

fn total_text_of(v: &Json) -> (r: String)
    ensures
        r@ == total_text(*v),
{
    match parse_cents(field1(v, "total")) {
        Some(t) => {
            let mut r = String::from_str("  Ledger total (raw cents): ");
            let n = i64_text(t);
            r.append(n.as_str());
            r.append("\n  Available credit (approx): ");
            let d = cents_to_dollars(magnitude(t));
            r.append(d.as_str());
            r.append("\n");
            r
        },
        None => String::from_str("  Total: (unknown)\n"),
    }
}

/// Whether every shown change can be rendered (see `prepaid_cuttable`).
pub fn prepaid_is_cuttable(v: &Json) -> (b: bool)
    ensures
        b == prepaid_cuttable(*v),
{
    let changes = elems_of(field1(v, "changes"));
    let rows = sort_changes(changes);
    let ghost sv = derefs(rows@);
    let shown: usize = if rows.len() <= 20 { rows.len() } else { 20 };
    assert(shown_changes(*v) =~= sv.take(shown as int));
    let mut i: usize = 0;
    while i < shown
        invariant
            i <= shown <= rows@.len(),
            sv == derefs(rows@),
            shown_changes(*v) == sv.take(shown as int),
            forall|j: int| 0 <= j < i ==> invoice_cuttable(#[trigger] shown_changes(*v)[j]),
        decreases shown - i,
    {
        assert(sv[i as int] == *rows@[i as int]);
        assert(shown_changes(*v)[i as int] == sv[i as int]);
        if !invoice_is_cuttable(rows[i]) {
            assert(!invoice_cuttable(shown_changes(*v)[i as int]));
            return false;
        }
        i = i + 1;
    }
    true
}

/// Renders the prepaid ledger: total, available credit and the 20 newest changes.
#[verifier::spinoff_prover]
pub fn fmt_prepaid(v: &Json) -> (r: String)
    requires
        prepaid_cuttable(*v),
    ensures
        r@ == spec_fmt_prepaid(*v),
{
    let mut r = String::from_str("Prepaid credit balance\n\n");
    let t = total_text_of(v);
    r.append(t.as_str());
    let changes = elems_of(field1(v, "changes"));
    r.append("\nRecent balance changes (");
    let n = u64_text(changes.len() as u64);
    r.append(n.as_str());
    r.append(", showing up to 20):\n");
    let rows = sort_changes(changes);
    let ghost sv = derefs(rows@);
    let ghost head = r@;
    let shown: usize = if rows.len() <= 20 { rows.len() } else { 20 };
    assert(shown_changes(*v) =~= sv.take(shown as int));
    let mut i: usize = 0;
    while i < shown
        invariant
            i <= shown <= rows@.len(),
            sv == derefs(rows@),
            shown_changes(*v) == sv.take(shown as int),
            prepaid_cuttable(*v),
            r@ == head + change_rows(sv.take(i as int)),
        decreases shown - i,
    {
        assert(sv[i as int] == *rows@[i as int]);
        assert(shown_changes(*v)[i as int] == sv[i as int]);
        let row = change_row_text(rows[i]);
        assert(sv.take(i + 1).drop_last() =~= sv.take(i as int));
        r.append(row.as_str());
        i = i + 1;
    }
    r.append("\nTop up with top_up (confirm=\"TOP-UP\", amount_cents=…).\n");
    r
}


// ---------------------------------------------------------------- laws

proof fn lemma_change_order()
    ensures
        total_preorder(change_ge()),
{
    assert forall|a: Json, b: Json| #[trigger] change_ge()(a, b) || change_ge()(b, a) by {
        lemma_str_lt_asym(change_key(a), change_key(b));
    }
    assert forall|a: Json, b: Json, c: Json|
        #![trigger change_ge()(a, b), change_ge()(b, c)]
        change_ge()(a, b) && change_ge()(b, c) implies change_ge()(a, c) by {
        let (ka, kb, kc) = (change_key(a), change_key(b), change_key(c));
        lemma_str_lt_total(ka, kb);
        if str_lt(ka, kc) && str_lt(kb, ka) {
            lemma_str_lt_trans(kb, ka, kc);
        }
    }
}

/// The ledger is listed newest first (by creation time, as text), drops no
/// change, and lists changes of the same time in their original order.
pub proof fn lemma_ledger_order(changes: Seq<Json>, c: Json)
    ensures
        sorted_desc(sort_desc(changes, change_ge()), change_ge()),
        sort_desc(changes, change_ge()).to_multiset() == changes.to_multiset(),
        sort_desc(changes, change_ge()).filter(|y: Json| level(change_ge(), y, c))
            == changes.filter(|y: Json| level(change_ge(), y, c)),
{
    lemma_change_order();
    lemma_sort_sorted(changes, change_ge());
    lemma_sort_permutes(changes, change_ge());
    lemma_sort_stable(changes, change_ge(), c);
}


/// The creation time of a ledger change, as text: `createTime`, `create_ts` or
/// `createTs`, else empty.
pub open spec fn created_at(c: Json) -> Seq<char> {
    match spec_field_str(c, seq!["createTime"@, "create_ts"@, "createTs"@]) {
        Some(t) => t,
        None => seq![],
    }
}

/// The ledger shows at most 20 changes, newest first by their whole creation
/// time; changes created at the same time keep the order the API gave them.
pub proof fn lemma_ledger_newest_first(v: Json, c: Json)
    ensures
        ({
            let changes = elems(spec_field(v, seq!["changes"@]));
            let shown = shown_changes(v);
            let same = |y: Json| created_at(y) == created_at(c);
            &&& shown.len() == if changes.len() <= 20 { changes.len() } else { 20 }
            &&& forall|i: int, j: int|
                0 <= i < j < shown.len() ==> !str_lt(
                    created_at(#[trigger] shown[i]),
                    created_at(#[trigger] shown[j]),
                )
            &&& shown.filter(same) == changes.filter(same).take(shown.filter(same).len() as int)
        }),
{
    reveal(Seq::filter);
    let changes = elems(spec_field(v, seq!["changes"@]));
    let sorted = sort_desc(changes, change_ge());
    let shown = shown_changes(v);
    let same = |y: Json| created_at(y) == created_at(c);
    lemma_change_order();
    lemma_sort_len(changes, change_ge());
    lemma_sort_sorted(changes, change_ge());
    lemma_sort_stable(changes, change_ge(), c);
    assert(forall|x: Json| #[trigger] change_key(x) == created_at(x));
    assert forall|i: int, j: int| 0 <= i < j < shown.len() implies !str_lt(
        created_at(#[trigger] shown[i]),
        created_at(#[trigger] shown[j]),
    ) by {
        assert(shown[i] == sorted[i] && shown[j] == sorted[j]);
        assert(change_ge()(sorted[i], sorted[j]));
    }
    let lvl = |y: Json| level(change_ge(), y, c);
    assert forall|y: Json| #[trigger] lvl(y) == same(y) by {
        lemma_str_lt_asym(created_at(y), created_at(c));
        lemma_str_lt_asym(created_at(c), created_at(c));
        lemma_str_lt_total(created_at(y), created_at(c));
    }
    assert(lvl =~= same);
    assert(sorted.filter(same) == changes.filter(same));
    if sorted.len() <= 20 {
        assert(shown == sorted);
        assert(changes.filter(same).take(changes.filter(same).len() as int) =~= changes.filter(same));
    } else {
        let a = sorted.take(20);
        let b = sorted.skip(20);
        assert(sorted =~= a + b);
        Seq::filter_distributes_over_add(a, b, same);
        assert(shown == a);
        assert((a.filter(same) + b.filter(same)).take(a.filter(same).len() as int) =~= a.filter(same));
    }
}

} // verus!
