//! Billing tools.
use vstd::prelude::*;
use crate::api::qview;
use crate::format::billing::fmt_invoice_detail;
use crate::format::billing::invoices::spec_fmt_invoice_detail;
use crate::format::billing::contact::spec_fmt_billing_info;
use crate::format::billing::money::cell;
use crate::format::billing::contact::{spec_fmt_payment_methods, spec_fmt_spending_limits};
use crate::format::billing::invoices::spec_fmt_invoice_preview;
use crate::format::billing::money::spec_parse_cents;
use crate::format::billing::prepaid::{prepaid_cuttable, spec_fmt_prepaid};
use crate::format::billing::{
    fmt_billing_info, fmt_invoice_preview, fmt_payment_methods, fmt_prepaid, fmt_spending_limits,
    money_cell, parse_cents,
};
use crate::helpers::{err_text, require_confirm, ToolResult};
use crate::json::{
    Json, JsonV, jstr, jv, jv_list, jv_members, object1, object_of, push_member, spec_get, str_values,
    string_array,
};
use crate::params::{
    GetInvoiceParams, GetUsageParams, ListInvoicesParams, SetBillingInfoParams, SetDefaultPaymentMethodParams,
    SetSpendingLimitParams, TopUpParams,
};
use crate::text::{dec, i64_text, int_text, magnitude, owned, str_equal, texts, trim, trimmed, u64_text};
use crate::tools::query::{push_pair, push_repeated, repeated};
use crate::util::{
    array_field, cents_to_dollars, dollars, field, field1, map_time_unit, normalize_usage_timestamp,
    normalized_timestamp, opt_str, time_unit_of, field_str_in, fstr2, fstr3, opt_text, or_empty,
    or_text, pretty, spec_array_field, spec_field, spec_field_str, spec_pretty, text_or,
    text_or_empty,
};

verus! {

// ---------------------------------------------------------------- invoices

/// A numeric parameter, sent when present.
pub open spec fn int_pair(k: Seq<char>, o: Option<i32>) -> Seq<(Seq<char>, Seq<char>)> {
    match o {
        Some(n) => seq![(k, int_text(n as int))],
        None => seq![],
    }
}

/// The query of `list_invoices`: the billing cycle, the start and the ids given.
pub open spec fn spec_invoices_query(p: ListInvoicesParams) -> Seq<(Seq<char>, Seq<char>)> {
    int_pair("billingCycle.year"@, p.year) + int_pair("billingCycle.month"@, p.month) + int_pair(
        "since.year"@,
        p.since_year,
    ) + int_pair("since.month"@, p.since_month) + match p.invoice_ids {
        Some(ids) => repeated("invoiceIds.invoiceIds"@, ids@),
        None => seq![],
    }
}

fn push_int(q: &mut Vec<(String, String)>, k: &str, o: Option<i32>)
    ensures
        qview(final(q)@) == qview(old(q)@) + int_pair(k@, o),
{
    let ghost before = qview(q@);
    match o {
        Some(n) => {
            push_pair(q, k, i64_text(n as i64));
            assert(qview(q@) =~= before + int_pair(k@, o));
        },
        None => {
            assert(qview(q@) =~= before + int_pair(k@, o));
        },
    }
}

pub fn invoices_query(p: &ListInvoicesParams) -> (r: Vec<(String, String)>)
    ensures
        qview(r@) == spec_invoices_query(*p),
{
    let mut q: Vec<(String, String)> = Vec::new();
    assert(qview(q@) =~= Seq::<(Seq<char>, Seq<char>)>::empty());
    push_int(&mut q, "billingCycle.year", p.year);
    push_int(&mut q, "billingCycle.month", p.month);
    push_int(&mut q, "since.year", p.since_year);
    push_int(&mut q, "since.month", p.since_month);
    let ghost q4 = qview(q@);
    match &p.invoice_ids {
        Some(ids) => push_repeated(&mut q, "invoiceIds.invoiceIds", ids),
        None => {
            assert(qview(q@) =~= q4 + Seq::<(Seq<char>, Seq<char>)>::empty());
        },
    }
    q
}

/// The trimmed invoice id of `get_invoice` and the query that asks for it.
pub fn invoice_lookup_query(p: &GetInvoiceParams) -> (r: (String, Vec<(String, String)>))
    ensures
        r.0@ == trim(p.invoice_id@),
        qview(r.1@) == seq![("invoiceIds.invoiceIds"@, trim(p.invoice_id@))],
{
    let id = trimmed(p.invoice_id.as_str());
    let mut q: Vec<(String, String)> = Vec::new();
    assert(qview(q@) =~= Seq::<(Seq<char>, Seq<char>)>::empty());
    push_pair(&mut q, "invoiceIds.invoiceIds", id.clone());
    assert(qview(q@) =~= seq![("invoiceIds.invoiceIds"@, trim(p.invoice_id@))]);
    (id, q)
}

/// `inv` carries the id `id`.
pub open spec fn has_invoice_id(inv: Json, id: Seq<char>) -> bool {
    spec_field_str(inv, seq!["invoiceId"@, "invoice_id"@]) == Some(id)
}

/// The first invoice of `invs` that carries the id `id`.
pub open spec fn first_with_id(invs: Seq<Json>, id: Seq<char>) -> Option<Json>
    decreases invs.len(),
{
    if invs.len() == 0 {
        None
    } else if has_invoice_id(invs[0], id) {
        Some(invs[0])
    } else {
        first_with_id(invs.drop_first(), id)
    }
}

/// The reply of `get_invoice`: the invoice with the id asked for, else the
/// first one returned, else a note that none was found.
pub open spec fn spec_invoice_lookup(id: Seq<char>, v: Json) -> Seq<char> {
    let invs = spec_array_field(v, seq!["invoices"@]);
    if invs.len() == 0 {
        "No invoice found for id "@ + id
    } else {
        spec_fmt_invoice_detail(
            match first_with_id(invs, id) {
                Some(inv) => inv,
                None => invs[0],
            },
        )
    }
}

fn matches_id(inv: &Json, id: &str) -> (b: bool)
    ensures
        b == has_invoice_id(*inv, id@),
{
    match fstr2(inv, "invoiceId", "invoice_id") {
        Some(s) => str_equal(s.as_str(), id),
        None => false,
    }
}

pub fn invoice_lookup_text(id: &str, v: &Json) -> (r: String)
    ensures
        r@ == spec_invoice_lookup(id@, *v),
{
    let ks: [&str; 1] = ["invoices"];
    let sl: &[&str] = &ks;
    assert(crate::util::key_views(sl@) =~= seq!["invoices"@]);
    let invs = array_field(v, sl);
    if invs.len() == 0 {
        let mut r = owned("No invoice found for id ");
        r.append(id);
        return r;
    }
    let mut i: usize = 0;
    assert(invs@.skip(0) =~= invs@);
    while i < invs.len()
        invariant
            i <= invs@.len(),
            invs@ == spec_array_field(*v, seq!["invoices"@]),
            first_with_id(invs@, id@) == first_with_id(invs@.skip(i as int), id@),
        decreases invs@.len() - i,
    {
        assert(invs@.skip(i as int).drop_first() =~= invs@.skip(i + 1));
        assert(invs@.skip(i as int)[0] == invs@[i as int]);
        if matches_id(&invs[i], id) {
            return fmt_invoice_detail(&invs[i]);
        }
        i = i + 1;
    }
    assert(invs@.skip(i as int) =~= Seq::<Json>::empty());
    fmt_invoice_detail(&invs[0])
}


// ---------------------------------------------------------------- billing contact

/// The members of the `billingInfo` object that `set_billing_info` sends.
pub open spec fn billing_info_members(p: SetBillingInfoParams) -> Seq<(Seq<char>, JsonV)> {
    seq![
        ("name"@, JsonV::Str(p.name@)),
        ("email"@, JsonV::Str(p.email@)),
        ("address"@, JsonV::Object(
            seq![
                ("line1"@, JsonV::Str(or_empty(opt_text(p.line1)))),
                ("line2"@, JsonV::Str(or_empty(opt_text(p.line2)))),
                ("city"@, JsonV::Str(or_empty(opt_text(p.city)))),
                ("state"@, JsonV::Str(or_empty(opt_text(p.state)))),
                ("postalCode"@, JsonV::Str(or_empty(opt_text(p.postal_code)))),
                ("country"@, JsonV::Str(or_empty(opt_text(p.country)))),
            ],
        )),
        ("taxIdType"@, JsonV::Str(or_empty(opt_text(p.tax_id_type)))),
        ("taxNumber"@, JsonV::Str(or_empty(opt_text(p.tax_number)))),
    ]
}

/// The body of `set_billing_info`: absent address and tax fields are sent empty.
pub open spec fn spec_billing_info_body(p: SetBillingInfoParams) -> JsonV {
    JsonV::Object(seq![("billingInfo"@, JsonV::Object(billing_info_members(p)))])
}

fn str_member(m: &mut Vec<(String, Json)>, k: &str, o: Option<String>)
    ensures
        jv_members(final(m)@) == jv_members(old(m)@).push((k@, JsonV::Str(or_empty(opt_text(o))))),
{
    push_member(m, k, Json::Str(text_or_empty(o)));
}

/// The body `set_billing_info` sends, once `confirm` is `YES-WRITE`.
pub fn set_billing_info_plan(p: SetBillingInfoParams) -> (r: Result<Json, ToolResult>)
    ensures
        match r {
            Ok(b) => p.confirm@ == "YES-WRITE"@ && b@ == spec_billing_info_body(p),
            Err(e) => p.confirm@ != "YES-WRITE"@ && e.is_error
                && e.text@ == "Billing info NOT changed. Pass confirm = \"YES-WRITE\"."@,
        },
{
    if let Err(e) = require_confirm(
        p.confirm.as_str(),
        "YES-WRITE",
        "Billing info NOT changed. Pass confirm = \"YES-WRITE\".",
    ) {
        return Err(e);
    }
    let ghost pp = p;
    let mut a: Vec<(String, Json)> = Vec::new();
    assert(jv_members(a@) =~= Seq::<(Seq<char>, JsonV)>::empty());
    str_member(&mut a, "line1", p.line1);
    str_member(&mut a, "line2", p.line2);
    str_member(&mut a, "city", p.city);
    str_member(&mut a, "state", p.state);
    str_member(&mut a, "postalCode", p.postal_code);
    str_member(&mut a, "country", p.country);
    assert(jv_members(a@) =~= seq![
        ("line1"@, JsonV::Str(or_empty(opt_text(pp.line1)))),
        ("line2"@, JsonV::Str(or_empty(opt_text(pp.line2)))),
        ("city"@, JsonV::Str(or_empty(opt_text(pp.city)))),
        ("state"@, JsonV::Str(or_empty(opt_text(pp.state)))),
        ("postalCode"@, JsonV::Str(or_empty(opt_text(pp.postal_code)))),
        ("country"@, JsonV::Str(or_empty(opt_text(pp.country)))),
    ]);
    let mut m: Vec<(String, Json)> = Vec::new();
    assert(jv_members(m@) =~= Seq::<(Seq<char>, JsonV)>::empty());
    push_member(&mut m, "name", Json::Str(p.name));
    push_member(&mut m, "email", Json::Str(p.email));
    push_member(&mut m, "address", object_of(a));
    str_member(&mut m, "taxIdType", p.tax_id_type);
    str_member(&mut m, "taxNumber", p.tax_number);
    assert(jv_members(m@) =~= billing_info_members(pp));
    Ok(object1("billingInfo", object_of(m)))
}

/// The reply once the billing contact is written: the contact read back.
pub fn billing_info_updated_text(v: &Json) -> (r: String)
    ensures
        r@ == "Billing info updated.\n\n"@ + spec_fmt_billing_info(*v),
{
    let mut r = owned("Billing info updated.\n\n");
    let t = fmt_billing_info(v);
    r.append(t.as_str());
    r
}

// ---------------------------------------------------------------- payment method

/// The trimmed payment method id, once `confirm` is `YES-WRITE`.
pub fn set_default_payment_method_gate(p: &SetDefaultPaymentMethodParams) -> (r: Result<String, ToolResult>)
    ensures
        match r {
            Ok(id) => p.confirm@ == "YES-WRITE"@ && id@ == trim(p.payment_method_id@),
            Err(e) => p.confirm@ != "YES-WRITE"@ && e.is_error
                && e.text@ == "Default payment method NOT changed. Pass confirm = \"YES-WRITE\"."@,
        },
{
    match require_confirm(
        p.confirm.as_str(),
        "YES-WRITE",
        "Default payment method NOT changed. Pass confirm = \"YES-WRITE\".",
    ) {
        Ok(()) => Ok(trimmed(p.payment_method_id.as_str())),
        Err(e) => Err(e),
    }
}

pub fn default_payment_method_text(id: &str) -> (r: String)
    ensures
        r@ == "Default payment method set to "@ + id@ + "."@,
{
    let mut r = owned("Default payment method set to ");
    r.append(id);
    r.append(".");
    r
}

// ---------------------------------------------------------------- spending limit

/// The soft limit in cents, once `confirm` is `YES-WRITE`.
pub fn set_spending_limit_gate(p: &SetSpendingLimitParams) -> (r: Result<u64, ToolResult>)
    ensures
        match r {
            Ok(c) => p.confirm@ == "YES-WRITE"@ && c == p.limit_cents,
            Err(e) => p.confirm@ != "YES-WRITE"@ && e.is_error
                && e.text@
                == "Spending limit NOT changed. Pass confirm = \"YES-WRITE\" to set the soft limit."@,
        },
{
    match require_confirm(
        p.confirm.as_str(),
        "YES-WRITE",
        "Spending limit NOT changed. Pass confirm = \"YES-WRITE\" to set the soft limit.",
    ) {
        Ok(()) => Ok(p.limit_cents),
        Err(e) => Err(e),
    }
}

pub open spec fn spec_spending_limit_text(cents: u64, v: Json) -> Seq<char> {
    "Soft spending limit set to "@ + dollars(cents as nat) + " ("@ + dec(cents as nat)
        + " cents).\nAPI response applied: "@ + cell(spec_field(v, seq!["thisBpSoftSpendingLimit"@]))
        + "\n\nRe-check with get_spending_limits / billing_overview."@
}

/// The reply once the soft limit is set: the limit asked for and the one the
/// API applied.
pub fn spending_limit_text(cents: u64, v: &Json) -> (r: String)
    ensures
        r@ == spec_spending_limit_text(cents, *v),
{
    let applied = money_cell(field1(v, "thisBpSoftSpendingLimit"));
    let mut r = owned("Soft spending limit set to ");
    let d = cents_to_dollars(cents);
    r.append(d.as_str());
    r.append(" (");
    let n = u64_text(cents);
    r.append(n.as_str());
    r.append(" cents).\nAPI response applied: ");
    r.append(applied.as_str());
    r.append("\n\nRe-check with get_spending_limits / billing_overview.");
    r
}

// ---------------------------------------------------------------- top-up

/// The amount to charge, once `confirm` is `TOP-UP` and the amount is positive.
pub fn top_up_gate(p: &TopUpParams) -> (r: Result<u64, ToolResult>)
    ensures
        match r {
            Ok(c) => p.confirm@ == "TOP-UP"@ && c == p.amount_cents && c > 0,
            Err(e) => e.is_error && if p.confirm@ != "TOP-UP"@ {
                e.text@
                    == "Top-up NOT executed. This CHARGES the team payment card. Pass confirm = \"TOP-UP\" with amount_cents (e.g. 2500 = $25.00)."@
            } else {
                p.amount_cents == 0 && e.text@ == "amount_cents must be greater than 0."@
            },
        },
{
    if let Err(e) = require_confirm(
        p.confirm.as_str(),
        "TOP-UP",
        "Top-up NOT executed. This CHARGES the team payment card. Pass confirm = \"TOP-UP\" with amount_cents (e.g. 2500 = $25.00).",
    ) {
        return Err(e);
    }
    if p.amount_cents == 0 {
        return Err(err_text(owned("amount_cents must be greater than 0.")));
    }
    Ok(p.amount_cents)
}

pub open spec fn spec_top_up_text(cents: u64, v: Json) -> Seq<char> {
    let change = spec_get(v, "change"@);
    "Top-up of "@ + dollars(cents as nat) + " ("@ + dec(cents as nat) + " cents) submitted.\nStatus: "@
        + or_text(field_str_in(change, seq!["topupStatus"@, "topup_status"@]), "-"@)
        + "\nInvoice: "@ + or_empty(
        field_str_in(change, seq!["invoiceNumber"@, "invoice_number"@, "invoiceId"@]),
    ) + "\n\n"@ + spec_pretty(v)
}

/// The reply to a submitted top-up: amount, status, invoice and the raw reply.
pub fn top_up_text(cents: u64, v: &Json) -> (r: String)
    ensures
        r@ == spec_top_up_text(cents, *v),
{
    let change = v.get("change");
    let status = match change {
        Some(c) => fstr2(c, "topupStatus", "topup_status"),
        None => None,
    };
    let status = text_or(status, "-");
    let inv = match change {
        Some(c) => fstr3(c, "invoiceNumber", "invoice_number", "invoiceId"),
        None => None,
    };
    let inv = text_or_empty(inv);
    let mut r = owned("Top-up of ");
    let d = cents_to_dollars(cents);
    r.append(d.as_str());
    r.append(" (");
    let n = u64_text(cents);
    r.append(n.as_str());
    r.append(" cents) submitted.\nStatus: ");
    r.append(status.as_str());
    r.append("\nInvoice: ");
    r.append(inv.as_str());
    r.append("\n\n");
    let p = pretty(v);
    r.append(p.as_str());
    r
}


// ---------------------------------------------------------------- usage

/// `o` when present and not empty, else `d`.
pub open spec fn nonempty_or(o: Option<String>, d: Seq<char>) -> Seq<char> {
    match o {
        Some(s) => if s@.len() > 0 { s@ } else { d },
        None => d,
    }
}

/// The grouping asked for, `description` when none or an empty one is given.
pub open spec fn usage_group_by(g: Option<Vec<String>>) -> Seq<Seq<char>> {
    match g {
        Some(v) => if v@.len() > 0 { texts(v@) } else { seq!["description"@] },
        None => seq!["description"@],
    }
}

/// The analytics request of `get_usage`: the summed metric over the normalized
/// time range, grouped as asked.
pub open spec fn spec_usage_body(p: GetUsageParams, unit: Seq<char>) -> JsonV {
    JsonV::Object(
        seq![
            ("analyticsRequest"@, JsonV::Object(
                seq![
                    ("timeRange"@, JsonV::Object(
                        seq![
                            ("startTime"@, JsonV::Str(normalized_timestamp(p.time_from@))),
                            ("endTime"@, JsonV::Str(normalized_timestamp(p.time_to@))),
                            ("timezone"@, JsonV::Str(nonempty_or(p.timezone, "Etc/GMT"@))),
                        ],
                    )),
                    ("timeUnit"@, JsonV::Str(unit)),
                    ("values"@, JsonV::Array(
                        seq![
                            JsonV::Object(
                                seq![
                                    ("name"@, JsonV::Str(nonempty_or(p.metric, "usd"@))),
                                    ("aggregation"@, JsonV::Str("AGGREGATION_SUM"@)),
                                ],
                            ),
                        ],
                    )),
                    ("groupBy"@, JsonV::Array(str_values(usage_group_by(p.group_by)))),
                    ("filters"@, JsonV::Array(seq![])),
                ],
            )),
        ],
    )
}

/// What `get_usage` sends: the time unit, the normalized range and the body.
pub struct UsagePlan {
    pub unit: String,
    pub start: String,
    pub end: String,
    pub body: Json,
}

fn nonempty_or_text(o: &Option<String>, d: &str) -> (r: String)
    ensures
        r@ == nonempty_or(*o, d@),
{
    match o {
        Some(s) => if s.as_str().unicode_len() > 0 { s.clone() } else { owned(d) },
        None => owned(d),
    }
}

fn group_by_of(g: &Option<Vec<String>>) -> (r: Vec<String>)
    ensures
        texts(r@) == usage_group_by(*g),
{
    match g {
        Some(v) => if v.len() > 0 {
            let c = v.clone();
            assert(c@ == v@);
            c
        } else {
            let mut d: Vec<String> = Vec::new();
            d.push(owned("description"));
            assert(texts(d@) =~= seq!["description"@]);
            d
        },
        None => {
            let mut d: Vec<String> = Vec::new();
            d.push(owned("description"));
            assert(texts(d@) =~= seq!["description"@]);
            d
        },
    }
}

fn array_of(items: Vec<Json>) -> (r: Json)
    ensures
        r@ == JsonV::Array(jv_list(items@)),
{
    Json::Array(items)
}

/// The plan of `get_usage`, or the refusal of its `time_unit`.
#[verifier::spinoff_prover]
pub fn usage_plan(p: &GetUsageParams) -> (r: Result<UsagePlan, ToolResult>)
    ensures
        match r {
            Ok(plan) => time_unit_of(opt_text(p.time_unit)) == Ok::<Seq<char>, Seq<char>>(plan.unit@)
                && plan.start@ == normalized_timestamp(p.time_from@)
                && plan.end@ == normalized_timestamp(p.time_to@)
                && plan.body@ == spec_usage_body(*p, plan.unit@),
            Err(e) => e.is_error && time_unit_of(opt_text(p.time_unit)) == Err::<Seq<char>, Seq<char>>(
                e.text@,
            ),
        },
{
    let u: Option<&str> = match &p.time_unit {
        Some(s) => Some(s.as_str()),
        None => None,
    };
    assert(opt_str(u) == opt_text(p.time_unit));
    let unit = match map_time_unit(u) {
        Ok(t) => owned(t),
        Err(m) => {
            return Err(err_text(m));
        },
    };
    let start = normalize_usage_timestamp(p.time_from.as_str());
    let end = normalize_usage_timestamp(p.time_to.as_str());
    let tz = nonempty_or_text(&p.timezone, "Etc/GMT");
    let metric = nonempty_or_text(&p.metric, "usd");
    let groups = group_by_of(&p.group_by);

    let mut range: Vec<(String, Json)> = Vec::new();
    assert(jv_members(range@) =~= Seq::<(Seq<char>, JsonV)>::empty());
    push_member(&mut range, "startTime", Json::Str(start.clone()));
    push_member(&mut range, "endTime", Json::Str(end.clone()));
    push_member(&mut range, "timezone", Json::Str(tz));
    assert(jv_members(range@) =~= seq![
        ("startTime"@, JsonV::Str(normalized_timestamp(p.time_from@))),
        ("endTime"@, JsonV::Str(normalized_timestamp(p.time_to@))),
        ("timezone"@, JsonV::Str(nonempty_or(p.timezone, "Etc/GMT"@))),
    ]);

    let mut value: Vec<(String, Json)> = Vec::new();
    assert(jv_members(value@) =~= Seq::<(Seq<char>, JsonV)>::empty());
    push_member(&mut value, "name", Json::Str(metric));
    push_member(&mut value, "aggregation", jstr("AGGREGATION_SUM"));
    assert(jv_members(value@) =~= seq![
        ("name"@, JsonV::Str(nonempty_or(p.metric, "usd"@))),
        ("aggregation"@, JsonV::Str("AGGREGATION_SUM"@)),
    ]);
    let mut values: Vec<Json> = Vec::new();
    values.push(object_of(value));
    let ghost vs = values@;
    assert(vs.drop_last() =~= Seq::<Json>::empty());
    assert(jv_list(vs.drop_last()) =~= Seq::<JsonV>::empty());
    assert(jv_list(vs) =~= seq![jv(vs[0])]);
    let no_filters: Vec<Json> = Vec::new();
    assert(jv_list(no_filters@) =~= Seq::<JsonV>::empty());

    let mut req: Vec<(String, Json)> = Vec::new();
    assert(jv_members(req@) =~= Seq::<(Seq<char>, JsonV)>::empty());
    push_member(&mut req, "timeRange", object_of(range));
    push_member(&mut req, "timeUnit", Json::Str(unit.clone()));
    push_member(&mut req, "values", array_of(values));
    push_member(&mut req, "groupBy", string_array(&groups));
    push_member(&mut req, "filters", array_of(no_filters));
    let ghost spec_body = spec_usage_body(*p, unit@);
    assert(jv_members(req@) =~= spec_body->Object_0[0].1->Object_0);
    let body = object1("analyticsRequest", object_of(req));
    assert(body@ =~= spec_usage_body(*p, unit@));
    Ok(UsagePlan { unit, start, end, body })
}

// ---------------------------------------------------------------- overview

/// A section of the billing overview: its title, then the text or the error.
pub open spec fn section_text(title: Seq<char>, r: Result<Seq<char>, Seq<char>>) -> Seq<char> {
    match r {
        Ok(t) => "--- "@ + title + " ---\n"@ + t + "\n"@,
        Err(e) => "--- "@ + title + " ---\nERROR: "@ + e + "\n\n"@,
    }
}

/// A fetched payload passed through a formatter, or the fetch's error.
pub open spec fn shown(r: Result<Json, String>, f: spec_fn(Json) -> Seq<char>) -> Result<
    Seq<char>,
    Seq<char>,
> {
    match r {
        Ok(v) => Ok(f(v)),
        Err(e) => Err(e@),
    }
}

/// `|t|` for cents.
pub open spec fn abs_cents(t: i64) -> nat {
    (if t < 0 { -t } else { t as int }) as nat
}

/// The prepaid section: the available credit when the ledger has a total,
/// else the ledger itself.
pub open spec fn prepaid_section(r: Result<Json, String>) -> Seq<char> {
    match r {
        Ok(v) => "--- Prepaid ---\n"@ + match spec_parse_cents(spec_field(v, seq!["total"@])) {
            Some(t) => "  Available credit (approx): "@ + dollars(abs_cents(t))
                + "\n  Ledger raw cents: "@ + int_text(t as int) + "\n\n"@,
            None => spec_fmt_prepaid(v) + "\n"@,
        },
        Err(e) => "--- Prepaid ---\nERROR: "@ + e@ + "\n\n"@,
    }
}

/// The overview can be written: a ledger shown in full has invoice ids that can
/// be shortened.
pub open spec fn overview_writable(prepaid: Result<Json, String>) -> bool {
    prepaid matches Ok(v) ==> spec_parse_cents(spec_field(v, seq!["total"@])) is None ==> prepaid_cuttable(v)
}

pub open spec fn spec_billing_overview(
    team_id: Seq<char>,
    preview: Result<Json, String>,
    limits: Result<Json, String>,
    prepaid: Result<Json, String>,
    methods: Result<Json, String>,
    info: Result<Json, String>,
) -> Seq<char> {
    "=== Billing overview (team "@ + team_id + ") ===\n\n"@ + section_text(
        "Current period"@,
        shown(preview, |v: Json| spec_fmt_invoice_preview(v)),
    ) + section_text("Spending limits"@, shown(limits, |v: Json| spec_fmt_spending_limits(v)))
        + prepaid_section(prepaid) + section_text(
        "Payment methods"@,
        shown(methods, |v: Json| spec_fmt_payment_methods(v)),
    ) + section_text("Billing contact"@, shown(info, |v: Json| spec_fmt_billing_info(v)))
}

fn push_section(out: &mut String, title: &str, r: Result<String, String>)
    ensures
        final(out)@ == old(out)@ + section_text(
            title@,
            match r {
                Ok(t) => Ok::<Seq<char>, Seq<char>>(t@),
                Err(e) => Err::<Seq<char>, Seq<char>>(e@),
            },
        ),
{
    out.append("--- ");
    out.append(title);
    match r {
        Ok(t) => {
            out.append(" ---\n");
            out.append(t.as_str());
            out.append("\n");
        },
        Err(e) => {
            out.append(" ---\nERROR: ");
            out.append(e.as_str());
            out.append("\n\n");
        },
    }
}

fn err_copy(e: &String) -> (r: String)
    ensures
        r@ == e@,
{
    e.clone()
}

fn prepaid_text(r: &Result<Json, String>) -> (t: String)
    requires
        overview_writable(*r),
    ensures
        t@ == prepaid_section(*r),
{
    match r {
        Ok(v) => {
            let mut t = owned("--- Prepaid ---\n");
            let ks: [&str; 1] = ["total"];
            let sl: &[&str] = &ks;
            assert(crate::util::key_views(sl@) =~= seq!["total"@]);
            match parse_cents(field(v, sl)) {
                Some(c) => {
                    t.append("  Available credit (approx): ");
                    let d = cents_to_dollars(magnitude(c));
                    t.append(d.as_str());
                    t.append("\n  Ledger raw cents: ");
                    let n = i64_text(c);
                    t.append(n.as_str());
                    t.append("\n\n");
                },
                None => {
                    let f = fmt_prepaid(v);
                    t.append(f.as_str());
                    t.append("\n");
                },
            }
            t
        },
        Err(e) => {
            let mut t = owned("--- Prepaid ---\nERROR: ");
            t.append(e.as_str());
            t.append("\n\n");
            t
        },
    }
}

/// The one-shot billing dashboard, from the five payloads fetched for the team
/// (each of which may have failed).
#[verifier::spinoff_prover]
pub fn billing_overview_text(
    team_id: &str,
    preview: &Result<Json, String>,
    limits: &Result<Json, String>,
    prepaid: &Result<Json, String>,
    methods: &Result<Json, String>,
    info: &Result<Json, String>,
) -> (r: String)
    requires
        overview_writable(*prepaid),
    ensures
        r@ == spec_billing_overview(team_id@, *preview, *limits, *prepaid, *methods, *info),
{
    let mut out = owned("=== Billing overview (team ");
    out.append(team_id);
    out.append(") ===\n\n");
    let a = match preview {
        Ok(v) => Ok(fmt_invoice_preview(v)),
        Err(e) => Err(err_copy(e)),
    };
    push_section(&mut out, "Current period", a);
    let b = match limits {
        Ok(v) => Ok(fmt_spending_limits(v)),
        Err(e) => Err(err_copy(e)),
    };
    push_section(&mut out, "Spending limits", b);
    let p = prepaid_text(prepaid);
    out.append(p.as_str());
    let c = match methods {
        Ok(v) => Ok(fmt_payment_methods(v)),
        Err(e) => Err(err_copy(e)),
    };
    push_section(&mut out, "Payment methods", c);
    let d = match info {
        Ok(v) => Ok(fmt_billing_info(v)),
        Err(e) => Err(err_copy(e)),
    };
    push_section(&mut out, "Billing contact", d);
    out
}


/// The first member named `k` among `m`.
pub open spec fn member_in(m: Seq<(Seq<char>, JsonV)>, k: Seq<char>) -> Option<JsonV>
    decreases m.len(),
{
    if m.len() == 0 {
        None
    } else if m[0].0 == k {
        Some(m[0].1)
    } else {
        member_in(m.drop_first(), k)
    }
}

/// The member `k` of a JSON object, if it has one.
pub open spec fn member(v: Option<JsonV>, k: Seq<char>) -> Option<JsonV> {
    match v {
        Some(JsonV::Object(m)) => member_in(m, k),
        _ => None,
    }
}

/// The usage request groups by exactly the caller's `group_by`, in order, when
/// one is given and not empty; only otherwise by `description`.
pub proof fn lemma_usage_group_by(p: GetUsageParams, unit: Seq<char>)
    ensures
        member(member(Some(spec_usage_body(p, unit)), "analyticsRequest"@), "groupBy"@) == Some(
            JsonV::Array(
                match p.group_by {
                    Some(g) => if g@.len() > 0 {
                        Seq::new(g@.len(), |i: int| JsonV::Str(g@[i]@))
                    } else {
                        seq![JsonV::Str("description"@)]
                    },
                    None => seq![JsonV::Str("description"@)],
                },
            ),
        ),
{
    reveal_with_fuel(member_in, 5);
    reveal_strlit("analyticsRequest");
    reveal_strlit("timeRange");
    reveal_strlit("timeUnit");
    reveal_strlit("values");
    reveal_strlit("groupBy");
    let body = spec_usage_body(p, unit);
    let req = body->Object_0[0].1->Object_0;
    assert(member(Some(body), "analyticsRequest"@) == Some(body->Object_0[0].1));
    assert(req[0].0.len() != "groupBy"@.len());
    assert(req[1].0.len() != "groupBy"@.len());
    assert(req[2].0.len() != "groupBy"@.len());
    assert(member_in(req, "groupBy"@) == Some(req[3].1));
    let gs = usage_group_by(p.group_by);
    lemma_str_values(gs);
    match p.group_by {
        Some(g) => if g@.len() > 0 {
            assert(str_values(gs) =~= Seq::new(g@.len(), |i: int| JsonV::Str(g@[i]@)));
        } else {
            assert(str_values(gs) =~= seq![JsonV::Str("description"@)]);
        },
        None => {
            assert(str_values(gs) =~= seq![JsonV::Str("description"@)]);
        },
    }
}

proof fn lemma_str_values(ts: Seq<Seq<char>>)
    ensures
        str_values(ts).len() == ts.len(),
        forall|i: int| 0 <= i < ts.len() ==> #[trigger] str_values(ts)[i] == JsonV::Str(ts[i]),
    decreases ts.len(),
{
    if ts.len() > 0 {
        lemma_str_values(ts.drop_last());
        assert forall|i: int| 0 <= i < ts.len() implies #[trigger] str_values(ts)[i] == JsonV::Str(ts[i]) by {
            if i < ts.len() - 1 {
                assert(str_values(ts)[i] == str_values(ts.drop_last())[i]);
            }
        }
    }
}

} // verus!
