//! Billing contact, payment methods, spending limits.
use vstd::prelude::*;
use crate::format::billing::money::{cell, money_cell};
use crate::json::{Json, compact, compact_text};
use crate::text::{dec, join, join_strings, str_equal, texts, u64_text};
use crate::util::{
    field1, field2, field_str_in, fstr1, fstr2, keep_nonempty, nonempty_parts, opt, opt_text,
    or_empty, or_json, or_text, spec_field, spec_field_str, text_or, text_or_empty,
};

verus! {

// ---------------------------------------------------------------- billing info

/// An address line, indented, when it is not empty.
pub open spec fn addr_line(s: Seq<char>) -> Seq<char> {
    if s.len() > 0 { "    "@ + s + "\n"@ } else { seq![] }
}

pub open spec fn address_text(a: Json) -> Seq<char> {
    "  Address:\n"@ + addr_line(or_empty(spec_field_str(a, seq!["line1"@]))) + addr_line(
        or_empty(spec_field_str(a, seq!["line2"@])),
    ) + addr_line(city_line(a)) + addr_line(or_empty(spec_field_str(a, seq!["country"@])))
}

fn append_addr_line(r: &mut String, s: &str)
    ensures
        final(r)@ == old(r)@ + addr_line(s@),
{
    if s.unicode_len() > 0 {
        r.append("    ");
        r.append(s);
        r.append("\n");
    }
}

pub open spec fn spec_fmt_billing_info(v: Json) -> Seq<char> {
    let info = or_json(spec_field(v, seq!["billingInfo"@, "billing_info"@]), v);
    let tax_type = or_empty(spec_field_str(info, seq!["taxIdType"@, "tax_id_type"@]));
    let tax_num = or_empty(spec_field_str(info, seq!["taxNumber"@, "tax_number"@]));
    "Billing contact\n"@ + "  Name:  "@ + or_text(spec_field_str(info, seq!["name"@]), "(no name)"@)
        + "\n"@ + "  Email: "@ + or_text(spec_field_str(info, seq!["email"@]), "-"@) + "\n"@ + (
    match spec_field(info, seq!["address"@]) {
        Some(a) => address_text(a),
        None => seq![],
    }) + (if tax_type.len() > 0 || tax_num.len() > 0 {
        "  Tax: "@ + tax_type + " "@ + tax_num + "\n"@
    } else {
        seq![]
    })
}

pub open spec fn city_line(a: Json) -> Seq<char> {
    join(
        nonempty_parts(
            seq![
                or_empty(spec_field_str(a, seq!["city"@])),
                or_empty(spec_field_str(a, seq!["state"@])),
                or_empty(spec_field_str(a, seq!["postalCode"@, "postal_code"@])),
            ],
        ),
        ", "@,
    )
}

#[verifier::spinoff_prover]
fn city_line_of(a: &Json) -> (r: String)
    ensures
        r@ == city_line(*a),
{
    let city = text_or_empty(fstr1(a, "city"));
    let state = text_or_empty(fstr1(a, "state"));
    let postal = text_or_empty(fstr2(a, "postalCode", "postal_code"));
    let ghost parts = seq![city@, state@, postal@];
    let mut v: Vec<String> = Vec::new();
    v.push(city);
    v.push(state);
    v.push(postal);
    assert(texts(v@) =~= parts);
    let kept = keep_nonempty(v);
    join_strings(&kept, ", ")
}

#[verifier::spinoff_prover]
fn address_text_of(a: &Json) -> (r: String)
    ensures
        r@ == address_text(*a),
{
    let line1 = text_or_empty(fstr1(a, "line1"));
    let line2 = text_or_empty(fstr1(a, "line2"));
    let country = text_or_empty(fstr1(a, "country"));
    let city_line = city_line_of(a);
    let mut r = String::from_str("  Address:\n");
    append_addr_line(&mut r, line1.as_str());
    append_addr_line(&mut r, line2.as_str());
    append_addr_line(&mut r, city_line.as_str());
    append_addr_line(&mut r, country.as_str());
    r
}

/// Renders the billing contact: name, email, address lines and tax id.
pub fn fmt_billing_info(v: &Json) -> (r: String)
    ensures
        r@ == spec_fmt_billing_info(*v),
{
    let info = match field2(v, "billingInfo", "billing_info") {
        Some(i) => i,
        None => v,
    };
    let name = text_or(fstr1(info, "name"), "(no name)");
    let email = text_or(fstr1(info, "email"), "-");
    let tax_type = text_or_empty(fstr2(info, "taxIdType", "tax_id_type"));
    let tax_num = text_or_empty(fstr2(info, "taxNumber", "tax_number"));
    let mut r = String::from_str("Billing contact\n");
    r.append("  Name:  ");
    r.append(name.as_str());
    r.append("\n");
    r.append("  Email: ");
    r.append(email.as_str());
    r.append("\n");
    match field1(info, "address") {
        Some(a) => {
            let t = address_text_of(a);
            r.append(t.as_str());
        },
        None => {},
    }
    if tax_type.as_str().unicode_len() > 0 || tax_num.as_str().unicode_len() > 0 {
        r.append("  Tax: ");
        r.append(tax_type.as_str());
        r.append(" ");
        r.append(tax_num.as_str());
        r.append("\n");
    }
    r
}

// ---------------------------------------------------------------- payment methods

pub open spec fn method_detail(m: Json) -> Seq<char> {
    match spec_field(m, seq!["cardDetails"@, "card_details"@]) {
        Some(card) => or_empty(spec_field_str(card, seq!["brand"@])) + " ****"@ + or_empty(
            spec_field_str(card, seq!["last4"@]),
        ) + " exp "@ + or_empty(spec_field_str(card, seq!["expMonth"@, "exp_month"@])) + "/"@
            + or_empty(spec_field_str(card, seq!["expYear"@, "exp_year"@])),
        None => match spec_field(m, seq!["linkDetails"@, "link_details"@]) {
            Some(link) => "Stripe Link ("@ + or_empty(spec_field_str(link, seq!["email"@])) + ")"@,
            None => match spec_field(m, seq!["usBankAccountDetails"@, "us_bank_account_details"@]) {
                Some(bank) => "ACH "@ + or_empty(spec_field_str(bank, seq!["bankName"@, "bank_name"@]))
                    + " ****"@ + or_empty(spec_field_str(bank, seq!["last4"@])),
                None => or_text(spec_field_str(m, seq!["paymentType"@, "payment_type"@]), "-"@),
            },
        },
    }
}

/// One entry of the list, numbered `n`.
pub open spec fn method_entry(n: nat, m: Json) -> Seq<char> {
    let bi = spec_field(m, seq!["billingInfo"@, "billing_info"@]);
    let bname = or_empty(field_str_in(bi, seq!["name"@]));
    let bemail = or_empty(field_str_in(bi, seq!["email"@]));
    let added = or_empty(spec_field_str(m, seq!["addedTs"@, "added_ts"@]));
    dec(n) + ". "@ + or_text(
        spec_field_str(m, seq!["paymentMethodId"@, "payment_method_id"@]),
        "-"@,
    ) + "\n"@ + "   type:    "@ + or_text(
        spec_field_str(m, seq!["paymentType"@, "payment_type"@]),
        "-"@,
    ) + "\n"@ + "   detail:  "@ + method_detail(m) + "\n"@ + (if bname.len() > 0 {
        "   name:    "@ + bname + "\n"@
    } else {
        seq![]
    }) + (if bemail.len() > 0 { "   email:   "@ + bemail + "\n"@ } else { seq![] }) + (if added.len()
        > 0 {
        "   added:   "@ + added + "\n"@
    } else {
        seq![]
    }) + "\n"@
}

pub open spec fn method_entries(ms: Seq<Json>) -> Seq<char>
    decreases ms.len(),
{
    if ms.len() == 0 {
        seq![]
    } else {
        method_entries(ms.drop_last()) + method_entry(ms.len(), ms.last())
    }
}

pub open spec fn pending_text(v: Json) -> Seq<char> {
    match spec_field(v, seq!["pendingPaymentMethod"@, "pending_payment_method"@]) {
        Some(p) => if p is Null {
            seq![]
        } else {
            "Pending payment method:\n"@ + match spec_field_str(
                p,
                seq!["achMicrodepositHostedVerificationUrl"@],
            ) {
                Some(url) => "  ACH verification URL: "@ + url + "\n"@,
                None => "  "@ + compact(p) + "\n"@,
            }
        },
        None => seq![],
    }
}

pub open spec fn spec_fmt_payment_methods(v: Json) -> Seq<char> {
    let ms = crate::util::elems(spec_field(v, seq!["paymentMethods"@, "payment_methods"@]));
    if ms.len() == 0 {
        "No payment methods on file.\n(Add cards at console.x.ai — the Management API cannot create payment methods.)\n"@
    } else {
        "Payment methods ("@ + dec(ms.len()) + ")\n\n"@ + method_entries(ms) + pending_text(v)
            + "Note: set_default_payment_method chooses which method is charged for top-ups.\n"@
    }
}

fn method_detail_text(m: &Json) -> (r: String)
    ensures
        r@ == method_detail(*m),
{
    match field2(m, "cardDetails", "card_details") {
        Some(card) => {
            let mut r = text_or_empty(fstr1(card, "brand"));
            r.append(" ****");
            let l = text_or_empty(fstr1(card, "last4"));
            r.append(l.as_str());
            r.append(" exp ");
            let em = text_or_empty(fstr2(card, "expMonth", "exp_month"));
            r.append(em.as_str());
            r.append("/");
            let ey = text_or_empty(fstr2(card, "expYear", "exp_year"));
            r.append(ey.as_str());
            r
        },
        None => match field2(m, "linkDetails", "link_details") {
            Some(link) => {
                let mut r = String::from_str("Stripe Link (");
                let e = text_or_empty(fstr1(link, "email"));
                r.append(e.as_str());
                r.append(")");
                r
            },
            None => match field2(m, "usBankAccountDetails", "us_bank_account_details") {
                Some(bank) => {
                    let mut r = String::from_str("ACH ");
                    let b = text_or_empty(fstr2(bank, "bankName", "bank_name"));
                    r.append(b.as_str());
                    r.append(" ****");
                    let l = text_or_empty(fstr1(bank, "last4"));
                    r.append(l.as_str());
                    r
                },
                None => text_or(fstr2(m, "paymentType", "payment_type"), "-"),
            },
        },
    }
}

#[verifier::spinoff_prover]
fn method_entry_text(n: u64, m: &Json) -> (r: String)
    ensures
        r@ == method_entry(n as nat, *m),
{
    let id = text_or(fstr2(m, "paymentMethodId", "payment_method_id"), "-");
    let ptype = text_or(fstr2(m, "paymentType", "payment_type"), "-");
    let added = text_or_empty(fstr2(m, "addedTs", "added_ts"));
    let bi = field2(m, "billingInfo", "billing_info");
    let bname = match bi {
        Some(b) => text_or_empty(fstr1(b, "name")),
        None => String::new(),
    };
    let bemail = match bi {
        Some(b) => text_or_empty(fstr1(b, "email")),
        None => String::new(),
    };
    let detail = method_detail_text(m);
    let mut r = u64_text(n);
    r.append(". ");
    r.append(id.as_str());
    r.append("\n");
    r.append("   type:    ");
    r.append(ptype.as_str());
    r.append("\n");
    r.append("   detail:  ");
    r.append(detail.as_str());
    r.append("\n");
    if bname.as_str().unicode_len() > 0 {
        r.append("   name:    ");
        r.append(bname.as_str());
        r.append("\n");
    }
    if bemail.as_str().unicode_len() > 0 {
        r.append("   email:   ");
        r.append(bemail.as_str());
        r.append("\n");
    }
    if added.as_str().unicode_len() > 0 {
        r.append("   added:   ");
        r.append(added.as_str());
        r.append("\n");
    }
    r.append("\n");
    r
}

fn pending_text_of(v: &Json) -> (r: String)
    ensures
        r@ == pending_text(*v),
{
    match field2(v, "pendingPaymentMethod", "pending_payment_method") {
        Some(p) => {
            if p.is_null() {
                return String::new();
            }
            let mut r = String::from_str("Pending payment method:\n");
            match fstr1(p, "achMicrodepositHostedVerificationUrl") {
                Some(url) => {
                    r.append("  ACH verification URL: ");
                    r.append(url.as_str());
                    r.append("\n");
                },
                None => {
                    r.append("  ");
                    let t = compact_text(p);
                    r.append(t.as_str());
                    r.append("\n");
                },
            }
            r
        },
        None => String::new(),
    }
}

/// Renders the payment methods on file, numbered from 1, and any pending method.
#[verifier::spinoff_prover]
pub fn fmt_payment_methods(v: &Json) -> (r: String)
    ensures
        r@ == spec_fmt_payment_methods(*v),
{
    let methods = crate::util::elems_of(field2(v, "paymentMethods", "payment_methods"));
    if methods.len() == 0 {
        return String::from_str(
            "No payment methods on file.\n(Add cards at console.x.ai — the Management API cannot create payment methods.)\n",
        );
    }
    let mut r = String::from_str("Payment methods (");
    let n = u64_text(methods.len() as u64);
    r.append(n.as_str());
    r.append(")\n\n");
    let ghost head = r@;
    let mut i: usize = 0;
    while i < methods.len()
        invariant
            i <= methods@.len(),
            r@ == head + method_entries(methods@.take(i as int)),
        decreases methods@.len() - i,
    {
        let e = method_entry_text((i + 1) as u64, &methods[i]);
        assert(methods@.take(i + 1).drop_last() =~= methods@.take(i as int));
        r.append(e.as_str());
        i = i + 1;
    }
    assert(methods@.take(methods@.len() as int) =~= methods@);
    let p = pending_text_of(v);
    r.append(p.as_str());
    r.append("Note: set_default_payment_method chooses which method is charged for top-ups.\n");
    r
}

// ---------------------------------------------------------------- spending limits

pub open spec fn limits_of(v: Json) -> Json {
    or_json(spec_field(v, seq!["spendingLimits"@, "spending_limits"@]), v)
}

pub open spec fn limits_notes() -> Seq<char> {
    "\nNotes:\n- Soft limit caps postpaid usage; API rejects new work after it is hit.\n- Prepaid credits are always spent first and are NOT capped by the soft limit.\n- Set soft limit to $0.00 for prepaid-only (set_spending_limit limit_cents=0).\n- Hard limit is an xAI safety ceiling (usually not user-writable).\n"@
}

pub open spec fn spec_fmt_spending_limits(v: Json) -> Seq<char> {
    let sl = limits_of(v);
    let hard_over = cell(spec_field(sl, seq!["hardSlOverride"@, "hard_sl_override"@]));
    let next = cell(spec_field(sl, seq!["nextBpDesiredSoftSl"@, "next_bp_desired_soft_sl"@]));
    "Postpaid spending limits (USD)\n\n"@ + "  Soft limit (user-set):     "@ + cell(
        spec_field(sl, seq!["softSl"@, "soft_sl"@]),
    ) + "\n"@ + "  Effective soft limit:      "@ + cell(
        spec_field(sl, seq!["effectiveSl"@, "effective_sl"@]),
    ) + "\n"@ + "  Effective hard limit:      "@ + cell(
        spec_field(sl, seq!["effectiveHardSl"@, "effective_hard_sl"@]),
    ) + "\n"@ + "  Hard limit (auto):         "@ + cell(
        spec_field(sl, seq!["hardSlAuto"@, "hard_sl_auto"@]),
    ) + "\n"@ + (if hard_over != "-"@ {
        "  Hard limit override:       "@ + hard_over + "\n"@
    } else {
        seq![]
    }) + (if next != "-"@ { "  Next period soft limit:    "@ + next + "\n"@ } else { seq![] })
        + limits_notes()
}

/// Renders the postpaid soft and hard limits in dollars, with notes.
#[verifier::spinoff_prover]
pub fn fmt_spending_limits(v: &Json) -> (r: String)
    ensures
        r@ == spec_fmt_spending_limits(*v),
{
    let sl = match field2(v, "spendingLimits", "spending_limits") {
        Some(x) => x,
        None => v,
    };
    let soft = money_cell(field2(sl, "softSl", "soft_sl"));
    let eff = money_cell(field2(sl, "effectiveSl", "effective_sl"));
    let hard = money_cell(field2(sl, "effectiveHardSl", "effective_hard_sl"));
    let hard_auto = money_cell(field2(sl, "hardSlAuto", "hard_sl_auto"));
    let hard_over = money_cell(field2(sl, "hardSlOverride", "hard_sl_override"));
    let next = money_cell(field2(sl, "nextBpDesiredSoftSl", "next_bp_desired_soft_sl"));
    let mut r = String::from_str("Postpaid spending limits (USD)\n\n");
    r.append("  Soft limit (user-set):     ");
    r.append(soft.as_str());
    r.append("\n");
    r.append("  Effective soft limit:      ");
    r.append(eff.as_str());
    r.append("\n");
    r.append("  Effective hard limit:      ");
    r.append(hard.as_str());
    r.append("\n");
    r.append("  Hard limit (auto):         ");
    r.append(hard_auto.as_str());
    r.append("\n");
    if !str_equal(hard_over.as_str(), "-") {
        r.append("  Hard limit override:       ");
        r.append(hard_over.as_str());
        r.append("\n");
    }
    if !str_equal(next.as_str(), "-") {
        r.append("  Next period soft limit:    ");
        r.append(next.as_str());
        r.append("\n");
    }
    r.append(
        "\nNotes:\n- Soft limit caps postpaid usage; API rejects new work after it is hit.\n- Prepaid credits are always spent first and are NOT capped by the soft limit.\n- Set soft limit to $0.00 for prepaid-only (set_spending_limit limit_cents=0).\n- Hard limit is an xAI safety ceiling (usually not user-writable).\n",
    );
    r
}


/// The limits text shows, in this order, the soft, effective soft, effective
/// hard and automatic hard limits of `spendingLimits` (else the payload), each
/// read from its own member.
pub proof fn lemma_spending_limit_lines(v: Json)
    ensures
        ({
            let sl = or_json(spec_field(v, seq!["spendingLimits"@, "spending_limits"@]), v);
            let pre = "Postpaid spending limits (USD)\n\n"@ + "  Soft limit (user-set):     "@ + cell(
                spec_field(sl, seq!["softSl"@, "soft_sl"@]),
            ) + "\n"@ + "  Effective soft limit:      "@ + cell(
                spec_field(sl, seq!["effectiveSl"@, "effective_sl"@]),
            ) + "\n"@ + "  Effective hard limit:      "@ + cell(
                spec_field(sl, seq!["effectiveHardSl"@, "effective_hard_sl"@]),
            ) + "\n"@ + "  Hard limit (auto):         "@ + cell(
                spec_field(sl, seq!["hardSlAuto"@, "hard_sl_auto"@]),
            ) + "\n"@;
            &&& spec_fmt_spending_limits(v).len() >= pre.len()
            &&& spec_fmt_spending_limits(v).subrange(0, pre.len() as int) == pre
        }),
{
    let sl = or_json(spec_field(v, seq!["spendingLimits"@, "spending_limits"@]), v);
    let pre = "Postpaid spending limits (USD)\n\n"@ + "  Soft limit (user-set):     "@ + cell(
        spec_field(sl, seq!["softSl"@, "soft_sl"@]),
    ) + "\n"@ + "  Effective soft limit:      "@ + cell(
        spec_field(sl, seq!["effectiveSl"@, "effective_sl"@]),
    ) + "\n"@ + "  Effective hard limit:      "@ + cell(
        spec_field(sl, seq!["effectiveHardSl"@, "effective_hard_sl"@]),
    ) + "\n"@ + "  Hard limit (auto):         "@ + cell(
        spec_field(sl, seq!["hardSlAuto"@, "hard_sl_auto"@]),
    ) + "\n"@;
    let text = spec_fmt_spending_limits(v);
    let tail = text.subrange(pre.len() as int, text.len() as int);
    assert(text =~= pre + tail);
    assert(text.subrange(0, pre.len() as int) =~= pre);
}

} // verus!
