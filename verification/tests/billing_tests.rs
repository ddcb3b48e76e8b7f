use mcp_server_grok_management::format::billing::{
    fmt_audit_event, fmt_billing_info, fmt_invoice_detail, fmt_invoice_preview, fmt_invoices,
    fmt_payment_methods, fmt_prepaid, fmt_spending_limits,
};
use mcp_server_grok_management::format::billing::invoices::{format_args_str, invoices_are_cuttable};
use mcp_server_grok_management::format::billing::prepaid::prepaid_is_cuttable;
use mcp_server_grok_management::format::billing::usage::{usage_header, usage_series};
use mcp_server_grok_management::json::Json;
use serde_json::Value;

fn to_json(v: &Value) -> Json {
    match v {
        Value::Null => Json::Null,
        Value::Bool(b) => Json::Bool(*b),
        Value::Number(n) => {
            if let Some(u) = n.as_u64() {
                Json::PosInt(u)
            } else if let Some(i) = n.as_i64() {
                Json::NegInt(i)
            } else {
                Json::Float(n.to_string())
            }
        }
        Value::String(s) => Json::Str(s.clone()),
        Value::Array(a) => Json::Array(a.iter().map(to_json).collect()),
        Value::Object(m) => Json::Object(m.iter().map(|(k, x)| (k.clone(), to_json(x))).collect()),
    }
}

fn parse(text: &str) -> Json {
    to_json(&serde_json::from_str::<Value>(text).unwrap())
}

#[test]
fn preview_formats_cycle() {
    let v = parse(
        r#"{
            "billingCycle": {"year": 2026, "month": 7},
            "effectiveSpendingLimit": "10000",
            "defaultCredits": "0",
            "coreInvoice": {
                "amountAfterVat": "1413",
                "amountBeforeVat": "1413",
                "vatCost": "0",
                "prepaidCredits": {"val": "0"},
                "prepaidCreditsUsed": {"val": "0"},
                "lines": [
                    {"description": "API grok-4.3", "amount": "500", "unitType": "tokens", "numUnits": "10", "clusterName": "us-west-2"}
                ]
            }
        }"#,
    );
    let s = fmt_invoice_preview(&v);
    assert!(s.contains("2026-07"));
    assert!(s.contains("$14.13"));
    assert!(s.contains("grok-4.3"));
}

#[test]
fn preview_exact_text() {
    let v = parse(
        r#"{
            "billingCycle": {"year": 2026, "month": 7},
            "effectiveSpendingLimit": "10000",
            "coreInvoice": {
                "amountAfterVat": "1413",
                "lines": [
                    {"description": "B", "amount": "100", "numUnits": "1"},
                    {"description": "A", "amount": "500", "numUnits": "2", "unitType": "tokens", "clusterName": "us"},
                    {"description": "B", "amount": "300", "numUnits": "3"},
                    {"description": "C", "amount": "0"}
                ]
            }
        }"#,
    );
    let expected = "Current postpaid period: 2026-07\n\n\
        \x20 Amount after tax:   $14.13\n\
        \x20 Amount before tax:  -\n\
        \x20 VAT:                -\n\
        \x20 Effective spend limit: $100.00\n\
        \x20 Default credits:    -\n\
        \x20 Prepaid credits:    -\n\
        \x20 Prepaid used:       -\n\
        \x20 Headroom to soft limit: $85.87\n\
        \nLine items by product (4 raw lines → 3 groups):\n\
        \x20      $5.00  A\n\
        \x20      $4.00  B\n\
        \x20      $0.00  C\n\
        \nTop raw lines (amount > $0):\n\
        \x20      $5.00  A | tokens x2 @ us\n\
        \x20      $3.00  B |  x3 @ \n\
        \x20      $1.00  B |  x1 @ \n";
    assert_eq!(fmt_invoice_preview(&v), expected);
}

#[test]
fn preview_without_lines_and_negative_headroom() {
    let v = parse(r#"{"effectiveSpendingLimit": 100, "amountAfterVat": 250}"#);
    let s = fmt_invoice_preview(&v);
    assert!(s.starts_with("Current postpaid period: 0000-00\n"));
    assert!(s.contains("  Headroom to soft limit: -$1.50\n"));
    assert!(s.ends_with("\n(no line items yet this period)\n"));
}

#[test]
fn preview_groups_equal_amounts_keep_first_appearance() {
    let v = parse(
        r#"{"lines": [
            {"description": "x", "amount": 5},
            {"description": "y", "amount": 5},
            {"description": "z", "amount": 9}
        ]}"#,
    );
    let s = fmt_invoice_preview(&v);
    let zi = s.find("  z\n").unwrap();
    let xi = s.find("  x\n").unwrap();
    let yi = s.find("  y\n").unwrap();
    assert!(zi < xi && xi < yi);
}

#[test]
fn invoices_table() {
    let v = parse(
        r#"{"invoices": [
            {"createTime": "2025-01-31T10:00:00Z", "status": "PAID", "total": {"val": "1413"},
             "monthly": {"billingCycle": {"year": 2025, "month": 1}},
             "invoiceId": "inv_0123456789abcdefghijkl"},
            {"invoiceId": "short-id"}
        ]}"#,
    );
    assert!(invoices_are_cuttable(&v));
    assert_eq!(
        fmt_invoices(&v),
        "Invoices (2)\n\n  created      status          total  cycle    invoice_id\n  2025-01-31   PAID           $14.13  2025-01  inv_0123456789abcdef…\n  -            -                   -  -        short-id\n\nUse get_invoice with invoice_id for line-item detail.\n"
    );
    assert_eq!(fmt_invoices(&parse(r#"{"invoices": []}"#)), "No invoices found.\n");
}

#[test]
fn invoice_ids_that_cannot_be_cut() {
    let v = parse(r#"{"invoices": [{"invoiceId": "€€€€€€€€€"}]}"#);
    assert!(!invoices_are_cuttable(&v));
}

#[test]
fn invoice_detail() {
    let inv = parse(
        r#"{"invoiceId": "inv-1", "invoiceNumber": "N-7", "status": "PAID",
            "createTime": "2025-01-31T10:00:00Z", "total": {"val": "1413"}, "subtotal": "1300",
            "tax": 113, "monthly": {"billingCycle": {"year": 2025, "month": 1}},
            "lines": [{"description": "API grok-4", "unitType": "tokens", "numUnits": "10", "amount": "500"}]}"#,
    );
    assert_eq!(
        fmt_invoice_detail(&inv),
        "Invoice detail\n  ID:      inv-1\n  Number:  N-7\n  Status:  PAID\n  Created: 2025-01-31T10:00:00Z\n  Subtotal:$13.00\n  Tax:     $1.13\n  Total:   $14.13\n  Cycle:   2025-01\n\nLine items (1):\n       $5.00  API grok-4 | tokens x10\n"
    );
}

#[test]
fn table_header() {
    assert_eq!(
        format_args_str("ignored", &["created", "status", "total", "cycle", "invoice_id"]),
        "  created      status          total  cycle    invoice_id\n"
    );
}

#[test]
fn prepaid_ledger_newest_first() {
    let v = parse(
        r#"{"total": {"val": "-2500"}, "changes": [
            {"createTime": "2025-01-01T00:00:00Z", "changeOrigin": "PURCHASE", "amount": {"val": "-2500"},
             "topupStatus": "SUCCEEDED", "invoiceNumber": "INV-0001"},
            {"createTime": "2025-02-01T00:00:00Z", "changeOrigin": "SPEND", "amount": {"val": "300"}}
        ]}"#,
    );
    assert!(prepaid_is_cuttable(&v));
    assert_eq!(
        fmt_prepaid(&v),
        "Prepaid credit balance\n\n  Ledger total (raw cents): -2500\n  Available credit (approx): $25.00\n\nRecent balance changes (2, showing up to 20):\n  2025-02-01T00:00:00Z     SPEND          spend  $3.00    \n  2025-01-01T00:00:00Z     PURCHASE       credit $25.00    [SUCCEEDED] inv=INV-0001\n\nTop up with top_up (confirm=\"TOP-UP\", amount_cents=…).\n"
    );
}

#[test]
fn prepaid_unknown_total_and_month_key() {
    let v = parse(
        r#"{"changes": [{"spendBpKeyYear": 2025, "spendBpKeyMonth": 3, "amount": -5,
            "invoiceId": "abcdefghijklmnopqrstu"}]}"#,
    );
    let s = fmt_prepaid(&v);
    assert!(s.contains("  Total: (unknown)\n"));
    assert!(s.contains("  2025-03                  -              -$0.05           inv=abcdefghijkl\n"));
}

#[test]
fn billing_contact() {
    let v = parse(
        r#"{"billingInfo": {"name": "Ada", "email": "ada@example.com",
            "address": {"line1": "1 Main St", "city": "Springfield", "postalCode": "12345", "country": "US"},
            "taxNumber": "X1"}}"#,
    );
    assert_eq!(
        fmt_billing_info(&v),
        "Billing contact\n  Name:  Ada\n  Email: ada@example.com\n  Address:\n    1 Main St\n    Springfield, 12345\n    US\n  Tax:  X1\n"
    );
    assert_eq!(fmt_billing_info(&parse("{}")), "Billing contact\n  Name:  (no name)\n  Email: -\n");
}

#[test]
fn payment_methods() {
    assert_eq!(
        fmt_payment_methods(&parse("{}")),
        "No payment methods on file.\n(Add cards at console.x.ai — the Management API cannot create payment methods.)\n"
    );
    let v = parse(
        r#"{"paymentMethods": [
            {"paymentMethodId": "pm_1", "paymentType": "CARD",
             "cardDetails": {"brand": "visa", "last4": "4242", "expMonth": 12, "expYear": 2030},
             "billingInfo": {"name": "Ada"}},
            {"paymentMethodId": "pm_2", "paymentType": "LINK", "linkDetails": {"email": "a@b.c"}, "addedTs": "t0"}
        ], "pendingPaymentMethod": {"achMicrodepositHostedVerificationUrl": "https://verify"}}"#,
    );
    assert_eq!(
        fmt_payment_methods(&v),
        "Payment methods (2)\n\n1. pm_1\n   type:    CARD\n   detail:  visa ****4242 exp 12/2030\n   name:    Ada\n\n2. pm_2\n   type:    LINK\n   detail:  Stripe Link (a@b.c)\n   added:   t0\n\nPending payment method:\n  ACH verification URL: https://verify\nNote: set_default_payment_method chooses which method is charged for top-ups.\n"
    );
}

#[test]
fn pending_method_shown_raw() {
    let v = parse(r#"{"paymentMethods": [{"paymentMethodId": "pm_1"}], "pendingPaymentMethod": {"k": [1, "a"]}}"#);
    let s = fmt_payment_methods(&v);
    assert!(s.contains("Pending payment method:\n  {\"k\":[1,\"a\"]}\n"));
    assert!(s.contains("   detail:  -\n"));
}

#[test]
fn spending_limits() {
    let v = parse(r#"{"spendingLimits": {"softSl": {"val": "10000"}, "effectiveSl": "10000", "hardSlOverride": "50000"}}"#);
    assert_eq!(
        fmt_spending_limits(&v),
        "Postpaid spending limits (USD)\n\n  Soft limit (user-set):     $100.00\n  Effective soft limit:      $100.00\n  Effective hard limit:      -\n  Hard limit (auto):         -\n  Hard limit override:       $500.00\n\nNotes:\n- Soft limit caps postpaid usage; API rejects new work after it is hit.\n- Prepaid credits are always spent first and are NOT capped by the soft limit.\n- Set soft limit to $0.00 for prepaid-only (set_spending_limit limit_cents=0).\n- Hard limit is an xAI safety ceiling (usually not user-writable).\n"
    );
}

#[test]
fn audit_events() {
    let e = parse(r#"{"eventTime": "t1", "user": {"email": "u@x"}, "description": "did it"}"#);
    assert_eq!(fmt_audit_event(&e), "t1 | u@x | did it");
    let e = parse(
        r#"{"time": "t2", "actor": {"user": {"email": "a@x"}}, "operation": "OPERATION_CREATE",
            "entityType": "API_KEY", "entityName": "prod", "primaryKey": ["k1", 5, "k2"]}"#,
    );
    assert_eq!(fmt_audit_event(&e), "t2 | a@x | CREATE · API_KEY · prod · k1,k2");
    let e = parse(r#"{"userId": "u9", "eventId": "ev1"}"#);
    assert_eq!(fmt_audit_event(&e), "- | u9 | ev1");
    assert_eq!(fmt_audit_event(&parse("{}")), "- | - | -");
}

#[test]
fn usage_report_parts() {
    let v = parse(
        r#"{"limitReached": true, "timeSeries": [
            {"groupLabels": ["grok-4", "chat"], "dataPoints": [{"values": [1.5, "2"]}, {"values": [3]}]},
            {"dataPoints": []}
        ]}"#,
    );
    assert_eq!(
        usage_header(&v, "2025-01-01 00:00:00", "2025-02-01 00:00:00", "TIME_UNIT_DAY"),
        "Usage analytics  2025-01-01 00:00:00 → 2025-02-01 00:00:00  (TIME_UNIT_DAY)\nWARNING: result cardinality limit reached — partial data.\n"
    );
    let series = usage_series(&v);
    assert_eq!(series.len(), 2);
    assert_eq!(series[0].label, "grok-4 / chat");
    assert_eq!(series[0].values.len(), 3);
    assert_eq!(series[1].label, "(ungrouped)");
    assert_eq!(series[1].values.len(), 0);
    assert_eq!(
        usage_header(&parse("{}"), "a", "b", "u"),
        "Usage analytics  a → b  (u)\n\nNo time series returned.\n"
    );
}
