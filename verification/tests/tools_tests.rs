use mcp_server_grok_management::api::{
    api_err, extract_team_id, interpret_response, status_text, team_discovered,
    team_id_from_validation, truncate, Api, Method, TeamStep,
};
use mcp_server_grok_management::config::{check_config, Config, DEFAULT_BASE_URL};
use mcp_server_grok_management::helpers::{map_fmt, require_confirm};
use mcp_server_grok_management::json::Json;
use mcp_server_grok_management::params::{
    CreateApiKeyParams, DeleteApiKeyParams, GetInvoiceParams, GetUsageParams, ListApiKeysParams,
    ListAuditEventsParams, ListInvoicesParams, RotateApiKeyParams, SetBillingInfoParams,
    SetDefaultPaymentMethodParams, SetSpendingLimitParams, TopUpParams, UpdateApiKeyParams,
};
use mcp_server_grok_management::tools::audit::audit_events_query;
use mcp_server_grok_management::tools::billing::{
    billing_info_updated_text, billing_overview_text, default_payment_method_text,
    invoice_lookup_query, invoice_lookup_text, invoices_query, set_billing_info_plan,
    set_default_payment_method_gate, set_spending_limit_gate, spending_limit_text, top_up_gate,
    top_up_text, usage_plan,
};
use mcp_server_grok_management::tools::keys::{
    api_keys_query, create_api_key_body, created_key_text, delete_api_key_gate, deleted_text,
    rotate_api_key_gate, rotated_text, update_api_key_plan, updated_key_text,
};
use serde_json::Value;

fn to_json(v: &Value) -> Json {
    match v {
        Value::Null => Json::Null,
        Value::Bool(b) => Json::Bool(*b),
        Value::Number(n) => {
            if let Some(u) = n.as_u64() {
                Json::PosInt(u)
            } else if let Some(i) = n.as_i64() {
                Json::NegInt(i)
            } else {
                Json::Float(n.to_string())
            }
        }
        Value::String(s) => Json::Str(s.clone()),
        Value::Array(a) => Json::Array(a.iter().map(to_json).collect()),
        Value::Object(m) => Json::Object(m.iter().map(|(k, x)| (k.clone(), to_json(x))).collect()),
    }
}

fn parse(text: &str) -> Json {
    to_json(&serde_json::from_str::<Value>(text).unwrap())
}

fn back(j: &Json) -> Value {
    match j {
        Json::Null => Value::Null,
        Json::Bool(b) => Value::Bool(*b),
        Json::PosInt(u) => Value::from(*u),
        Json::NegInt(i) => Value::from(*i),
        Json::Float(t) => Value::Number(t.parse().unwrap()),
        Json::Str(s) => Value::String(s.clone()),
        Json::Array(a) => Value::Array(a.iter().map(back).collect()),
        Json::Object(m) => Value::Object(m.iter().map(|(k, x)| (k.clone(), back(x))).collect()),
    }
}

fn value(text: &str) -> Value {
    serde_json::from_str(text).unwrap()
}

fn pairs(q: &[(String, String)]) -> Vec<(&str, &str)> {
    q.iter().map(|(k, v)| (k.as_str(), v.as_str())).collect()
}

fn api() -> Api {
    Api::new(&Config {
        management_key: "mk".to_string(),
        team_id: Some("  team-9 ".to_string()),
        base_url: Some("https://example.test//".to_string()),
    })
}

// ---------------------------------------------------------------- config

#[test]
fn config_base_url_and_key() {
    let c = Config { management_key: " ".to_string(), team_id: None, base_url: Some("///".to_string()) };
    assert_eq!(c.base_url(), DEFAULT_BASE_URL);
    assert_eq!(check_config(&c, "/p/config.toml"), Err("management_key cannot be empty in /p/config.toml".to_string()));
    let c = Config { management_key: "k".to_string(), team_id: None, base_url: None };
    assert_eq!(c.base_url(), "https://management-api.x.ai");
    assert_eq!(check_config(&c, "x"), Ok(()));
}

// ---------------------------------------------------------------- requests

#[test]
fn requests_carry_key_and_base_url() {
    let a = api();
    assert_eq!(a.base_url, "https://example.test");
    assert!(matches!(a.team_id(&None), TeamStep::Known(ref t) if t == "team-9"));
    assert!(matches!(a.team_id(&Some("cached".to_string())), TeamStep::Known(ref t) if t == "team-9"));
    let r = a.validate();
    assert!(r.method == Method::Get);
    assert_eq!(r.url, "https://example.test/auth/management-keys/validation");
    assert_eq!(r.bearer, "mk");
    assert!(r.query.is_empty() && r.body.is_none());
    let r = a.set_spending_limit("t1", 10000);
    assert!(r.method == Method::Post);
    assert_eq!(r.url, "https://example.test/v1/billing/teams/t1/postpaid/spending-limits");
    assert_eq!(back(r.body.as_ref().unwrap()), value(r#"{"desiredSoftSpendingLimit": {"val": "10000"}}"#));
    let r = a.top_up("t1", 2500);
    assert_eq!(r.url, "https://example.test/v1/billing/teams/t1/prepaid/top-up");
    assert_eq!(back(r.body.as_ref().unwrap()), value(r#"{"amount": {"val": "2500"}}"#));
    let r = a.delete_api_key("k1");
    assert!(r.method == Method::Delete);
    assert_eq!(r.url, "https://example.test/auth/api-keys/k1");
    let q = vec![("a".to_string(), "b".to_string())];
    let r = a.list_invoices("t1", &q);
    assert_eq!(r.url, "https://example.test/v1/billing/teams/t1/invoices");
    assert_eq!(pairs(&r.query), vec![("a", "b")]);
}

#[test]
fn blank_configured_team_is_ignored() {
    let a = Api::new(&Config { management_key: "k".to_string(), team_id: Some(" ".to_string()), base_url: None });
    match a.team_id(&None) {
        TeamStep::Discover(r) => {
            assert!(r.method == Method::Get);
            assert_eq!(r.url, "https://management-api.x.ai/auth/management-keys/validation");
        }
        TeamStep::Known(_) => panic!("a blank team id is not an answer"),
    }
    assert!(matches!(a.team_id(&Some("t-7".to_string())), TeamStep::Known(ref t) if t == "t-7"));
    assert_eq!(a.base_url, DEFAULT_BASE_URL);
}

// ---------------------------------------------------------------- responses

#[test]
fn status_lines() {
    assert_eq!(status_text(404), "404 Not Found");
    assert_eq!(status_text(200), "200 OK");
    assert_eq!(status_text(599), "599 <unknown status code>");
}

#[test]
fn responses() {
    assert!(matches!(interpret_response(204, "  ", None), Ok(Json::Null)));
    assert_eq!(interpret_response(502, "", None).unwrap_err(), "HTTP 502 Bad Gateway: empty response body");
    assert!(matches!(interpret_response(200, "hello", None), Ok(Json::Str(ref s)) if s == "hello"));
    assert_eq!(interpret_response(500, "oops", None).unwrap_err(), "HTTP 500: oops");
    assert_eq!(
        interpret_response(403, "{\"e\":1}", Some(parse("{\"e\":1}"))).unwrap_err(),
        "Permission denied (403) — your management key lacks the required ACL for this endpoint: {\"e\":1}"
    );
    let ok = interpret_response(200, "{\"a\": 1}", Some(parse("{\"a\": 1}"))).unwrap();
    assert_eq!(back(&ok), value("{\"a\": 1}"));
    let long = "x".repeat(600);
    let e = interpret_response(400, &long, None).unwrap_err();
    assert_eq!(e, format!("HTTP 400: {}…", "x".repeat(500)));
}

#[test]
fn truncation_and_errors() {
    assert_eq!(truncate("héllo", 3), "hél…");
    assert_eq!(truncate("héllo", 5), "héllo");
    assert_eq!(api_err(429, "slow"), "HTTP 429: slow");
}

#[test]
fn team_cache_after_validation() {
    let (r, cache) = team_discovered(None, &parse(r#"{"scopeId": " s1 "}"#));
    assert_eq!(r, Ok("s1".to_string()));
    assert_eq!(cache, Some("s1".to_string()));
    let a = Api::new(&Config { management_key: "k".to_string(), team_id: None, base_url: None });
    assert!(matches!(a.team_id(&cache), TeamStep::Known(ref t) if t == "s1"));
    let (r, cache) = team_discovered(None, &parse(r#"{"x": 1}"#));
    assert!(r.unwrap_err().contains("set team_id in config.toml"));
    assert_eq!(cache, None);
}

#[test]
fn team_discovery() {
    assert_eq!(extract_team_id(&parse(r#"{"teamId": " ", "scopeId": " s1 "}"#)), Some("s1".to_string()));
    assert_eq!(team_id_from_validation(&parse(r#"{"team_id": "t"}"#)), Ok("t".to_string()));
    assert_eq!(
        team_id_from_validation(&parse(r#"{"b": 1, "a": 2}"#)),
        Err("Could not auto-discover team_id from key validation; set team_id in config.toml. Response keys: a, b".to_string())
    );
}

// ---------------------------------------------------------------- gates

#[test]
fn confirm_gates() {
    assert!(require_confirm("YES", "YES", "no").is_ok());
    let e = require_confirm("yes", "YES", "refused").unwrap_err();
    assert!(e.is_error && e.text == "refused");

    let e = delete_api_key_gate(&DeleteApiKeyParams { api_key_id: "k".into(), confirm: "delete".into() }).unwrap_err();
    assert_eq!(e.text, "Deletion NOT executed. Pass confirm = \"DELETE\" to permanently delete this API key.");
    assert_eq!(delete_api_key_gate(&DeleteApiKeyParams { api_key_id: " k ".into(), confirm: "DELETE".into() }).ok(), Some("k".to_string()));
    let e = rotate_api_key_gate(&RotateApiKeyParams { api_key_id: "k".into(), confirm: "".into() }).unwrap_err();
    assert_eq!(e.text, "Rotation NOT executed. Pass confirm = \"ROTATE\". Rotation invalidates the current secret (new secret returned once).");
    assert_eq!(rotate_api_key_gate(&RotateApiKeyParams { api_key_id: "k".into(), confirm: "ROTATE".into() }).ok(), Some("k".to_string()));

    let e = set_spending_limit_gate(&SetSpendingLimitParams { limit_cents: 5, confirm: "YES".into() }).unwrap_err();
    assert_eq!(e.text, "Spending limit NOT changed. Pass confirm = \"YES-WRITE\" to set the soft limit.");
    assert_eq!(set_spending_limit_gate(&SetSpendingLimitParams { limit_cents: 0, confirm: "YES-WRITE".into() }).ok(), Some(0));

    let e = set_default_payment_method_gate(&SetDefaultPaymentMethodParams { payment_method_id: "pm".into(), confirm: "x".into() }).unwrap_err();
    assert_eq!(e.text, "Default payment method NOT changed. Pass confirm = \"YES-WRITE\".");
    assert_eq!(
        set_default_payment_method_gate(&SetDefaultPaymentMethodParams { payment_method_id: " pm_1 ".into(), confirm: "YES-WRITE".into() }).ok(),
        Some("pm_1".to_string())
    );
    assert_eq!(default_payment_method_text("pm_1"), "Default payment method set to pm_1.");

    let e = top_up_gate(&TopUpParams { amount_cents: 2500, confirm: "TOPUP".into() }).unwrap_err();
    assert_eq!(e.text, "Top-up NOT executed. This CHARGES the team payment card. Pass confirm = \"TOP-UP\" with amount_cents (e.g. 2500 = $25.00).");
    let e = top_up_gate(&TopUpParams { amount_cents: 0, confirm: "TOP-UP".into() }).unwrap_err();
    assert!(e.is_error);
    assert_eq!(e.text, "amount_cents must be greater than 0.");
    assert_eq!(top_up_gate(&TopUpParams { amount_cents: 2500, confirm: "TOP-UP".into() }).ok(), Some(2500));
}

#[test]
fn billing_info_gate_and_body() {
    let p = |confirm: &str| SetBillingInfoParams {
        name: "Ada".into(),
        email: "a@x".into(),
        line1: Some("1 Main".into()),
        line2: None,
        city: Some("C".into()),
        state: None,
        postal_code: None,
        country: Some("US".into()),
        tax_id_type: None,
        tax_number: Some("T".into()),
        confirm: confirm.into(),
    };
    let e = set_billing_info_plan(p("no")).unwrap_err();
    assert_eq!(e.text, "Billing info NOT changed. Pass confirm = \"YES-WRITE\".");
    let body = set_billing_info_plan(p("YES-WRITE")).ok().unwrap();
    assert_eq!(
        back(&body),
        value(
            r#"{"billingInfo": {"name": "Ada", "email": "a@x",
                "address": {"line1": "1 Main", "line2": "", "city": "C", "state": "", "postalCode": "", "country": "US"},
                "taxIdType": "", "taxNumber": "T"}}"#
        )
    );
    let t = billing_info_updated_text(&parse(r#"{"name": "Ada"}"#));
    assert_eq!(t, "Billing info updated.\n\nBilling contact\n  Name:  Ada\n  Email: -\n");
}

// ---------------------------------------------------------------- queries and bodies

#[test]
fn invoice_queries() {
    let q = invoices_query(&ListInvoicesParams {
        year: Some(2025),
        month: Some(-1),
        since_year: None,
        since_month: Some(3),
        invoice_ids: Some(vec!["a".into(), "b".into()]),
    });
    assert_eq!(
        pairs(&q),
        vec![
            ("billingCycle.year", "2025"),
            ("billingCycle.month", "-1"),
            ("since.month", "3"),
            ("invoiceIds.invoiceIds", "a"),
            ("invoiceIds.invoiceIds", "b"),
        ]
    );
    let (id, q) = invoice_lookup_query(&GetInvoiceParams { invoice_id: " inv-1 ".into() });
    assert_eq!(id, "inv-1");
    assert_eq!(pairs(&q), vec![("invoiceIds.invoiceIds", "inv-1")]);
}

#[test]
fn invoice_lookup() {
    assert_eq!(invoice_lookup_text("x", &parse(r#"{"invoices": []}"#)), "No invoice found for id x");
    let v = parse(r#"{"invoices": [{"invoiceId": "a"}, {"invoice_id": "b", "status": "OPEN"}]}"#);
    assert!(invoice_lookup_text("b", &v).contains("  ID:      b\n  Status:  OPEN\n"));
    assert!(invoice_lookup_text("zzz", &v).starts_with("Invoice detail\n  ID:      a\n"));
}

#[test]
fn audit_and_key_queries() {
    let q = audit_events_query(ListAuditEventsParams {
        page_size: None,
        page_token: Some("".into()),
        user_id: Some("u".into()),
        query: None,
        time_from: Some("t0".into()),
        time_to: None,
    });
    assert_eq!(pairs(&q), vec![("pageSize", "20"), ("eventFilter.userId", "u"), ("eventTimeFrom", "t0")]);
    let q = api_keys_query(ListApiKeysParams {
        page_size: Some(5),
        pagination_token: Some("p".into()),
        acl_filters: Some(vec!["x".into(), "y".into()]),
        active_only: Some(true),
    });
    assert_eq!(
        pairs(&q),
        vec![("pageSize", "5"), ("paginationToken", "p"), ("activeOnly", "true"), ("aclFilters", "x"), ("aclFilters", "y")]
    );
}

#[test]
fn create_and_update_bodies() {
    let (body, empty) = create_api_key_body(CreateApiKeyParams {
        name: "k".into(),
        acls: vec![],
        qps: Some(3),
        qpm: None,
        tpm: Some(1000),
        expire_time: None,
    });
    assert!(empty);
    assert_eq!(back(&body), value(r#"{"name": "k", "acls": [], "qps": 3, "tpm": "1000"}"#));
    let t = created_key_text(true, &parse(r#"{"apiKey": "s", "apiKeyId": "i", "name": "k"}"#));
    assert!(t.starts_with("WARNING: empty ACL list — this key has NO access until update_api_key.\n\nNEW API KEY SECRET"));
    assert!(t.ends_with("\ni | k | active | - | acls=[-]\n"));

    let none = UpdateApiKeyParams { api_key_id: "k".into(), name: None, acls: None, qps: None, qpm: None, tpm: None, disabled: None };
    let e = update_api_key_plan(none).err().unwrap();
    assert_eq!(e.text, "Nothing to update: provide at least one of name, acls, qps, qpm, tpm, disabled.");
    let plan = update_api_key_plan(UpdateApiKeyParams {
        api_key_id: " k1 ".into(),
        name: Some("n".into()),
        acls: Some(vec!["a".into()]),
        qps: None,
        qpm: Some(9),
        tpm: None,
        disabled: Some(false),
    })
    .ok()
    .unwrap();
    assert_eq!(plan.api_key_id, "k1");
    assert_eq!(plan.fields, "name, aclStrings, qpm, disabled");
    assert_eq!(
        back(&plan.body),
        value(r#"{"apiKey": {"name": "n", "aclStrings": ["a"], "qpm": 9, "disabled": false}, "fieldMask": "name,aclStrings,qpm,disabled"}"#)
    );
    assert_eq!(
        updated_key_text("k1", "name", &parse(r#"{"apiKeyId": "k1"}"#)),
        "Updated API key k1 (fields: name):\n\nk1 | (unnamed) | active | - | acls=[-]"
    );
    assert_eq!(deleted_text("k1"), "Deleted API key k1.");
    assert!(rotated_text("k1", &parse(r#"{"apiKey": "s2"}"#)).starts_with("Rotated API key k1.\n\nNEW API KEY SECRET (shown once, store it now):\ns2\n"));
}

#[test]
fn usage_plans() {
    let p = GetUsageParams {
        time_from: "2025-01-01".into(),
        time_to: "2025-02-01T00:00:00Z".into(),
        time_unit: Some("month".into()),
        timezone: Some("".into()),
        group_by: Some(vec![]),
        metric: None,
    };
    let plan = usage_plan(&p).ok().unwrap();
    assert_eq!(plan.unit, "TIME_UNIT_MONTH");
    assert_eq!(plan.start, "2025-01-01 00:00:00");
    assert_eq!(plan.end, "2025-02-01 00:00:00");
    assert_eq!(
        back(&plan.body),
        value(
            r#"{"analyticsRequest": {
                "timeRange": {"startTime": "2025-01-01 00:00:00", "endTime": "2025-02-01 00:00:00", "timezone": "Etc/GMT"},
                "timeUnit": "TIME_UNIT_MONTH",
                "values": [{"name": "usd", "aggregation": "AGGREGATION_SUM"}],
                "groupBy": ["description"],
                "filters": []}}"#
        )
    );
    let bad = GetUsageParams { time_unit: Some("year".into()), ..p };
    let e = usage_plan(&bad).err().unwrap();
    assert!(e.is_error);
    assert_eq!(e.text, "time_unit must be one of DAY, HOUR, MONTH, WEEK, NONE (got YEAR)");
}

// ---------------------------------------------------------------- replies

#[test]
fn spending_and_top_up_replies() {
    assert_eq!(
        spending_limit_text(10000, &parse(r#"{"thisBpSoftSpendingLimit": {"val": "10000"}}"#)),
        "Soft spending limit set to $100.00 (10000 cents).\nAPI response applied: $100.00\n\nRe-check with get_spending_limits / billing_overview."
    );
    assert_eq!(
        top_up_text(2500, &parse(r#"{"change": {"topupStatus": "PENDING", "invoiceNumber": "N1"}}"#)),
        "Top-up of $25.00 (2500 cents) submitted.\nStatus: PENDING\nInvoice: N1\n\n{\n  \"change\": {\n    \"invoiceNumber\": \"N1\",\n    \"topupStatus\": \"PENDING\"\n  }\n}"
    );
    assert_eq!(top_up_text(1, &parse("{}")), "Top-up of $0.01 (1 cents) submitted.\nStatus: -\nInvoice: \n\n{}");
}

#[test]
fn map_fmt_results() {
    let r = map_fmt(Ok(parse("{}")), |_v: &Json| "done".to_string());
    assert!(!r.is_error && r.text == "done");
    let r = map_fmt(Err("HTTP 500: x".to_string()), |_v: &Json| "done".to_string());
    assert!(r.is_error && r.text == "HTTP 500: x");
}

#[test]
fn overview() {
    let preview: Result<Json, String> = Err("HTTP 403: no".to_string());
    let limits = Ok(parse(r#"{"softSl": "100"}"#));
    let prepaid = Ok(parse(r#"{"total": {"val": "-2500"}}"#));
    let methods = Ok(parse("{}"));
    let info: Result<Json, String> = Err("boom".to_string());
    let s = billing_overview_text("t1", &preview, &limits, &prepaid, &methods, &info);
    assert!(s.starts_with("=== Billing overview (team t1) ===\n\n--- Current period ---\nERROR: HTTP 403: no\n\n--- Spending limits ---\nPostpaid spending limits (USD)\n"));
    assert!(s.contains("\n--- Prepaid ---\n  Available credit (approx): $25.00\n  Ledger raw cents: -2500\n\n--- Payment methods ---\nNo payment methods on file."));
    assert!(s.ends_with("--- Billing contact ---\nERROR: boom\n\n"));
    let prepaid = Ok(parse(r#"{"changes": []}"#));
    let s = billing_overview_text("t1", &preview, &limits, &prepaid, &methods, &info);
    assert!(s.contains("\n--- Prepaid ---\nPrepaid credit balance\n\n  Total: (unknown)\n"));
}
