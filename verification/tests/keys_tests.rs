use mcp_server_grok_management::format::keys::{
    collect_model_names, fmt_api_key_row, fmt_list_api_keys, fmt_list_audit, fmt_list_endpoints,
    fmt_list_models, fmt_propagation, fmt_validate_key, format_ip_ranges, format_new_secret,
};
use mcp_server_grok_management::json::Json;
use serde_json::Value;

fn to_json(v: &Value) -> Json {
    match v {
        Value::Null => Json::Null,
        Value::Bool(b) => Json::Bool(*b),
        Value::Number(n) => {
            if let Some(u) = n.as_u64() {
                Json::PosInt(u)
            } else if let Some(i) = n.as_i64() {
                Json::NegInt(i)
            } else {
                Json::Float(n.to_string())
            }
        }
        Value::String(s) => Json::Str(s.clone()),
        Value::Array(a) => Json::Array(a.iter().map(to_json).collect()),
        Value::Object(m) => Json::Object(m.iter().map(|(k, x)| (k.clone(), to_json(x))).collect()),
    }
}

fn parse(text: &str) -> Json {
    to_json(&serde_json::from_str::<Value>(text).unwrap())
}

#[test]
fn api_key_row_format() {
    let v = parse(
        r#"{"apiKeyId": "abc-123", "name": "prod", "disabled": false,
            "redactedApiKey": "xai-...xyz", "qpm": 100, "aclStrings": ["api-key:model:*"]}"#,
    );
    let line = fmt_api_key_row(&v);
    assert!(line.contains("abc-123"));
    assert!(line.contains("active"));
}

#[test]
fn collect_models() {
    let v = parse(
        r#"{"clusterConfigs": [{
            "languageModels": [{"name": "grok-4"}],
            "imageGenerationModels": [{"name": "grok-2-image"}]
        }]}"#,
    );
    assert_eq!(collect_model_names(&v), vec!["grok-4", "grok-2-image"]);
}

#[test]
fn api_key_row_exact() {
    let v = parse(
        r#"{"apiKeyId": "abc-123", "name": "prod", "disabled": true, "redactedApiKey": "xai-...xyz",
            "qps": 2, "tpm": "900", "aclStrings": ["a", 1, "b"]}"#,
    );
    assert_eq!(fmt_api_key_row(&v), "abc-123 | prod | disabled | xai-...xyz [qps=2 tpm=900] | acls=[a, b]");
    assert_eq!(fmt_api_key_row(&parse("{}")), "- | (unnamed) | active | - | acls=[-]");
}

#[test]
fn models_deduplicated_in_order() {
    let v = parse(r#"{"models": [{"name": "a"}, {"id": "b"}, "a", "c", {"name": "b"}, 7]}"#);
    assert_eq!(collect_model_names(&v), vec!["a", "b", "c"]);
    let v = parse(r#"["x", {"name": "y"}, "x"]"#);
    assert_eq!(collect_model_names(&v), vec!["x", "y"]);
    assert!(collect_model_names(&parse(r#"{"other": 1}"#)).is_empty());
}

#[test]
fn new_secret() {
    let v = parse(r#"{"apiKey": "xai-secret", "apiKeyId": "k1", "name": "prod"}"#);
    assert_eq!(
        format_new_secret(&v),
        "NEW API KEY SECRET (shown once, store it now):\nxai-secret\n\nKey ID: k1\nName: prod"
    );
    assert_eq!(
        format_new_secret(&parse(r#"{"x": 1}"#)),
        "Could not locate secret field in response — inspect carefully:\n{\n  \"x\": 1\n}"
    );
}

#[test]
fn ip_ranges() {
    assert_eq!(format_ip_ranges(&parse("{}")), "any");
    assert_eq!(format_ip_ranges(&parse(r#"{"ipRanges": null}"#)), "any");
    assert_eq!(format_ip_ranges(&parse(r#"{"ipRanges": []}"#)), "any");
    let v = parse(
        r#"{"ipRanges": {"ipRanges": [
            {"address": {"ipv4": "10.0.0.0"}, "prefixLength": 8},
            {"address": {"ipv6": "::1"}},
            {"other": true}
        ]}}"#,
    );
    assert_eq!(format_ip_ranges(&v), "10.0.0.0/8, ::1/32, {\"other\":true}/32");
}

#[test]
fn validate_key_report() {
    let v = parse(
        r#"{"name": "mgmt", "teamId": "t-1", "scope": "TEAM", "acls": ["BillingRead", "Keys"],
            "ipRanges": []}"#,
    );
    assert_eq!(
        fmt_validate_key(&v),
        "Management key: VALID\nName: mgmt\nTeam ID: t-1\nScope: TEAM\n\nBilling capability:\n  BillingRead:  yes\n  BillingWrite: not listed — set_spending_limit / top_up / set_billing_info need BillingWrite\n\nACLs (2):\n  - BillingRead\n  - Keys\n\nIP ranges: any\n"
    );
    let s = fmt_validate_key(&parse(r#"{"acls": ["BillingWrite"]}"#));
    assert!(s.contains("  BillingRead:  yes\n  BillingWrite: yes\n"));
    let s = fmt_validate_key(&parse("{}"));
    assert!(s.contains("Team ID: (unknown)\n"));
    assert!(s.contains("  BillingRead:  not listed — reads may 403\n"));
    assert!(s.contains("\nACLs (0):\n  (none)\n"));
}

#[test]
fn list_api_keys() {
    assert_eq!(fmt_list_api_keys("t1", &parse("{}")), "No API keys found for team t1.");
    let v = parse(r#"{"apiKeys": [{"apiKeyId": "a"}, {"apiKeyId": "b"}], "paginationToken": "p2"}"#);
    assert_eq!(
        fmt_list_api_keys("t1", &v),
        "API keys for team t1 (2):\n\na | (unnamed) | active | - | acls=[-]\nb | (unnamed) | active | - | acls=[-]\n\nNext page token: p2\n"
    );
    let v = parse(r#"{"apiKeys": [{"apiKeyId": "a"}]}"#);
    assert!(fmt_list_api_keys("t1", &v).ends_with("\n(no more pages)\n"));
}

#[test]
fn list_models() {
    let v = parse(r#"{"models": ["m1", {"name": "m2"}]}"#);
    assert_eq!(
        fmt_list_models("t1", &v),
        "Models for team t1 (2). Use as ACL \"api-key:model:<name>\":\n\n  - m1\n  - m2\n"
    );
    assert_eq!(fmt_list_models("t1", &parse("{}")), "No models listed.\n\nRaw:\n{}");
}

#[test]
fn list_endpoints() {
    let v = parse(r#"{"acls": [{"acl": "chat", "description": "Chat"}, "embed", 5]}"#);
    assert_eq!(
        fmt_list_endpoints("t1", &v),
        "Endpoints for team t1 (3). Use as ACL \"api-key:endpoint:<name>\":\n\n  - chat  — Chat\n  - embed\n  - 5\n"
    );
    assert_eq!(fmt_list_endpoints("t1", &parse("[]")), "No endpoints.\n\nRaw:\n[]");
}

#[test]
fn list_audit() {
    assert_eq!(fmt_list_audit(&parse("{}")), "No audit events found.");
    let v = parse(r#"{"events": [{"eventTime": "t", "description": "d"}], "nextPageToken": "n"}"#);
    assert_eq!(fmt_list_audit(&v), "Audit events (1):\n\nt | - | d\n\nNext page token: n\n");
}

#[test]
fn propagation() {
    let v = parse(r#"{"icPropagation": {"us-east": "DONE", "eu": {"s": 1}}}"#);
    assert_eq!(
        fmt_propagation("k1", &v),
        "Propagation status for k1:\n  eu: {\"s\":1}\n  us-east: \"DONE\"\n"
    );
    assert_eq!(fmt_propagation("k1", &parse("[1]")), "Propagation status for k1:\n[\n  1\n]");
}
