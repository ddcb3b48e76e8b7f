//! Requests to the Management API and the reading of its responses.
//!
//! The library describes each request (method, URL, bearer key, query, body)
//! and decides what a response means; sending it is the caller's I/O.
use vstd::prelude::*;
use crate::config::{Config, spec_base_url};
use crate::json::{Json, JsonV, jstr, object1, object_of, spec_get};
use crate::util::opt_text;
use crate::text::{chars_of, dec, join, join_strings, owned, push_dec, str_equal, string_of_range, texts, trim, trimmed, u64_text};

verus! {

/// HTTP methods the Management API is called with.
#[derive(PartialEq, Eq, Structural)]
pub enum Method {
    Get,
    Post,
    Put,
    Delete,
}

/// One call to the Management API.
pub struct Request {
    pub method: Method,
    pub url: String,
    pub bearer: String,
    pub query: Vec<(String, String)>,
    pub body: Option<Json>,
}

/// Where and how the Management API is reached.
pub struct Api {
    pub base_url: String,
    pub management_key: String,
    pub configured_team_id: Option<String>,
}

pub open spec fn qview(q: Seq<(String, String)>) -> Seq<(Seq<char>, Seq<char>)> {
    q.map_values(|p: (String, String)| (p.0@, p.1@))
}

pub open spec fn body_view(b: Option<Json>) -> Option<JsonV> {
    match b {
        Some(j) => Some(j@),
        None => None,
    }
}

/// `r` calls `path` of `api` with `m`, the query `q` and the body `b`.
pub open spec fn is_request(
    r: Request,
    api: Api,
    m: Method,
    path: Seq<char>,
    q: Seq<(Seq<char>, Seq<char>)>,
    b: Option<JsonV>,
) -> bool {
    &&& r.method == m
    &&& r.url@ == api.base_url@ + path
    &&& r.bearer@ == api.management_key@
    &&& qview(r.query@) == q
    &&& body_view(r.body) == b
}

fn copy_query(q: &[(String, String)]) -> (r: Vec<(String, String)>)
    ensures
        qview(r@) == qview(q@),
{
    let mut out: Vec<(String, String)> = Vec::new();
    let mut i: usize = 0;
    while i < q.len()
        invariant
            i <= q@.len(),
            out@ == q@.take(i as int),
        decreases q@.len() - i,
    {
        let ghost before = out@;
        out.push((q[i].0.clone(), q[i].1.clone()));
        assert(out@ =~= before.push(q@[i as int]));
        assert(q@.take(i + 1) =~= q@.take(i as int).push(q@[i as int]));
        i = i + 1;
    }
    assert(q@.take(q@.len() as int) =~= q@);
    out
}

/// `path` with the team id spliced in: `before + team_id + after`.
pub open spec fn team_path(before: Seq<char>, team_id: Seq<char>, after: Seq<char>) -> Seq<char> {
    before + team_id + after
}

fn path3(before: &str, id: &str, after: &str) -> (r: String)
    ensures
        r@ == team_path(before@, id@, after@),
{
    let mut r = owned(before);
    r.append(id);
    r.append(after);
    r
}

/// What a call for the team id needs: the id, or the request that discovers it.
pub enum TeamStep {
    Known(String),
    Discover(Request),
}

/// The configured team id, trimmed, when it is not blank.
pub open spec fn configured_team(configured: Option<Seq<char>>) -> Option<Seq<char>> {
    match configured {
        Some(c) => if trim(c).len() > 0 { Some(trim(c)) } else { None },
        None => None,
    }
}

/// The team id answered without a request: the configured one, trimmed, when
/// it is not blank; else the one discovered earlier, if any.
pub open spec fn known_team(configured: Option<Seq<char>>, cached: Option<Seq<char>>) -> Option<
    Seq<char>,
> {
    match configured {
        Some(c) => if trim(c).len() > 0 { Some(trim(c)) } else { cached },
        None => cached,
    }
}

impl Api {
    pub fn new(config: &Config) -> (a: Api)
        ensures
            a.base_url@ == spec_base_url(*config),
            a.management_key@ == config.management_key@,
            a.configured_team_id == config.team_id,
    {
        Api {
            base_url: owned(config.base_url()),
            management_key: config.management_key.clone(),
            configured_team_id: match &config.team_id {
                Some(t) => Some(t.clone()),
                None => None,
            },
        }
    }

    fn req(&self, method: Method, path: &str) -> (r: Request)
        ensures
            is_request(r, *self, method, path@, seq![], None),
    {
        let mut url = self.base_url.clone();
        url.append(path);
        let q: Vec<(String, String)> = Vec::new();
        assert(qview(q@) =~= Seq::<(Seq<char>, Seq<char>)>::empty());
        Request { method, url, bearer: self.management_key.clone(), query: q, body: None }
    }

    pub fn get(&self, path: &str, query: &[(String, String)]) -> (r: Request)
        ensures
            is_request(r, *self, Method::Get, path@, qview(query@), None),
    {
        let mut r = self.req(Method::Get, path);
        r.query = copy_query(query);
        r
    }

    pub fn post(&self, path: &str, body: Json) -> (r: Request)
        ensures
            is_request(r, *self, Method::Post, path@, seq![], Some(body@)),
    {
        let mut r = self.req(Method::Post, path);
        r.body = Some(body);
        r
    }

    pub fn put(&self, path: &str, body: Json) -> (r: Request)
        ensures
            is_request(r, *self, Method::Put, path@, seq![], Some(body@)),
    {
        let mut r = self.req(Method::Put, path);
        r.body = Some(body);
        r
    }

    pub fn delete(&self, path: &str) -> (r: Request)
        ensures
            is_request(r, *self, Method::Delete, path@, seq![], None),
    {
        self.req(Method::Delete, path)
    }

    /// Validate the management key (meta, ACLs, IP ranges). No ACL required.
    pub fn validate(&self) -> (r: Request)
        ensures
            is_request(r, *self, Method::Get, "/auth/management-keys/validation"@, seq![], None),
    {
        let q: Vec<(String, String)> = Vec::new();
        assert(qview(q@) =~= Seq::<(Seq<char>, Seq<char>)>::empty());
        self.get("/auth/management-keys/validation", q.as_slice())
    }

    /// What a call for the team id needs: the id itself, when it is configured
    /// (not blank) or was discovered before and is `cached`; else the key
    /// validation request that discovers it. The cache is only read here.
    pub fn team_id(&self, cached: &Option<String>) -> (r: TeamStep)
        ensures
            match r {
                TeamStep::Known(t) => known_team(opt_text(self.configured_team_id), opt_text(*cached))
                    == Some(t@),
                TeamStep::Discover(req) => known_team(
                    opt_text(self.configured_team_id),
                    opt_text(*cached),
                ) is None && is_request(
                    req,
                    *self,
                    Method::Get,
                    "/auth/management-keys/validation"@,
                    seq![],
                    None,
                ),
            },
    {
        if let Some(id) = &self.configured_team_id {
            let t = trimmed(id.as_str());
            if t.as_str().unicode_len() > 0 {
                return TeamStep::Known(t);
            }
        }
        match cached {
            Some(t) => TeamStep::Known(t.clone()),
            None => TeamStep::Discover(self.validate()),
        }
    }

    pub fn list_audit_events(&self, team_id: &str, query: &[(String, String)]) -> (r: Request)
        ensures
            is_request(
                r,
                *self,
                Method::Get,
                "/audit/teams/"@ + team_id@ + "/events"@,
                qview(query@),
                None,
            ),
    {
        let p = path3("/audit/teams/", team_id, "/events");
        self.get(p.as_str(), query)
    }

    pub fn billing_info(&self, team_id: &str) -> (r: Request)
        ensures
            is_request(
                r,
                *self,
                Method::Get,
                "/v1/billing/teams/"@ + team_id@ + "/billing-info"@,
                seq![],
                None,
            ),
    {
        let p = path3("/v1/billing/teams/", team_id, "/billing-info");
        self.req(Method::Get, p.as_str())
    }

    pub fn set_billing_info(&self, team_id: &str, body: Json) -> (r: Request)
        ensures
            is_request(
                r,
                *self,
                Method::Post,
                "/v1/billing/teams/"@ + team_id@ + "/billing-info"@,
                seq![],
                Some(body@),
            ),
    {
        let p = path3("/v1/billing/teams/", team_id, "/billing-info");
        self.post(p.as_str(), body)
    }

    pub fn list_invoices(&self, team_id: &str, query: &[(String, String)]) -> (r: Request)
        ensures
            is_request(
                r,
                *self,
                Method::Get,
                "/v1/billing/teams/"@ + team_id@ + "/invoices"@,
                qview(query@),
                None,
            ),
    {
        let p = path3("/v1/billing/teams/", team_id, "/invoices");
        self.get(p.as_str(), query)
    }

    pub fn payment_methods(&self, team_id: &str) -> (r: Request)
        ensures
            is_request(
                r,
                *self,
                Method::Get,
                "/v1/billing/teams/"@ + team_id@ + "/payment-method"@,
                seq![],
                None,
            ),
    {
        let p = path3("/v1/billing/teams/", team_id, "/payment-method");
        self.req(Method::Get, p.as_str())
    }

    pub fn set_default_payment_method(&self, team_id: &str, payment_method_id: &str) -> (r: Request)
        ensures
            is_request(
                r,
                *self,
                Method::Post,
                "/v1/billing/teams/"@ + team_id@ + "/payment-method/default"@,
                seq![],
                Some(JsonV::Object(seq![("paymentMethodId"@, JsonV::Str(payment_method_id@))])),
            ),
    {
        let p = path3("/v1/billing/teams/", team_id, "/payment-method/default");
        self.post(p.as_str(), object1("paymentMethodId", jstr(payment_method_id)))
    }

    pub fn invoice_preview(&self, team_id: &str) -> (r: Request)
        ensures
            is_request(
                r,
                *self,
                Method::Get,
                "/v1/billing/teams/"@ + team_id@ + "/postpaid/invoice/preview"@,
                seq![],
                None,
            ),
    {
        let p = path3("/v1/billing/teams/", team_id, "/postpaid/invoice/preview");
        self.req(Method::Get, p.as_str())
    }

    pub fn spending_limits(&self, team_id: &str) -> (r: Request)
        ensures
            is_request(
                r,
                *self,
                Method::Get,
                "/v1/billing/teams/"@ + team_id@ + "/postpaid/spending-limits"@,
                seq![],
                None,
            ),
    {
        let p = path3("/v1/billing/teams/", team_id, "/postpaid/spending-limits");
        self.req(Method::Get, p.as_str())
    }

    pub fn set_spending_limit(&self, team_id: &str, limit_cents: u64) -> (r: Request)
        ensures
            is_request(
                r,
                *self,
                Method::Post,
                "/v1/billing/teams/"@ + team_id@ + "/postpaid/spending-limits"@,
                seq![],
                Some(
                    JsonV::Object(
                        seq![
                            ("desiredSoftSpendingLimit"@, JsonV::Object(
                                seq![("val"@, JsonV::Str(dec(limit_cents as nat)))],
                            )),
                        ],
                    ),
                ),
            ),
    {
        let p = path3("/v1/billing/teams/", team_id, "/postpaid/spending-limits");
        let n = u64_text(limit_cents);
        let body = object1("desiredSoftSpendingLimit", object1("val", jstr(n.as_str())));
        self.post(p.as_str(), body)
    }

    pub fn prepaid_balance(&self, team_id: &str) -> (r: Request)
        ensures
            is_request(
                r,
                *self,
                Method::Get,
                "/v1/billing/teams/"@ + team_id@ + "/prepaid/balance"@,
                seq![],
                None,
            ),
    {
        let p = path3("/v1/billing/teams/", team_id, "/prepaid/balance");
        self.req(Method::Get, p.as_str())
    }

    pub fn top_up(&self, team_id: &str, amount_cents: u64) -> (r: Request)
        ensures
            is_request(
                r,
                *self,
                Method::Post,
                "/v1/billing/teams/"@ + team_id@ + "/prepaid/top-up"@,
                seq![],
                Some(
                    JsonV::Object(
                        seq![
                            ("amount"@, JsonV::Object(
                                seq![("val"@, JsonV::Str(dec(amount_cents as nat)))],
                            )),
                        ],
                    ),
                ),
            ),
    {
        let p = path3("/v1/billing/teams/", team_id, "/prepaid/top-up");
        let n = u64_text(amount_cents);
        let body = object1("amount", object1("val", jstr(n.as_str())));
        self.post(p.as_str(), body)
    }

    pub fn usage(&self, team_id: &str, body: Json) -> (r: Request)
        ensures
            is_request(
                r,
                *self,
                Method::Post,
                "/v1/billing/teams/"@ + team_id@ + "/usage"@,
                seq![],
                Some(body@),
            ),
    {
        let p = path3("/v1/billing/teams/", team_id, "/usage");
        self.post(p.as_str(), body)
    }

    pub fn list_api_keys(&self, team_id: &str, query: &[(String, String)]) -> (r: Request)
        ensures
            is_request(
                r,
                *self,
                Method::Get,
                "/auth/teams/"@ + team_id@ + "/api-keys"@,
                qview(query@),
                None,
            ),
    {
        let p = path3("/auth/teams/", team_id, "/api-keys");
        self.get(p.as_str(), query)
    }

    pub fn create_api_key(&self, team_id: &str, body: Json) -> (r: Request)
        ensures
            is_request(
                r,
                *self,
                Method::Post,
                "/auth/teams/"@ + team_id@ + "/api-keys"@,
                seq![],
                Some(body@),
            ),
    {
        let p = path3("/auth/teams/", team_id, "/api-keys");
        self.post(p.as_str(), body)
    }

    pub fn update_api_key(&self, api_key_id: &str, body: Json) -> (r: Request)
        ensures
            is_request(
                r,
                *self,
                Method::Put,
                "/auth/api-keys/"@ + api_key_id@,
                seq![],
                Some(body@),
            ),
    {
        let p = path3("/auth/api-keys/", api_key_id, "");
        assert(p@ =~= "/auth/api-keys/"@ + api_key_id@ + ""@);
        proof {
            reveal_strlit("");
        }
        assert("/auth/api-keys/"@ + api_key_id@ + ""@ =~= "/auth/api-keys/"@ + api_key_id@);
        self.put(p.as_str(), body)
    }

    pub fn delete_api_key(&self, api_key_id: &str) -> (r: Request)
        ensures
            is_request(r, *self, Method::Delete, "/auth/api-keys/"@ + api_key_id@, seq![], None),
    {
        let mut p = owned("/auth/api-keys/");
        p.append(api_key_id);
        self.delete(p.as_str())
    }

    pub fn rotate_api_key(&self, api_key_id: &str) -> (r: Request)
        ensures
            is_request(
                r,
                *self,
                Method::Post,
                "/auth/api-keys/"@ + api_key_id@ + "/rotate"@,
                seq![],
                Some(JsonV::Object(seq![])),
            ),
    {
        let p = path3("/auth/api-keys/", api_key_id, "/rotate");
        let m: Vec<(String, Json)> = Vec::new();
        let body = object_of(m);
        assert(crate::json::jv_members(m@) =~= Seq::<(Seq<char>, JsonV)>::empty());
        self.post(p.as_str(), body)
    }

    pub fn check_propagation(&self, api_key_id: &str) -> (r: Request)
        ensures
            is_request(
                r,
                *self,
                Method::Get,
                "/auth/api-keys/"@ + api_key_id@ + "/propagation"@,
                seq![],
                None,
            ),
    {
        let p = path3("/auth/api-keys/", api_key_id, "/propagation");
        self.req(Method::Get, p.as_str())
    }

    pub fn list_models(&self, team_id: &str) -> (r: Request)
        ensures
            is_request(
                r,
                *self,
                Method::Get,
                "/auth/teams/"@ + team_id@ + "/models"@,
                seq![],
                None,
            ),
    {
        let p = path3("/auth/teams/", team_id, "/models");
        self.req(Method::Get, p.as_str())
    }

    pub fn list_endpoints(&self, team_id: &str) -> (r: Request)
        ensures
            is_request(
                r,
                *self,
                Method::Get,
                "/auth/teams/"@ + team_id@ + "/endpoints"@,
                seq![],
                None,
            ),
    {
        let p = path3("/auth/teams/", team_id, "/endpoints");
        self.req(Method::Get, p.as_str())
    }
}


// ---------------------------------------------------------------- responses

/// `StatusCode::canonical_reason` of a status code (such as `Not Found` for 404).
pub uninterp spec fn canonical_reason(code: u16) -> Option<Seq<char>>;

pub open spec fn opt_view(r: Option<&str>) -> Option<Seq<char>> {
    match r {
        Some(s) => Some(s@),
        None => None,
    }
}

/// `reqwest::StatusCode::from_u16(code)` followed by `canonical_reason`: the
/// reason phrase registered for the code, if any. The contract names the result
/// and states nothing of the table of phrases.
#[verifier::external_body]
fn status_reason(code: u16) -> (r: Option<&'static str>)
    requires
        100 <= code <= 999,
    ensures
        opt_view(r) == canonical_reason(code),
{
    match reqwest::StatusCode::from_u16(code) {
        Ok(s) => s.canonical_reason(),
        Err(_) => None,
    }
}

/// How a status code displays: the number, a space, the reason phrase.
pub open spec fn status_display(code: u16) -> Seq<char> {
    dec(code as nat) + " "@ + match canonical_reason(code) {
        Some(r) => r,
        None => "<unknown status code>"@,
    }
}

/// `format!("{status}")` for a `StatusCode`.
pub fn status_text(code: u16) -> (r: String)
    requires
        100 <= code <= 999,
    ensures
        r@ == status_display(code),
{
    let mut r = u64_text(code as u64);
    r.append(" ");
    match status_reason(code) {
        Some(reason) => r.append(reason),
        None => r.append("<unknown status code>"),
    }
    r
}

/// Whether a status code is 2xx.
pub open spec fn is_success(code: u16) -> bool {
    200 <= code < 300
}

/// At most `max` characters of `s`, with `…` when some were cut.
pub open spec fn spec_truncate(s: Seq<char>, max: nat) -> Seq<char> {
    if s.len() <= max { s } else { s.take(max as int) + "…"@ }
}

pub fn truncate(s: &str, max: usize) -> (r: String)
    ensures
        r@ == spec_truncate(s@, max as nat),
{
    let v = chars_of(s);
    if v.len() <= max {
        owned(s)
    } else {
        let mut t = string_of_range(&v, 0, max);
        assert(v@.subrange(0, max as int) =~= v@.take(max as int));
        t.append("…");
        t
    }
}

/// The error text for a failed call.
pub open spec fn spec_api_err(status: u16, snippet: Seq<char>) -> Seq<char> {
    if status == 403 {
        "Permission denied (403) — your management key lacks the required ACL for this endpoint: "@
            + snippet
    } else {
        "HTTP "@ + dec(status as nat) + ": "@ + snippet
    }
}

pub fn api_err(status: u16, snippet: &str) -> (r: String)
    ensures
        r@ == spec_api_err(status, snippet@),
{
    if status == 403 {
        let mut r = owned(
            "Permission denied (403) — your management key lacks the required ACL for this endpoint: ",
        );
        r.append(snippet);
        r
    } else {
        let mut r = owned("HTTP ");
        let n = u64_text(status as u64);
        r.append(n.as_str());
        r.append(": ");
        r.append(snippet);
        r
    }
}

/// What a response means: its JSON body on success (`null` for an empty body,
/// the text itself when it is not JSON), an error text otherwise. `parsed` is
/// the body parsed as JSON, when it parses.
pub open spec fn response_outcome(status: u16, text: Seq<char>, parsed: Option<JsonV>) -> Result<
    JsonV,
    Seq<char>,
> {
    if trim(text).len() == 0 {
        if is_success(status) {
            Ok(JsonV::Null)
        } else {
            Err("HTTP "@ + status_display(status) + ": empty response body"@)
        }
    } else {
        match parsed {
            None => if is_success(status) {
                Ok(JsonV::Str(text))
            } else {
                Err(spec_api_err(status, spec_truncate(text, 500)))
            },
            Some(b) => if is_success(status) {
                Ok(b)
            } else {
                Err(spec_api_err(status, spec_truncate(text, 500)))
            },
        }
    }
}

pub fn interpret_response(status: u16, text: &str, parsed: Option<Json>) -> (r: Result<Json, String>)
    requires
        100 <= status <= 999,
    ensures
        match r {
            Ok(j) => response_outcome(status, text@, body_view(parsed)) == Ok::<JsonV, Seq<char>>(
                j@,
            ),
            Err(m) => response_outcome(status, text@, body_view(parsed)) == Err::<JsonV, Seq<char>>(
                m@,
            ),
        },
{
    let success = 200 <= status && status < 300;
    let t = trimmed(text);
    if t.as_str().unicode_len() == 0 {
        if success {
            return Ok(Json::Null);
        }
        let mut m = owned("HTTP ");
        let st = status_text(status);
        m.append(st.as_str());
        m.append(": empty response body");
        return Err(m);
    }
    match parsed {
        None => {
            let snippet = truncate(text, 500);
            if success {
                Ok(Json::Str(owned(text)))
            } else {
                Err(api_err(status, snippet.as_str()))
            }
        },
        Some(body) => {
            if !success {
                let snippet = truncate(text, 500);
                return Err(api_err(status, snippet.as_str()));
            }
            Ok(body)
        },
    }
}

/// A response is read as a success exactly when its status is 2xx: then its
/// JSON body (`null` when it is blank, its text when it is not JSON); any other
/// status is reported as an error.
pub proof fn lemma_outcome_follows_status(status: u16, text: Seq<char>, parsed: Option<JsonV>)
    ensures
        response_outcome(status, text, parsed) is Ok <==> is_success(status),
        is_success(status) ==> response_outcome(status, text, parsed) == Ok::<JsonV, Seq<char>>(
            if trim(text).len() == 0 {
                JsonV::Null
            } else {
                match parsed {
                    Some(b) => b,
                    None => JsonV::Str(text),
                }
            },
        ),
{
}

/// The team id found in a key validation payload: the first of `teamId`,
/// `scopeId`, `team_id`, `scope_id` that holds a non-blank string, trimmed.
pub open spec fn team_in(v: Json, keys: Seq<Seq<char>>) -> Option<Seq<char>>
    decreases keys.len(),
{
    if keys.len() == 0 {
        None
    } else {
        match spec_get(v, keys[0]) {
            Some(Json::Str(s)) => if trim(s@).len() > 0 {
                Some(trim(s@))
            } else {
                team_in(v, keys.drop_first())
            },
            _ => team_in(v, keys.drop_first()),
        }
    }
}

pub open spec fn team_keys() -> Seq<Seq<char>> {
    seq!["teamId"@, "scopeId"@, "team_id"@, "scope_id"@]
}

pub fn extract_team_id(v: &Json) -> (r: Option<String>)
    ensures
        crate::util::opt_text(r) == team_in(*v, team_keys()),
{
    let keys: [&str; 4] = ["teamId", "scopeId", "team_id", "scope_id"];
    assert(crate::util::key_views(keys@) =~= team_keys());
    let mut i: usize = 0;
    assert(team_keys().skip(0) =~= team_keys());
    while i < 4
        invariant
            i <= 4,
            crate::util::key_views(keys@) == team_keys(),
            team_in(*v, team_keys()) == team_in(*v, team_keys().skip(i as int)),
        decreases 4 - i,
    {
        assert(team_keys().skip(i as int).drop_first() =~= team_keys().skip(i + 1));
        assert(team_keys().skip(i as int)[0] == keys@[i as int]@);
        if let Some(x) = v.get(keys[i]) {
            if let Some(s) = x.as_str() {
                let t = trimmed(s);
                if t.as_str().unicode_len() > 0 {
                    return Some(t);
                }
            }
        }
        i = i + 1;
    }
    None
}

/// The keys of an object, in order; none for other values.
pub open spec fn object_keys(v: Json) -> Seq<Seq<char>> {
    match v {
        Json::Object(m) => m@.map_values(|p: (String, Json)| p.0@),
        _ => seq![],
    }
}

/// The team id of a key validation payload, or the error that asks for one.
pub open spec fn spec_team_from_validation(v: Json) -> Result<Seq<char>, Seq<char>> {
    match team_in(v, team_keys()) {
        Some(t) => Ok(t),
        None => Err(
            "Could not auto-discover team_id from key validation; set team_id in config.toml. Response keys: "@
                + join(object_keys(v), ", "@),
        ),
    }
}

pub fn team_id_from_validation(v: &Json) -> (r: Result<String, String>)
    ensures
        match r {
            Ok(t) => spec_team_from_validation(*v) == Ok::<Seq<char>, Seq<char>>(t@),
            Err(m) => spec_team_from_validation(*v) == Err::<Seq<char>, Seq<char>>(m@),
        },
{
    match extract_team_id(v) {
        Some(t) => Ok(t),
        None => {
            let mut keys: Vec<String> = Vec::new();
            if let Some(m) = v.as_object() {
                let mut i: usize = 0;
                while i < m.len()
                    invariant
                        i <= m@.len(),
                        texts(keys@) == m@.take(i as int).map_values(|p: (String, Json)| p.0@),
                    decreases m@.len() - i,
                {
                    let ghost before = texts(keys@);
                    keys.push(m[i].0.clone());
                    assert(texts(keys@) =~= before.push(m@[i as int].0@));
                    assert(m@.take(i + 1).map_values(|p: (String, Json)| p.0@) =~= m@.take(
                        i as int,
                    ).map_values(|p: (String, Json)| p.0@).push(m@[i as int].0@));
                    i = i + 1;
                }
                assert(m@.take(m@.len() as int) =~= m@);
            }
            assert(texts(keys@) =~= object_keys(*v));
            let mut msg = owned(
                "Could not auto-discover team_id from key validation; set team_id in config.toml. Response keys: ",
            );
            let j = join_strings(&keys, ", ");
            msg.append(j.as_str());
            Err(msg)
        },
    }
}


/// `r` seen as texts.
pub open spec fn res_text(r: Result<String, String>) -> Result<Seq<char>, Seq<char>> {
    match r {
        Ok(t) => Ok(t@),
        Err(e) => Err(e@),
    }
}

/// The answer to a key validation reply, and the cache for later calls: the
/// id found is kept; a failure leaves the cache as it was.
pub open spec fn discovery(cached: Option<Seq<char>>, v: Json) -> (
    Result<Seq<char>, Seq<char>>,
    Option<Seq<char>>,
) {
    match spec_team_from_validation(v) {
        Ok(t) => (Ok(t), Some(t)),
        Err(e) => (Err(e), cached),
    }
}

pub fn team_discovered(cached: Option<String>, v: &Json) -> (r: (Result<String, String>, Option<String>))
    ensures
        (res_text(r.0), opt_text(r.1)) == discovery(opt_text(cached), *v),
{
    match team_id_from_validation(v) {
        Ok(t) => {
            let keep = t.clone();
            (Ok(t), Some(keep))
        },
        Err(m) => (Err(m), cached),
    }
}

/// The team id. A configured, non-blank id is answered trimmed, whatever is
/// cached, and no request is made. Without one, the first call asks for the
/// key validation and answers the first non-blank of `teamId`, `scopeId`,
/// `team_id`, `scope_id` (trimmed), or the error that asks for `team_id` in
/// `config.toml`; an id found is cached, and every later call answers it
/// without another request.
pub proof fn lemma_team_id_cached(configured: Option<Seq<char>>, cached: Option<Seq<char>>, v: Json)
    ensures
        configured_team(configured) matches Some(t) ==> known_team(configured, cached) == Some(t),
        configured_team(configured) is None ==> {
            &&& known_team(configured, None) is None
            &&& discovery(None, v).0 == spec_team_from_validation(v)
            &&& discovery(None, v).0 matches Ok(s) ==> discovery(None, v).1 == Some(s) && known_team(
                configured,
                discovery(None, v).1,
            ) == Some(s)
            &&& discovery(None, v).0 is Err ==> discovery(None, v).1 is None
        },
{
}

} // verus!
