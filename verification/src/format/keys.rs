//! Formatters for API-key related Management API payloads.
use vstd::prelude::*;
use crate::format::billing::audit::{spec_fmt_audit_event, strings_in};
use crate::format::billing::fmt_audit_event;
use crate::json::{Json, compact, compact_text, spec_as_i64, spec_get};
use crate::text::{contains, dec, int_text, i64_text, join, join_strings, str_contains, str_equal, texts, u64_text};
use crate::util::{
    pretty, spec_pretty,
    array_field, elems, field1, field2, field3, fstr1, fstr2, fstr3, fstr4, key_views, nonempty_parts,
    keep_nonempty, opt, opt_text, or_empty, or_text, spec_array_field, spec_field, spec_field_str,
    text_or, text_or_empty,
};

verus! {

// ---------------------------------------------------------------- new secret

pub open spec fn spec_format_new_secret(v: Json) -> Seq<char> {
    match spec_field_str(v, seq!["apiKey"@, "api_key"@, "key"@, "secret"@]) {
        Some(secret) => "NEW API KEY SECRET (shown once, store it now):\n"@ + secret + "\n\nKey ID: "@
            + or_text(spec_field_str(v, seq!["apiKeyId"@, "api_key_id"@]), "-"@) + "\nName: "@
            + or_text(spec_field_str(v, seq!["name"@]), "-"@),
        None => "Could not locate secret field in response — inspect carefully:\n"@ + spec_pretty(v),
    }
}

/// The secret of a created or rotated key, with its id and name; the raw
/// payload when no secret field is found.
pub fn format_new_secret(v: &Json) -> (r: String)
    ensures
        r@ == spec_format_new_secret(*v),
{
    match fstr4(v, "apiKey", "api_key", "key", "secret") {
        Some(secret) => {
            let mut r = String::from_str("NEW API KEY SECRET (shown once, store it now):\n");
            r.append(secret.as_str());
            r.append("\n\nKey ID: ");
            let id = text_or(fstr2(v, "apiKeyId", "api_key_id"), "-");
            r.append(id.as_str());
            r.append("\nName: ");
            let name = text_or(fstr1(v, "name"), "-");
            r.append(name.as_str());
            r
        },
        None => {
            let mut r = String::from_str(
                "Could not locate secret field in response — inspect carefully:\n",
            );
            let p = pretty(v);
            r.append(p.as_str());
            r
        },
    }
}

// ---------------------------------------------------------------- key row

pub open spec fn key_acls(v: Json) -> Seq<char> {
    match spec_field(v, seq!["aclStrings"@, "acl_strings"@, "acls"@]) {
        Some(Json::Array(a)) => join(strings_in(a@), ", "@),
        _ => "-"@,
    }
}

pub open spec fn rate_part(label: Seq<char>, x: Seq<char>) -> Seq<Seq<char>> {
    if x.len() > 0 { seq![label + x] } else { seq![] }
}

pub open spec fn key_rates(v: Json) -> Seq<char> {
    let parts = rate_part("qps="@, or_empty(spec_field_str(v, seq!["qps"@]))) + rate_part(
        "qpm="@,
        or_empty(spec_field_str(v, seq!["qpm"@])),
    ) + rate_part("tpm="@, or_empty(spec_field_str(v, seq!["tpm"@])));
    if parts.len() == 0 { seq![] } else { " ["@ + join(parts, " "@) + "]"@ }
}

pub open spec fn key_disabled(v: Json) -> bool {
    match spec_field(v, seq!["disabled"@]) {
        Some(Json::Bool(b)) => b,
        _ => false,
    }
}

pub open spec fn spec_fmt_api_key_row(v: Json) -> Seq<char> {
    or_text(spec_field_str(v, seq!["apiKeyId"@, "api_key_id"@]), "-"@) + " | "@ + or_text(
        spec_field_str(v, seq!["name"@]),
        "(unnamed)"@,
    ) + " | "@ + (if key_disabled(v) { "disabled"@ } else { "active"@ }) + " | "@ + or_text(
        spec_field_str(v, seq!["redactedApiKey"@, "redacted_api_key"@]),
        "-"@,
    ) + key_rates(v) + " | acls=["@ + key_acls(v) + "]"@
}

fn strings_of(a: &Vec<Json>) -> (r: Vec<String>)
    ensures
        texts(r@) == strings_in(a@),
{
    let mut parts: Vec<String> = Vec::new();
    let mut i: usize = 0;
    while i < a.len()
        invariant
            i <= a@.len(),
            texts(parts@) == strings_in(a@.take(i as int)),
        decreases a@.len() - i,
    {
        assert(a@.take(i + 1).drop_last() =~= a@.take(i as int));
        if let Some(t) = a[i].as_str() {
            let ghost before = texts(parts@);
            parts.push(String::from_str(t));
            assert(texts(parts@) =~= before.push(t@));
        }
        i = i + 1;
    }
    assert(a@.take(a@.len() as int) =~= a@);
    parts
}

fn key_acls_of(v: &Json) -> (r: String)
    ensures
        r@ == key_acls(*v),
{
    match field3(v, "aclStrings", "acl_strings", "acls") {
        Some(x) => match x.as_array() {
            Some(a) => {
                let parts = strings_of(a);
                join_strings(&parts, ", ")
            },
            None => String::from_str("-"),
        },
        None => String::from_str("-"),
    }
}

fn push_rate(parts: &mut Vec<String>, label: &str, x: String)
    ensures
        texts(final(parts)@) == texts(old(parts)@) + rate_part(label@, x@),
{
    let ghost before = texts(parts@);
    if x.as_str().unicode_len() > 0 {
        let mut p = String::from_str(label);
        p.append(x.as_str());
        parts.push(p);
        assert(texts(parts@) =~= before + rate_part(label@, x@));
    } else {
        assert(texts(parts@) =~= before + rate_part(label@, x@));
    }
}

fn key_rates_of(v: &Json) -> (r: String)
    ensures
        r@ == key_rates(*v),
{
    let mut parts: Vec<String> = Vec::new();
    assert(texts(parts@) =~= Seq::<Seq<char>>::empty());
    push_rate(&mut parts, "qps=", text_or_empty(fstr1(v, "qps")));
    push_rate(&mut parts, "qpm=", text_or_empty(fstr1(v, "qpm")));
    push_rate(&mut parts, "tpm=", text_or_empty(fstr1(v, "tpm")));
    if parts.len() == 0 {
        String::new()
    } else {
        let mut r = String::from_str(" [");
        let j = join_strings(&parts, " ");
        r.append(j.as_str());
        r.append("]");
        r
    }
}

/// One line per API key: id, name, status, redacted secret, rate limits, ACLs.
#[verifier::spinoff_prover]
pub fn fmt_api_key_row(v: &Json) -> (r: String)
    ensures
        r@ == spec_fmt_api_key_row(*v),
{
    let id = text_or(fstr2(v, "apiKeyId", "api_key_id"), "-");
    let name = text_or(fstr1(v, "name"), "(unnamed)");
    let redacted = text_or(fstr2(v, "redactedApiKey", "redacted_api_key"), "-");
    let disabled = match field1(v, "disabled") {
        Some(x) => match x.as_bool() {
            Some(b) => b,
            None => false,
        },
        None => false,
    };
    let acls = key_acls_of(v);
    let rates = key_rates_of(v);
    let mut r = id;
    r.append(" | ");
    r.append(name.as_str());
    r.append(" | ");
    if disabled {
        r.append("disabled");
    } else {
        r.append("active");
    }
    r.append(" | ");
    r.append(redacted.as_str());
    r.append(rates.as_str());
    r.append(" | acls=[");
    r.append(acls.as_str());
    r.append("]");
    r
}

// ---------------------------------------------------------------- IP ranges

/// The array of allowed ranges: `ipRanges`, possibly nested one level.
pub open spec fn ip_ranges(v: Json) -> Option<Json> {
    match spec_field(v, seq!["ipRanges"@, "ip_ranges"@]) {
        Some(r) => if r is Null {
            None
        } else {
            match spec_field(r, seq!["ipRanges"@, "ip_ranges"@]) {
                Some(x) => Some(x),
                None => Some(r),
            }
        },
        None => None,
    }
}

pub open spec fn range_text(r: Json) -> Seq<char> {
    let prefix: i64 = match spec_field(r, seq!["prefixLength"@, "prefix_length"@]) {
        Some(p) => match spec_as_i64(p) {
            Some(n) => n,
            None => 32,
        },
        None => 32,
    };
    let addr = match spec_get(r, "address"@) {
        Some(a) => match spec_field_str(a, seq!["ipv4"@, "ipv6"@]) {
            Some(s) => s,
            None => compact(r),
        },
        None => compact(r),
    };
    addr + "/"@ + int_text(prefix as int)
}

pub open spec fn range_texts(rs: Seq<Json>) -> Seq<Seq<char>>
    decreases rs.len(),
{
    if rs.len() == 0 { seq![] } else { range_texts(rs.drop_last()).push(range_text(rs.last())) }
}

pub open spec fn spec_format_ip_ranges(v: Json) -> Seq<char> {
    match ip_ranges(v) {
        Some(Json::Array(a)) => if a@.len() == 0 {
            "any"@
        } else {
            join(range_texts(a@), ", "@)
        },
        _ => "any"@,
    }
}

fn range_text_of(r: &Json) -> (t: String)
    ensures
        t@ == range_text(*r),
{
    let prefix: i64 = match field2(r, "prefixLength", "prefix_length") {
        Some(p) => match p.as_i64() {
            Some(n) => n,
            None => 32,
        },
        None => 32,
    };
    let addr = match r.get("address") {
        Some(a) => match fstr2(a, "ipv4", "ipv6") {
            Some(s) => s,
            None => compact_text(r),
        },
        None => compact_text(r),
    };
    let mut t = addr;
    t.append("/");
    let p = i64_text(prefix);
    t.append(p.as_str());
    t
}

/// The key's allowed IP ranges as `addr/prefix`, or `any`.
pub fn format_ip_ranges(v: &Json) -> (r: String)
    ensures
        r@ == spec_format_ip_ranges(*v),
{
    let ranges: Option<&Json> = match field2(v, "ipRanges", "ip_ranges") {
        Some(r) => if r.is_null() {
            None
        } else {
            match field2(r, "ipRanges", "ip_ranges") {
                Some(x) => Some(x),
                None => Some(r),
            }
        },
        None => None,
    };
    assert(opt(ranges) == ip_ranges(*v));
    match ranges {
        Some(x) => match x.as_array() {
            Some(a) => {
                if a.len() == 0 {
                    return String::from_str("any");
                }
                let mut parts: Vec<String> = Vec::new();
                let mut i: usize = 0;
                while i < a.len()
                    invariant
                        i <= a@.len(),
                        texts(parts@) == range_texts(a@.take(i as int)),
                    decreases a@.len() - i,
                {
                    assert(a@.take(i + 1).drop_last() =~= a@.take(i as int));
                    let ghost before = texts(parts@);
                    parts.push(range_text_of(&a[i]));
                    assert(texts(parts@) =~= before.push(range_text(a@[i as int])));
                    i = i + 1;
                }
                assert(a@.take(a@.len() as int) =~= a@);
                join_strings(&parts, ", ")
            },
            None => String::from_str("any"),
        },
        None => String::from_str("any"),
    }
}


// ---------------------------------------------------------------- model names

/// The name of a model entry: its `name` or `id`, or the entry itself when it
/// is a string.
pub open spec fn model_name(m: Json) -> Option<Seq<char>> {
    match spec_field_str(m, seq!["name"@, "id"@]) {
        Some(n) => Some(n),
        None => match m {
            Json::Str(s) => Some(s@),
            _ => None,
        },
    }
}

pub open spec fn names_of(ms: Seq<Json>) -> Seq<Seq<char>>
    decreases ms.len(),
{
    if ms.len() == 0 {
        seq![]
    } else {
        match model_name(ms.last()) {
            Some(n) => names_of(ms.drop_last()).push(n),
            None => names_of(ms.drop_last()),
        }
    }
}

/// `s` with later repetitions removed.
pub open spec fn dedup(s: Seq<Seq<char>>) -> Seq<Seq<char>>
    decreases s.len(),
{
    if s.len() == 0 {
        seq![]
    } else if dedup(s.drop_last()).contains(s.last()) {
        dedup(s.drop_last())
    } else {
        dedup(s.drop_last()).push(s.last())
    }
}

/// The model lists of a cluster, in this order.
pub open spec fn model_keys() -> Seq<Seq<char>> {
    seq![
        "languageModels"@,
        "language_models"@,
        "embeddingModels"@,
        "embedding_models"@,
        "imageGenerationModels"@,
        "image_generation_models"@,
        "audioModels"@,
        "audio_models"@,
        "videoGenerationModels"@,
        "video_generation_models"@,
    ]
}

pub open spec fn get_elems(c: Json, k: Seq<char>) -> Seq<Json> {
    match spec_get(c, k) {
        Some(Json::Array(a)) => a@,
        _ => seq![],
    }
}

pub open spec fn cluster_models(c: Json, keys: Seq<Seq<char>>) -> Seq<Json>
    decreases keys.len(),
{
    if keys.len() == 0 {
        seq![]
    } else {
        cluster_models(c, keys.drop_last()) + get_elems(c, keys.last())
    }
}

pub open spec fn clusters_models(cs: Seq<Json>) -> Seq<Json>
    decreases cs.len(),
{
    if cs.len() == 0 {
        seq![]
    } else {
        clusters_models(cs.drop_last()) + cluster_models(cs.last(), model_keys())
    }
}

/// The model entries of a payload: `models`, else every model list of every
/// cluster config, else the payload itself when it is an array.
pub open spec fn model_entries(v: Json) -> Seq<Json> {
    match spec_field(v, seq!["models"@]) {
        Some(Json::Array(a)) => a@,
        _ => match spec_field(v, seq!["clusterConfigs"@, "cluster_configs"@]) {
            Some(Json::Array(cs)) => clusters_models(cs@),
            _ => match v {
                Json::Array(a) => a@,
                _ => seq![],
            },
        },
    }
}

pub open spec fn spec_collect_model_names(v: Json) -> Seq<Seq<char>> {
    dedup(names_of(model_entries(v)))
}

pub open spec fn rview(s: Seq<&Json>) -> Seq<Json> {
    s.map_values(|r: &Json| *r)
}

fn push_all<'a>(out: &mut Vec<&'a Json>, a: &'a [Json])
    ensures
        rview(final(out)@) == rview(old(out)@) + a@,
{
    let mut j: usize = 0;
    while j < a.len()
        invariant
            j <= a@.len(),
            rview(out@) == rview(old(out)@) + a@.take(j as int),
        decreases a@.len() - j,
    {
        let ghost b = rview(out@);
        out.push(&a[j]);
        assert(rview(out@) =~= b.push(a@[j as int]));
        assert(a@.take(j + 1) =~= a@.take(j as int).push(a@[j as int]));
        j = j + 1;
    }
    assert(a@.take(a@.len() as int) =~= a@);
}

fn get_elems_of<'a>(c: &'a Json, k: &str) -> (r: &'a [Json])
    ensures
        r@ == get_elems(*c, k@),
{
    match c.get(k) {
        Some(x) => match x.as_array() {
            Some(a) => a.as_slice(),
            None => &[],
        },
        None => &[],
    }
}

#[verifier::spinoff_prover]
fn model_entries_of<'a>(v: &'a Json) -> (r: Vec<&'a Json>)
    ensures
        rview(r@) == model_entries(*v),
{
    let mut out: Vec<&'a Json> = Vec::new();
    assert(rview(out@) =~= Seq::<Json>::empty());
    if let Some(x) = field1(v, "models") {
        if let Some(a) = x.as_array() {
            push_all(&mut out, a.as_slice());
            return out;
        }
    }
    if let Some(x) = field2(v, "clusterConfigs", "cluster_configs") {
        if let Some(cs) = x.as_array() {
            let keys: [&str; 10] = [
                "languageModels",
                "language_models",
                "embeddingModels",
                "embedding_models",
                "imageGenerationModels",
                "image_generation_models",
                "audioModels",
                "audio_models",
                "videoGenerationModels",
                "video_generation_models",
            ];
            assert(key_views(keys@) =~= model_keys());
            let mut i: usize = 0;
            while i < cs.len()
                invariant
                    i <= cs@.len(),
                    key_views(keys@) == model_keys(),
                    rview(out@) == clusters_models(cs@.take(i as int)),
                decreases cs@.len() - i,
            {
                assert(cs@.take(i + 1).drop_last() =~= cs@.take(i as int));
                let ghost before = rview(out@);
                let mut k: usize = 0;
                while k < 10
                    invariant
                        k <= 10,
                        i < cs@.len(),
                        key_views(keys@) == model_keys(),
                        rview(out@) == before + cluster_models(cs@[i as int], model_keys().take(k as int)),
                    decreases 10 - k,
                {
                    assert(model_keys().take(k + 1).drop_last() =~= model_keys().take(k as int));
                    assert(model_keys()[k as int] == keys@[k as int]@);
                    push_all(&mut out, get_elems_of(&cs[i], keys[k]));
                    k = k + 1;
                }
                assert(model_keys().take(10) =~= model_keys());
                i = i + 1;
            }
            assert(cs@.take(cs@.len() as int) =~= cs@);
            return out;
        }
    }
    if let Some(a) = v.as_array() {
        push_all(&mut out, a.as_slice());
    }
    out
}

fn model_name_of(m: &Json) -> (r: Option<String>)
    ensures
        opt_text(r) == model_name(*m),
{
    match fstr2(m, "name", "id") {
        Some(n) => Some(n),
        None => match m.as_str() {
            Some(s) => Some(String::from_str(s)),
            None => None,
        },
    }
}

fn push_unique(names: &mut Vec<String>, n: String)
    ensures
        texts(final(names)@) == if texts(old(names)@).contains(n@) {
            texts(old(names)@)
        } else {
            texts(old(names)@).push(n@)
        },
{
    let mut i: usize = 0;
    while i < names.len()
        invariant
            i <= names@.len(),
            forall|j: int| 0 <= j < i ==> names@[j]@ != n@,
        decreases names@.len() - i,
    {
        if str_equal(names[i].as_str(), n.as_str()) {
            assert(texts(names@)[i as int] == n@);
            return;
        }
        i = i + 1;
    }
    assert(!texts(names@).contains(n@)) by {
        if texts(names@).contains(n@) {
            let j = choose|j: int| 0 <= j < texts(names@).len() && texts(names@)[j] == n@;
            assert(names@[j]@ == n@);
        }
    }
    let ghost before = texts(names@);
    names.push(n);
    assert(texts(names@) =~= before.push(n@));
}

/// Model names of a payload, each once, in order of first appearance.
#[verifier::spinoff_prover]
pub fn collect_model_names(v: &Json) -> (r: Vec<String>)
    ensures
        texts(r@) == spec_collect_model_names(*v),
{
    let ms = model_entries_of(v);
    let ghost mv = rview(ms@);
    let mut names: Vec<String> = Vec::new();
    let mut i: usize = 0;
    while i < ms.len()
        invariant
            i <= ms@.len(),
            mv == rview(ms@),
            texts(names@) == dedup(names_of(mv.take(i as int))),
        decreases ms@.len() - i,
    {
        assert(mv.take(i + 1).drop_last() =~= mv.take(i as int));
        assert(mv[i as int] == *ms@[i as int]);
        match model_name_of(ms[i]) {
            Some(n) => {
                assert(names_of(mv.take(i + 1)).drop_last() =~= names_of(mv.take(i as int)));
                push_unique(&mut names, n);
            },
            None => {},
        }
        i = i + 1;
    }
    assert(mv.take(mv.len() as int) =~= mv);
    names
}

// ---------------------------------------------------------------- validate key

pub open spec fn acl_strings(v: Json) -> Seq<Seq<char>> {
    match spec_field(v, seq!["acls"@]) {
        Some(Json::Array(a)) => strings_in(a@),
        _ => seq![],
    }
}

pub open spec fn any_contains(s: Seq<Seq<char>>, p: Seq<char>) -> bool {
    exists|i: int| 0 <= i < s.len() && contains(s[i], p)
}

pub open spec fn acl_list(acls: Seq<Seq<char>>) -> Seq<char>
    decreases acls.len(),
{
    if acls.len() == 0 { seq![] } else { acl_list(acls.drop_last()) + "  - "@ + acls.last() + "\n"@ }
}

pub open spec fn opt_line(label: Seq<char>, x: Seq<char>) -> Seq<char> {
    if x.len() > 0 { label + x + "\n"@ } else { seq![] }
}

pub open spec fn spec_fmt_validate_key(v: Json) -> Seq<char> {
    let acls = acl_strings(v);
    let write = any_contains(acls, "BillingWrite"@);
    let read = any_contains(acls, "BillingRead"@) || any_contains(acls, "Billing"@);
    "Management key: VALID\n"@ + "Name: "@ + or_text(spec_field_str(v, seq!["name"@]), "(unnamed)"@)
        + "\n"@ + "Team ID: "@ + or_text(
        spec_field_str(v, seq!["teamId"@, "scopeId"@, "team_id"@, "scope_id"@]),
        "(unknown)"@,
    ) + "\n"@ + opt_line("Scope: "@, or_empty(spec_field_str(v, seq!["scope"@]))) + opt_line(
        "Owner user: "@,
        or_empty(spec_field_str(v, seq!["ownerUserId"@, "owner_user_id"@])),
    ) + opt_line(
        "Redacted key: "@,
        or_empty(spec_field_str(v, seq!["redactedApiKey"@, "reactedApiKey"@])),
    ) + "\nBilling capability:\n"@ + "  BillingRead:  "@ + (if read {
        "yes"@
    } else {
        "not listed — reads may 403"@
    }) + "\n  BillingWrite: "@ + (if write {
        "yes"@
    } else {
        "not listed — set_spending_limit / top_up / set_billing_info need BillingWrite"@
    }) + "\n"@ + "\nACLs ("@ + dec(acls.len()) + "):\n"@ + (if acls.len() == 0 {
        "  (none)\n"@
    } else {
        acl_list(acls)
    }) + "\nIP ranges: "@ + spec_format_ip_ranges(v) + "\n"@
}

fn any_contains_of(s: &Vec<String>, p: &str) -> (b: bool)
    ensures
        b == any_contains(texts(s@), p@),
{
    let mut i: usize = 0;
    while i < s.len()
        invariant
            i <= s@.len(),
            forall|j: int| 0 <= j < i ==> !contains(#[trigger] texts(s@)[j], p@),
        decreases s@.len() - i,
    {
        if str_contains(s[i].as_str(), p) {
            assert(contains(texts(s@)[i as int], p@));
            return true;
        }
        i = i + 1;
    }
    false
}

fn append_opt_line(r: &mut String, label: &str, x: &str)
    ensures
        final(r)@ == old(r)@ + opt_line(label@, x@),
{
    if x.unicode_len() > 0 {
        r.append(label);
        r.append(x);
        r.append("\n");
    }
}

#[verifier::spinoff_prover]
fn validate_head(v: &Json) -> (r: String)
    ensures
        r@ == "Management key: VALID\n"@ + "Name: "@ + or_text(
            spec_field_str(*v, seq!["name"@]),
            "(unnamed)"@,
        ) + "\n"@ + "Team ID: "@ + or_text(
            spec_field_str(*v, seq!["teamId"@, "scopeId"@, "team_id"@, "scope_id"@]),
            "(unknown)"@,
        ) + "\n"@ + opt_line("Scope: "@, or_empty(spec_field_str(*v, seq!["scope"@]))) + opt_line(
            "Owner user: "@,
            or_empty(spec_field_str(*v, seq!["ownerUserId"@, "owner_user_id"@])),
        ) + opt_line(
            "Redacted key: "@,
            or_empty(spec_field_str(*v, seq!["redactedApiKey"@, "reactedApiKey"@])),
        ),
{
    let name = text_or(fstr1(v, "name"), "(unnamed)");
    let team = text_or(fstr4(v, "teamId", "scopeId", "team_id", "scope_id"), "(unknown)");
    let scope = text_or_empty(fstr1(v, "scope"));
    let owner = text_or_empty(fstr2(v, "ownerUserId", "owner_user_id"));
    let redacted = text_or_empty(fstr2(v, "redactedApiKey", "reactedApiKey"));
    let mut r = String::from_str("Management key: VALID\n");
    r.append("Name: ");
    r.append(name.as_str());
    r.append("\n");
    r.append("Team ID: ");
    r.append(team.as_str());
    r.append("\n");
    append_opt_line(&mut r, "Scope: ", scope.as_str());
    append_opt_line(&mut r, "Owner user: ", owner.as_str());
    append_opt_line(&mut r, "Redacted key: ", redacted.as_str());
    r
}

fn acl_strings_of(v: &Json) -> (r: Vec<String>)
    ensures
        texts(r@) == acl_strings(*v),
{
    match field1(v, "acls") {
        Some(x) => match x.as_array() {
            Some(a) => strings_of(a),
            None => Vec::new(),
        },
        None => Vec::new(),
    }
}

/// Validation report of the management key: name, team, billing capability,
/// ACLs and IP ranges.
#[verifier::spinoff_prover]
pub fn fmt_validate_key(v: &Json) -> (r: String)
    ensures
        r@ == spec_fmt_validate_key(*v),
{
    let mut r = validate_head(v);
    let acls = acl_strings_of(v);
    let write = any_contains_of(&acls, "BillingWrite");
    let read = any_contains_of(&acls, "BillingRead") || any_contains_of(&acls, "Billing");
    r.append("\nBilling capability:\n");
    r.append("  BillingRead:  ");
    if read {
        r.append("yes");
    } else {
        r.append("not listed — reads may 403");
    }
    r.append("\n  BillingWrite: ");
    if write {
        r.append("yes");
    } else {
        r.append("not listed — set_spending_limit / top_up / set_billing_info need BillingWrite");
    }
    r.append("\n");
    r.append("\nACLs (");
    let n = u64_text(acls.len() as u64);
    r.append(n.as_str());
    r.append("):\n");
    if acls.len() == 0 {
        r.append("  (none)\n");
    } else {
        let ghost head = r@;
        let ghost av = texts(acls@);
        let mut i: usize = 0;
        while i < acls.len()
            invariant
                i <= acls@.len(),
                av == texts(acls@),
                r@ == head + acl_list(av.take(i as int)),
            decreases acls@.len() - i,
        {
            assert(av.take(i + 1).drop_last() =~= av.take(i as int));
            r.append("  - ");
            r.append(acls[i].as_str());
            r.append("\n");
            i = i + 1;
        }
        assert(av.take(av.len() as int) =~= av);
    }
    r.append("\nIP ranges: ");
    let ip = format_ip_ranges(v);
    r.append(ip.as_str());
    r.append("\n");
    r
}


// ---------------------------------------------------------------- lists

pub open spec fn key_rows(ks: Seq<Json>) -> Seq<Seq<char>>
    decreases ks.len(),
{
    if ks.len() == 0 { seq![] } else { key_rows(ks.drop_last()).push(spec_fmt_api_key_row(ks.last())) }
}

pub open spec fn page_footer(tok: Option<Seq<char>>) -> Seq<char> {
    match tok {
        Some(t) => "\nNext page token: "@ + t + "\n"@,
        None => "\n(no more pages)\n"@,
    }
}

pub open spec fn spec_fmt_list_api_keys(team_id: Seq<char>, v: Json) -> Seq<char> {
    let keys = spec_array_field(v, seq!["apiKeys"@, "api_keys"@]);
    if keys.len() == 0 {
        "No API keys found for team "@ + team_id + "."@
    } else {
        "API keys for team "@ + team_id + " ("@ + dec(keys.len()) + "):\n\n"@ + join(key_rows(keys), "\n"@)
            + "\n"@ + page_footer(
            spec_field_str(v, seq!["paginationToken"@, "nextPageToken"@, "next_page_token"@]),
        )
    }
}

/// The team's API keys, one row each, with the next page token if any.
#[verifier::spinoff_prover]
pub fn fmt_list_api_keys(team_id: &str, v: &Json) -> (r: String)
    ensures
        r@ == spec_fmt_list_api_keys(team_id@, *v),
{
    let ks: [&str; 2] = ["apiKeys", "api_keys"];
    let sl: &[&str] = &ks;
    assert(key_views(sl@) =~= seq!["apiKeys"@, "api_keys"@]);
    let keys = array_field(v, sl);
    if keys.len() == 0 {
        let mut r = String::from_str("No API keys found for team ");
        r.append(team_id);
        r.append(".");
        return r;
    }
    let mut lines: Vec<String> = Vec::new();
    let mut i: usize = 0;
    while i < keys.len()
        invariant
            i <= keys@.len(),
            texts(lines@) == key_rows(keys@.take(i as int)),
        decreases keys@.len() - i,
    {
        assert(keys@.take(i + 1).drop_last() =~= keys@.take(i as int));
        let ghost before = texts(lines@);
        lines.push(fmt_api_key_row(&keys[i]));
        assert(texts(lines@) =~= before.push(spec_fmt_api_key_row(keys@[i as int])));
        i = i + 1;
    }
    assert(keys@.take(keys@.len() as int) =~= keys@);
    let mut r = String::from_str("API keys for team ");
    r.append(team_id);
    r.append(" (");
    let n = u64_text(keys.len() as u64);
    r.append(n.as_str());
    r.append("):\n\n");
    let body = join_strings(&lines, "\n");
    r.append(body.as_str());
    r.append("\n");
    match fstr3(v, "paginationToken", "nextPageToken", "next_page_token") {
        Some(tok) => {
            r.append("\nNext page token: ");
            r.append(tok.as_str());
            r.append("\n");
        },
        None => {
            r.append("\n(no more pages)\n");
        },
    }
    r
}

pub open spec fn name_list(ns: Seq<Seq<char>>) -> Seq<char>
    decreases ns.len(),
{
    if ns.len() == 0 { seq![] } else { name_list(ns.drop_last()) + "  - "@ + ns.last() + "\n"@ }
}

pub open spec fn spec_fmt_list_models(team_id: Seq<char>, v: Json) -> Seq<char> {
    let names = spec_collect_model_names(v);
    if names.len() == 0 {
        "No models listed.\n\nRaw:\n"@ + spec_pretty(v)
    } else {
        "Models for team "@ + team_id + " ("@ + dec(names.len())
            + "). Use as ACL \"api-key:model:<name>\":\n\n"@ + name_list(names)
    }
}

/// The model names usable in `api-key:model:<name>` ACLs.
#[verifier::spinoff_prover]
pub fn fmt_list_models(team_id: &str, v: &Json) -> (r: String)
    ensures
        r@ == spec_fmt_list_models(team_id@, *v),
{
    let names = collect_model_names(v);
    if names.len() == 0 {
        let mut r = String::from_str("No models listed.\n\nRaw:\n");
        let p = pretty(v);
        r.append(p.as_str());
        return r;
    }
    let mut r = String::from_str("Models for team ");
    r.append(team_id);
    r.append(" (");
    let n = u64_text(names.len() as u64);
    r.append(n.as_str());
    r.append("). Use as ACL \"api-key:model:<name>\":\n\n");
    let ghost head = r@;
    let ghost nv = texts(names@);
    let mut i: usize = 0;
    while i < names.len()
        invariant
            i <= names@.len(),
            nv == texts(names@),
            r@ == head + name_list(nv.take(i as int)),
        decreases names@.len() - i,
    {
        assert(nv.take(i + 1).drop_last() =~= nv.take(i as int));
        r.append("  - ");
        r.append(names[i].as_str());
        r.append("\n");
        i = i + 1;
    }
    assert(nv.take(nv.len() as int) =~= nv);
    r
}

/// The ACL text of an endpoint entry.
pub open spec fn endpoint_acl(a: Json) -> Seq<char> {
    match spec_field_str(a, seq!["acl"@, "name"@, "value"@]) {
        Some(s) => s,
        None => match a {
            Json::Str(s) => s@,
            _ => compact(a),
        },
    }
}

pub open spec fn endpoint_line(a: Json) -> Seq<char> {
    let desc = or_empty(spec_field_str(a, seq!["description"@]));
    if desc.len() == 0 {
        "  - "@ + endpoint_acl(a) + "\n"@
    } else {
        "  - "@ + endpoint_acl(a) + "  — "@ + desc + "\n"@
    }
}

pub open spec fn endpoint_lines(es: Seq<Json>) -> Seq<char>
    decreases es.len(),
{
    if es.len() == 0 { seq![] } else { endpoint_lines(es.drop_last()) + endpoint_line(es.last()) }
}

pub open spec fn spec_fmt_list_endpoints(team_id: Seq<char>, v: Json) -> Seq<char> {
    let acls = spec_array_field(v, seq!["acls"@, "endpoints"@]);
    if acls.len() == 0 {
        "No endpoints.\n\nRaw:\n"@ + spec_pretty(v)
    } else {
        "Endpoints for team "@ + team_id + " ("@ + dec(acls.len())
            + "). Use as ACL \"api-key:endpoint:<name>\":\n\n"@ + endpoint_lines(acls)
    }
}

fn endpoint_line_text(a: &Json) -> (r: String)
    ensures
        r@ == endpoint_line(*a),
{
    let acl = match fstr3(a, "acl", "name", "value") {
        Some(s) => s,
        None => match a.as_str() {
            Some(s) => String::from_str(s),
            None => compact_text(a),
        },
    };
    let desc = text_or_empty(fstr1(a, "description"));
    let mut r = String::from_str("  - ");
    r.append(acl.as_str());
    if desc.as_str().unicode_len() == 0 {
        r.append("\n");
    } else {
        r.append("  — ");
        r.append(desc.as_str());
        r.append("\n");
    }
    r
}

/// The endpoint ACLs usable in `api-key:endpoint:<name>`, with descriptions.
#[verifier::spinoff_prover]
pub fn fmt_list_endpoints(team_id: &str, v: &Json) -> (r: String)
    ensures
        r@ == spec_fmt_list_endpoints(team_id@, *v),
{
    let ks: [&str; 2] = ["acls", "endpoints"];
    let sl: &[&str] = &ks;
    assert(key_views(sl@) =~= seq!["acls"@, "endpoints"@]);
    let acls = array_field(v, sl);
    if acls.len() == 0 {
        let mut r = String::from_str("No endpoints.\n\nRaw:\n");
        let p = pretty(v);
        r.append(p.as_str());
        return r;
    }
    let mut r = String::from_str("Endpoints for team ");
    r.append(team_id);
    r.append(" (");
    let n = u64_text(acls.len() as u64);
    r.append(n.as_str());
    r.append("). Use as ACL \"api-key:endpoint:<name>\":\n\n");
    let ghost head = r@;
    let mut i: usize = 0;
    while i < acls.len()
        invariant
            i <= acls@.len(),
            r@ == head + endpoint_lines(acls@.take(i as int)),
        decreases acls@.len() - i,
    {
        assert(acls@.take(i + 1).drop_last() =~= acls@.take(i as int));
        let line = endpoint_line_text(&acls[i]);
        r.append(line.as_str());
        i = i + 1;
    }
    assert(acls@.take(acls@.len() as int) =~= acls@);
    r
}

pub open spec fn event_lines(es: Seq<Json>) -> Seq<Seq<char>>
    decreases es.len(),
{
    if es.len() == 0 { seq![] } else { event_lines(es.drop_last()).push(spec_fmt_audit_event(es.last())) }
}

pub open spec fn spec_fmt_list_audit(v: Json) -> Seq<char> {
    let events = spec_array_field(v, seq!["events"@]);
    if events.len() == 0 {
        "No audit events found."@
    } else {
        "Audit events ("@ + dec(events.len()) + "):\n\n"@ + join(event_lines(events), "\n"@) + "\n"@
            + page_footer(spec_field_str(v, seq!["nextPageToken"@, "next_page_token"@]))
    }
}

/// The team's audit events, one line each, with the next page token if any.
#[verifier::spinoff_prover]
pub fn fmt_list_audit(v: &Json) -> (r: String)
    ensures
        r@ == spec_fmt_list_audit(*v),
{
    let ks: [&str; 1] = ["events"];
    let sl: &[&str] = &ks;
    assert(key_views(sl@) =~= seq!["events"@]);
    let events = array_field(v, sl);
    if events.len() == 0 {
        return String::from_str("No audit events found.");
    }
    let mut lines: Vec<String> = Vec::new();
    let mut i: usize = 0;
    while i < events.len()
        invariant
            i <= events@.len(),
            texts(lines@) == event_lines(events@.take(i as int)),
        decreases events@.len() - i,
    {
        assert(events@.take(i + 1).drop_last() =~= events@.take(i as int));
        let ghost before = texts(lines@);
        lines.push(fmt_audit_event(&events[i]));
        assert(texts(lines@) =~= before.push(spec_fmt_audit_event(events@[i as int])));
        i = i + 1;
    }
    assert(events@.take(events@.len() as int) =~= events@);
    let mut r = String::from_str("Audit events (");
    let n = u64_text(events.len() as u64);
    r.append(n.as_str());
    r.append("):\n\n");
    let body = join_strings(&lines, "\n");
    r.append(body.as_str());
    r.append("\n");
    match fstr2(v, "nextPageToken", "next_page_token") {
        Some(tok) => {
            r.append("\nNext page token: ");
            r.append(tok.as_str());
            r.append("\n");
        },
        None => {
            r.append("\n(no more pages)\n");
        },
    }
    r
}

pub open spec fn member_lines(m: Seq<(String, Json)>) -> Seq<char>
    decreases m.len(),
{
    if m.len() == 0 {
        seq![]
    } else {
        member_lines(m.drop_last()) + "  "@ + m.last().0@ + ": "@ + compact(m.last().1) + "\n"@
    }
}

pub open spec fn spec_fmt_propagation(api_key_id: Seq<char>, v: Json) -> Seq<char> {
    "Propagation status for "@ + api_key_id + ":\n"@ + match spec_field(
        v,
        seq!["icPropagation"@, "ic_propagation"@],
    ) {
        Some(Json::Object(m)) => member_lines(m@),
        _ => spec_pretty(v),
    }
}

/// Propagation of a key across clusters: one `cluster: status` line each, or
/// the raw payload.
#[verifier::spinoff_prover]
pub fn fmt_propagation(api_key_id: &str, v: &Json) -> (r: String)
    ensures
        r@ == spec_fmt_propagation(api_key_id@, *v),
{
    let mut r = String::from_str("Propagation status for ");
    r.append(api_key_id);
    r.append(":\n");
    let ghost head = r@;
    match field2(v, "icPropagation", "ic_propagation") {
        Some(x) => match x.as_object() {
            Some(m) => {
                let mut i: usize = 0;
                while i < m.len()
                    invariant
                        i <= m@.len(),
                        r@ == head + member_lines(m@.take(i as int)),
                    decreases m@.len() - i,
                {
                    assert(m@.take(i + 1).drop_last() =~= m@.take(i as int));
                    r.append("  ");
                    r.append(m[i].0.as_str());
                    r.append(": ");
                    let t = compact_text(&m[i].1);
                    r.append(t.as_str());
                    r.append("\n");
                    i = i + 1;
                }
                assert(m@.take(m@.len() as int) =~= m@);
            },
            None => {
                let p = pretty(v);
                r.append(p.as_str());
            },
        },
        None => {
            let p = pretty(v);
            r.append(p.as_str());
        },
    }
    r
}


// ---------------------------------------------------------------- laws

proof fn lemma_dedup(s: Seq<Seq<char>>)
    ensures
        dedup(s).no_duplicates(),
        forall|x: Seq<char>| dedup(s).contains(x) <==> s.contains(x),
    decreases s.len(),
{
    if s.len() > 0 {
        let prev = s.drop_last();
        lemma_dedup(prev);
        assert forall|x: Seq<char>| s.contains(x) <==> (prev.contains(x) || x == s.last()) by {
            if s.contains(x) {
                let i = choose|i: int| 0 <= i < s.len() && s[i] == x;
                if i < prev.len() {
                    assert(prev[i] == x);
                }
            }
            if prev.contains(x) {
                let i = choose|i: int| 0 <= i < prev.len() && prev[i] == x;
                assert(s[i] == x);
            }
            if x == s.last() {
                assert(s[s.len() - 1] == x);
            }
        }
        let d = dedup(prev);
        if !d.contains(s.last()) {
            let e = d.push(s.last());
            assert forall|x: Seq<char>| e.contains(x) <==> (d.contains(x) || x == s.last()) by {
                if e.contains(x) {
                    let i = choose|i: int| 0 <= i < e.len() && e[i] == x;
                    if i < d.len() {
                        assert(d[i] == x);
                    }
                }
                if d.contains(x) {
                    let i = choose|i: int| 0 <= i < d.len() && d[i] == x;
                    assert(e[i] == x);
                }
                if x == s.last() {
                    assert(e[d.len() as int] == x);
                }
            }
            assert forall|i: int, j: int| 0 <= i < e.len() && 0 <= j < e.len() && i != j implies e[i]
                != e[j] by {
                if i < d.len() && j < d.len() {
                } else if i < d.len() {
                    assert(d.contains(e[i]));
                } else {
                    assert(d.contains(e[j]));
                }
            }
        }
    }
}

/// The model list names each model once, and names exactly the models found in
/// the payload.
pub proof fn lemma_model_names(v: Json)
    ensures
        spec_collect_model_names(v).no_duplicates(),
        forall|n: Seq<char>|
            spec_collect_model_names(v).contains(n) <==> names_of(model_entries(v)).contains(n),
{
    lemma_dedup(names_of(model_entries(v)));
}


/// The list under `key` of the `ci`-th element of the payload's `clusterConfigs`.
pub open spec fn cluster_list(v: Json, ci: int, key: Seq<char>) -> Seq<Json> {
    match spec_field(v, seq!["clusterConfigs"@, "cluster_configs"@]) {
        Some(Json::Array(cs)) => if 0 <= ci < cs@.len() {
            match spec_get(cs@[ci], key) {
                Some(Json::Array(ms)) => ms@,
                _ => seq![],
            }
        } else {
            seq![]
        },
        _ => seq![],
    }
}

/// A model entry named `n`: by its `name` or `id`, or, lacking those, by being
/// the string `n`.
pub open spec fn entry_named(m: Json, n: Seq<char>) -> bool {
    match spec_field_str(m, seq!["name"@, "id"@]) {
        Some(x) => x == n,
        None => match m {
            Json::Str(s) => s@ == n,
            _ => false,
        },
    }
}

/// The ten lists of a cluster config that hold models.
pub open spec fn is_model_list(key: Seq<char>) -> bool {
    key == "languageModels"@ || key == "language_models"@ || key == "embeddingModels"@
        || key == "embedding_models"@ || key == "imageGenerationModels"@
        || key == "image_generation_models"@ || key == "audioModels"@ || key == "audio_models"@
        || key == "videoGenerationModels"@ || key == "video_generation_models"@
}

proof fn lemma_in_cluster(c: Json, keys: Seq<Seq<char>>, key: Seq<char>, m: Json)
    requires
        keys.contains(key),
        get_elems(c, key).contains(m),
    ensures
        cluster_models(c, keys).contains(m),
    decreases keys.len(),
{
    let i = choose|i: int| 0 <= i < get_elems(c, key).len() && get_elems(c, key)[i] == m;
    if keys.last() == key {
        let pre = cluster_models(c, keys.drop_last());
        assert((pre + get_elems(c, key))[pre.len() + i] == m);
    } else {
        let j = choose|j: int| 0 <= j < keys.len() && keys[j] == key;
        assert(keys.drop_last()[j] == key);
        lemma_in_cluster(c, keys.drop_last(), key, m);
        let pre = cluster_models(c, keys.drop_last());
        let k = choose|k: int| 0 <= k < pre.len() && pre[k] == m;
        assert((pre + get_elems(c, keys.last()))[k] == m);
    }
}

proof fn lemma_in_clusters(cs: Seq<Json>, ci: int, m: Json)
    requires
        0 <= ci < cs.len(),
        cluster_models(cs[ci], model_keys()).contains(m),
    ensures
        clusters_models(cs).contains(m),
    decreases cs.len(),
{
    let pre = clusters_models(cs.drop_last());
    let last = cluster_models(cs.last(), model_keys());
    if ci == cs.len() - 1 {
        let i = choose|i: int| 0 <= i < last.len() && last[i] == m;
        assert((pre + last)[pre.len() + i] == m);
    } else {
        assert(cs.drop_last()[ci] == cs[ci]);
        lemma_in_clusters(cs.drop_last(), ci, m);
        let k = choose|k: int| 0 <= k < pre.len() && pre[k] == m;
        assert((pre + last)[k] == m);
    }
}

proof fn lemma_named_listed(ms: Seq<Json>, m: Json, n: Seq<char>)
    requires
        ms.contains(m),
        model_name(m) == Some(n),
    ensures
        names_of(ms).contains(n),
    decreases ms.len(),
{
    let prev = ms.drop_last();
    if ms.last() == m {
        assert(names_of(ms) == names_of(prev).push(n));
        assert(names_of(ms)[names_of(prev).len() as int] == n);
    } else {
        let i = choose|i: int| 0 <= i < ms.len() && ms[i] == m;
        assert(prev[i] == m);
        lemma_named_listed(prev, m, n);
        let k = choose|k: int| 0 <= k < names_of(prev).len() && names_of(prev)[k] == n;
        match model_name(ms.last()) {
            Some(x) => assert(names_of(ms)[k] == n),
            None => {},
        }
    }
}

/// Without a `models` array, every model named in any of the ten model lists
/// of any element of `clusterConfigs` is among the names listed.
pub proof fn lemma_cluster_models_listed(v: Json, ci: int, key: Seq<char>, mi: int, n: Seq<char>)
    requires
        !(spec_field(v, seq!["models"@]) matches Some(Json::Array(_))),
        is_model_list(key),
        0 <= mi < cluster_list(v, ci, key).len(),
        entry_named(cluster_list(v, ci, key)[mi], n),
    ensures
        spec_collect_model_names(v).contains(n),
{
    let cs = spec_field(v, seq!["clusterConfigs"@, "cluster_configs"@])->Some_0->Array_0@;
    let c = cs[ci];
    let m = cluster_list(v, ci, key)[mi];
    assert(get_elems(c, key) == cluster_list(v, ci, key));
    assert(get_elems(c, key)[mi] == m);
    let ks = model_keys();
    assert(ks.contains(key)) by {
        if key == "languageModels"@ { assert(ks[0] == key); }
        else if key == "language_models"@ { assert(ks[1] == key); }
        else if key == "embeddingModels"@ { assert(ks[2] == key); }
        else if key == "embedding_models"@ { assert(ks[3] == key); }
        else if key == "imageGenerationModels"@ { assert(ks[4] == key); }
        else if key == "image_generation_models"@ { assert(ks[5] == key); }
        else if key == "audioModels"@ { assert(ks[6] == key); }
        else if key == "audio_models"@ { assert(ks[7] == key); }
        else if key == "videoGenerationModels"@ { assert(ks[8] == key); }
        else { assert(ks[9] == key); }
    }
    lemma_in_cluster(c, ks, key, m);
    lemma_in_clusters(cs, ci, m);
    assert(model_entries(v) == clusters_models(cs));
    lemma_named_listed(model_entries(v), m, n);
    lemma_dedup(names_of(model_entries(v)));
}

} // verus!
