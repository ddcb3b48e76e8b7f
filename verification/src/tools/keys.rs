//! API key tools.
use vstd::prelude::*;
use crate::api::qview;
use crate::format::keys::{format_new_secret, fmt_api_key_row, spec_fmt_api_key_row, spec_format_new_secret};
use crate::helpers::{err_text, require_confirm, ToolResult};
use crate::json::{Json, JsonV, jv_members, object_of, push_member, str_values, string_array};
use crate::params::{CreateApiKeyParams, DeleteApiKeyParams, ListApiKeysParams, RotateApiKeyParams, UpdateApiKeyParams};
use crate::text::{dec, join, join_strings, owned, texts, trim, trimmed, u64_text};
use crate::tools::query::{opt_pair, push_opt, push_pair, push_repeated, repeated};

verus! {

// ---------------------------------------------------------------- list

pub open spec fn spec_api_keys_query(p: ListApiKeysParams) -> Seq<(Seq<char>, Seq<char>)> {
    let size: u32 = match p.page_size {
        Some(n) => n,
        None => 20,
    };
    seq![("pageSize"@, dec(size as nat))] + opt_pair("paginationToken"@, p.pagination_token) + (
    if p.active_only == Some(true) {
        seq![("activeOnly"@, "true"@)]
    } else {
        seq![]
    }) + match p.acl_filters {
        Some(fs) => repeated("aclFilters"@, fs@),
        None => seq![],
    }
}

pub fn api_keys_query(p: ListApiKeysParams) -> (r: Vec<(String, String)>)
    ensures
        qview(r@) == spec_api_keys_query(p),
{
    let size: u32 = match p.page_size {
        Some(n) => n,
        None => 20,
    };
    let mut q: Vec<(String, String)> = Vec::new();
    assert(qview(q@) =~= Seq::<(Seq<char>, Seq<char>)>::empty());
    push_pair(&mut q, "pageSize", u64_text(size as u64));
    assert(qview(q@) =~= seq![("pageSize"@, dec(size as nat))]);
    push_opt(&mut q, "paginationToken", p.pagination_token);
    let ghost q1 = qview(q@);
    if p.active_only == Some(true) {
        push_pair(&mut q, "activeOnly", owned("true"));
    }
    assert(qview(q@) =~= q1 + (if p.active_only == Some(true) {
        seq![("activeOnly"@, "true"@)]
    } else {
        Seq::<(Seq<char>, Seq<char>)>::empty()
    }));
    let ghost q2 = qview(q@);
    match &p.acl_filters {
        Some(fs) => push_repeated(&mut q, "aclFilters", fs),
        None => {
            assert(qview(q@) =~= q2 + Seq::<(Seq<char>, Seq<char>)>::empty());
        },
    }
    q
}

// ---------------------------------------------------------------- create

pub open spec fn opt_member(k: Seq<char>, o: Option<JsonV>) -> Seq<(Seq<char>, JsonV)> {
    match o {
        Some(j) => seq![(k, j)],
        None => seq![],
    }
}

pub open spec fn num32(o: Option<u32>) -> Option<JsonV> {
    match o {
        Some(n) => Some(JsonV::PosInt(n as u64)),
        None => None,
    }
}

pub open spec fn text64(o: Option<u64>) -> Option<JsonV> {
    match o {
        Some(n) => Some(JsonV::Str(dec(n as nat))),
        None => None,
    }
}

pub open spec fn text_opt(o: Option<String>) -> Option<JsonV> {
    match o {
        Some(s) => Some(JsonV::Str(s@)),
        None => None,
    }
}

/// The body that creates a key: name and ACLs, and the limits and expiry given.
pub open spec fn spec_create_body(p: CreateApiKeyParams) -> JsonV {
    JsonV::Object(
        seq![("name"@, JsonV::Str(p.name@)), ("acls"@, JsonV::Array(str_values(texts(p.acls@))))]
            + opt_member("qps"@, num32(p.qps)) + opt_member("qpm"@, num32(p.qpm)) + opt_member(
            "tpm"@,
            text64(p.tpm),
        ) + opt_member("expireTime"@, text_opt(p.expire_time)),
    )
}

fn push_opt_member(m: &mut Vec<(String, Json)>, k: &str, o: Option<Json>)
    ensures
        jv_members(final(m)@) == jv_members(old(m)@) + opt_member(
            k@,
            match o {
                Some(j) => Some(j@),
                None => None,
            },
        ),
{
    let ghost before = jv_members(m@);
    match o {
        Some(j) => {
            let ghost jj = j@;
            push_member(m, k, j);
            assert(jv_members(m@) =~= before + seq![(k@, jj)]);
        },
        None => {
            assert(jv_members(m@) =~= before + Seq::<(Seq<char>, JsonV)>::empty());
        },
    }
}

fn num_json(o: Option<u32>) -> (r: Option<Json>)
    ensures
        match r {
            Some(j) => num32(o) == Some(j@),
            None => num32(o) is None,
        },
{
    match o {
        Some(n) => Some(Json::PosInt(n as u64)),
        None => None,
    }
}

fn text_json(o: Option<u64>) -> (r: Option<Json>)
    ensures
        match r {
            Some(j) => text64(o) == Some(j@),
            None => text64(o) is None,
        },
{
    match o {
        Some(n) => Some(Json::Str(u64_text(n))),
        None => None,
    }
}

fn str_json(o: Option<String>) -> (r: Option<Json>)
    ensures
        match r {
            Some(j) => text_opt(o) == Some(j@),
            None => text_opt(o) is None,
        },
{
    match o {
        Some(s) => Some(Json::Str(s)),
        None => None,
    }
}

/// The request body for `create_api_key`, and whether the ACL list is empty.
pub fn create_api_key_body(p: CreateApiKeyParams) -> (r: (Json, bool))
    ensures
        r.0@ == spec_create_body(p),
        r.1 == (p.acls@.len() == 0),
{
    let ghost pp = p;
    let empty_acls = p.acls.len() == 0;
    let mut m: Vec<(String, Json)> = Vec::new();
    assert(jv_members(m@) =~= Seq::<(Seq<char>, JsonV)>::empty());
    push_member(&mut m, "name", Json::Str(p.name));
    push_member(&mut m, "acls", string_array(&p.acls));
    assert(jv_members(m@) =~= seq![
        ("name"@, JsonV::Str(pp.name@)),
        ("acls"@, JsonV::Array(str_values(texts(pp.acls@)))),
    ]);
    push_opt_member(&mut m, "qps", num_json(p.qps));
    push_opt_member(&mut m, "qpm", num_json(p.qpm));
    push_opt_member(&mut m, "tpm", text_json(p.tpm));
    push_opt_member(&mut m, "expireTime", str_json(p.expire_time));
    (object_of(m), empty_acls)
}

pub open spec fn spec_created_text(empty_acls: bool, v: Json) -> Seq<char> {
    (if empty_acls {
        "WARNING: empty ACL list — this key has NO access until update_api_key.\n\n"@
    } else {
        seq![]
    }) + spec_format_new_secret(v) + "\n"@ + spec_fmt_api_key_row(v) + "\n"@
}

/// The reply to a created key: a warning for an empty ACL list, the secret and
/// the key's row.
pub fn created_key_text(empty_acls: bool, v: &Json) -> (r: String)
    ensures
        r@ == spec_created_text(empty_acls, *v),
{
    let mut out = String::new();
    if empty_acls {
        out.append("WARNING: empty ACL list — this key has NO access until update_api_key.\n\n");
    }
    let s = format_new_secret(v);
    out.append(s.as_str());
    out.append("\n");
    let row = fmt_api_key_row(v);
    out.append(row.as_str());
    out.append("\n");
    out
}

// ---------------------------------------------------------------- update

/// The members of the updated key and the names of the fields they set.
pub open spec fn update_members(p: UpdateApiKeyParams) -> Seq<(Seq<char>, JsonV)> {
    opt_member("name"@, text_opt(p.name)) + opt_member(
        "aclStrings"@,
        match p.acls {
            Some(a) => Some(JsonV::Array(str_values(texts(a@)))),
            None => None,
        },
    ) + opt_member("qps"@, num32(p.qps)) + opt_member("qpm"@, num32(p.qpm)) + opt_member(
        "tpm"@,
        text64(p.tpm),
    ) + opt_member(
        "disabled"@,
        match p.disabled {
            Some(d) => Some(JsonV::Bool(d)),
            None => None,
        },
    )
}

pub open spec fn opt_name(k: Seq<char>, present: bool) -> Seq<Seq<char>> {
    if present { seq![k] } else { seq![] }
}

pub open spec fn update_mask(p: UpdateApiKeyParams) -> Seq<Seq<char>> {
    opt_name("name"@, p.name is Some) + opt_name("aclStrings"@, p.acls is Some) + opt_name(
        "qps"@,
        p.qps is Some,
    ) + opt_name("qpm"@, p.qpm is Some) + opt_name("tpm"@, p.tpm is Some) + opt_name(
        "disabled"@,
        p.disabled is Some,
    )
}

/// A planned key update: the trimmed key id, the body, the updated fields.
pub struct UpdatePlan {
    pub api_key_id: String,
    pub body: Json,
    pub fields: String,
}

pub open spec fn spec_update_body(p: UpdateApiKeyParams) -> JsonV {
    JsonV::Object(
        seq![
            ("apiKey"@, JsonV::Object(update_members(p))),
            ("fieldMask"@, JsonV::Str(join(update_mask(p), ","@))),
        ],
    )
}

fn mask_push(mask: &mut Vec<String>, k: &str, present: bool)
    ensures
        texts(final(mask)@) == texts(old(mask)@) + opt_name(k@, present),
{
    let ghost before = texts(mask@);
    if present {
        mask.push(owned(k));
    }
    assert(texts(mask@) =~= before + opt_name(k@, present));
}

/// What `update_api_key` sends, or the refusal when no field is given.
#[verifier::spinoff_prover]
pub fn update_api_key_plan(p: UpdateApiKeyParams) -> (r: Result<UpdatePlan, ToolResult>)
    ensures
        match r {
            Ok(plan) => update_mask(p).len() > 0 && plan.api_key_id@ == trim(p.api_key_id@)
                && plan.body@ == spec_update_body(p) && plan.fields@ == join(update_mask(p), ", "@),
            Err(e) => update_mask(p).len() == 0 && e.is_error
                && e.text@ == "Nothing to update: provide at least one of name, acls, qps, qpm, tpm, disabled."@,
        },
{
    let ghost pp = p;
    let mut mask: Vec<String> = Vec::new();
    assert(texts(mask@) =~= Seq::<Seq<char>>::empty());
    mask_push(&mut mask, "name", p.name.is_some());
    mask_push(&mut mask, "aclStrings", p.acls.is_some());
    mask_push(&mut mask, "qps", p.qps.is_some());
    mask_push(&mut mask, "qpm", p.qpm.is_some());
    mask_push(&mut mask, "tpm", p.tpm.is_some());
    mask_push(&mut mask, "disabled", p.disabled.is_some());
    assert(texts(mask@) =~= update_mask(pp));
    if mask.len() == 0 {
        return Err(
            err_text(
                owned(
                    "Nothing to update: provide at least one of name, acls, qps, qpm, tpm, disabled.",
                ),
            ),
        );
    }
    let mut k: Vec<(String, Json)> = Vec::new();
    assert(jv_members(k@) =~= Seq::<(Seq<char>, JsonV)>::empty());
    push_opt_member(&mut k, "name", str_json(p.name));
    let acls = match &p.acls {
        Some(a) => Some(string_array(a)),
        None => None,
    };
    push_opt_member(&mut k, "aclStrings", acls);
    push_opt_member(&mut k, "qps", num_json(p.qps));
    push_opt_member(&mut k, "qpm", num_json(p.qpm));
    push_opt_member(&mut k, "tpm", text_json(p.tpm));
    let disabled = match p.disabled {
        Some(d) => Some(Json::Bool(d)),
        None => None,
    };
    push_opt_member(&mut k, "disabled", disabled);
    assert(jv_members(k@) =~= update_members(pp));
    let mut m: Vec<(String, Json)> = Vec::new();
    assert(jv_members(m@) =~= Seq::<(Seq<char>, JsonV)>::empty());
    push_member(&mut m, "apiKey", object_of(k));
    let mask_comma = join_strings(&mask, ",");
    push_member(&mut m, "fieldMask", Json::Str(mask_comma));
    assert(jv_members(m@) =~= seq![
        ("apiKey"@, JsonV::Object(update_members(pp))),
        ("fieldMask"@, JsonV::Str(join(update_mask(pp), ","@))),
    ]);
    let fields = join_strings(&mask, ", ");
    Ok(UpdatePlan { api_key_id: trimmed(p.api_key_id.as_str()), body: object_of(m), fields })
}

pub open spec fn spec_updated_text(id: Seq<char>, fields: Seq<char>, v: Json) -> Seq<char> {
    "Updated API key "@ + id + " (fields: "@ + fields + "):\n\n"@ + spec_fmt_api_key_row(v)
}

pub fn updated_key_text(id: &str, fields: &str, v: &Json) -> (r: String)
    ensures
        r@ == spec_updated_text(id@, fields@, *v),
{
    let mut r = owned("Updated API key ");
    r.append(id);
    r.append(" (fields: ");
    r.append(fields);
    r.append("):\n\n");
    let row = fmt_api_key_row(v);
    r.append(row.as_str());
    r
}

// ---------------------------------------------------------------- delete, rotate

/// The key id to delete, once `confirm` is `DELETE`.
pub fn delete_api_key_gate(p: &DeleteApiKeyParams) -> (r: Result<String, ToolResult>)
    ensures
        match r {
            Ok(id) => p.confirm@ == "DELETE"@ && id@ == trim(p.api_key_id@),
            Err(e) => p.confirm@ != "DELETE"@ && e.is_error
                && e.text@
                == "Deletion NOT executed. Pass confirm = \"DELETE\" to permanently delete this API key."@,
        },
{
    match require_confirm(
        p.confirm.as_str(),
        "DELETE",
        "Deletion NOT executed. Pass confirm = \"DELETE\" to permanently delete this API key.",
    ) {
        Ok(()) => Ok(trimmed(p.api_key_id.as_str())),
        Err(e) => Err(e),
    }
}

pub fn deleted_text(id: &str) -> (r: String)
    ensures
        r@ == "Deleted API key "@ + id@ + "."@,
{
    let mut r = owned("Deleted API key ");
    r.append(id);
    r.append(".");
    r
}

/// The key id to rotate, once `confirm` is `ROTATE`.
pub fn rotate_api_key_gate(p: &RotateApiKeyParams) -> (r: Result<String, ToolResult>)
    ensures
        match r {
            Ok(id) => p.confirm@ == "ROTATE"@ && id@ == trim(p.api_key_id@),
            Err(e) => p.confirm@ != "ROTATE"@ && e.is_error
                && e.text@
                == "Rotation NOT executed. Pass confirm = \"ROTATE\". Rotation invalidates the current secret (new secret returned once)."@,
        },
{
    match require_confirm(
        p.confirm.as_str(),
        "ROTATE",
        "Rotation NOT executed. Pass confirm = \"ROTATE\". Rotation invalidates the current secret (new secret returned once).",
    ) {
        Ok(()) => Ok(trimmed(p.api_key_id.as_str())),
        Err(e) => Err(e),
    }
}

pub open spec fn spec_rotated_text(id: Seq<char>, v: Json) -> Seq<char> {
    "Rotated API key "@ + id + ".\n\n"@ + spec_format_new_secret(v) + "\n"@ + spec_fmt_api_key_row(v)
        + "\n"@
}

pub fn rotated_text(id: &str, v: &Json) -> (r: String)
    ensures
        r@ == spec_rotated_text(id@, *v),
{
    let mut r = owned("Rotated API key ");
    r.append(id);
    r.append(".\n\n");
    let s = format_new_secret(v);
    r.append(s.as_str());
    r.append("\n");
    let row = fmt_api_key_row(v);
    r.append(row.as_str());
    r.append("\n");
    r
}

} // verus!
