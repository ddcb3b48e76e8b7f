//! Audit event line formatting.
use vstd::prelude::*;
use crate::json::{Json, spec_get};
use crate::text::{join, join_strings, strip_all_prefix, texts, trim_start_matches};
use crate::util::{fstr1, fstr2, fstr4, opt_text, or_empty, or_text, spec_field_str, text_or, text_or_empty};

verus! {

pub open spec fn user_email_or_name(e: Json) -> Option<Seq<char>> {
    match spec_get(e, "user"@) {
        Some(u) => match spec_field_str(u, seq!["email"@]) {
            Some(s) => Some(s),
            None => spec_field_str(u, seq!["givenName"@]),
        },
        None => None,
    }
}

pub open spec fn actor_email(e: Json) -> Option<Seq<char>> {
    match spec_get(e, "actor"@) {
        Some(a) => match spec_get(a, "user"@) {
            Some(u) => spec_field_str(u, seq!["email"@]),
            None => None,
        },
        None => None,
    }
}

/// Who acted: the user's email or name, the actor's email, or the user id.
pub open spec fn audit_user(e: Json) -> Seq<char> {
    match user_email_or_name(e) {
        Some(s) => s,
        None => match actor_email(e) {
            Some(s) => s,
            None => or_text(spec_field_str(e, seq!["userId"@]), "-"@),
        },
    }
}

/// The string elements of an array, in order.
pub open spec fn strings_in(s: Seq<Json>) -> Seq<Seq<char>>
    decreases s.len(),
{
    if s.len() == 0 {
        seq![]
    } else {
        match s.last() {
            Json::Str(x) => strings_in(s.drop_last()).push(x@),
            _ => strings_in(s.drop_last()),
        }
    }
}

pub open spec fn primary_keys(e: Json) -> Seq<Seq<char>> {
    match spec_get(e, "primaryKey"@) {
        Some(Json::Array(a)) => strings_in(a@),
        _ => seq![],
    }
}

/// The pieces a description is built from when the event has none.
pub open spec fn desc_parts(e: Json) -> Seq<Seq<char>> {
    let op = or_empty(spec_field_str(e, seq!["operation"@]));
    let etype = or_empty(spec_field_str(e, seq!["entityType"@, "entity_type"@]));
    let ename = or_empty(spec_field_str(e, seq!["entityName"@, "entity_name"@]));
    let keys = primary_keys(e);
    (if op.len() > 0 { seq![strip_all_prefix(op, "OPERATION_"@)] } else { seq![] }) + (if etype.len()
        > 0 {
        seq![etype]
    } else {
        seq![]
    }) + (if ename.len() > 0 { seq![ename] } else { seq![] }) + (if keys.len() > 0 {
        seq![join(keys, ","@)]
    } else {
        seq![]
    })
}

pub open spec fn audit_desc(e: Json) -> Seq<char> {
    let desc = or_empty(spec_field_str(e, seq!["description"@]));
    if desc.len() > 0 {
        desc
    } else if desc_parts(e).len() == 0 {
        or_text(spec_field_str(e, seq!["eventId"@, "event_id"@]), "-"@)
    } else {
        join(desc_parts(e), " · "@)
    }
}

pub open spec fn spec_fmt_audit_event(e: Json) -> Seq<char> {
    or_text(spec_field_str(e, seq!["eventTime"@, "time"@, "createTime"@, "timestamp"@]), "-"@)
        + " | "@ + audit_user(e) + " | "@ + audit_desc(e)
}

fn audit_user_of(e: &Json) -> (r: String)
    ensures
        r@ == audit_user(*e),
{
    let from_user = match e.get("user") {
        Some(u) => match fstr1(u, "email") {
            Some(s) => Some(s),
            None => fstr1(u, "givenName"),
        },
        None => None,
    };
    match from_user {
        Some(s) => s,
        None => {
            let from_actor = match e.get("actor") {
                Some(a) => match a.get("user") {
                    Some(u) => fstr1(u, "email"),
                    None => None,
                },
                None => None,
            };
            match from_actor {
                Some(s) => s,
                None => text_or(fstr1(e, "userId"), "-"),
            }
        },
    }
}

fn primary_keys_of(e: &Json) -> (r: Vec<String>)
    ensures
        texts(r@) == primary_keys(*e),
{
    let mut out: Vec<String> = Vec::new();
    match e.get("primaryKey") {
        Some(x) => match x.as_array() {
            Some(a) => {
                let mut i: usize = 0;
                while i < a.len()
                    invariant
                        i <= a@.len(),
                        texts(out@) == strings_in(a@.take(i as int)),
                    decreases a@.len() - i,
                {
                    assert(a@.take(i + 1).drop_last() =~= a@.take(i as int));
                    if let Some(s) = a[i].as_str() {
                        let ghost before = texts(out@);
                        out.push(String::from_str(s));
                        assert(texts(out@) =~= before.push(s@));
                    }
                    i = i + 1;
                }
                assert(a@.take(a@.len() as int) =~= a@);
            },
            None => {},
        },
        None => {},
    }
    out
}

#[verifier::spinoff_prover]
fn desc_parts_of(e: &Json) -> (r: Vec<String>)
    ensures
        texts(r@) == desc_parts(*e),
{
    let op = text_or_empty(fstr1(e, "operation"));
    let etype = text_or_empty(fstr2(e, "entityType", "entity_type"));
    let ename = text_or_empty(fstr2(e, "entityName", "entity_name"));
    let keys = primary_keys_of(e);
    let mut parts: Vec<String> = Vec::new();
    let ghost p0: Seq<Seq<char>> = if op@.len() > 0 {
        seq![strip_all_prefix(op@, "OPERATION_"@)]
    } else {
        seq![]
    };
    let ghost p1: Seq<Seq<char>> = if etype@.len() > 0 { seq![etype@] } else { seq![] };
    let ghost p2: Seq<Seq<char>> = if ename@.len() > 0 { seq![ename@] } else { seq![] };
    let ghost p3: Seq<Seq<char>> = if texts(keys@).len() > 0 {
        seq![join(texts(keys@), ","@)]
    } else {
        seq![]
    };
    if op.as_str().unicode_len() > 0 {
        parts.push(trim_start_matches(op.as_str(), "OPERATION_"));
    }
    assert(texts(parts@) =~= p0);
    if etype.as_str().unicode_len() > 0 {
        parts.push(etype);
    }
    assert(texts(parts@) =~= p0 + p1);
    if ename.as_str().unicode_len() > 0 {
        parts.push(ename);
    }
    assert(texts(parts@) =~= p0 + p1 + p2);
    if keys.len() > 0 {
        parts.push(join_strings(&keys, ","));
    }
    assert(texts(parts@) =~= p0 + p1 + p2 + p3);
    parts
}

/// Renders one audit event as `time | user | description`.
#[verifier::spinoff_prover]
pub fn fmt_audit_event(e: &Json) -> (r: String)
    ensures
        r@ == spec_fmt_audit_event(*e),
{
    let time = text_or(fstr4(e, "eventTime", "time", "createTime", "timestamp"), "-");
    let user = audit_user_of(e);
    let desc0 = text_or_empty(fstr1(e, "description"));
    let desc = if desc0.as_str().unicode_len() > 0 {
        desc0
    } else {
        let parts = desc_parts_of(e);
        if parts.len() == 0 {
            text_or(fstr2(e, "eventId", "event_id"), "-")
        } else {
            join_strings(&parts, " · ")
        }
    };
    let mut r = time;
    r.append(" | ");
    r.append(user.as_str());
    r.append(" | ");
    r.append(desc.as_str());
    r
}

} // verus!
