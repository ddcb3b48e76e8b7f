//! Audit log tool.
use vstd::prelude::*;
use crate::api::qview;
use crate::params::ListAuditEventsParams;
use crate::text::{dec, u64_text};
use crate::tools::query::{opt_pair, push_opt, push_pair};

verus! {

/// The query of `list_audit_events`: page size (default 20) and the filters given.
pub open spec fn spec_audit_query(p: ListAuditEventsParams) -> Seq<(Seq<char>, Seq<char>)> {
    let size: u32 = match p.page_size {
        Some(n) => n,
        None => 20,
    };
    seq![("pageSize"@, dec(size as nat))] + opt_pair("pageToken"@, p.page_token) + opt_pair(
        "eventFilter.userId"@,
        p.user_id,
    ) + opt_pair("eventFilter.query"@, p.query) + opt_pair("eventTimeFrom"@, p.time_from)
        + opt_pair("eventTimeTo"@, p.time_to)
}

pub fn audit_events_query(p: ListAuditEventsParams) -> (r: Vec<(String, String)>)
    ensures
        qview(r@) == spec_audit_query(p),
{
    let ghost pp = p;
    let size: u32 = match p.page_size {
        Some(n) => n,
        None => 20,
    };
    let mut q: Vec<(String, String)> = Vec::new();
    assert(qview(q@) =~= Seq::<(Seq<char>, Seq<char>)>::empty());
    push_pair(&mut q, "pageSize", u64_text(size as u64));
    assert(qview(q@) =~= seq![("pageSize"@, dec(size as nat))]);
    push_opt(&mut q, "pageToken", p.page_token);
    push_opt(&mut q, "eventFilter.userId", p.user_id);
    push_opt(&mut q, "eventFilter.query", p.query);
    push_opt(&mut q, "eventTimeFrom", p.time_from);
    push_opt(&mut q, "eventTimeTo", p.time_to);
    q
}

} // verus!
