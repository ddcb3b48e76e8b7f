//! Building query strings.
use vstd::prelude::*;
use crate::api::qview;

verus! {

/// A parameter that is sent only when present and not empty.
pub open spec fn opt_pair(k: Seq<char>, o: Option<String>) -> Seq<(Seq<char>, Seq<char>)> {
    match o {
        Some(s) => if s@.len() > 0 { seq![(k, s@)] } else { seq![] },
        None => seq![],
    }
}

/// One parameter per value, all under the key `k`.
pub open spec fn repeated(k: Seq<char>, vs: Seq<String>) -> Seq<(Seq<char>, Seq<char>)>
    decreases vs.len(),
{
    if vs.len() == 0 { seq![] } else { repeated(k, vs.drop_last()).push((k, vs.last()@)) }
}

pub fn push_pair(q: &mut Vec<(String, String)>, k: &str, v: String)
    ensures
        qview(final(q)@) == qview(old(q)@).push((k@, v@)),
{
    let ghost before = q@;
    let ghost vv = v@;
    q.push((String::from_str(k), v));
    assert(qview(q@) =~= qview(before).push((k@, vv)));
}

pub fn push_opt(q: &mut Vec<(String, String)>, k: &str, o: Option<String>)
    ensures
        qview(final(q)@) == qview(old(q)@) + opt_pair(k@, o),
{
    let ghost before = qview(q@);
    let ghost oo = o;
    match o {
        Some(s) => {
            if s.as_str().unicode_len() > 0 {
                push_pair(q, k, s);
                assert(qview(q@) =~= before + opt_pair(k@, oo));
            } else {
                assert(qview(q@) =~= before + opt_pair(k@, oo));
            }
        },
        None => {
            assert(qview(q@) =~= before + opt_pair(k@, oo));
        },
    }
}

pub fn push_repeated(q: &mut Vec<(String, String)>, k: &str, vs: &Vec<String>)
    ensures
        qview(final(q)@) == qview(old(q)@) + repeated(k@, vs@),
{
    let mut i: usize = 0;
    while i < vs.len()
        invariant
            i <= vs@.len(),
            qview(q@) == qview(old(q)@) + repeated(k@, vs@.take(i as int)),
        decreases vs@.len() - i,
    {
        assert(vs@.take(i + 1).drop_last() =~= vs@.take(i as int));
        let ghost before = qview(q@);
        push_pair(q, k, vs[i].clone());
        assert(qview(q@) =~= qview(old(q)@) + repeated(k@, vs@.take(i + 1)));
        i = i + 1;
    }
    assert(vs@.take(vs@.len() as int) =~= vs@);
}

} // verus!
