//! Cents parsing and money display.
use vstd::prelude::*;
use crate::json::Json;
use crate::text::{dec, int_text, lemma_int_text_parses, parse_i64, parse_int, push_char, str_equal};
use crate::util::{cents_signed_to_dollars, opt, signed_dollars};

verus! {

/// A `u64` read as `i64` by `as` (two's complement).
pub open spec fn u64_as_i64(u: u64) -> i64 {
    if u <= i64::MAX { u as i64 } else { (u - 18446744073709551616) as i64 }
}

/// The cents that a JSON amount holds: an integer, a decimal string, or an
/// object whose `val` member holds one.
pub open spec fn cents_of(v: Json) -> Option<i64>
    decreases v,
{
    match v {
        Json::PosInt(u) => Some(u64_as_i64(u)),
        Json::NegInt(i) => Some(i),
        Json::Str(s) => parse_i64(s@),
        Json::Object(m) => cents_in_members(m@),
        _ => None,
    }
}

pub open spec fn cents_in_members(m: Seq<(String, Json)>) -> Option<i64>
    decreases m,
{
    if m.len() == 0 {
        None
    } else if m[0].0@ == "val"@ {
        cents_of(m[0].1)
    } else {
        cents_in_members(m.drop_first())
    }
}

pub open spec fn spec_parse_cents(o: Option<Json>) -> Option<i64> {
    match o {
        Some(v) => cents_of(v),
        None => None,
    }
}

/// A money table cell: the amount in dollars, or `-` when there is none.
pub open spec fn cell(o: Option<Json>) -> Seq<char> {
    match spec_parse_cents(o) {
        Some(c) => signed_dollars(c as int),
        None => seq!['-'],
    }
}

fn wrap_u64(u: u64) -> (i: i64)
    ensures
        i == u64_as_i64(u),
{
    if u <= 9223372036854775807 {
        u as i64
    } else {
        let x = (u - 9223372036854775808) as i64;
        x - 9223372036854775807 - 1
    }
}

#[verifier::loop_isolation(false)]
fn cents_of_value(v: &Json) -> (r: Option<i64>)
    ensures
        r == cents_of(*v),
    decreases v,
{
    match v {
        Json::PosInt(u) => Some(wrap_u64(*u)),
        Json::NegInt(i) => Some(*i),
        Json::Str(s) => parse_int(s.as_str()),
        Json::Object(m) => {
            let mut i: usize = 0;
            assert(m@.skip(0) =~= m@);
            while i < m.len()
                invariant
                    i <= m@.len(),
                    cents_in_members(m@) == cents_in_members(m@.skip(i as int)),
                decreases m@.len() - i,
            {
                assert(m@.skip(i as int).drop_first() =~= m@.skip(i + 1));
                assert(m@.skip(i as int)[0] == m@[i as int]);
                if str_equal(m[i].0.as_str(), "val") {
                    return cents_of_value(&m[i].1);
                }
                i = i + 1;
            }
            None
        },
        _ => None,
    }
}

/// Cents held by an amount: an integer, a decimal string, or `{"val": ...}`.
pub fn parse_cents(v: Option<&Json>) -> (r: Option<i64>)
    ensures
        r == spec_parse_cents(opt(v)),
{
    match v {
        Some(x) => cents_of_value(x),
        None => None,
    }
}

/// The amount as signed dollars, or `-` when it cannot be read.
pub fn money_cell(v: Option<&Json>) -> (r: String)
    ensures
        r@ == cell(opt(v)),
{
    match parse_cents(v) {
        Some(c) => cents_signed_to_dollars(c),
        None => {
            let mut s = String::new();
            push_char(&mut s, '-');
            s
        },
    }
}


/// An amount sent as the decimal text of its cents, bare or as `{"val": ..}`,
/// is read back as the same cents.
pub proof fn lemma_sent_amount_reads_back(n: u64, text: String, key: String)
    requires
        n <= i64::MAX,
        text@ == dec(n as nat),
        key@ == "val"@,
    ensures
        cents_of(Json::Str(text)) == Some(n as i64),
        cents_in_members(seq![(key, Json::Str(text))]) == Some(n as i64),
{
    lemma_int_text_parses(n as i64);
    assert(int_text(n as i64 as int) == dec(n as nat));
}

} // verus!
