//! Field lookup in JSON payloads, money and timestamp text.
use vstd::prelude::*;
use crate::json::{Json, JsonV, spec_get, number_text};
use crate::text::{
    is_ws, trim_start, lemma_repeat_len, digits_value, lemma_dec_digits, lemma_dec_injective, lemma_leading_zeros,
    prefix_byte_len,
    ascii_upper, byte_len, char_width, chars_of, dec, magnitude, owned, push_char, push_dec, str_equal,
    string_of_range, trim, trimmed, upper, utf8_width, zero_pad, zero_padded,
};

verus! {

/// The views of a list of keys.
pub open spec fn key_views(keys: Seq<&str>) -> Seq<Seq<char>> {
    keys.map_values(|k: &str| k@)
}

/// The first of `keys` under which `v` holds a non-null member.
pub open spec fn spec_field(v: Json, keys: Seq<Seq<char>>) -> Option<Json>
    decreases keys.len(),
{
    if keys.len() == 0 {
        None
    } else {
        match spec_get(v, keys[0]) {
            Some(x) => if x is Null { spec_field(v, keys.drop_first()) } else { Some(x) },
            None => spec_field(v, keys.drop_first()),
        }
    }
}

/// Text of a scalar member as `field_str` renders it.
pub open spec fn scalar_text(x: Json) -> Option<Seq<char>> {
    match x {
        Json::Str(s) => Some(s@),
        Json::PosInt(_) => Some(number_text(x)),
        Json::NegInt(_) => Some(number_text(x)),
        Json::Float(_) => Some(number_text(x)),
        Json::Bool(b) => Some(if b { "true"@ } else { "false"@ }),
        _ => None,
    }
}

pub open spec fn spec_field_str(v: Json, keys: Seq<Seq<char>>) -> Option<Seq<char>> {
    match spec_field(v, keys) {
        Some(x) => scalar_text(x),
        None => None,
    }
}

/// The elements of the array found by `spec_field`, else of `v` itself, else none.
pub open spec fn spec_array_field(v: Json, keys: Seq<Seq<char>>) -> Seq<Json> {
    match spec_field(v, keys) {
        Some(Json::Array(a)) => a@,
        _ => match v {
            Json::Array(a) => a@,
            _ => seq![],
        },
    }
}

/// `Option<&Json>` seen as an optional value.
pub open spec fn opt(r: Option<&Json>) -> Option<Json> {
    match r {
        Some(x) => Some(*x),
        None => None,
    }
}

/// `Option<String>` seen as optional text.
pub open spec fn opt_text(r: Option<String>) -> Option<Seq<char>> {
    match r {
        Some(s) => Some(s@),
        None => None,
    }
}

/// `o.unwrap_or(d)` for optional text.
pub open spec fn or_text(o: Option<Seq<char>>, d: Seq<char>) -> Seq<char> {
    match o {
        Some(s) => s,
        None => d,
    }
}

/// The first non-null member of `v` among `keys`.
pub fn field<'a>(v: &'a Json, keys: &[&str]) -> (r: Option<&'a Json>)
    ensures
        opt(r) == spec_field(*v, key_views(keys@)),
{
    let mut i: usize = 0;
    assert(key_views(keys@).skip(0) =~= key_views(keys@));
    while i < keys.len()
        invariant
            i <= keys@.len(),
            spec_field(*v, key_views(keys@)) == spec_field(*v, key_views(keys@).skip(i as int)),
        decreases keys@.len() - i,
    {
        assert(key_views(keys@).skip(i as int).drop_first() =~= key_views(keys@).skip(i + 1));
        assert(key_views(keys@).skip(i as int)[0] == keys@[i as int]@);
        if let Some(x) = v.get(keys[i]) {
            if !x.is_null() {
                return Some(x);
            }
        }
        i = i + 1;
    }
    None
}

pub fn field1<'a>(v: &'a Json, a: &str) -> (r: Option<&'a Json>)
    ensures
        opt(r) == spec_field(*v, seq![a@]),
{
    let ks: [&str; 1] = [a];
    let sl: &[&str] = &ks;
    assert(key_views(sl@) =~= seq![a@]);
    field(v, sl)
}

pub fn field2<'a>(v: &'a Json, a: &str, b: &str) -> (r: Option<&'a Json>)
    ensures
        opt(r) == spec_field(*v, seq![a@, b@]),
{
    let ks: [&str; 2] = [a, b];
    let sl: &[&str] = &ks;
    assert(key_views(sl@) =~= seq![a@, b@]);
    field(v, sl)
}

pub fn field3<'a>(v: &'a Json, a: &str, b: &str, c: &str) -> (r: Option<&'a Json>)
    ensures
        opt(r) == spec_field(*v, seq![a@, b@, c@]),
{
    let ks: [&str; 3] = [a, b, c];
    let sl: &[&str] = &ks;
    assert(key_views(sl@) =~= seq![a@, b@, c@]);
    field(v, sl)
}

pub fn field4<'a>(v: &'a Json, a: &str, b: &str, c: &str, d: &str) -> (r: Option<&'a Json>)
    ensures
        opt(r) == spec_field(*v, seq![a@, b@, c@, d@]),
{
    let ks: [&str; 4] = [a, b, c, d];
    let sl: &[&str] = &ks;
    assert(key_views(sl@) =~= seq![a@, b@, c@, d@]);
    field(v, sl)
}

/// The text of a scalar value, as `field_str` renders it.
pub fn scalar_string(x: &Json) -> (r: Option<String>)
    ensures
        opt_text(r) == scalar_text(*x),
{
    match x {
        Json::Str(s) => Some(s.clone()),
        Json::PosInt(_) => {
            let mut s = String::new();
            crate::json::push_number(&mut s, x);
            Some(s)
        },
        Json::NegInt(_) => {
            let mut s = String::new();
            crate::json::push_number(&mut s, x);
            Some(s)
        },
        Json::Float(_) => {
            let mut s = String::new();
            crate::json::push_number(&mut s, x);
            Some(s)
        },
        Json::Bool(b) => Some(if *b { owned("true") } else { owned("false") }),
        _ => None,
    }
}

/// The first non-null member among `keys`, rendered as text when it is a scalar.
pub fn field_str(v: &Json, keys: &[&str]) -> (r: Option<String>)
    ensures
        opt_text(r) == spec_field_str(*v, key_views(keys@)),
{
    match field(v, keys) {
        Some(x) => scalar_string(x),
        None => None,
    }
}

pub fn fstr1(v: &Json, a: &str) -> (r: Option<String>)
    ensures
        opt_text(r) == spec_field_str(*v, seq![a@]),
{
    match field1(v, a) {
        Some(x) => scalar_string(x),
        None => None,
    }
}

pub fn fstr2(v: &Json, a: &str, b: &str) -> (r: Option<String>)
    ensures
        opt_text(r) == spec_field_str(*v, seq![a@, b@]),
{
    match field2(v, a, b) {
        Some(x) => scalar_string(x),
        None => None,
    }
}

pub fn fstr3(v: &Json, a: &str, b: &str, c: &str) -> (r: Option<String>)
    ensures
        opt_text(r) == spec_field_str(*v, seq![a@, b@, c@]),
{
    match field3(v, a, b, c) {
        Some(x) => scalar_string(x),
        None => None,
    }
}

pub fn fstr4(v: &Json, a: &str, b: &str, c: &str, d: &str) -> (r: Option<String>)
    ensures
        opt_text(r) == spec_field_str(*v, seq![a@, b@, c@, d@]),
{
    match field4(v, a, b, c, d) {
        Some(x) => scalar_string(x),
        None => None,
    }
}

/// `field_str(..).unwrap_or_else(|| d.into())`.
pub fn text_or(o: Option<String>, d: &str) -> (r: String)
    ensures
        r@ == or_text(opt_text(o), d@),
{
    match o {
        Some(s) => s,
        None => owned(d),
    }
}

/// The elements of the array member found under `keys`, or of `v` when it is
/// an array itself; none otherwise.
pub fn array_field<'a>(v: &'a Json, keys: &[&str]) -> (r: &'a [Json])
    ensures
        r@ == spec_array_field(*v, key_views(keys@)),
{
    if let Some(x) = field(v, keys) {
        if let Some(a) = x.as_array() {
            return a.as_slice();
        }
    }
    if let Some(a) = v.as_array() {
        return a.as_slice();
    }
    &[]
}

// ---------------------------------------------------------------- pretty text

/// The text that `serde_json::to_string_pretty` writes for a value.
pub uninterp spec fn json_pretty_text(v: JsonV) -> Seq<char>;

/// `pretty(v)`.
pub open spec fn spec_pretty(v: Json) -> Seq<char> {
    json_pretty_text(v@)
}

/// `serde_json::to_string_pretty` of the value, or its compact text should that
/// fail (it does not for a value). The contract names the text and ties it to
/// the value alone; the layout is serde_json's.
#[verifier::external_body]
pub fn pretty(v: &Json) -> (r: String)
    ensures
        r@ == json_pretty_text(v@),
{
    let x = crate::json::to_value(v);
    serde_json::to_string_pretty(&x).unwrap_or_else(|_| x.to_string())
}

// ---------------------------------------------------------------- money

/// `$D.CC` for a non-negative number of cents.
pub open spec fn dollars(c: nat) -> Seq<char> {
    seq!['$'] + dec(c / 100) + seq!['.'] + zero_pad((c % 100) as int, 2)
}

/// Signed cents as dollars: a leading `-` for negative amounts.
pub open spec fn signed_dollars(c: int) -> Seq<char> {
    if c < 0 { seq!['-'] + dollars((-c) as nat) } else { dollars(c as nat) }
}

/// Formats cents as `$D.CC`.
pub fn cents_to_dollars(cents: u64) -> (s: String)
    ensures
        s@ == dollars(cents as nat),
{
    let mut s = String::new();
    push_char(&mut s, '$');
    push_dec(&mut s, cents / 100);
    push_char(&mut s, '.');
    let rem = zero_padded((cents % 100) as i64, 2);
    s.append(rem.as_str());
    s
}

/// Formats signed cents; negative amounts get a leading `-`.
pub fn cents_signed_to_dollars(cents: i64) -> (s: String)
    ensures
        s@ == signed_dollars(cents as int),
{
    if cents < 0 {
        let mut s = String::new();
        push_char(&mut s, '-');
        let d = cents_to_dollars(magnitude(cents));
        s.append(d.as_str());
        s
    } else {
        cents_to_dollars(cents as u64)
    }
}


proof fn lemma_two_digits(r: nat)
    requires
        r < 100,
    ensures
        zero_pad(r as int, 2).len() == 2,
        digits_value(zero_pad(r as int, 2)) == r,
{
    lemma_dec_digits(r);
    if r >= 10 {
        assert(dec(r).drop_last() == dec(r / 10));
        assert(dec(r / 10).len() == 1);
    }
    lemma_leading_zeros(2 - dec(r).len(), dec(r));
    lemma_repeat_len('0', 2 - dec(r).len());
}

/// Different amounts of cents read differently in dollars.
pub proof fn lemma_dollars_distinct(a: int, b: int)
    requires
        signed_dollars(a) == signed_dollars(b),
    ensures
        a == b,
{
    let (x, y) = (if a < 0 { -a } else { a }, if b < 0 { -b } else { b });
    let (da, db) = (dollars(x as nat), dollars(y as nat));
    assert(da[0] == '$' && db[0] == '$');
    if a < 0 {
        assert(signed_dollars(a)[0] == '-');
    }
    if b < 0 {
        assert(signed_dollars(b)[0] == '-');
    }
    assert((a < 0) == (b < 0));
    if a < 0 {
        assert(signed_dollars(a).drop_first() =~= da);
        assert(signed_dollars(b).drop_first() =~= db);
    }
    assert(da == db);
    let (qa, qb) = ((x / 100) as nat, (y / 100) as nat);
    let (ra, rb) = ((x % 100) as nat, (y % 100) as nat);
    lemma_two_digits(ra);
    lemma_two_digits(rb);
    let (la, lb) = (dec(qa).len() as int, dec(qb).len() as int);
    assert(da.len() == la + 4 && db.len() == lb + 4);
    assert(da.subrange(1, la + 1) =~= dec(qa));
    assert(db.subrange(1, lb + 1) =~= dec(qb));
    lemma_dec_injective(qa, qb);
    assert(da.subrange(la + 2, la + 4) =~= zero_pad(ra as int, 2));
    assert(db.subrange(lb + 2, lb + 4) =~= zero_pad(rb as int, 2));
    assert(ra == rb);
}

// ---------------------------------------------------------------- timestamps

/// `i` is the first position of `c` in `s`.
pub open spec fn is_first(s: Seq<char>, c: char, i: int) -> bool {
    0 <= i < s.len() && s[i] == c && forall|j: int| 0 <= j < i ==> s[j] != c
}

/// `s` with its first `c` replaced by `d`.
pub open spec fn replace_first(s: Seq<char>, c: char, d: char) -> Seq<char> {
    if exists|i: int| is_first(s, c, i) {
        s.update(choose|i: int| is_first(s, c, i), d)
    } else {
        s
    }
}

/// Scans `s` from position `k`, whose byte offset is `off`, for the first `+`
/// or `-` at byte offset 19 or later, and cuts `s` there.
pub open spec fn cut_offset(s: Seq<char>, k: nat, off: nat) -> Seq<char>
    decreases s.len() - k,
{
    if k >= s.len() {
        s
    } else if off >= 19 && (s[k as int] == '+' || s[k as int] == '-') {
        s.take(k as int)
    } else {
        cut_offset(s, k + 1, off + utf8_width(s[k as int]))
    }
}

/// The usage API's timestamp form: `T` becomes a space, a trailing `Z` and any
/// UTC offset are dropped, and a bare date gets `00:00:00`.
pub open spec fn normalized_timestamp(s: Seq<char>) -> Seq<char> {
    let a = replace_first(trim(s), 'T', ' ');
    let b = if a.len() > 0 && a.last() == 'Z' { a.drop_last() } else { a };
    let c = trim(cut_offset(b, 0, 0));
    if byte_len(c) == 10 && c.len() > 7 && c[4] == '-' && c[7] == '-' {
        c + " 00:00:00"@
    } else {
        c
    }
}

pub fn normalize_usage_timestamp(s: &str) -> (r: String)
    ensures
        r@ == normalized_timestamp(s@),
{
    let t = trimmed(s);
    let mut v = chars_of(t.as_str());
    let ghost t0 = v@;
    let mut i: usize = 0;
    while i < v.len() && v[i] != 'T'
        invariant
            i <= v@.len(),
            v@ == t0,
            forall|j: int| 0 <= j < i ==> v@[j] != 'T',
        decreases v@.len() - i,
    {
        i = i + 1;
    }
    if i < v.len() {
        assert(is_first(t0, 'T', i as int));
        assert forall|j: int| is_first(t0, 'T', j) implies j == i by {
            if j < i {
            } else if j > i {
                assert(t0[i as int] == 'T');
            }
        }
        v.set(i, ' ');
    } else {
        assert(!exists|j: int| is_first(t0, 'T', j));
    }
    assert(v@ == replace_first(t0, 'T', ' '));
    let n = v.len();
    if n > 0 && v[n - 1] == 'Z' {
        v.pop();
    }
    let ghost b = v@;
    let mut off: u128 = 0;
    let mut k: usize = 0;
    let mut cut: usize = v.len();
    while k < v.len()
        invariant_except_break
            cut == v@.len(),
        invariant
            k <= v@.len(),
            v@ == b,
            off <= 4 * k,
            cut_offset(b, 0, 0) == cut_offset(b, k as nat, off as nat),
        ensures
            cut <= v@.len(),
            v@.take(cut as int) == cut_offset(b, 0, 0),
        decreases v@.len() - k,
    {
        if off >= 19 && (v[k] == '+' || v[k] == '-') {
            cut = k;
            break;
        }
        off = off + char_width(v[k]) as u128;
        k = k + 1;
    }
    let cutted = string_of_range(&v, 0, cut);
    let c = trimmed(cutted.as_str());
    let cv = chars_of(c.as_str());
    let bl = prefix_byte_len(&cv, cv.len());
    assert(cv@.take(cv@.len() as int) =~= cv@);
    let mut r = c;
    if bl == 10 && cv.len() > 7 && cv[4] == '-' && cv[7] == '-' {
        r.append(" 00:00:00");
    }
    r
}

/// The `timeUnit` the usage API expects for a user's `time_unit`, or the message
/// that refuses it.
pub open spec fn time_unit_of(u: Option<Seq<char>>) -> Result<Seq<char>, Seq<char>> {
    match u {
        None => Ok("TIME_UNIT_DAY"@),
        Some(s) => {
            let x = upper(trim(s));
            if x.len() == 0 || x == "DAY"@ || x == "TIME_UNIT_DAY"@ {
                Ok("TIME_UNIT_DAY"@)
            } else if x == "HOUR"@ || x == "TIME_UNIT_HOUR"@ {
                Ok("TIME_UNIT_HOUR"@)
            } else if x == "MONTH"@ || x == "TIME_UNIT_MONTH"@ {
                Ok("TIME_UNIT_MONTH"@)
            } else if x == "WEEK"@ || x == "TIME_UNIT_CALENDAR_WEEK"@ {
                Ok("TIME_UNIT_CALENDAR_WEEK"@)
            } else if x == "NONE"@ || x == "TIME_UNIT_NONE"@ {
                Ok("TIME_UNIT_NONE"@)
            } else {
                Err("time_unit must be one of DAY, HOUR, MONTH, WEEK, NONE (got "@ + x + ")"@)
            }
        },
    }
}

pub open spec fn opt_str(u: Option<&str>) -> Option<Seq<char>> {
    match u {
        Some(s) => Some(s@),
        None => None,
    }
}

pub fn map_time_unit(u: Option<&str>) -> (r: Result<&'static str, String>)
    ensures
        match r {
            Ok(t) => time_unit_of(opt_str(u)) == Ok::<Seq<char>, Seq<char>>(t@),
            Err(m) => time_unit_of(opt_str(u)) == Err::<Seq<char>, Seq<char>>(m@),
        },
{
    match u {
        None => Ok("TIME_UNIT_DAY"),
        Some(s) => {
            let t = trimmed(s);
            let x = ascii_upper(t.as_str());
            let xs = x.as_str();
            if xs.unicode_len() == 0 || str_equal(xs, "DAY") || str_equal(xs, "TIME_UNIT_DAY") {
                Ok("TIME_UNIT_DAY")
            } else if str_equal(xs, "HOUR") || str_equal(xs, "TIME_UNIT_HOUR") {
                Ok("TIME_UNIT_HOUR")
            } else if str_equal(xs, "MONTH") || str_equal(xs, "TIME_UNIT_MONTH") {
                Ok("TIME_UNIT_MONTH")
            } else if str_equal(xs, "WEEK") || str_equal(xs, "TIME_UNIT_CALENDAR_WEEK") {
                Ok("TIME_UNIT_CALENDAR_WEEK")
            } else if str_equal(xs, "NONE") || str_equal(xs, "TIME_UNIT_NONE") {
                Ok("TIME_UNIT_NONE")
            } else {
                let mut m = owned("time_unit must be one of DAY, HOUR, MONTH, WEEK, NONE (got ");
                m.append(xs);
                m.append(")");
                Err(m)
            }
        },
    }
}


/// An ASCII decimal digit.
pub open spec fn is_ascii_digit(c: char) -> bool {
    c == '0' || c == '1' || c == '2' || c == '3' || c == '4' || c == '5' || c == '6' || c == '7'
        || c == '8' || c == '9'
}

/// `YYYY-MM-DD`.
pub open spec fn is_date(d: Seq<char>) -> bool {
    &&& d.len() == 10
    &&& d[4] == '-' && d[7] == '-'
    &&& forall|i: int| 0 <= i < 10 && i != 4 && i != 7 ==> is_ascii_digit(#[trigger] d[i])
}

/// `HH:MM:SS`.
pub open spec fn is_clock(t: Seq<char>) -> bool {
    &&& t.len() == 8
    &&& t[2] == ':' && t[5] == ':'
    &&& forall|i: int| 0 <= i < 8 && i != 2 && i != 5 ==> is_ascii_digit(#[trigger] t[i])
}

/// Nothing, `Z`, or a UTC offset `+hh:mm` / `-hh:mm`.
pub open spec fn is_zone(z: Seq<char>) -> bool {
    ||| z.len() == 0
    ||| z == seq!['Z']
    ||| {
        &&& z.len() == 6
        &&& z[0] == '+' || z[0] == '-'
        &&& z[3] == ':'
        &&& forall|i: int| 0 <= i < 6 && i != 0 && i != 3 ==> is_ascii_digit(#[trigger] z[i])
    }
}

/// A character of a date, a clock or the space between them.
pub open spec fn stamp_char(c: char) -> bool {
    is_ascii_digit(c) || c == '-' || c == ':' || c == ' '
}

proof fn lemma_stamp_char(c: char)
    requires
        stamp_char(c),
    ensures
        utf8_width(c) == 1,
        !is_ws(c) || c == ' ',
        c != 'T' && c != 'Z' && c != '+',
{
}

proof fn lemma_digit_char_kind(c: char)
    requires
        is_ascii_digit(c),
    ensures
        !is_ws(c),
        utf8_width(c) == 1,
        c != 'T' && c != 'Z' && c != '-' && c != '+',
{
}

proof fn lemma_ascii_byte_len(s: Seq<char>)
    requires
        forall|i: int| 0 <= i < s.len() ==> utf8_width(#[trigger] s[i]) == 1,
    ensures
        byte_len(s) == s.len(),
    decreases s.len(),
{
    if s.len() > 0 {
        lemma_ascii_byte_len(s.drop_last());
        assert(utf8_width(s[s.len() - 1]) == 1);
    }
}

proof fn lemma_cut_ascii(b: Seq<char>, k: int, m: int)
    requires
        0 <= k <= m <= b.len(),
        m <= 19,
        forall|i: int| 0 <= i < m ==> utf8_width(#[trigger] b[i]) == 1,
    ensures
        cut_offset(b, k as nat, k as nat) == cut_offset(b, m as nat, m as nat),
    decreases m - k,
{
    if k < m {
        assert(utf8_width(b[k]) == 1);
        lemma_cut_ascii(b, k + 1, m);
    }
}

/// `trim` leaves text alone whose ends are not whitespace.
proof fn lemma_trim_clean(s: Seq<char>)
    requires
        s.len() > 0,
        !is_ws(s[0]),
        !is_ws(s[s.len() - 1]),
    ensures
        trim(s) == s,
{
    assert(trim_start(s) == s);
}

/// `d + ' ' + t` where `d` is a date and `t` a clock.
proof fn lemma_stamp(d: Seq<char>, t: Seq<char>)
    requires
        is_date(d),
        is_clock(t),
    ensures
        (d + seq![' '] + t).len() == 19,
        forall|i: int| 0 <= i < 19 ==> stamp_char(#[trigger] (d + seq![' '] + t)[i]),
        !is_ws((d + seq![' '] + t)[0]),
        !is_ws((d + seq![' '] + t)[18]),
        trim(d + seq![' '] + t) == d + seq![' '] + t,
        byte_len(d + seq![' '] + t) == 19,
{
    let w = d + seq![' '] + t;
    assert forall|i: int| 0 <= i < 19 implies stamp_char(#[trigger] w[i]) by {
        if i < 10 {
            assert(w[i] == d[i]);
        } else if i > 10 {
            assert(w[i] == t[i - 11]);
        }
    }
    assert(w[0] == d[0]);
    lemma_digit_char_kind(d[0]);
    assert(w[18] == t[7]);
    lemma_digit_char_kind(t[7]);
    lemma_trim_clean(w);
    assert forall|i: int| 0 <= i < w.len() implies utf8_width(#[trigger] w[i]) == 1 by {
        lemma_stamp_char(w[i]);
    }
    lemma_ascii_byte_len(w);
}

proof fn lemma_stamp_normalized(s: Seq<char>, d: Seq<char>, sep: char, t: Seq<char>, z: Seq<char>)
    requires
        is_date(d),
        sep == 'T' || sep == ' ',
        is_clock(t),
        is_zone(z),
        trim(s) == d + seq![sep] + t + z,
    ensures
        normalized_timestamp(s) == d + seq![' '] + t,
{
    let x = d + seq![sep] + t + z;
    let w = d + seq![' '] + t;
    lemma_stamp(d, t);
    assert forall|i: int| 0 <= i < 19 && i != 10 implies (#[trigger] x[i]) == w[i] && x[i] != 'T' by {
        lemma_stamp_char(w[i]);
    }
    assert forall|i: int| 19 <= i < x.len() implies (#[trigger] x[i]) != 'T' by {
        assert(x[i] == z[i - 19]);
        if z.len() == 6 && i != 19 && i != 22 {
            lemma_digit_char_kind(z[i - 19]);
        }
    }
    let y = w + z;
    assert(replace_first(x, 'T', ' ') == y) by {
        if sep == 'T' {
            assert(is_first(x, 'T', 10));
            assert forall|j: int| is_first(x, 'T', j) implies j == 10 by {
                if j > 10 {
                    assert(x[10] == 'T');
                }
            }
            assert(x.update(10, ' ') =~= y);
        } else {
            assert(!exists|j: int| is_first(x, 'T', j)) by {
                if exists|j: int| is_first(x, 'T', j) {
                    let j = choose|j: int| is_first(x, 'T', j);
                    if j == 10 {
                    }
                }
            }
            assert(x =~= y);
        }
    }
    let b = if y.len() > 0 && y.last() == 'Z' { y.drop_last() } else { y };
    if z == seq!['Z'] {
        assert(b =~= w);
    } else {
        if z.len() == 6 {
            assert(y.last() == z[5]);
            lemma_digit_char_kind(z[5]);
        } else {
            assert(y.last() == t[7]);
            lemma_digit_char_kind(t[7]);
        }
        assert(b == y);
    }
    assert forall|i: int| 0 <= i < 19 implies utf8_width(#[trigger] b[i]) == 1 by {
        assert(b[i] == w[i]);
        lemma_stamp_char(w[i]);
    }
    lemma_cut_ascii(b, 0, 19);
    if b.len() == 19 {
        assert(b =~= w);
    } else {
        assert(b[19] == z[0]);
        assert(b.take(19) =~= w);
    }
    assert(cut_offset(b, 0, 0) == w);
}

/// A well-formed timestamp (a date, `T` or a space, a clock, then nothing, `Z`
/// or a UTC offset) becomes the date, a space and the clock; normalizing that
/// again changes nothing.
pub proof fn lemma_timestamp_normalized(s: Seq<char>, d: Seq<char>, sep: char, t: Seq<char>, z: Seq<char>)
    requires
        is_date(d),
        sep == 'T' || sep == ' ',
        is_clock(t),
        is_zone(z),
        trim(s) == d + seq![sep] + t + z,
    ensures
        normalized_timestamp(s) == d + seq![' '] + t,
        normalized_timestamp(normalized_timestamp(s)) == normalized_timestamp(s),
{
    lemma_stamp_normalized(s, d, sep, t, z);
    let w = d + seq![' '] + t;
    lemma_stamp(d, t);
    assert(w + Seq::<char>::empty() =~= w);
    lemma_stamp_normalized(w, d, ' ', t, Seq::<char>::empty());
}

/// A bare date gets the time `00:00:00`; normalizing that again changes nothing.
pub proof fn lemma_date_normalized(s: Seq<char>, d: Seq<char>)
    requires
        is_date(d),
        trim(s) == d,
    ensures
        normalized_timestamp(s) == d + " 00:00:00"@,
        normalized_timestamp(normalized_timestamp(s)) == normalized_timestamp(s),
{
    reveal_strlit(" 00:00:00");
    assert forall|i: int| 0 <= i < 10 implies stamp_char(#[trigger] d[i]) && d[i] != 'T' by {
        if i != 4 && i != 7 {
            lemma_digit_char_kind(d[i]);
        }
    }
    assert(!exists|j: int| is_first(d, 'T', j));
    assert(replace_first(d, 'T', ' ') == d);
    lemma_digit_char_kind(d[9]);
    assert forall|i: int| 0 <= i < 10 implies utf8_width(#[trigger] d[i]) == 1 by {
        lemma_stamp_char(d[i]);
    }
    lemma_cut_ascii(d, 0, 10);
    lemma_digit_char_kind(d[0]);
    lemma_trim_clean(d);
    lemma_ascii_byte_len(d);
    let t = seq!['0', '0', ':', '0', '0', ':', '0', '0'];
    assert(is_clock(t));
    assert(" 00:00:00"@ =~= seq![' '] + t);
    assert(d + " 00:00:00"@ =~= d + seq![' '] + t);
    lemma_stamp(d, t);
    assert(d + seq![' '] + t + Seq::<char>::empty() =~= d + seq![' '] + t);
    lemma_stamp_normalized(d + seq![' '] + t, d, ' ', t, Seq::<char>::empty());
}

// ---------------------------------------------------------------- optional members

/// `o.and_then(|x| field(x, keys))`.
pub open spec fn field_in(o: Option<Json>, keys: Seq<Seq<char>>) -> Option<Json> {
    match o {
        Some(x) => spec_field(x, keys),
        None => None,
    }
}

/// `o.and_then(|x| x.as_i64()).unwrap_or(0)`.
pub open spec fn i64_or0(o: Option<Json>) -> i64 {
    match o {
        Some(x) => match crate::json::spec_as_i64(x) {
            Some(i) => i,
            None => 0,
        },
        None => 0,
    }
}

/// `o.unwrap_or(v)`.
pub open spec fn or_json(o: Option<Json>, v: Json) -> Json {
    match o {
        Some(x) => x,
        None => v,
    }
}

/// `o.and_then(Value::as_array).cloned().unwrap_or_default()`.
pub open spec fn elems(o: Option<Json>) -> Seq<Json> {
    match o {
        Some(Json::Array(a)) => a@,
        _ => seq![],
    }
}

/// `x.get(a).or_else(|| x.get(b))`.
pub open spec fn get_either(x: Json, a: Seq<char>, b: Seq<char>) -> Option<Json> {
    match spec_get(x, a) {
        Some(y) => Some(y),
        None => spec_get(x, b),
    }
}

pub fn i64_or_zero(o: Option<&Json>) -> (r: i64)
    ensures
        r == i64_or0(opt(o)),
{
    match o {
        Some(x) => match x.as_i64() {
            Some(i) => i,
            None => 0,
        },
        None => 0,
    }
}

pub fn elems_of<'a>(o: Option<&'a Json>) -> (r: &'a [Json])
    ensures
        r@ == elems(opt(o)),
{
    match o {
        Some(x) => match x.as_array() {
            Some(a) => a.as_slice(),
            None => &[],
        },
        None => &[],
    }
}

pub fn get_either_of<'a>(x: &'a Json, a: &str, b: &str) -> (r: Option<&'a Json>)
    ensures
        opt(r) == get_either(*x, a@, b@),
{
    match x.get(a) {
        Some(y) => Some(y),
        None => x.get(b),
    }
}


/// `o.and_then(|x| field_str(x, keys))`.
pub open spec fn field_str_in(o: Option<Json>, keys: Seq<Seq<char>>) -> Option<Seq<char>> {
    match o {
        Some(x) => spec_field_str(x, keys),
        None => None,
    }
}

/// `or_text(o, "")`.
pub open spec fn or_empty(o: Option<Seq<char>>) -> Seq<char> {
    or_text(o, seq![])
}

/// `o.unwrap_or_default()` for optional text.
pub fn text_or_empty(o: Option<String>) -> (r: String)
    ensures
        r@ == or_empty(opt_text(o)),
{
    match o {
        Some(s) => s,
        None => String::new(),
    }
}

/// The non-empty texts among `parts`, in order.
pub open spec fn nonempty_parts(parts: Seq<Seq<char>>) -> Seq<Seq<char>>
    decreases parts.len(),
{
    if parts.len() == 0 {
        seq![]
    } else if parts.last().len() > 0 {
        nonempty_parts(parts.drop_last()).push(parts.last())
    } else {
        nonempty_parts(parts.drop_last())
    }
}

/// Keeps the non-empty strings of `parts`, in order.
pub fn keep_nonempty(parts: Vec<String>) -> (r: Vec<String>)
    ensures
        crate::text::texts(r@) == nonempty_parts(crate::text::texts(parts@)),
{
    let mut out: Vec<String> = Vec::new();
    let mut i: usize = 0;
    while i < parts.len()
        invariant
            i <= parts@.len(),
            crate::text::texts(out@) == nonempty_parts(crate::text::texts(parts@).take(i as int)),
        decreases parts@.len() - i,
    {
        assert(crate::text::texts(parts@).take(i + 1).drop_last() =~= crate::text::texts(parts@).take(i as int));
        assert(crate::text::texts(parts@).take(i + 1).last() == parts@[i as int]@);
        if parts[i].as_str().unicode_len() > 0 {
            let ghost before = crate::text::texts(out@);
            out.push(parts[i].clone());
            assert(crate::text::texts(out@) =~= before.push(parts@[i as int]@));
        }
        i = i + 1;
    }
    assert(crate::text::texts(parts@).take(parts@.len() as int) =~= crate::text::texts(parts@));
    out
}

} // verus!
