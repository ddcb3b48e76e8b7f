//! Character-level string helpers with exact specifications.
use vstd::prelude::*;

verus! {

/// Appends one character to a `String` (`String::push`).
#[verifier::external_body]
pub(crate) fn push_char(s: &mut String, c: char)
    ensures
        final(s)@ == old(s)@.push(c),
{
    s.push(c);
}

/// Compares two string slices (`<str as PartialEq>::eq`).
#[verifier::external_body]
pub(crate) fn str_equal(a: &str, b: &str) -> (r: bool)
    ensures
        r == (a@ == b@),
{
    a == b
}

/// The characters of `s`, in order.
pub fn chars_of(s: &str) -> (v: Vec<char>)
    ensures
        v@ == s@,
{
    let mut v: Vec<char> = Vec::new();
    for c in it: s.chars()
        invariant
            v@ == it.seq().take(it.index()),
    {
        v.push(c);
    }
    v
}

/// A `String` holding the characters `v[from..to]`.
pub fn string_of_range(v: &Vec<char>, from: usize, to: usize) -> (s: String)
    requires
        from <= to <= v@.len(),
    ensures
        s@ == v@.subrange(from as int, to as int),
{
    let mut s = String::new();
    let mut i = from;
    while i < to
        invariant
            from <= i <= to <= v@.len(),
            s@ == v@.subrange(from as int, i as int),
        decreases to - i,
    {
        push_char(&mut s, v[i]);
        assert(v@.subrange(from as int, i + 1) =~= v@.subrange(from as int, i as int).push(v@[i as int]));
        i = i + 1;
    }
    s
}

/// A fresh `String` equal to `t`.
pub fn owned(t: &str) -> (r: String)
    ensures
        r@ == t@,
{
    String::from_str(t)
}

// ---------------------------------------------------------------- decimal text

/// The decimal digit for `d` (0 to 9).
pub open spec fn digit_char(d: int) -> char {
    if d == 0 { '0' } else if d == 1 { '1' } else if d == 2 { '2' } else if d == 3 { '3' }
    else if d == 4 { '4' } else if d == 5 { '5' } else if d == 6 { '6' } else if d == 7 { '7' }
    else if d == 8 { '8' } else { '9' }
}

/// The decimal representation of `n`, without leading zeros.
pub open spec fn dec(n: nat) -> Seq<char>
    decreases n,
{
    if n < 10 {
        seq![digit_char(n as int)]
    } else {
        dec(n / 10).push(digit_char((n % 10) as int))
    }
}

/// How Rust displays an integer: a minus sign for negatives, then the digits.
pub open spec fn int_text(i: int) -> Seq<char> {
    if i < 0 { seq!['-'] + dec((-i) as nat) } else { dec(i as nat) }
}

/// `k` copies of `c` (none when `k <= 0`).
pub open spec fn repeat_char(c: char, k: int) -> Seq<char>
    decreases k,
{
    if k <= 0 { seq![] } else { repeat_char(c, k - 1).push(c) }
}

/// `{:0w}` of an integer: zeros after the sign until the text is `w` wide.
pub open spec fn zero_pad(i: int, w: int) -> Seq<char> {
    if i < 0 {
        seq!['-'] + repeat_char('0', w - 1 - dec((-i) as nat).len()) + dec((-i) as nat)
    } else {
        repeat_char('0', w - dec(i as nat).len()) + dec(i as nat)
    }
}

/// `{:<w}`: `s` followed by spaces up to `w` characters.
pub open spec fn pad_right(s: Seq<char>, w: int) -> Seq<char> {
    s + repeat_char(' ', w - s.len())
}

/// `{:>w}`: spaces up to `w` characters, then `s`.
pub open spec fn pad_left(s: Seq<char>, w: int) -> Seq<char> {
    repeat_char(' ', w - s.len()) + s
}

pub fn digit_of(d: u64) -> (c: char)
    requires
        d < 10,
    ensures
        c == digit_char(d as int),
{
    if d == 0 { '0' } else if d == 1 { '1' } else if d == 2 { '2' } else if d == 3 { '3' }
    else if d == 4 { '4' } else if d == 5 { '5' } else if d == 6 { '6' } else if d == 7 { '7' }
    else if d == 8 { '8' } else { '9' }
}

/// Appends the decimal digits of `n`.
pub fn push_dec(out: &mut String, n: u64)
    ensures
        final(out)@ == old(out)@ + dec(n as nat),
    decreases n,
{
    if n >= 10 {
        push_dec(out, n / 10);
    }
    push_char(out, digit_of(n % 10));
    assert(final(out)@ =~= old(out)@ + dec(n as nat));
}

/// `n.to_string()` for a `u64`.
pub fn u64_text(n: u64) -> (s: String)
    ensures
        s@ == dec(n as nat),
{
    let mut s = String::new();
    push_dec(&mut s, n);
    assert(s@ =~= dec(n as nat));
    s
}

/// The magnitude of `i` as a `u64` (exact, `i64::MIN` included).
pub fn magnitude(i: i64) -> (m: u64)
    ensures
        m as int == if i < 0 { -i } else { i as int },
{
    if i >= 0 {
        i as u64
    } else if i == i64::MIN {
        9223372036854775808u64
    } else {
        (-i) as u64
    }
}

/// `i.to_string()` for an `i64`.
pub fn i64_text(i: i64) -> (s: String)
    ensures
        s@ == int_text(i as int),
{
    let mut s = String::new();
    if i < 0 {
        push_char(&mut s, '-');
    }
    push_dec(&mut s, magnitude(i));
    assert(s@ =~= int_text(i as int));
    s
}

/// Appends `k` copies of `c`.
pub fn push_repeat(out: &mut String, c: char, k: usize)
    ensures
        final(out)@ == old(out)@ + repeat_char(c, k as int),
{
    let mut i: usize = 0;
    while i < k
        invariant
            i <= k,
            out@ == old(out)@ + repeat_char(c, i as int),
        decreases k - i,
    {
        push_char(out, c);
        i = i + 1;
        assert(out@ =~= old(out)@ + repeat_char(c, i as int));
    }
}

pub proof fn lemma_repeat_len(c: char, k: int)
    ensures
        repeat_char(c, k).len() == if k <= 0 { 0 } else { k },
    decreases k,
{
    if k > 0 {
        lemma_repeat_len(c, k - 1);
    }
}

/// `format!("{:0w$}", i)`.
pub fn zero_padded(i: i64, w: usize) -> (s: String)
    ensures
        s@ == zero_pad(i as int, w as int),
{
    let m = magnitude(i);
    let digits = u64_text(m);
    let n = digits.as_str().unicode_len();
    let mut s = String::new();
    if i < 0 {
        push_char(&mut s, '-');
        if w >= 1 && w - 1 > n {
            push_repeat(&mut s, '0', w - 1 - n);
        } else {
            proof { lemma_repeat_len('0', w - 1 - n); }
            assert(repeat_char('0', w - 1 - n) =~= Seq::<char>::empty());
            assert(s@ =~= s@ + repeat_char('0', w - 1 - n));
        }
    } else {
        if w > n {
            push_repeat(&mut s, '0', w - n);
        } else {
            proof { lemma_repeat_len('0', w - n); }
            assert(repeat_char('0', w - n) =~= Seq::<char>::empty());
            assert(s@ =~= s@ + repeat_char('0', w - n));
        }
    }
    s.append(digits.as_str());
    assert(s@ =~= zero_pad(i as int, w as int));
    s
}

/// `format!("{:<w$}", s)`.
pub fn padded_right(s: &str, w: usize) -> (r: String)
    ensures
        r@ == pad_right(s@, w as int),
{
    let n = s.unicode_len();
    let mut r = owned(s);
    if w > n {
        push_repeat(&mut r, ' ', w - n);
    } else {
        proof { lemma_repeat_len(' ', w - n); }
        assert(repeat_char(' ', w - n) =~= Seq::<char>::empty());
    }
    assert(r@ =~= pad_right(s@, w as int));
    r
}

/// `format!("{:>w$}", s)`.
pub fn padded_left(s: &str, w: usize) -> (r: String)
    ensures
        r@ == pad_left(s@, w as int),
{
    let n = s.unicode_len();
    let mut r = String::new();
    if w > n {
        push_repeat(&mut r, ' ', w - n);
    } else {
        proof { lemma_repeat_len(' ', w - n); }
        assert(repeat_char(' ', w - n) =~= Seq::<char>::empty());
    }
    r.append(s);
    assert(r@ =~= pad_left(s@, w as int));
    r
}


// ---------------------------------------------------------------- whitespace

/// `char::is_whitespace`: the Unicode White_Space property.
pub open spec fn is_ws(c: char) -> bool {
    let u = c as u32;
    (0x09 <= u <= 0x0D) || u == 0x20 || u == 0x85 || u == 0xA0 || u == 0x1680
        || (0x2000 <= u <= 0x200A) || u == 0x2028 || u == 0x2029 || u == 0x202F
        || u == 0x205F || u == 0x3000
}

pub fn is_whitespace(c: char) -> (b: bool)
    ensures
        b == is_ws(c),
{
    let u = c as u32;
    (0x09 <= u && u <= 0x0D) || u == 0x20 || u == 0x85 || u == 0xA0 || u == 0x1680
        || (0x2000 <= u && u <= 0x200A) || u == 0x2028 || u == 0x2029 || u == 0x202F
        || u == 0x205F || u == 0x3000
}

/// `str::trim_start`.
pub open spec fn trim_start(s: Seq<char>) -> Seq<char>
    decreases s.len(),
{
    if s.len() > 0 && is_ws(s[0]) { trim_start(s.drop_first()) } else { s }
}

/// `str::trim_end`.
pub open spec fn trim_end(s: Seq<char>) -> Seq<char>
    decreases s.len(),
{
    if s.len() > 0 && is_ws(s.last()) { trim_end(s.drop_last()) } else { s }
}

/// `str::trim`: whitespace removed at both ends.
pub open spec fn trim(s: Seq<char>) -> Seq<char> {
    trim_end(trim_start(s))
}

/// `s.trim().to_string()`.
pub fn trimmed(s: &str) -> (r: String)
    ensures
        r@ == trim(s@),
{
    let v = chars_of(s);
    let n = v.len();
    let mut lo: usize = 0;
    assert(v@.skip(0) =~= v@);
    while lo < n && is_whitespace(v[lo])
        invariant
            lo <= n == v@.len(),
            trim_start(v@) == trim_start(v@.skip(lo as int)),
        decreases n - lo,
    {
        assert(v@.skip(lo as int).drop_first() =~= v@.skip(lo + 1));
        lo = lo + 1;
    }
    assert(trim_start(v@) == v@.subrange(lo as int, n as int));
    let mut hi: usize = n;
    while hi > lo && is_whitespace(v[hi - 1])
        invariant
            lo <= hi <= n == v@.len(),
            trim(v@) == trim_end(v@.subrange(lo as int, hi as int)),
        decreases hi,
    {
        assert(v@.subrange(lo as int, hi as int).drop_last() =~= v@.subrange(lo as int, hi - 1));
        hi = hi - 1;
    }
    string_of_range(&v, lo, hi)
}

// ---------------------------------------------------------------- case, search

/// `char::to_ascii_uppercase`.
pub open spec fn upper_char(c: char) -> char {
    if 'a' <= c <= 'z' { ((c as u32) - 32) as char } else { c }
}

/// `str::to_ascii_uppercase`.
pub open spec fn upper(s: Seq<char>) -> Seq<char> {
    s.map_values(|c: char| upper_char(c))
}

pub fn ascii_upper(s: &str) -> (r: String)
    ensures
        r@ == upper(s@),
{
    let v = chars_of(s);
    let mut r = String::new();
    let mut i: usize = 0;
    while i < v.len()
        invariant
            i <= v@.len(),
            r@ == upper(v@.take(i as int)),
        decreases v@.len() - i,
    {
        let c = v[i];
        let u = if 'a' <= c && c <= 'z' { ((c as u32) - 32) as u8 as char } else { c };
        assert(u == upper_char(c)) by {
            if 'a' <= c <= 'z' {
                assert((((c as u32) - 32) as u8 as char) == (((c as u32) - 32) as char));
            }
        }
        push_char(&mut r, u);
        assert(upper(v@.take(i + 1)) =~= upper(v@.take(i as int)).push(upper_char(c)));
        i = i + 1;
    }
    assert(v@.take(v@.len() as int) =~= v@);
    r
}

/// `needle` occurs in `hay` at character position `i`.
pub open spec fn occurs_at(hay: Seq<char>, needle: Seq<char>, i: int) -> bool {
    0 <= i && i + needle.len() <= hay.len() && hay.subrange(i, i + needle.len()) == needle
}

/// `str::contains` for a string pattern.
pub open spec fn contains(hay: Seq<char>, needle: Seq<char>) -> bool {
    exists|i: int| occurs_at(hay, needle, i)
}

fn matches_at(h: &Vec<char>, n: &Vec<char>, i: usize) -> (b: bool)
    requires
        i + n@.len() <= h@.len(),
    ensures
        b == occurs_at(h@, n@, i as int),
{
    let mut j: usize = 0;
    let _hl = h.len();
    while j < n.len()
        invariant
            j <= n@.len(),
            i + n@.len() <= h@.len(),
            h@.len() <= usize::MAX,
            forall|k: int| 0 <= k < j ==> h@[i + k] == n@[k],
        decreases n@.len() - j,
    {
        if h[i + j] != n[j] {
            assert(h@.subrange(i as int, i + n@.len())[j as int] != n@[j as int]);
            return false;
        }
        j = j + 1;
    }
    assert(h@.subrange(i as int, i + n@.len()) =~= n@);
    true
}

pub fn str_contains(hay: &str, needle: &str) -> (b: bool)
    ensures
        b == contains(hay@, needle@),
{
    let h = chars_of(hay);
    let n = chars_of(needle);
    if n.len() > h.len() {
        assert forall|i: int| !occurs_at(hay@, needle@, i) by {}
        return false;
    }
    let mut i: usize = 0;
    let last = h.len() - n.len();
    loop
        invariant
            last == h@.len() - n@.len(),
            n@.len() <= h@.len(),
            h@ == hay@,
            n@ == needle@,
            i <= last,
            forall|k: int| 0 <= k < i ==> !occurs_at(h@, n@, k),
        ensures
            forall|k: int| 0 <= k <= last ==> !occurs_at(h@, n@, k),
        decreases last - i,
    {
        if matches_at(&h, &n, i) {
            return true;
        }
        if i == last {
            break;
        }
        i = i + 1;
    }
    assert forall|k: int| !occurs_at(h@, n@, k) by {
        if 0 <= k && k <= last {
        }
    }
    false
}

/// `str::trim_start_matches` for a string pattern.
pub open spec fn strip_all_prefix(s: Seq<char>, p: Seq<char>) -> Seq<char>
    decreases s.len(),
{
    if p.len() > 0 && p.len() <= s.len() && s.take(p.len() as int) == p {
        strip_all_prefix(s.skip(p.len() as int), p)
    } else {
        s
    }
}

pub fn trim_start_matches(s: &str, p: &str) -> (r: String)
    ensures
        r@ == strip_all_prefix(s@, p@),
{
    let v = chars_of(s);
    let pv = chars_of(p);
    let mut lo: usize = 0;
    assert(v@.skip(0) =~= v@);
    while pv.len() > 0 && pv.len() <= v.len() - lo && matches_at(&v, &pv, lo)
        invariant
            lo <= v@.len(),
            v@ == s@,
            pv@ == p@,
            strip_all_prefix(s@, p@) == strip_all_prefix(v@.skip(lo as int), p@),
        decreases v@.len() - lo,
    {
        assert(v@.skip(lo as int).take(pv@.len() as int) =~= v@.subrange(lo as int, lo + pv@.len()));
        assert(v@.skip(lo as int).skip(pv@.len() as int) =~= v@.skip(lo + pv@.len()));
        lo = lo + pv.len();
    }
    if pv.len() > 0 && pv.len() <= v.len() - lo {
        assert(v@.skip(lo as int).take(pv@.len() as int) =~= v@.subrange(lo as int, lo + pv@.len()));
    }
    let r = string_of_range(&v, lo, v.len());
    assert(v@.subrange(lo as int, v@.len() as int) =~= v@.skip(lo as int));
    r
}

// ---------------------------------------------------------------- joining

/// `parts.join(sep)`.
pub open spec fn join(parts: Seq<Seq<char>>, sep: Seq<char>) -> Seq<char>
    decreases parts.len(),
{
    if parts.len() == 0 {
        seq![]
    } else if parts.len() == 1 {
        parts[0]
    } else {
        join(parts.drop_last(), sep) + sep + parts.last()
    }
}

/// The texts of a vector of strings.
pub open spec fn texts(v: Seq<String>) -> Seq<Seq<char>> {
    v.map_values(|s: String| s@)
}

pub fn join_strings(parts: &Vec<String>, sep: &str) -> (r: String)
    ensures
        r@ == join(texts(parts@), sep@),
{
    let mut r = String::new();
    let mut i: usize = 0;
    while i < parts.len()
        invariant
            i <= parts@.len(),
            r@ == join(texts(parts@.take(i as int)), sep@),
        decreases parts@.len() - i,
    {
        assert(texts(parts@.take(i + 1)).drop_last() =~= texts(parts@.take(i as int)));
        if i > 0 {
            r.append(sep);
        }
        r.append(parts[i].as_str());
        i = i + 1;
    }
    assert(parts@.take(parts@.len() as int) =~= parts@);
    r
}


// ---------------------------------------------------------------- UTF-8 lengths

/// Bytes in the UTF-8 encoding of `c`.
pub open spec fn utf8_width(c: char) -> nat {
    let u = c as u32;
    if u < 0x80 { 1 } else if u < 0x800 { 2 } else if u < 0x10000 { 3 } else { 4 }
}

/// `str::len`: bytes in the UTF-8 encoding of `s`.
pub open spec fn byte_len(s: Seq<char>) -> nat
    decreases s.len(),
{
    if s.len() == 0 { 0 } else { byte_len(s.drop_last()) + utf8_width(s.last()) }
}

pub fn char_width(c: char) -> (w: usize)
    ensures
        w == utf8_width(c),
{
    let u = c as u32;
    if u < 0x80 { 1 } else if u < 0x800 { 2 } else if u < 0x10000 { 3 } else { 4 }
}

/// Byte length of the first `k` characters.
pub fn prefix_byte_len(v: &Vec<char>, k: usize) -> (n: u128)
    requires
        k <= v@.len(),
    ensures
        n == byte_len(v@.take(k as int)),
{
    let mut n: u128 = 0;
    let mut i: usize = 0;
    while i < k
        invariant
            i <= k <= v@.len(),
            n == byte_len(v@.take(i as int)),
            n <= 4 * i,
        decreases k - i,
    {
        assert(v@.take(i + 1).drop_last() =~= v@.take(i as int));
        n = n + char_width(v[i]) as u128;
        i = i + 1;
    }
    n
}


// ---------------------------------------------------------------- parsing integers

pub open spec fn is_digit(c: char) -> bool {
    '0' <= c <= '9'
}

pub open spec fn all_digits(s: Seq<char>) -> bool {
    forall|i: int| 0 <= i < s.len() ==> is_digit(#[trigger] s[i])
}

/// The number written by the decimal digits `s`.
pub open spec fn digits_value(s: Seq<char>) -> nat
    decreases s.len(),
{
    if s.len() == 0 {
        0
    } else {
        digits_value(s.drop_last()) * 10 + ((s.last() as u32) - ('0' as u32)) as nat
    }
}

/// `str::parse::<i64>`: an optional sign, then one or more ASCII digits, within range.
pub open spec fn parse_i64(s: Seq<char>) -> Option<i64> {
    let neg = s.len() > 0 && s[0] == '-';
    let body = if s.len() > 0 && (s[0] == '-' || s[0] == '+') { s.drop_first() } else { s };
    if body.len() == 0 || !all_digits(body) {
        None
    } else {
        let n: int = if neg { -(digits_value(body) as int) } else { digits_value(body) as int };
        if i64::MIN <= n <= i64::MAX { Some(n as i64) } else { None }
    }
}

proof fn lemma_digits_monotone(s: Seq<char>, i: int, j: int)
    requires
        0 <= i <= j <= s.len(),
        all_digits(s),
    ensures
        digits_value(s.take(i)) <= digits_value(s.take(j)),
    decreases j - i,
{
    if i < j {
        lemma_digits_monotone(s, i, j - 1);
        assert(s.take(j).drop_last() =~= s.take(j - 1));
        assert(is_digit(s[j - 1]));
    }
}

/// Parses a signed decimal integer as `str::parse::<i64>` does.
#[verifier::loop_isolation(false)]
pub fn parse_int(s: &str) -> (r: Option<i64>)
    ensures
        r == parse_i64(s@),
{
    let v = chars_of(s);
    let n = v.len();
    let neg = n > 0 && v[0] == '-';
    let start: usize = if n > 0 && (v[0] == '-' || v[0] == '+') { 1 } else { 0 };
    let ghost body = if n > 0 && (v@[0] == '-' || v@[0] == '+') { v@.drop_first() } else { v@ };
    assert(body =~= v@.skip(start as int));
    if start == n {
        return None;
    }
    let mut acc: u128 = 0;
    let mut i: usize = start;
    while i < n
        invariant
            start <= i <= n == v@.len(),
            body == v@.skip(start as int),
            all_digits(v@.subrange(start as int, i as int)),
            acc == digits_value(v@.subrange(start as int, i as int)),
            acc <= 9223372036854775808,
        decreases n - i,
    {
        let c = v[i];
        if !('0' <= c && c <= '9') {
            assert(body[i - start] == c);
            assert(!is_digit(body[i - start]));
            return None;
        }
        let d = (c as u32 - '0' as u32) as u128;
        assert(v@.subrange(start as int, i + 1).drop_last() =~= v@.subrange(start as int, i as int));
        acc = acc * 10 + d;
        i = i + 1;
        assert(all_digits(v@.subrange(start as int, i as int))) by {
            assert forall|k: int| 0 <= k < i - start implies is_digit(
                #[trigger] v@.subrange(start as int, i as int)[k],
            ) by {
                if k < i - 1 - start {
                    assert(v@.subrange(start as int, i as int)[k] == v@.subrange(start as int, i - 1)[k]);
                }
            }
        }
        if acc > 9223372036854775808 {
            proof {
                let rest = v@.skip(start as int);
                assert(v@.subrange(start as int, i as int) =~= rest.take(i - start));
                if all_digits(rest) {
                    lemma_digits_monotone(rest, i - start, rest.len() as int);
                    assert(rest.take(rest.len() as int) =~= rest);
                }
            }
            return None;
        }
    }
    assert(v@.subrange(start as int, n as int) =~= body);
    if neg {
        if acc == 9223372036854775808 {
            Some(i64::MIN)
        } else {
            Some(-(acc as i64))
        }
    } else if acc > 9223372036854775807 {
        None
    } else {
        Some(acc as i64)
    }
}


// ---------------------------------------------------------------- byte slicing

/// Byte offset `b` of `s` falls between two characters.
pub open spec fn is_boundary(s: Seq<char>, b: int) -> bool {
    exists|k: int| 0 <= k <= s.len() && byte_len(s.take(k)) == b
}

/// `&s[..b]`: the characters before byte offset `b` (meaningful at a boundary).
pub open spec fn byte_prefix(s: Seq<char>, b: int) -> Seq<char> {
    s.take(choose|k: int| 0 <= k <= s.len() && byte_len(s.take(k)) == b)
}

pub proof fn lemma_byte_len_strict(s: Seq<char>, i: int, j: int)
    requires
        0 <= i < j <= s.len(),
    ensures
        byte_len(s.take(i)) < byte_len(s.take(j)),
    decreases j - i,
{
    assert(s.take(j).drop_last() =~= s.take(j - 1));
    if i < j - 1 {
        lemma_byte_len_strict(s, i, j - 1);
    }
}

/// The character count of the first `b` bytes of `v`, when `b` is a boundary.
pub fn boundary_index(v: &Vec<char>, b: u128) -> (r: Option<usize>)
    ensures
        match r {
            Some(k) => k <= v@.len() && byte_len(v@.take(k as int)) == b
                && byte_prefix(v@, b as int) == v@.take(k as int),
            None => !is_boundary(v@, b as int),
        },
{
    let mut n: u128 = 0;
    let mut i: usize = 0;
    while i < v.len() && n < b
        invariant
            i <= v@.len(),
            n == byte_len(v@.take(i as int)),
            n <= 4 * i,
            forall|k: int| 0 <= k < i ==> byte_len(v@.take(k)) < b,
        decreases v@.len() - i,
    {
        assert(v@.take(i + 1).drop_last() =~= v@.take(i as int));
        n = n + char_width(v[i]) as u128;
        i = i + 1;
    }
    if n == b {
        assert forall|k: int| 0 <= k <= v@.len() && byte_len(v@.take(k)) == b implies k == i by {
            if k < i {
                lemma_byte_len_strict(v@, k, i as int);
            } else if k > i {
                lemma_byte_len_strict(v@, i as int, k);
            }
        }
        Some(i)
    } else {
        assert forall|k: int| 0 <= k <= v@.len() implies byte_len(v@.take(k)) != b by {
            if k > i {
                lemma_byte_len_strict(v@, i as int, k);
            }
        }
        None
    }
}


// ---------------------------------------------------------------- ordering

/// `a < b` for `String`s: lexicographic on characters, which orders UTF-8
/// text as its bytes do.
pub open spec fn str_lt(a: Seq<char>, b: Seq<char>) -> bool
    decreases a.len(),
{
    if a.len() == 0 {
        b.len() > 0
    } else if b.len() == 0 {
        false
    } else if a[0] != b[0] {
        (a[0] as u32) < (b[0] as u32)
    } else {
        str_lt(a.drop_first(), b.drop_first())
    }
}

pub fn str_less(a: &str, b: &str) -> (r: bool)
    ensures
        r == str_lt(a@, b@),
{
    let va = chars_of(a);
    let vb = chars_of(b);
    let mut i: usize = 0;
    assert(va@.skip(0) =~= va@);
    assert(vb@.skip(0) =~= vb@);
    while i < va.len() && i < vb.len() && va[i] == vb[i]
        invariant
            i <= va@.len(),
            i <= vb@.len(),
            str_lt(a@, b@) == str_lt(va@.skip(i as int), vb@.skip(i as int)),
            va@ == a@,
            vb@ == b@,
        decreases va@.len() - i,
    {
        assert(va@.skip(i as int).drop_first() =~= va@.skip(i + 1));
        assert(vb@.skip(i as int).drop_first() =~= vb@.skip(i + 1));
        i = i + 1;
    }
    if i == va.len() {
        i < vb.len()
    } else if i == vb.len() {
        false
    } else {
        assert(va@.skip(i as int)[0] == va@[i as int]);
        assert(vb@.skip(i as int)[0] == vb@[i as int]);
        (va[i] as u32) < (vb[i] as u32)
    }
}


/// No text is below itself, and of two texts at most one is below the other.
pub proof fn lemma_str_lt_asym(a: Seq<char>, b: Seq<char>)
    ensures
        !(str_lt(a, b) && str_lt(b, a)),
    decreases a.len(),
{
    if a.len() > 0 && b.len() > 0 && a[0] == b[0] {
        lemma_str_lt_asym(a.drop_first(), b.drop_first());
    }
}

pub proof fn lemma_str_lt_trans(a: Seq<char>, b: Seq<char>, c: Seq<char>)
    requires
        str_lt(a, b),
        str_lt(b, c),
    ensures
        str_lt(a, c),
    decreases a.len(),
{
    if a.len() > 0 && a[0] == b[0] && b[0] == c[0] {
        lemma_str_lt_trans(a.drop_first(), b.drop_first(), c.drop_first());
    }
}

/// Two different texts are ordered one way or the other.
pub proof fn lemma_str_lt_total(a: Seq<char>, b: Seq<char>)
    ensures
        a == b || str_lt(a, b) || str_lt(b, a),
    decreases a.len(),
{
    if a.len() == 0 {
        if b.len() == 0 {
            assert(a =~= b);
        }
    } else if b.len() > 0 && a[0] != b[0] {
        vstd::utf8::char_u32_cast(a[0], a[0] as u32);
        vstd::utf8::char_u32_cast(b[0], b[0] as u32);
    } else if b.len() > 0 && a[0] == b[0] {
        lemma_str_lt_total(a.drop_first(), b.drop_first());
        if a.drop_first() == b.drop_first() {
            assert(a.drop_first().len() == b.drop_first().len());
            assert(a.len() == b.len());
            assert forall|i: int| 0 <= i < a.len() implies a[i] == b[i] by {
                if i > 0 {
                    assert(a[i] == a.drop_first()[i - 1]);
                    assert(b[i] == b.drop_first()[i - 1]);
                }
            }
            assert(a =~= b);
        }
    }
}


proof fn lemma_digit_char(d: int)
    requires
        0 <= d < 10,
    ensures
        is_digit(digit_char(d)),
        (digit_char(d) as u32) - ('0' as u32) == d,
{
}

/// The decimal text of `n` is digits that spell `n`.
pub proof fn lemma_dec_digits(n: nat)
    ensures
        dec(n).len() > 0,
        all_digits(dec(n)),
        digits_value(dec(n)) == n,
    decreases n,
{
    lemma_digit_char((n % 10) as int);
    if n >= 10 {
        lemma_dec_digits(n / 10);
        let s = dec(n);
        assert(s.drop_last() == dec(n / 10));
        assert(s.last() == digit_char((n % 10) as int));
        assert forall|i: int| 0 <= i < s.len() implies is_digit(#[trigger] s[i]) by {
            if i < s.len() - 1 {
                assert(s[i] == dec(n / 10)[i]);
            }
        }
        assert((n / 10) * 10 + n % 10 == n) by (nonlinear_arith);
        assert(digits_value(s) == digits_value(dec(n / 10)) * 10 + ((s.last() as u32) - ('0' as u32)) as nat);
    } else {
        let s = dec(n);
        assert(s.drop_last() =~= Seq::<char>::empty());
        assert(digits_value(s.drop_last()) == 0);
        assert(n % 10 == n);
        assert(digits_value(s) == digits_value(s.drop_last()) * 10 + ((s.last() as u32) - ('0' as u32)) as nat);
    }
}

/// Text written by `int_text` parses back to the same integer.
pub proof fn lemma_int_text_parses(i: i64)
    ensures
        parse_i64(int_text(i as int)) == Some(i),
{
    if i < 0 {
        let m = (-(i as int)) as nat;
        lemma_dec_digits(m);
        let t = int_text(i as int);
        assert(t.drop_first() =~= dec(m));
    } else {
        lemma_dec_digits(i as nat);
        assert(is_digit(dec(i as nat)[0]));
    }
}

/// Different numbers have different decimal texts.
pub proof fn lemma_dec_injective(a: nat, b: nat)
    requires
        dec(a) == dec(b),
    ensures
        a == b,
{
    lemma_dec_digits(a);
    lemma_dec_digits(b);
}

proof fn lemma_zeros_value(k: int)
    ensures
        digits_value(repeat_char('0', k)) == 0,
    decreases k,
{
    if k > 0 {
        lemma_zeros_value(k - 1);
        assert(repeat_char('0', k).drop_last() == repeat_char('0', k - 1));
    }
}

/// Leading zeros do not change the number that digits spell.
pub proof fn lemma_leading_zeros(k: int, s: Seq<char>)
    ensures
        digits_value(repeat_char('0', k) + s) == digits_value(s),
    decreases s.len(),
{
    if s.len() == 0 {
        assert(repeat_char('0', k) + s =~= repeat_char('0', k));
        lemma_zeros_value(k);
    } else {
        lemma_leading_zeros(k, s.drop_last());
        assert((repeat_char('0', k) + s).drop_last() =~= repeat_char('0', k) + s.drop_last());
    }
}

} // verus!
