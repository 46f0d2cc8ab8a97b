//! Character-level text helpers: ASCII case folding, substring search,
//! decimal formatting, whitespace trimming and UTF-16.

use vstd::prelude::*;
use vstd::string::StrSliceExecFns;

verus! {

/// Calls `String::push`, believed without proof: the characters of `s`
/// become its old characters followed by `c`.
#[verifier::external_body]
pub(crate) fn push_char(s: &mut String, c: char)
    ensures
        final(s)@ == old(s)@.push(c),
{
    s.push(c);
}

/// The characters of `s`, in order.
pub fn to_chars(s: &str) -> (v: Vec<char>)
    ensures
        v@ == s@,
{
    let n = s.unicode_len();
    let mut v: Vec<char> = Vec::new();
    let mut i: usize = 0;
    while i < n
        invariant
            n == s@.len(),
            i <= n,
            v@ == s@.subrange(0, i as int),
        decreases n - i,
    {
        let c = s.get_char(i);
        v.push(c);
        i += 1;
        assert(v@ =~= s@.subrange(0, i as int));
    }
    assert(s@.subrange(0, n as int) =~= s@);
    v
}

/// A string holding the characters of `v`.
pub fn from_chars(v: &Vec<char>) -> (s: String)
    ensures
        s@ == v@,
{
    let mut s = String::new();
    let mut i: usize = 0;
    while i < v.len()
        invariant
            i <= v.len(),
            s@ == v@.subrange(0, i as int),
        decreases v.len() - i,
    {
        push_char(&mut s, v[i]);
        i += 1;
        assert(s@ =~= v@.subrange(0, i as int));
    }
    assert(v@.subrange(0, v.len() as int) =~= v@);
    s
}

/// Whether two strings hold the same characters.
pub fn str_eq(a: &str, b: &str) -> (r: bool)
    ensures
        r == (a@ == b@),
{
    let va = to_chars(a);
    let vb = to_chars(b);
    if va.len() != vb.len() {
        return false;
    }
    let mut i: usize = 0;
    while i < va.len()
        invariant
            va@ == a@,
            vb@ == b@,
            va.len() == vb.len(),
            i <= va.len(),
            forall|k: int| 0 <= k < i ==> va@[k] == vb@[k],
        decreases va.len() - i,
    {
        if va[i] != vb[i] {
            return false;
        }
        i += 1;
    }
    assert(a@ =~= b@);
    true
}

/// ASCII upper-case letters map to lower case; every other character is kept.
pub open spec fn ascii_lower_char(c: char) -> char {
    if 'A' <= c && c <= 'Z' {
        ((c as u32) + 32) as char
    } else {
        c
    }
}

pub open spec fn ascii_lower(s: Seq<char>) -> Seq<char> {
    s.map_values(|c: char| ascii_lower_char(c))
}

fn lower_char(c: char) -> (r: char)
    ensures
        r == ascii_lower_char(c),
{
    if 'A' <= c && c <= 'Z' {
        ((c as u8) + 32) as char
    } else {
        c
    }
}

/// `s` with ASCII letters in lower case.
pub fn ascii_lowercase(s: &str) -> (r: String)
    ensures
        r@ == ascii_lower(s@),
{
    let v = to_chars(s);
    let mut r = String::new();
    let mut i: usize = 0;
    while i < v.len()
        invariant
            v@ == s@,
            i <= v.len(),
            r@ == ascii_lower(s@.subrange(0, i as int)),
        decreases v.len() - i,
    {
        push_char(&mut r, lower_char(v[i]));
        i += 1;
        assert(r@ =~= ascii_lower(s@.subrange(0, i as int)));
    }
    assert(s@.subrange(0, v.len() as int) =~= s@);
    r
}

/// Equal up to ASCII case (as `str::eq_ignore_ascii_case`).
pub open spec fn eq_ignore_case(a: Seq<char>, b: Seq<char>) -> bool {
    a.len() == b.len() && forall|i: int|
        0 <= i < a.len() ==> ascii_lower_char(#[trigger] a[i]) == ascii_lower_char(b[i])
}

pub fn eq_ignore_ascii_case(a: &str, b: &str) -> (r: bool)
    ensures
        r == eq_ignore_case(a@, b@),
{
    let va = to_chars(a);
    let vb = to_chars(b);
    if va.len() != vb.len() {
        return false;
    }
    let mut i: usize = 0;
    while i < va.len()
        invariant
            va@ == a@,
            vb@ == b@,
            va.len() == vb.len(),
            i <= va.len(),
            forall|k: int| 0 <= k < i ==> ascii_lower_char(#[trigger] va@[k]) == ascii_lower_char(vb@[k]),
        decreases va.len() - i,
    {
        if lower_char(va[i]) != lower_char(vb[i]) {
            return false;
        }
        i += 1;
    }
    true
}

/// `needle` occurs in `hay` as a contiguous run.
pub open spec fn is_substring(needle: Seq<char>, hay: Seq<char>) -> bool {
    exists|i: int|
        0 <= i && i + needle.len() <= hay.len() && #[trigger] hay.subrange(i, i + needle.len())
            == needle
}

/// Whether `n` occurs in `h` at position `i`.
fn matches_at(h: &Vec<char>, n: &Vec<char>, i: usize) -> (r: bool)
    requires
        i + n.len() <= h.len(),
    ensures
        r == (h@.subrange(i as int, i + n@.len()) == n@),
{
    let mut j: usize = 0;
    while j < n.len()
        invariant
            i + n.len() <= h.len(),
            j <= n.len(),
            forall|k: int| 0 <= k < j ==> h@[i + k] == n@[k],
        decreases n.len() - j,
    {
        if h[i + j] != n[j] {
            assert(h@.subrange(i as int, i + n@.len())[j as int] != n@[j as int]);
            return false;
        }
        j += 1;
    }
    assert(h@.subrange(i as int, i + n@.len()) =~= n@);
    true
}

/// Whether `needle` occurs in `hay` (as `str::contains` with a string pattern).
pub fn contains(hay: &str, needle: &str) -> (r: bool)
    ensures
        r == is_substring(needle@, hay@),
{
    let h = to_chars(hay);
    let n = to_chars(needle);
    if n.len() > h.len() {
        proof {
            assert forall|i: int| 0 <= i && i + n@.len() <= h@.len() implies #[trigger] h@.subrange(
                i,
                i + n@.len(),
            ) != n@ by {}
        }
        return false;
    }
    let last = h.len() - n.len();
    let mut i: usize = 0;
    while i <= last
        invariant
            h@ == hay@,
            n@ == needle@,
            last == h.len() - n.len(),
            n.len() <= h.len(),
            i <= last,
            forall|k: int| 0 <= k < i ==> #[trigger] h@.subrange(k, k + n@.len()) != n@,
        decreases last - i,
    {
        if matches_at(&h, &n, i) {
            return true;
        }
        if i == last {
            return false;
        }
        i += 1;
    }
    false
}

/// Decimal digit `d` as a character.
pub open spec fn digit_char(d: nat) -> char {
    (48 + d) as char
}

/// Decimal representation of `n`, without sign or leading zeros.
pub open spec fn decimal(n: nat) -> Seq<char>
    decreases n,
{
    if n < 10 {
        seq![digit_char(n)]
    } else {
        decimal(n / 10).push(digit_char(n % 10))
    }
}

/// Append the decimal representation of `n` to `s`.
pub fn push_decimal(s: &mut String, n: u64)
    ensures
        final(s)@ == old(s)@ + decimal(n as nat),
    decreases n,
{
    if n >= 10 {
        push_decimal(s, n / 10);
    }
    let d: u8 = (n % 10) as u8;
    push_char(s, (48u8 + d) as char);
    assert(final(s)@ =~= old(s)@ + decimal(n as nat));
}

/// Decimal representation of `n` (as `n.to_string()`).
pub fn decimal_string(n: u64) -> (s: String)
    ensures
        s@ == decimal(n as nat),
{
    let mut s = String::new();
    push_decimal(&mut s, n);
    assert(s@ =~= decimal(n as nat));
    s
}

/// Unicode `White_Space` (as `char::is_whitespace`).
pub open spec fn is_space(c: char) -> bool {
    let v = c as u32;
    (0x9 <= v <= 0xd) || v == 0x20 || v == 0x85 || v == 0xa0 || v == 0x1680 || (0x2000 <= v
        <= 0x200a) || v == 0x2028 || v == 0x2029 || v == 0x202f || v == 0x205f || v == 0x3000
}

fn is_space_char(c: char) -> (b: bool)
    ensures
        b == is_space(c),
{
    let v = c as u32;
    (0x9 <= v && v <= 0xd) || v == 0x20 || v == 0x85 || v == 0xa0 || v == 0x1680 || (0x2000 <= v
        && v <= 0x200a) || v == 0x2028 || v == 0x2029 || v == 0x202f || v == 0x205f || v == 0x3000
}

/// `s` without leading whitespace.
pub open spec fn trim_start(s: Seq<char>) -> Seq<char>
    decreases s.len(),
{
    if s.len() > 0 && is_space(s[0]) {
        trim_start(s.drop_first())
    } else {
        s
    }
}

/// `s` without trailing whitespace.
pub open spec fn trim_end(s: Seq<char>) -> Seq<char>
    decreases s.len(),
{
    if s.len() > 0 && is_space(s.last()) {
        trim_end(s.drop_last())
    } else {
        s
    }
}

/// `s` without leading and trailing whitespace (as `str::trim`).
pub open spec fn trim(s: Seq<char>) -> Seq<char> {
    trim_end(trim_start(s))
}

/// `s` begins with `p`.
pub open spec fn starts_with(s: Seq<char>, p: Seq<char>) -> bool {
    p.len() <= s.len() && s.subrange(0, p.len() as int) == p
}

/// Whether `s`, trimmed of whitespace at both ends, begins with `prefix`.
pub fn trimmed_starts_with(s: &str, prefix: &str) -> (b: bool)
    ensures
        b == starts_with(trim(s@), prefix@),
{
    let v = to_chars(s);
    let p = to_chars(prefix);
    let mut a: usize = 0;
    assert(s@.subrange(0, s@.len() as int) =~= s@);
    while a < v.len() && is_space_char(v[a])
        invariant
            v@ == s@,
            a <= v.len(),
            trim_start(s@) == trim_start(s@.subrange(a as int, s@.len() as int)),
        decreases v.len() - a,
    {
        let ghost cur = s@.subrange(a as int, s@.len() as int);
        assert(cur.drop_first() =~= s@.subrange(a + 1, s@.len() as int));
        a += 1;
    }
    let ghost ts = s@.subrange(a as int, s@.len() as int);
    assert(trim_start(s@) == ts);
    let mut b: usize = v.len();
    assert(ts.subrange(0, (b - a) as int) =~= ts);
    while b > a && is_space_char(v[b - 1])
        invariant
            v@ == s@,
            a <= b <= v.len(),
            ts == s@.subrange(a as int, s@.len() as int),
            trim_end(ts) == trim_end(s@.subrange(a as int, b as int)),
        decreases b - a,
    {
        let ghost cur = s@.subrange(a as int, b as int);
        assert(cur.drop_last() =~= s@.subrange(a as int, b - 1));
        b -= 1;
    }
    let ghost t = s@.subrange(a as int, b as int);
    assert(trim(s@) == t);
    assert(t.len() == b - a);
    if p.len() > b - a {
        return false;
    }
    let mut i: usize = 0;
    while i < p.len()
        invariant
            v@ == s@,
            a <= b <= v.len(),
            p@ == prefix@,
            p.len() <= b - a,
            t == s@.subrange(a as int, b as int),
            trim(s@) == t,
            i <= p.len(),
            forall|k: int| 0 <= k < i ==> t[k] == p@[k],
        decreases p.len() - i,
    {
        if v[a + i] != p[i] {
            assert(t.subrange(0, p@.len() as int)[i as int] != p@[i as int]);
            return false;
        }
        i += 1;
    }
    assert(t.subrange(0, p@.len() as int) =~= p@);
    true
}

/// The UTF-16 code units of `c`.
pub open spec fn utf16_units(c: char) -> Seq<u16> {
    let v = c as u32;
    if v < 0x10000 {
        seq![v as u16]
    } else {
        seq![(0xD800 + (v - 0x10000) / 0x400) as u16, (0xDC00 + (v - 0x10000) % 0x400) as u16]
    }
}

/// UTF-16 encoding of `s`.
pub open spec fn utf16_encode(s: Seq<char>) -> Seq<u16>
    decreases s.len(),
{
    if s.len() == 0 {
        Seq::empty()
    } else {
        utf16_encode(s.drop_last()) + utf16_units(s.last())
    }
}

/// UTF-16 code units of `s` followed by a terminating zero, for wide-string
/// system calls.
pub fn wide_str(s: &str) -> (w: Vec<u16>)
    ensures
        w@ == utf16_encode(s@).push(0),
{
    let v = to_chars(s);
    let mut w: Vec<u16> = Vec::new();
    let mut i: usize = 0;
    while i < v.len()
        invariant
            v@ == s@,
            i <= v.len(),
            w@ == utf16_encode(s@.subrange(0, i as int)),
        decreases v.len() - i,
    {
        let c = v[i];
        let u = c as u32;
        let ghost before = w@;
        if u < 0x10000 {
            w.push(u as u16);
        } else {
            let x = u - 0x10000;
            w.push((0xD800 + x / 0x400) as u16);
            w.push((0xDC00 + x % 0x400) as u16);
        }
        proof {
            let pre = s@.subrange(0, i + 1);
            assert(pre.drop_last() =~= s@.subrange(0, i as int));
            assert(pre.last() == c);
            assert(w@ =~= before + utf16_units(c));
        }
        i += 1;
    }
    assert(s@.subrange(0, v.len() as int) =~= s@);
    w.push(0);
    w
}

/// Calls `char::from_u32`, believed without proof: it gives the character
/// with code point `v` when `v` is a Unicode scalar value (at most 0x10FFFF
/// and outside the surrogates 0xD800 to 0xDFFF), and `None` otherwise.
#[verifier::external_body]
fn char_from_u32(v: u32) -> (c: Option<char>)
    ensures
        ((v <= 0xD7FF) || (0xE000 <= v <= 0x10FFFF)) ==> c == Some(v as char),
        !((v <= 0xD7FF) || (0xE000 <= v <= 0x10FFFF)) ==> c is None,
{
    char::from_u32(v)
}

/// Decoding of UTF-16 code units, each unpaired surrogate becoming U+FFFD
/// (as `String::from_utf16_lossy`).
pub open spec fn utf16_decode(s: Seq<u16>) -> Seq<char>
    decreases s.len(),
{
    if s.len() == 0 {
        Seq::empty()
    } else if 0xD800 <= s[0] < 0xDC00 && s.len() >= 2 && 0xDC00 <= s[1] < 0xE000 {
        seq![(0x10000 + (s[0] - 0xD800) * 0x400 + (s[1] - 0xDC00)) as char] + utf16_decode(
            s.subrange(2, s.len() as int),
        )
    } else if 0xD800 <= s[0] < 0xE000 {
        seq!['\u{FFFD}'] + utf16_decode(s.drop_first())
    } else {
        seq![s[0] as char] + utf16_decode(s.drop_first())
    }
}

/// The code units of `w` before the first zero (all of them when there is none).
pub open spec fn until_nul(w: Seq<u16>) -> Seq<u16>
    decreases w.len(),
{
    if w.len() == 0 {
        w
    } else if w[0] == 0 {
        Seq::empty()
    } else {
        seq![w[0]] + until_nul(w.drop_first())
    }
}

/// `c` followed by `rest`.
fn prepend(c: char, rest: &Vec<char>) -> (all: Vec<char>)
    ensures
        all@ == seq![c] + rest@,
{
    let mut all: Vec<char> = Vec::new();
    all.push(c);
    let mut k: usize = 0;
    while k < rest.len()
        invariant
            all@ == seq![c] + rest@.subrange(0, k as int),
            k <= rest.len(),
        decreases rest.len() - k,
    {
        all.push(rest[k]);
        k += 1;
        assert(all@ =~= seq![c] + rest@.subrange(0, k as int));
    }
    assert(rest@.subrange(0, rest@.len() as int) =~= rest@);
    all
}

/// Decode `units[from ..]`, each unpaired surrogate becoming U+FFFD.
fn decode_from(units: &[u16], end: usize, from: usize) -> (cs: Vec<char>)
    requires
        from <= end <= units@.len(),
    ensures
        cs@ == utf16_decode(units@.subrange(from as int, end as int)),
    decreases end - from,
{
    let ghost s = units@.subrange(from as int, end as int);
    if from == end {
        assert(s =~= Seq::<u16>::empty());
        return Vec::new();
    }
    let u = units[from];
    if 0xD800 <= u && u < 0xDC00 && end - from >= 2 && 0xDC00 <= units[from + 1] && units[from + 1]
        < 0xE000 {
        let lo = units[from + 1];
        let v: u32 = 0x10000 + ((u - 0xD800) as u32) * 0x400 + ((lo - 0xDC00) as u32);
        let c = match char_from_u32(v) {
            Some(c) => c,
            None => '\u{FFFD}',
        };
        let rest = decode_from(units, end, from + 2);
        assert(s.subrange(2, s.len() as int) =~= units@.subrange(from + 2, end as int));
        return prepend(c, &rest);
    }
    let c = if 0xD800 <= u && u < 0xE000 {
        '\u{FFFD}'
    } else {
        match char_from_u32(u as u32) {
            Some(c) => c,
            None => '\u{FFFD}',
        }
    };
    let rest = decode_from(units, end, from + 1);
    assert(s.drop_first() =~= units@.subrange(from + 1, end as int));
    prepend(c, &rest)
}

/// Position of the first zero of `w`, or its length.
fn nul_position(w: &[u16]) -> (n: usize)
    ensures
        n <= w@.len(),
        until_nul(w@) == w@.subrange(0, n as int),
{
    let mut i: usize = 0;
    while i < w.len() && w[i] != 0
        invariant
            i <= w@.len(),
            forall|k: int| 0 <= k < i ==> w@[k] != 0,
        decreases w.len() - i,
    {
        i += 1;
    }
    proof {
        lemma_until_nul(w@, i as int);
    }
    i
}

proof fn lemma_until_nul(w: Seq<u16>, n: int)
    requires
        0 <= n <= w.len(),
        forall|k: int| 0 <= k < n ==> w[k] != 0,
        n < w.len() ==> w[n] == 0,
    ensures
        until_nul(w) == w.subrange(0, n),
    decreases w.len(),
{
    if w.len() > 0 {
        if n > 0 {
            lemma_until_nul(w.drop_first(), n - 1);
            assert(seq![w[0]] + w.drop_first().subrange(0, n - 1) =~= w.subrange(0, n));
        } else {
            assert(w.subrange(0, 0) =~= Seq::<u16>::empty());
        }
    } else {
        assert(w.subrange(0, n) =~= w);
    }
}

/// Whether the NUL-terminated wide string `wide`, decoded (unpaired
/// surrogates as U+FFFD), equals `target` up to ASCII case.
pub fn wide_eq_ascii(wide: &[u16], target: &str) -> (b: bool)
    ensures
        b == eq_ignore_case(utf16_decode(until_nul(wide@)), target@),
{
    let len = nul_position(wide);
    let cs = decode_from(wide, len, 0);
    assert(cs@ == utf16_decode(until_nul(wide@)));
    let t = to_chars(target);
    if cs.len() != t.len() {
        return false;
    }
    let mut i: usize = 0;
    while i < cs.len()
        invariant
            cs.len() == t.len(),
            t@ == target@,
            cs@ == utf16_decode(until_nul(wide@)),
            i <= cs.len(),
            forall|k: int| 0 <= k < i ==> ascii_lower_char(#[trigger] cs@[k]) == ascii_lower_char(t@[k]),
        decreases cs.len() - i,
    {
        if lower_char(cs[i]) != lower_char(t[i]) {
            return false;
        }
        i += 1;
    }
    true
}

/// The encoding of `s` starts with the code units of its first character.
proof fn lemma_encode_front(s: Seq<char>)
    requires
        s.len() > 0,
    ensures
        utf16_encode(s) == utf16_units(s[0]) + utf16_encode(s.drop_first()),
    decreases s.len(),
{
    if s.len() == 1 {
        assert(s.drop_last() =~= Seq::<char>::empty());
        assert(s.drop_first() =~= Seq::<char>::empty());
        assert(utf16_encode(Seq::<char>::empty()) =~= Seq::<u16>::empty());
        assert(utf16_units(s[0]) + Seq::<u16>::empty() =~= utf16_units(s[0]));
    } else {
        lemma_encode_front(s.drop_last());
        assert(s.drop_first().drop_last() =~= s.drop_last().drop_first());
        assert(s.drop_first().last() == s.last());
        assert(s.drop_last()[0] == s[0]);
        assert(utf16_encode(s) =~= utf16_units(s[0]) + utf16_encode(s.drop_first()));
    }
}

/// Decoding the code units of a character, then more units, gives the
/// character, then the decoding of the rest.
proof fn lemma_decode_units(c: char, rest: Seq<u16>)
    ensures
        utf16_decode(utf16_units(c) + rest) == seq![c] + utf16_decode(rest),
{
    vstd::utf8::char_is_scalar(c);
    let v = c as u32;
    vstd::utf8::char_u32_cast(c, v);
    let s = utf16_units(c) + rest;
    if v < 0x10000 {
        assert(s[0] == v as u16);
        assert(s.drop_first() =~= rest);
        assert((v as u16) as char == c);
    } else {
        let x = v - 0x10000;
        let q = x / 0x400;
        let r = x % 0x400;
        assert(x == q * 0x400 + r && 0 <= r < 0x400);
        assert(q < 0x400);
        assert(s[0] == (0xD800 + q) as u16);
        assert(s[1] == (0xDC00 + r) as u16);
        assert(s.subrange(2, s.len() as int) =~= rest);
        assert(0x10000 + (s[0] - 0xD800) * 0x400 + (s[1] - 0xDC00) == v);
    }
}

proof fn lemma_decode_encode(s: Seq<char>)
    ensures
        utf16_decode(utf16_encode(s)) == s,
    decreases s.len(),
{
    if s.len() == 0 {
        assert(utf16_encode(s) =~= Seq::<u16>::empty());
    } else {
        lemma_encode_front(s);
        lemma_decode_units(s[0], utf16_encode(s.drop_first()));
        lemma_decode_encode(s.drop_first());
        assert(seq![s[0]] + s.drop_first() =~= s);
    }
}

proof fn lemma_encode_no_zero(s: Seq<char>)
    requires
        forall|i: int| 0 <= i < s.len() ==> s[i] != '\0',
    ensures
        forall|k: int| 0 <= k < utf16_encode(s).len() ==> utf16_encode(s)[k] != 0,
    decreases s.len(),
{
    if s.len() > 0 {
        lemma_encode_no_zero(s.drop_last());
        let c = s.last();
        vstd::utf8::char_u32_cast(c, c as u32);
        assert(c as u32 != 0);
        let e = utf16_encode(s);
        assert forall|k: int| 0 <= k < e.len() implies e[k] != 0 by {
            let pre = utf16_encode(s.drop_last());
            if k >= pre.len() {
                let j = k - pre.len();
                assert(e[k] == utf16_units(c)[j]);
            } else {
                assert(e[k] == pre[k]);
            }
        }
    }
}

/// A wide string made by `wide_str` is the UTF-16 encoding of its text and
/// one terminating zero; the units before that zero decode back to the text,
/// for any text (a NUL inside it included).
pub proof fn wide_str_decodes_back(s: Seq<char>)
    ensures
        utf16_encode(s).push(0).last() == 0,
        utf16_decode(utf16_encode(s).push(0).drop_last()) == s,
{
    assert(utf16_encode(s).push(0).drop_last() =~= utf16_encode(s));
    lemma_decode_encode(s);
}

/// A wide string made by `wide_str` decodes back to the text it was made
/// from (for text without NUL characters, which would end it early): so
/// `wide_eq_ascii(&wide_str(s), s)` holds.
pub proof fn wide_str_round_trip(s: Seq<char>)
    requires
        forall|i: int| 0 <= i < s.len() ==> s[i] != '\0',
    ensures
        utf16_decode(until_nul(utf16_encode(s).push(0))) == s,
        eq_ignore_case(utf16_decode(until_nul(utf16_encode(s).push(0))), s),
{
    let e = utf16_encode(s);
    lemma_encode_no_zero(s);
    lemma_until_nul(e.push(0), e.len() as int);
    assert(e.push(0).subrange(0, e.len() as int) =~= e);
    lemma_decode_encode(s);
}

} // verus!
