//! IP address text: the grammar accepted for IPv4 and IPv6 addresses, and a
//! parser proved to follow it.
use vstd::prelude::*;

verus! {

/// Splits `s` at every occurrence of `sep`; the result always holds at least
/// one (possibly empty) field.
pub open spec fn split(s: Seq<char>, sep: char) -> Seq<Seq<char>>
    decreases s.len(),
{
    if s.len() == 0 {
        seq![Seq::empty()]
    } else {
        let p = split(s.drop_last(), sep);
        if s.last() == sep {
            p.push(Seq::empty())
        } else {
            p.update(p.len() - 1, p.last().push(s.last()))
        }
    }
}

pub open spec fn is_dec_digit(c: char) -> bool {
    '0' <= c && c <= '9'
}

pub open spec fn is_hex_digit(c: char) -> bool {
    is_dec_digit(c) || ('a' <= c && c <= 'f') || ('A' <= c && c <= 'F')
}

/// The value of a hexadecimal (hence also decimal) digit.
pub open spec fn digit_value(c: char) -> nat {
    if is_dec_digit(c) {
        (c as nat - '0' as nat) as nat
    } else if 'a' <= c && c <= 'f' {
        (c as nat - 'a' as nat + 10) as nat
    } else {
        (c as nat - 'A' as nat + 10) as nat
    }
}

/// The number that the digits `t` write in base `radix`.
pub open spec fn num_value(t: Seq<char>, radix: nat) -> nat
    decreases t.len(),
{
    if t.len() == 0 {
        0
    } else {
        num_value(t.drop_last(), radix) * radix + digit_value(t.last())
    }
}

/// A decimal octet: one to three digits, no leading zero, at most 255.
pub open spec fn is_octet_text(t: Seq<char>) -> bool {
    &&& 1 <= t.len() <= 3
    &&& forall|i: int| 0 <= i < t.len() ==> is_dec_digit(#[trigger] t[i])
    &&& (t.len() == 1 || t[0] != '0')
    &&& num_value(t, 10) <= 255
}

/// A hexadecimal group of an IPv6 address: one to four hex digits.
pub open spec fn is_group_text(t: Seq<char>) -> bool {
    &&& 1 <= t.len() <= 4
    &&& forall|i: int| 0 <= i < t.len() ==> is_hex_digit(#[trigger] t[i])
}

/// The four octets of dotted-decimal IPv4 text, if `s` is such text.
pub open spec fn ipv4_octets(s: Seq<char>) -> Option<Seq<u8>> {
    let f = split(s, '.');
    if f.len() == 4 && forall|i: int| 0 <= i < 4 ==> is_octet_text(#[trigger] f[i]) {
        Some(Seq::new(4, |i: int| num_value(f[i], 10) as u8))
    } else {
        None
    }
}

pub open spec fn all_groups(f: Seq<Seq<char>>) -> bool {
    forall|i: int| 0 <= i < f.len() ==> is_group_text(#[trigger] f[i])
}

pub open spec fn group_values(f: Seq<Seq<char>>) -> Seq<u16> {
    Seq::new(f.len(), |i: int| num_value(f[i], 16) as u16)
}

/// The 16-bit values written by a run of colon-separated fields: hex groups,
/// the last of which may instead be an embedded IPv4 address worth two values.
pub open spec fn run_values(f: Seq<Seq<char>>) -> Option<Seq<u16>> {
    if f.len() > 0 && ipv4_octets(f.last()) is Some {
        let o = ipv4_octets(f.last())->0;
        if all_groups(f.drop_last()) {
            Some(
                group_values(f.drop_last()) + seq![
                    (o[0] as nat * 256 + o[1] as nat) as u16,
                    (o[2] as nat * 256 + o[3] as nat) as u16,
                ],
            )
        } else {
            None
        }
    } else if all_groups(f) {
        Some(group_values(f))
    } else {
        None
    }
}

/// The fields of a run that may be empty: no text, no fields.
pub open spec fn run_fields(s: Seq<char>) -> Seq<Seq<char>> {
    if s.len() == 0 {
        Seq::empty()
    } else {
        split(s, ':')
    }
}

/// The first position at or after `i` where `::` starts.
pub open spec fn double_colon_from(s: Seq<char>, i: int) -> Option<int>
    decreases s.len() - i,
{
    if i < 0 || i + 1 >= s.len() {
        None
    } else if s[i] == ':' && s[i + 1] == ':' {
        Some(i)
    } else {
        double_colon_from(s, i + 1)
    }
}

/// The eight segments of IPv6 text, if `s` is such text. Without `::` the text
/// gives all eight segments; with it, the text before and after `::` gives at
/// most seven, and `::` stands for the zero segments in between.
pub open spec fn ipv6_segments(s: Seq<char>) -> Option<Seq<u16>> {
    match double_colon_from(s, 0) {
        None => {
            let v = run_values(split(s, ':'));
            if v is Some && v->0.len() == 8 {
                v
            } else {
                None
            }
        },
        Some(i) => {
            let hf = run_fields(s.subrange(0, i));
            let tv = run_values(run_fields(s.subrange(i + 2, s.len() as int)));
            if all_groups(hf) && tv is Some && hf.len() + tv->0.len() <= 7 {
                Some(
                    group_values(hf) + Seq::new(
                        (8 - hf.len() - tv->0.len()) as nat,
                        |j: int| 0u16,
                    ) + tv->0,
                )
            } else {
                None
            }
        },
    }
}

/// A parsed IP address.
#[derive(Clone, Copy, Debug, PartialEq, Eq)]
pub enum IpAddress {
    V4([u8; 4]),
    V6([u16; 8]),
}

/// What IP address text `s` denotes, if any: IPv4 text is tried first.
pub open spec fn spec_parse_ip(s: Seq<char>) -> Option<IpAddress> {
    match ipv4_octets(s) {
        Some(o) => Some(IpAddress::V4([o[0], o[1], o[2], o[3]])),
        None => match ipv6_segments(s) {
            Some(g) => Some(IpAddress::V6([g[0], g[1], g[2], g[3], g[4], g[5], g[6], g[7]])),
            None => None,
        },
    }
}

/// The characters of `s`, one by one.
pub fn chars_of(s: &str) -> (r: Vec<char>)
    ensures
        r@ == s@,
{
    let n = s.unicode_len();
    let mut r: Vec<char> = Vec::new();
    let mut i: usize = 0;
    while i < n
        invariant
            n == s@.len(),
            i <= n,
            r@ == s@.subrange(0, i as int),
        decreases n - i,
    {
        r.push(s.get_char(i));
        i = i + 1;
        assert(r@ =~= s@.subrange(0, i as int));
    }
    assert(r@ =~= s@);
    r
}

/// Splits `s[lo..hi]` at every `sep`.
pub fn split_chars(s: &Vec<char>, lo: usize, hi: usize, sep: char) -> (r: Vec<Vec<char>>)
    requires
        lo <= hi <= s.len(),
    ensures
        r.deep_view() == split(s@.subrange(lo as int, hi as int), sep),
{
    let mut fields: Vec<Vec<char>> = Vec::new();
    let mut cur: Vec<char> = Vec::new();
    let mut i: usize = lo;
    assert(s@.subrange(lo as int, lo as int) =~= Seq::<char>::empty());
    assert(fields.deep_view().push(cur@) =~= seq![Seq::<char>::empty()]);
    while i < hi
        invariant
            lo <= i <= hi <= s.len(),
            fields.deep_view().push(cur@) == split(s@.subrange(lo as int, i as int), sep),
        decreases hi - i,
    {
        let c = s[i];
        let ghost before = fields.deep_view();
        let ghost t = s@.subrange(lo as int, i as int + 1);
        assert(t.drop_last() =~= s@.subrange(lo as int, i as int));
        if c == sep {
            let ghost cur0 = cur@;
            fields.push(cur);
            cur = Vec::new();
            assert(fields@.last().deep_view() =~= cur0);
            assert(fields.deep_view() =~= before.push(cur0));
        } else {
            let ghost cur0 = cur@;
            cur.push(c);
            assert(fields.deep_view().push(cur@) =~= before.push(cur0).update(
                before.len() as int,
                cur0.push(c),
            ));
        }
        i = i + 1;
    }
    let ghost before = fields.deep_view();
    let ghost cur0 = cur@;
    fields.push(cur);
    assert(fields@.last().deep_view() =~= cur0);
    assert(fields.deep_view() =~= before.push(cur0));
    fields
}

/// `r` to the power `n`.
pub open spec fn pow(r: nat, n: nat) -> nat
    decreases n,
{
    if n == 0 {
        1
    } else {
        r * pow(r, (n - 1) as nat)
    }
}

proof fn lemma_pow_small(r: nat, n: nat)
    requires
        r <= 16,
        n <= 4,
    ensures
        pow(r, n) <= 65536,
    decreases n,
{
    reveal_with_fuel(pow, 5);
    if n > 0 {
        lemma_pow_small(r, (n - 1) as nat);
        let p = pow(r, (n - 1) as nat);
        let q = pow(16, (n - 1) as nat);
        lemma_pow_mono(r, (n - 1) as nat);
        assert(r * p <= 16 * q) by (nonlinear_arith)
            requires
                r <= 16,
                p <= q,
        ;
        assert(16 * q <= 65536);
    }
}

proof fn lemma_pow_mono(r: nat, n: nat)
    requires
        r <= 16,
    ensures
        pow(r, n) <= pow(16, n),
    decreases n,
{
    if n > 0 {
        lemma_pow_mono(r, (n - 1) as nat);
        let p = pow(r, (n - 1) as nat);
        let q = pow(16, (n - 1) as nat);
        assert(r * p <= 16 * q) by (nonlinear_arith)
            requires
                r <= 16,
                p <= q,
        ;
    }
}

fn digit_of(c: char) -> (r: u32)
    requires
        is_hex_digit(c),
    ensures
        r == digit_value(c),
        r < 16,
{
    if '0' <= c && c <= '9' {
        (c as u32) - ('0' as u32)
    } else if 'a' <= c && c <= 'f' {
        (c as u32) - ('a' as u32) + 10
    } else {
        (c as u32) - ('A' as u32) + 10
    }
}

/// The number that the digits of `f` write in base `radix`.
fn digits_value(f: &Vec<char>, radix: u32) -> (r: u32)
    requires
        radix == 10 || radix == 16,
        f.len() <= 4,
        forall|i: int|
            0 <= i < f.len() ==> is_hex_digit(#[trigger] f@[i]) && digit_value(f@[i]) < radix,
    ensures
        r == num_value(f@, radix as nat),
        r < 65536,
{
    let mut v: u32 = 0;
    let mut i: usize = 0;
    while i < f.len()
        invariant
            radix == 10 || radix == 16,
            f.len() <= 4,
            i <= f.len(),
            forall|i: int|
                0 <= i < f.len() ==> is_hex_digit(#[trigger] f@[i]) && digit_value(f@[i]) < radix,
            v == num_value(f@.subrange(0, i as int), radix as nat),
            v < pow(radix as nat, i as nat),
        decreases f.len() - i,
    {
        proof {
            lemma_pow_small(radix as nat, (i + 1) as nat);
            let t = f@.subrange(0, i as int + 1);
            assert(t.drop_last() =~= f@.subrange(0, i as int));
        }
        let d = digit_of(f[i]);
        proof {
            let p = pow(radix as nat, i as nat);
            assert(v * radix + d < p * radix) by (nonlinear_arith)
                requires
                    v < p,
                    d < radix,
            ;
        }
        v = v * radix + d;
        i = i + 1;
    }
    assert(f@.subrange(0, i as int) =~= f@);
    proof {
        lemma_pow_small(radix as nat, i as nat);
    }
    v
}

/// The value of a decimal octet, if `f` is one.
pub fn octet_of(f: &Vec<char>) -> (r: Option<u8>)
    ensures
        r is Some <==> is_octet_text(f@),
        r is Some ==> r->0 == num_value(f@, 10),
{
    let n = f.len();
    if n < 1 || n > 3 {
        return None;
    }
    let mut i: usize = 0;
    while i < n
        invariant
            n == f.len(),
            i <= n,
            forall|j: int| 0 <= j < i ==> is_dec_digit(#[trigger] f@[j]),
        decreases n - i,
    {
        if !('0' <= f[i] && f[i] <= '9') {
            return None;
        }
        i = i + 1;
    }
    if n > 1 && f[0] == '0' {
        return None;
    }
    let v = digits_value(f, 10);
    if v > 255 {
        None
    } else {
        Some(v as u8)
    }
}

/// The value of a hexadecimal group, if `f` is one.
pub fn group_of(f: &Vec<char>) -> (r: Option<u16>)
    ensures
        r is Some <==> is_group_text(f@),
        r is Some ==> r->0 == num_value(f@, 16),
{
    let n = f.len();
    if n < 1 || n > 4 {
        return None;
    }
    let mut i: usize = 0;
    while i < n
        invariant
            n == f.len(),
            i <= n,
            forall|j: int| 0 <= j < i ==> is_hex_digit(#[trigger] f@[j]),
        decreases n - i,
    {
        let c = f[i];
        if !(('0' <= c && c <= '9') || ('a' <= c && c <= 'f') || ('A' <= c && c <= 'F')) {
            return None;
        }
        i = i + 1;
    }
    let v = digits_value(f, 16);
    Some(v as u16)
}

proof fn lemma_field(v: &Vec<Vec<char>>, j: int)
    requires
        0 <= j < v.len(),
    ensures
        v.deep_view()[j] == v@[j]@,
{
    assert(v.deep_view()[j] =~= v@[j]@);
}

/// The octets of `s[lo..hi]`, if it is dotted-decimal IPv4 text.
pub fn ipv4_of(s: &Vec<char>, lo: usize, hi: usize) -> (r: Option<[u8; 4]>)
    requires
        lo <= hi <= s.len(),
    ensures
        r == (match ipv4_octets(s@.subrange(lo as int, hi as int)) {
            Some(o) => Some([o[0], o[1], o[2], o[3]]),
            None => None,
        }),
{
    let fields = split_chars(s, lo, hi, '.');
    let ghost f = fields.deep_view();
    if fields.len() != 4 {
        return None;
    }
    let mut out: Vec<u8> = Vec::new();
    let mut i: usize = 0;
    while i < 4
        invariant
            fields.len() == 4,
            f == fields.deep_view(),
            lo <= hi <= s.len(),
            f == split(s@.subrange(lo as int, hi as int), '.'),
            i <= 4,
            out.len() == i,
            forall|j: int|
                0 <= j < i ==> is_octet_text(#[trigger] f[j]) && out@[j] == num_value(f[j], 10),
        decreases 4 - i,
    {
        proof {
            lemma_field(&fields, i as int);
        }
        match octet_of(&fields[i]) {
            Some(v) => out.push(v),
            None => {
                assert(!is_octet_text(f[i as int]));
                return None;
            },
        }
        i = i + 1;
    }
    proof {
        let o = ipv4_octets(s@.subrange(lo as int, hi as int))->0;
        assert(o[0] == out@[0] && o[1] == out@[1] && o[2] == out@[2] && o[3] == out@[3]);
    }
    Some([out[0], out[1], out[2], out[3]])
}

/// The values of the first `m` fields, if each is a hexadecimal group.
fn groups_of(fields: &Vec<Vec<char>>, m: usize) -> (r: Option<Vec<u16>>)
    requires
        m <= fields.len(),
    ensures
        r is Some <==> all_groups(fields.deep_view().take(m as int)),
        r is Some ==> r->0@ == group_values(fields.deep_view().take(m as int)),
{
    let ghost f = fields.deep_view().take(m as int);
    let mut out: Vec<u16> = Vec::new();
    let mut i: usize = 0;
    while i < m
        invariant
            m <= fields.len(),
            f == fields.deep_view().take(m as int),
            i <= m,
            out.len() == i,
            forall|j: int|
                0 <= j < i ==> is_group_text(#[trigger] f[j]) && out@[j] == num_value(f[j], 16),
        decreases m - i,
    {
        proof {
            lemma_field(fields, i as int);
        }
        match group_of(&fields[i]) {
            Some(v) => out.push(v),
            None => {
                assert(!is_group_text(f[i as int]));
                return None;
            },
        }
        i = i + 1;
    }
    assert(out@ =~= group_values(f));
    Some(out)
}

/// The values that a run of colon-separated fields writes, if it is one.
fn run_of(fields: &Vec<Vec<char>>) -> (r: Option<Vec<u16>>)
    ensures
        r is Some <==> run_values(fields.deep_view()) is Some,
        r is Some ==> r->0@ == run_values(fields.deep_view())->0,
{
    let ghost f = fields.deep_view();
    let n = fields.len();
    if n > 0 {
        let last = &fields[n - 1];
        proof {
            lemma_field(fields, n - 1);
            assert(last@.subrange(0, last.len() as int) =~= f.last());
        }
        if let Some(o) = ipv4_of(last, 0, last.len()) {
            assert(f.drop_last() =~= f.take(n - 1));
            match groups_of(fields, n - 1) {
                Some(mut out) => {
                    let hi: u16 = (o[0] as u16) * 256 + (o[1] as u16);
                    let lo: u16 = (o[2] as u16) * 256 + (o[3] as u16);
                    let ghost g = out@;
                    out.push(hi);
                    out.push(lo);
                    assert(out@ =~= run_values(f)->0);
                    return Some(out);
                },
                None => {
                    return None;
                },
            }
        }
    }
    assert(f.take(n as int) =~= f);
    groups_of(fields, n)
}

/// The fields of `s[lo..hi]` split at `:`, none where the text is empty.
fn run_fields_of(s: &Vec<char>, lo: usize, hi: usize) -> (r: Vec<Vec<char>>)
    requires
        lo <= hi <= s.len(),
    ensures
        r.deep_view() == run_fields(s@.subrange(lo as int, hi as int)),
{
    if lo == hi {
        let r: Vec<Vec<char>> = Vec::new();
        assert(r.deep_view() =~= Seq::<Seq<char>>::empty());
        r
    } else {
        split_chars(s, lo, hi, ':')
    }
}

/// The position of the first `::` in `s`, if any.
fn find_double_colon(s: &Vec<char>) -> (r: Option<usize>)
    ensures
        r is Some ==> double_colon_from(s@, 0) == Some(r->0 as int),
        r is None ==> double_colon_from(s@, 0) is None,
        r is Some ==> r->0 + 1 < s.len(),
{
    let n = s.len();
    let mut i: usize = 0;
    while n > 0 && i < n - 1
        invariant
            n == s.len(),
            i <= n,
            double_colon_from(s@, 0) == double_colon_from(s@, i as int),
        decreases n - i,
    {
        if s[i] == ':' && s[i + 1] == ':' {
            return Some(i);
        }
        i = i + 1;
    }
    None
}

/// The segments of IPv6 text `s`, if it is such text.
pub fn ipv6_of(s: &Vec<char>) -> (r: Option<[u16; 8]>)
    ensures
        r == (match ipv6_segments(s@) {
            Some(g) => Some([g[0], g[1], g[2], g[3], g[4], g[5], g[6], g[7]]),
            None => None,
        }),
{
    let n = s.len();
    assert(s@.subrange(0, n as int) =~= s@);
    match find_double_colon(s) {
        None => {
            let fields = split_chars(s, 0, n, ':');
            match run_of(&fields) {
                Some(v) => {
                    if v.len() == 8 {
                        Some([v[0], v[1], v[2], v[3], v[4], v[5], v[6], v[7]])
                    } else {
                        None
                    }
                },
                None => None,
            }
        },
        Some(i) => {
            let hf = run_fields_of(s, 0, i);
            let tf = run_fields_of(s, i + 2, n);
            assert(double_colon_from(s@, 0) == Some(i as int));
            assert(hf.deep_view() == run_fields(s@.subrange(0, i as int)));
            assert(hf.deep_view().take(hf.len() as int) =~= hf.deep_view());
            let hv = match groups_of(&hf, hf.len()) {
                Some(v) => v,
                None => {
                    return None;
                },
            };
            let tv = match run_of(&tf) {
                Some(v) => v,
                None => {
                    return None;
                },
            };
            if hv.len() > 7 || tv.len() > 7 - hv.len() {
                return None;
            }
            let ghost zeros = Seq::new((8 - hv.len() - tv.len()) as nat, |j: int| 0u16);
            let mut out: Vec<u16> = hv;
            let mut k: usize = out.len() + tv.len();
            while k < 8
                invariant
                    out.len() + tv.len() <= 8,
                    k == out.len() + tv.len(),
                    out@ == hv@ + zeros.take(out.len() - hv.len()),
                    hv.len() <= out.len(),
                    zeros.len() == 8 - hv.len() - tv.len(),
                    forall|j: int| 0 <= j < zeros.len() ==> zeros[j] == 0u16,
                decreases 8 - k,
            {
                let ghost m0 = out.len() - hv.len();
                assert(zeros.take(m0 + 1) =~= zeros.take(m0).push(0u16));
                out.push(0);
                k = k + 1;
                assert(out@ =~= hv@ + zeros.take(out.len() - hv.len()));
            }
            let mut j: usize = 0;
            let ghost base = out@;
            while j < tv.len()
                invariant
                    base.len() + tv.len() == 8,
                    j <= tv.len(),
                    out@ == base + tv@.take(j as int),
                decreases tv.len() - j,
            {
                out.push(tv[j]);
                j = j + 1;
                assert(out@ =~= base + tv@.take(j as int));
            }
            proof {
                assert(zeros.take(zeros.len() as int) =~= zeros);
                assert(tv@.take(tv.len() as int) =~= tv@);
                assert(out@ =~= ipv6_segments(s@)->0);
            }
            Some([out[0], out[1], out[2], out[3], out[4], out[5], out[6], out[7]])
        },
    }
}

/// Parses IPv4 or IPv6 address text; IPv4 text is tried first.
pub fn parse_ip(text: &str) -> (r: Option<IpAddress>)
    ensures
        r == spec_parse_ip(text@),
{
    let s = chars_of(text);
    let n = s.len();
    assert(s@.subrange(0, n as int) =~= s@);
    match ipv4_of(&s, 0, n) {
        Some(o) => Some(IpAddress::V4(o)),
        None => match ipv6_of(&s) {
            Some(g) => Some(IpAddress::V6(g)),
            None => None,
        },
    }
}

} // verus!
