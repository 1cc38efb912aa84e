//! Reading IPv4 and IPv6 addresses from text, in the textual forms that
//! Rust's standard library accepts.

use vstd::prelude::*;

use crate::num::{all_digits, digits_value, parse_unsigned};
use crate::parse::{count_digits, digit_run};
use crate::text::{hex_digit, hex_value, is_digit_char, slice_string};

verus! {

broadcast use vstd::std_specs::vec::group_vec_axioms, vstd::seq::group_seq_axioms;

/// The number of hex digits in a row from index `i`.
pub open spec fn hex_run(s: Seq<char>, i: int) -> nat
    decreases s.len() - i,
{
    if 0 <= i < s.len() && hex_value(s[i]) is Some {
        1 + hex_run(s, i + 1)
    } else {
        0
    }
}

/// The value of a string of hex digits.
pub open spec fn hex_digits_value(d: Seq<char>) -> nat
    decreases d.len(),
{
    if d.len() == 0 {
        0
    } else {
        16 * hex_digits_value(d.drop_last()) + hex_value(d.last())->0 as nat
    }
}

/// An octet of an IPv4 address at index `i`: one to three decimal digits,
/// with no leading zero unless the octet is `0`, and a value of at most 255.
/// Gives the octet and the index after it.
pub open spec fn read_octet(s: Seq<char>, i: int) -> Option<(u8, int)> {
    let n = digit_run(s, i) as int;
    if n == 0 || n > 3 || (n > 1 && s[i] == '0') {
        None
    } else {
        let v = digits_value(s.subrange(i, i + n));
        if v > 255 {
            None
        } else {
            Some((v as u8, i + n))
        }
    }
}

/// `k` octets separated by dots, from index `i`.
pub open spec fn read_octets(s: Seq<char>, i: int, k: nat) -> Option<(Seq<u8>, int)>
    decreases k,
{
    if k == 0 {
        Some((seq![], i))
    } else {
        match read_octet(s, i) {
            None => None,
            Some((v, e)) =>
                if k == 1 {
                    Some((seq![v], e))
                } else if e < s.len() && s[e] == '.' {
                    match read_octets(s, e + 1, (k - 1) as nat) {
                        Some((rest, e2)) => Some((seq![v] + rest, e2)),
                        None => None,
                    }
                } else {
                    None
                },
        }
    }
}

/// The octets of the IPv4 address that the whole text is, if it is one.
pub open spec fn ipv4_spec(s: Seq<char>) -> Option<Seq<u8>> {
    match read_octets(s, 0, 4) {
        Some((b, e)) if e == s.len() => Some(b),
        _ => None,
    }
}

/// A group of an IPv6 address at index `i`: one to four hex digits.
pub open spec fn read_hex_group(s: Seq<char>, i: int) -> Option<(u16, int)> {
    let n = hex_run(s, i) as int;
    if n == 0 || n > 4 {
        None
    } else {
        Some((hex_digits_value(s.subrange(i, i + n)) as u16, i + n))
    }
}

/// Groups of an IPv6 address from index `pos`, the group with number `idx`
/// first, up to `limit` groups: each after a `:` but the first, and an
/// embedded IPv4 address allowed where two groups are left. Gives the
/// groups, the index after them, and whether they ended in an IPv4 address.
pub open spec fn read_groups(s: Seq<char>, pos: int, idx: nat, limit: nat) -> (Seq<u16>, int, bool)
    decreases limit - idx,
{
    if idx >= limit {
        (seq![], pos, false)
    } else {
        let sep_ok = idx == 0 || (0 <= pos < s.len() && s[pos] == ':');
        let start = if idx == 0 { pos } else { pos + 1 };
        if idx + 1 < limit && sep_ok && read_octets(s, start, 4) is Some {
            let (b, e) = read_octets(s, start, 4)->0;
            (seq![(b[0] as u16 * 256 + b[1] as u16) as u16, (b[2] as u16 * 256 + b[3] as u16) as u16], e, true)
        } else if sep_ok && read_hex_group(s, start) is Some {
            let (g, e) = read_hex_group(s, start)->0;
            let (rest, e2, v4) = read_groups(s, e, idx + 1, limit);
            (seq![g] + rest, e2, v4)
        } else {
            (seq![], pos, false)
        }
    }
}

/// The sixteen bytes of eight groups, each most significant byte first.
pub open spec fn group_bytes(g: Seq<u16>) -> Seq<u8> {
    Seq::new(16, |i: int| if i % 2 == 0 { (g[i / 2] / 256) as u8 } else { (g[i / 2] % 256) as u8 })
}

/// The octets of the IPv6 address that the whole text is, if it is one:
/// eight groups, or fewer with one `::` standing for the missing zero groups.
pub open spec fn ipv6_spec(s: Seq<char>) -> Option<Seq<u8>> {
    let (head, head_end, head_v4) = read_groups(s, 0, 0, 8);
    if head.len() == 8 {
        if head_end == s.len() {
            Some(group_bytes(head))
        } else {
            None
        }
    } else if head_v4 {
        None
    } else if 0 <= head_end && head_end + 1 < s.len() && s[head_end] == ':' && s[head_end + 1] == ':' {
        let (tail, tail_end, _) = read_groups(s, head_end + 2, 0, (7 - head.len()) as nat);
        if tail_end == s.len() {
            Some(group_bytes(head + Seq::new((8 - head.len() - tail.len()) as nat, |i: int| 0u16) + tail))
        } else {
            None
        }
    } else {
        None
    }
}

proof fn lemma_digit_run_digits(s: Seq<char>, i: int)
    requires
        0 <= i <= s.len(),
    ensures
        i + digit_run(s, i) <= s.len() || digit_run(s, i) == 0,
        all_digits(s.subrange(i, i + digit_run(s, i))),
    decreases s.len() - i,
{
    let n = digit_run(s, i) as int;
    if n > 0 {
        lemma_digit_run_digits(s, i + 1);
        let d = s.subrange(i, i + n);
        assert forall|k: int| 0 <= k < d.len() implies is_digit_char(#[trigger] d[k]) by {
            if k > 0 {
                assert(d[k] == s.subrange(i + 1, i + n)[k - 1]);
            }
        }
    } else {
        assert(s.subrange(i, i) =~= Seq::<char>::empty());
    }
}

/// Reads an octet of an IPv4 address at index `i`.
fn read_octet_at(s: &Vec<char>, i: usize) -> (r: Option<(u8, usize)>)
    requires
        i <= s@.len(),
    ensures
        r is Some <==> read_octet(s@, i as int) is Some,
        r is Some ==> (r->0).0 == (read_octet(s@, i as int)->0).0 && (r->0).1 as int == (read_octet(s@, i as int)->0).1
            && (r->0).1 <= s@.len(),
{
    // The length of the text bounds the indices below.
    let _len = s.len();
    let n = count_digits(s, i);
    if n == 0 || n > 3 || (n > 1 && s[i] == '0') {
        return None;
    }
    proof {
        lemma_digit_run_digits(s@, i as int);
    }
    let text = slice_string(s, i, i + n);
    let ghost d = s@.subrange(i as int, (i + n) as int);
    assert(d.len() > 0 && d[0] != '+');
    match parse_unsigned(text.as_str(), 255) {
        Some(v) => Some((v as u8, i + n)),
        None => None,
    }
}

/// Reads `k` octets separated by dots from index `i`.
fn read_octets_at(s: &Vec<char>, i: usize, k: usize) -> (r: Option<(Vec<u8>, usize)>)
    requires
        i <= s@.len(),
    ensures
        match read_octets(s@, i as int, k as nat) {
            Some((b, e)) => r matches Some((v, f)) && v@ == b && f == e && e <= s@.len(),
            None => r is None,
        },
    decreases k,
{
    if k == 0 {
        return Some((Vec::new(), i));
    }
    let (v, e) = match read_octet_at(s, i) {
        Some(t) => t,
        None => return None,
    };
    if k == 1 {
        let mut out: Vec<u8> = Vec::new();
        out.push(v);
        assert(out@ =~= seq![v]);
        assert(read_octet(s@, i as int) == Some((v, e as int)));
        assert(read_octets(s@, i as int, k as nat) == Some((seq![v], e as int)));
        return Some((out, e));
    }
    if e < s.len() && s[e] == '.' {
        match read_octets_at(s, e + 1, k - 1) {
            Some((rest, e2)) => {
                let mut out: Vec<u8> = Vec::new();
                out.push(v);
                let mut rest = rest;
                let ghost rv = rest@;
                out.append(&mut rest);
                assert(out@ =~= seq![v] + rv);
                Some((out, e2))
            },
            None => None,
        }
    } else {
        None
    }
}

/// Reads the whole text as an IPv4 address.
pub fn parse_ipv4(s: &Vec<char>) -> (r: Option<[u8; 4]>)
    ensures
        match ipv4_spec(s@) {
            Some(b) => r matches Some(a) && a@ == b,
            None => r is None,
        },
{
    match read_octets_at(s, 0, 4) {
        Some((b, e)) => {
            if e == s.len() {
                proof {
                    lemma_read_octets_len(s@, 0, 4);
                }
                let a = [b[0], b[1], b[2], b[3]];
                assert(a@ =~= b@);
                Some(a)
            } else {
                None
            }
        },
        None => None,
    }
}

proof fn lemma_read_octets_len(s: Seq<char>, i: int, k: nat)
    ensures
        read_octets(s, i, k) matches Some((b, e)) ==> b.len() == k && e >= i,
    decreases k,
{
    if k > 1 {
        match read_octet(s, i) {
            Some((v, e)) => {
                lemma_read_octets_len(s, e + 1, (k - 1) as nat);
            },
            None => {},
        }
    }
}

/// `16` to the power `k`.
pub open spec fn pow16(k: nat) -> nat
    decreases k,
{
    if k == 0 {
        1
    } else {
        16 * pow16((k - 1) as nat)
    }
}

/// Counts the hex digits in a row from index `i`.
fn count_hex(s: &Vec<char>, i: usize) -> (r: usize)
    requires
        i <= s@.len(),
    ensures
        r == hex_run(s@, i as int),
        i + r <= s@.len(),
{
    let n = s.len();
    let mut j: usize = i;
    while j < n && hex_digit(s[j]).is_some()
        invariant
            i <= j <= n == s@.len(),
            hex_run(s@, i as int) == (j - i) + hex_run(s@, j as int),
        decreases n - j,
    {
        j = j + 1;
    }
    j - i
}

/// Reads a group of an IPv6 address at index `i`.
fn read_hex_group_at(s: &Vec<char>, i: usize) -> (r: Option<(u16, usize)>)
    requires
        i <= s@.len(),
    ensures
        r is Some <==> read_hex_group(s@, i as int) is Some,
        r is Some ==> (r->0).0 == (read_hex_group(s@, i as int)->0).0 && (r->0).1 as int == (read_hex_group(s@, i as int)->0).1
            && (r->0).1 <= s@.len(),
{
    // The length of the text bounds the indices below.
    let _len = s.len();
    let n = count_hex(s, i);
    if n == 0 || n > 4 {
        return None;
    }
    proof {
        lemma_hex_run_digits(s@, i as int);
    }
    let mut acc: u64 = 0;
    let mut j: usize = i;
    let end = i + n;
    while j < end
        invariant
            i <= j <= i + n <= s@.len(),
            end == i + n,
            n <= 4,
            forall|k: int| i <= k < i + n ==> hex_value(#[trigger] s@[k]) is Some,
            acc as nat == hex_digits_value(s@.subrange(i as int, j as int)),
            acc < pow16((j - i) as nat),
        decreases i + n - j,
    {
        let h = match hex_digit(s[j]) {
            Some(h) => h,
            None => 0,
        };
        proof {
            let p = s@.subrange(i as int, j + 1);
            assert(p.drop_last() =~= s@.subrange(i as int, j as int));
            assert(h < 16) by {
                assert(hex_value(s@[j as int]) is Some);
            }
            reveal_with_fuel(pow16, 5);
            assert(acc * 16 + h < pow16((j + 1 - i) as nat)) by (nonlinear_arith)
                requires
                    acc < pow16((j - i) as nat),
                    h < 16,
                    pow16((j + 1 - i) as nat) == 16 * pow16((j - i) as nat),
            ;
        }
        acc = acc * 16 + h as u64;
        j = j + 1;
    }
    proof {
        reveal_with_fuel(pow16, 5);
    }
    Some((acc as u16, i + n))
}

proof fn lemma_hex_run_digits(s: Seq<char>, i: int)
    requires
        0 <= i,
    ensures
        forall|k: int| i <= k < i + hex_run(s, i) ==> hex_value(#[trigger] s[k]) is Some,
        hex_run(s, i) == 0 || i + hex_run(s, i) <= s.len(),
    decreases s.len() - i,
{
    if hex_run(s, i) > 0 {
        lemma_hex_run_digits(s, i + 1);
    }
}

/// Reads groups of an IPv6 address, as `read_groups` describes.
fn read_groups_at(s: &Vec<char>, pos: usize, idx: usize, limit: usize) -> (r: (Vec<u16>, usize, bool))
    requires
        pos <= s@.len(),
    ensures
        ({
            let (g, e, v4) = read_groups(s@, pos as int, idx as nat, limit as nat);
            r.0@ == g && r.1 == e && r.2 == v4 && e <= s@.len()
        }),
    decreases limit - idx,
{
    if idx >= limit {
        return (Vec::new(), pos, false);
    }
    let sep_ok = idx == 0 || (pos < s.len() && s[pos] == ':');
    if !sep_ok {
        return (Vec::new(), pos, false);
    }
    let start = if idx == 0 { pos } else { pos + 1 };
    if sep_ok && idx + 1 < limit {
        if let Some((b, e)) = read_octets_at(s, start, 4) {
            proof {
                lemma_read_octets_len(s@, start as int, 4);
            }
            let mut out: Vec<u16> = Vec::new();
            out.push(b[0] as u16 * 256 + b[1] as u16);
            out.push(b[2] as u16 * 256 + b[3] as u16);
            assert(out@ =~= seq![(b@[0] as u16 * 256 + b@[1] as u16) as u16, (b@[2] as u16 * 256 + b@[3] as u16) as u16]);
            return (out, e, true);
        }
    }
    if sep_ok {
        if let Some((g, e)) = read_hex_group_at(s, start) {
            let (rest, e2, v4) = read_groups_at(s, e, idx + 1, limit);
            assert(read_hex_group(s@, start as int) == Some((g, e as int)));
            assert(read_groups(s@, e as int, (idx + 1) as nat, limit as nat) == (rest@, e2 as int, v4));
            let mut out: Vec<u16> = Vec::new();
            out.push(g);
            let mut rest = rest;
            let ghost rv = rest@;
            out.append(&mut rest);
            assert(out@ =~= seq![g] + rv);
            return (out, e2, v4);
        }
    }
    (Vec::new(), pos, false)
}

proof fn lemma_read_groups_len(s: Seq<char>, pos: int, idx: nat, limit: nat)
    ensures
        idx <= limit ==> read_groups(s, pos, idx, limit).0.len() <= limit - idx,
    decreases limit - idx,
{
    if idx < limit {
        let start = if idx == 0 { pos } else { pos + 1 };
        if let Some((g, e)) = read_hex_group(s, start) {
            lemma_read_groups_len(s, e, idx + 1, limit);
        }
    }
}

/// Reads the whole text as an IPv6 address.
pub fn parse_ipv6(s: &Vec<char>) -> (r: Option<[u8; 16]>)
    ensures
        match ipv6_spec(s@) {
            Some(b) => r matches Some(a) && a@ == b,
            None => r is None,
        },
{
    let n = s.len();
    let (head, head_end, head_v4) = read_groups_at(s, 0, 0, 8);
    proof {
        lemma_read_groups_len(s@, 0, 0, 8);
    }
    let groups: Vec<u16> = if head.len() == 8 {
        if head_end != n {
            return None;
        }
        head
    } else if head_v4 {
        return None;
    } else if n > 1 && head_end < n - 1 && s[head_end] == ':' && s[head_end + 1] == ':' {
        let limit = 7 - head.len();
        let (tail, tail_end, _) = read_groups_at(s, head_end + 2, 0, limit);
        proof {
            lemma_read_groups_len(s@, (head_end + 2) as int, 0, limit as nat);
        }
        if tail_end != n {
            return None;
        }
        let mut all = head;
        let ghost hv = all@;
        let ghost zeros: int = 8 - hv.len() - tail@.len();
        let mut z: usize = 0;
        while all.len() + tail.len() < 8
            invariant
                all@.len() == hv.len() + z,
                hv.len() + tail@.len() <= 8,
                z <= zeros,
                zeros == 8 - hv.len() - tail@.len(),
                all@ =~= hv + Seq::new(z as nat, |i: int| 0u16),
            decreases 8 - all@.len() - tail@.len(),
        {
            all.push(0);
            z = z + 1;
        }
        assert(z == zeros);
        let mut tail = tail;
        let ghost tv = tail@;
        all.append(&mut tail);
        assert(all@ =~= hv + Seq::new((8 - hv.len() - tv.len()) as nat, |i: int| 0u16) + tv);
        all
    } else {
        return None;
    };
    let mut bytes: Vec<u8> = Vec::new();
    let mut k: usize = 0;
    while k < 8
        invariant
            0 <= k <= 8,
            groups@.len() == 8,
            bytes@.len() == 2 * k,
            forall|i: int| 0 <= i < 2 * k ==> #[trigger] bytes@[i] == group_bytes(groups@)[i],
        decreases 8 - k,
    {
        let g = groups[k];
        bytes.push((g / 256) as u8);
        bytes.push((g % 256) as u8);
        k = k + 1;
    }
    assert(bytes@ =~= group_bytes(groups@));
    let a = [
        bytes[0], bytes[1], bytes[2], bytes[3], bytes[4], bytes[5], bytes[6], bytes[7],
        bytes[8], bytes[9], bytes[10], bytes[11], bytes[12], bytes[13], bytes[14], bytes[15],
    ];
    assert(a@ =~= bytes@);
    Some(a)
}

} // verus!
