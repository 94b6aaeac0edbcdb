//! Textual form of the IP addresses found in subject alternative names.
//!
//! An address arrives as the raw octets of the certificate: four of them are an IPv4
//! address, sixteen an IPv6 address, and any other count is reported as data rather than
//! rejected.

use crate::text::{
    decimal, hexadecimal, joined, lemma_joined_step, push_decimal, push_hexadecimal,
};
use vstd::prelude::*;

verus! {

/// The octets in decimal, separated by dots.
pub open spec fn dotted_decimal(octets: Seq<u8>) -> Seq<char> {
    joined(octets.map_values(|o: u8| decimal(o as nat)), seq!['.'])
}

/// The eight 16-bit groups of an IPv6 address, each from two octets in network order.
pub open spec fn groups(octets: Seq<u8>) -> Seq<u16>
    recommends
        octets.len() == 16,
{
    Seq::new(8, |i: int| (octets[2 * i] as nat * 256 + octets[2 * i + 1] as nat) as u16)
}

/// The groups in lower-case hexadecimal without leading zeros, separated by colons.
pub open spec fn colon_hex(g: Seq<u16>) -> Seq<char> {
    joined(g.map_values(|x: u16| hexadecimal(x as nat)), seq![':'])
}

/// The groups from `start` on, `len` of them and at least one, are all zero.
pub open spec fn zero_run(g: Seq<u16>, start: int, len: int) -> bool {
    &&& 0 <= start
    &&& 1 <= len
    &&& start + len <= g.len()
    &&& forall|k: int| start <= k < start + len ==> g[k] == 0
}

/// The run at `start` of length `len` is a longest run of zero groups, and of the
/// longest ones the leftmost.
pub open spec fn leftmost_longest_zero_run(g: Seq<u16>, start: int, len: int) -> bool {
    &&& zero_run(g, start, len)
    &&& forall|a: int, l: int| #[trigger] zero_run(g, a, l) ==> l < len || (l == len && start <= a)
}

/// The run of zero groups that is written as `::`: the leftmost longest one, if it
/// spans at least two groups.
pub open spec fn elided_run(g: Seq<u16>) -> Option<(int, int)> {
    if exists|p: (int, int)| leftmost_longest_zero_run(g, p.0, p.1) && p.1 >= 2 {
        Some(choose|p: (int, int)| leftmost_longest_zero_run(g, p.0, p.1) && p.1 >= 2)
    } else {
        None
    }
}

/// The address embeds an IPv4 address after the prefix `::ffff:`.
pub open spec fn is_v4_mapped(g: Seq<u16>) -> bool {
    &&& g.len() == 8
    &&& forall|k: int| 0 <= k < 5 ==> g[k] == 0
    &&& g[5] == 0xffff
}

/// The canonical text of an IPv6 address: groups in hexadecimal separated by colons,
/// the leftmost longest run of two or more zero groups replaced by `::`, and an
/// IPv4-mapped address with its last four octets in dotted decimal.
pub open spec fn ipv6_text(octets: Seq<u8>) -> Seq<char>
    recommends
        octets.len() == 16,
{
    let g = groups(octets);
    if is_v4_mapped(g) {
        "::ffff:"@ + dotted_decimal(octets.subrange(12, 16))
    } else {
        match elided_run(g) {
            Some((start, len)) => colon_hex(g.subrange(0, start)) + "::"@ + colon_hex(
                g.subrange(start + len, 8),
            ),
            None => colon_hex(g),
        }
    }
}

/// The text that stands for an IP address given by its octets: dotted decimal for
/// four octets, colon-separated hexadecimal for sixteen, and a marker with the count
/// for any other number.
pub open spec fn ip_text(octets: Seq<u8>) -> Seq<char> {
    if octets.len() == 4 {
        dotted_decimal(octets)
    } else if octets.len() == 16 {
        ipv6_text(octets)
    } else {
        "invalid (len="@ + decimal(octets.len()) + ")"@
    }
}

/// At most one run is the leftmost longest.
pub proof fn lemma_leftmost_longest_unique(g: Seq<u16>, s1: int, l1: int, s2: int, l2: int)
    requires
        leftmost_longest_zero_run(g, s1, l1),
        leftmost_longest_zero_run(g, s2, l2),
    ensures
        s1 == s2,
        l1 == l2,
{
}

fn push_dotted_decimal(out: &mut String, octets: &[u8], from: usize, to: usize)
    requires
        from <= to <= octets.len(),
    ensures
        final(out)@ == old(out)@ + dotted_decimal(octets@.subrange(from as int, to as int)),
{
    let ghost parts = octets@.subrange(from as int, to as int).map_values(
        |o: u8| decimal(o as nat),
    );
    let mut i: usize = from;
    while i < to
        invariant
            from <= i <= to <= octets.len(),
            parts == octets@.subrange(from as int, to as int).map_values(
                |o: u8| decimal(o as nat),
            ),
            out@ == old(out)@ + joined(parts.take(i - from), seq!['.']),
        decreases to - i,
    {
        proof {
            lemma_joined_step(parts, seq!['.'], i - from);
        }
        if i > from {
            out.push('.');
        }
        push_decimal(out, octets[i] as usize);
        i += 1;
    }
    assert(parts.take(to - from) =~= parts);
}

fn push_colon_hex(out: &mut String, g: &Vec<u16>, from: usize, to: usize)
    requires
        from <= to <= g.len(),
    ensures
        final(out)@ == old(out)@ + colon_hex(g@.subrange(from as int, to as int)),
{
    let ghost parts = g@.subrange(from as int, to as int).map_values(
        |x: u16| hexadecimal(x as nat),
    );
    let mut i: usize = from;
    while i < to
        invariant
            from <= i <= to <= g.len(),
            parts == g@.subrange(from as int, to as int).map_values(
                |x: u16| hexadecimal(x as nat),
            ),
            out@ == old(out)@ + joined(parts.take(i - from), seq![':']),
        decreases to - i,
    {
        proof {
            lemma_joined_step(parts, seq![':'], i - from);
        }
        if i > from {
            out.push(':');
        }
        push_hexadecimal(out, g[i] as usize);
        i += 1;
    }
    assert(parts.take(to - from) =~= parts);
}

fn read_groups(octets: &[u8]) -> (g: Vec<u16>)
    requires
        octets.len() == 16,
    ensures
        g@ == groups(octets@),
{
    let mut g: Vec<u16> = Vec::new();
    let mut i: usize = 0;
    while i < 8
        invariant
            i <= 8,
            octets.len() == 16,
            g.len() == i,
            forall|k: int| 0 <= k < i ==> g[k] == groups(octets@)[k],
        decreases 8 - i,
    {
        let high: u16 = octets[2 * i] as u16;
        let low: u16 = octets[2 * i + 1] as u16;
        g.push(high * 256 + low);
        i += 1;
    }
    g
}

/// Finds the run of zero groups to elide, as `(start, len)`.
fn find_elided_run(g: &Vec<u16>) -> (r: Option<(usize, usize)>)
    requires
        g.len() == 8,
    ensures
        match r {
            Some((start, len)) => elided_run(g@) == Some((start as int, len as int)),
            None => elided_run(g@) is None,
        },
{
    let mut best_start: usize = 0;
    let mut best_len: usize = 0;
    let mut run: usize = 0;
    let mut i: usize = 0;
    while i < g.len()
        invariant
            i <= g.len(),
            run <= i,
            forall|k: int| i - run <= k < i ==> g[k] == 0,
            run < i ==> g[i - run - 1] != 0,
            best_len == 0 ==> forall|k: int| 0 <= k < i ==> g[k] != 0,
            best_len > 0 ==> zero_run(g@, best_start as int, best_len as int) && best_start
                + best_len <= i,
            forall|a: int, l: int| #[trigger]
                zero_run(g@, a, l) && a + l <= i ==> l < best_len || (l == best_len && best_start
                    <= a),
        decreases g.len() - i,
    {
        if g[i] == 0 {
            run += 1;
            if run > best_len {
                best_start = i + 1 - run;
                best_len = run;
            }
        } else {
            run = 0;
        }
        i += 1;
    }
    if best_len >= 2 {
        proof {
            let p = (best_start as int, best_len as int);
            assert(leftmost_longest_zero_run(g@, p.0, p.1) && p.1 >= 2);
            let q = choose|q: (int, int)| leftmost_longest_zero_run(g@, q.0, q.1) && q.1 >= 2;
            lemma_leftmost_longest_unique(g@, p.0, p.1, q.0, q.1);
        }
        Some((best_start, best_len))
    } else {
        None
    }
}

fn push_ipv6(out: &mut String, octets: &[u8])
    requires
        octets.len() == 16,
    ensures
        final(out)@ == old(out)@ + ipv6_text(octets@),
{
    let g = read_groups(octets);
    if g[0] == 0 && g[1] == 0 && g[2] == 0 && g[3] == 0 && g[4] == 0 && g[5] == 0xffff {
        out.append("::ffff:");
        push_dotted_decimal(out, octets, 12, 16);
    } else {
        match find_elided_run(&g) {
            Some((start, len)) => {
                push_colon_hex(out, &g, 0, start);
                out.append("::");
                push_colon_hex(out, &g, start + len, 8);
            },
            None => {
                push_colon_hex(out, &g, 0, 8);
                assert(g@.subrange(0, 8) =~= g@);
            },
        }
    }
}

/// Renders the octets of an IP address: four as dotted-decimal IPv4, sixteen as
/// colon-hexadecimal IPv6, any other count as `invalid (len=N)`.
pub fn format_ip(octets: &[u8]) -> (text: String)
    ensures
        text@ == ip_text(octets@),
{
    let mut out = String::new();
    if octets.len() == 4 {
        push_dotted_decimal(&mut out, octets, 0, 4);
        assert(octets@.subrange(0, 4) =~= octets@);
    } else if octets.len() == 16 {
        push_ipv6(&mut out, octets);
    } else {
        out.append("invalid (len=");
        push_decimal(&mut out, octets.len());
        out.append(")");
    }
    out
}

} // verus!
