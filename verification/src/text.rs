//! Character-level building blocks: decimal and hexadecimal numerals, and pieces of
//! text joined by a separator.

use vstd::prelude::*;

verus! {

/// `String::push` appends exactly one character to the end of the string.
pub assume_specification[ String::push ](s: &mut String, c: char)
    ensures
        final(s)@ == old(s)@.push(c),
;

/// The character that stands for the digit `d` in base ten or, in lower case, sixteen.
pub open spec fn digit_char(d: nat) -> char
    recommends
        d < 16,
{
    if d < 10 {
        (48 + d) as u8 as char
    } else {
        (87 + d) as u8 as char
    }
}

/// The decimal numeral of `n`, most significant digit first, without leading zeros;
/// zero is the single digit `0`.
pub open spec fn decimal(n: nat) -> Seq<char>
    decreases n,
{
    if n < 10 {
        seq![digit_char(n)]
    } else {
        decimal(n / 10).push(digit_char(n % 10))
    }
}

/// The lower-case hexadecimal numeral of `n`, most significant digit first, without
/// leading zeros; zero is the single digit `0`.
pub open spec fn hexadecimal(n: nat) -> Seq<char>
    decreases n,
{
    if n < 16 {
        seq![digit_char(n)]
    } else {
        hexadecimal(n / 16).push(digit_char(n % 16))
    }
}

fn digit(d: usize) -> (c: char)
    requires
        d < 16,
    ensures
        c == digit_char(d as nat),
{
    let code: u8 = if d < 10 {
        48u8 + d as u8
    } else {
        87u8 + d as u8
    };
    code as char
}

/// Appends the decimal numeral of `n` to `out`.
pub fn push_decimal(out: &mut String, n: usize)
    ensures
        final(out)@ == old(out)@ + decimal(n as nat),
    decreases n,
{
    if n >= 10 {
        push_decimal(out, n / 10);
    }
    out.push(digit(n % 10));
}

/// Appends the lower-case hexadecimal numeral of `n` to `out`.
pub fn push_hexadecimal(out: &mut String, n: usize)
    ensures
        final(out)@ == old(out)@ + hexadecimal(n as nat),
    decreases n,
{
    if n >= 16 {
        push_hexadecimal(out, n / 16);
    }
    out.push(digit(n % 16));
}

/// The pieces of `parts` in order, with `sep` between each two neighbours.
pub open spec fn joined(parts: Seq<Seq<char>>, sep: Seq<char>) -> Seq<char>
    decreases parts.len(),
{
    if parts.len() == 0 {
        Seq::empty()
    } else if parts.len() == 1 {
        parts[0]
    } else {
        joined(parts.drop_last(), sep) + sep + parts.last()
    }
}

/// Joining the first `n + 1` pieces extends the join of the first `n` by the
/// separator (unless `n` is zero) and the next piece.
pub proof fn lemma_joined_step(parts: Seq<Seq<char>>, sep: Seq<char>, n: int)
    requires
        0 <= n < parts.len(),
    ensures
        joined(parts.take(n + 1), sep) == if n == 0 {
            parts[0]
        } else {
            joined(parts.take(n), sep) + sep + parts[n]
        },
{
    let head = parts.take(n + 1);
    assert(head.drop_last() =~= parts.take(n));
}

/// Appends the strings of `parts` to `out`, with `sep` between each two neighbours.
pub fn push_joined(out: &mut String, parts: &Vec<String>, sep: &str)
    ensures
        final(out)@ == old(out)@ + joined(string_views(parts@), sep@),
{
    let ghost views = string_views(parts@);
    let mut i: usize = 0;
    while i < parts.len()
        invariant
            i <= parts.len(),
            views == string_views(parts@),
            out@ == old(out)@ + joined(views.take(i as int), sep@),
        decreases parts.len() - i,
    {
        proof {
            lemma_joined_step(views, sep@, i as int);
        }
        if i > 0 {
            out.append(sep);
        }
        out.append(parts[i].as_str());
        i += 1;
    }
    assert(views.take(parts.len() as int) =~= views);
}

/// The contents of each string of `v`, in order.
pub open spec fn string_views(v: Seq<String>) -> Seq<Seq<char>> {
    v.map_values(|s: String| s@)
}

} // verus!
