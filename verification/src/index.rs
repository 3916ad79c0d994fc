//! The sidecar index: one text line per packed image, `<name> <offset> <size>`.
use vstd::prelude::*;

verus! {

/// One record of the index: where a packed image landed in the archive.
#[derive(Debug)]
pub struct Entry {
    pub name: Vec<u8>,
    pub offset: u64,
    pub size: u64,
}

/// The decimal digits of `n`, most significant first, as ASCII bytes.
pub open spec fn dec_digits(n: nat) -> Seq<u8>
    decreases n,
{
    if n < 10 {
        seq![(n + 48) as u8]
    } else {
        dec_digits(n / 10).push((n % 10 + 48) as u8)
    }
}

/// The index line recording one entry: the name, the offset and the size in
/// decimal, separated by single spaces and closed by a line feed.
pub open spec fn line_spec(name: Seq<u8>, offset: u64, size: u64) -> Seq<u8> {
    name + seq![32u8] + dec_digits(offset as nat) + seq![32u8] + dec_digits(size as nat) + seq![
        10u8,
    ]
}

/// Appends the decimal rendering of `n` to `out`.
pub fn push_decimal(out: &mut Vec<u8>, n: u64)
    ensures
        final(out)@ == old(out)@ + dec_digits(n as nat),
{
    let ghost base = out@;
    let mut rev: Vec<u8> = Vec::new();
    let mut m: u64 = n;
    while m >= 10
        invariant
            dec_digits(n as nat) == dec_digits(m as nat) + rev@.reverse(),
        decreases m,
    {
        let d: u8 = (m % 10) as u8 + 48;
        proof {
            assert(dec_digits(m as nat) == dec_digits((m as nat) / 10).push(
                ((m as nat) % 10 + 48) as u8,
            ));
            assert(rev@.push(d).reverse() =~= seq![d] + rev@.reverse());
            assert(dec_digits((m as nat) / 10) + (seq![d] + rev@.reverse()) =~= (dec_digits(
                (m as nat) / 10,
            ) + seq![d]) + rev@.reverse());
            assert(dec_digits((m as nat) / 10).push(d) == dec_digits((m as nat) / 10) + seq![d]);
        }
        rev.push(d);
        m = m / 10;
    }
    let ghost digits = dec_digits(n as nat);
    proof {
        assert(dec_digits(m as nat) == seq![(m + 48) as u8]);
        assert(digits == seq![(m + 48) as u8] + rev@.reverse());
        assert(digits.len() == 1 + rev@.len());
    }
    out.push(m as u8 + 48);
    let ghost mid = base + digits.take(1);
    proof {
        assert(digits.take(1) =~= seq![(m + 48) as u8]);
        assert(out@ == mid);
    }
    let count = rev.len();
    for i in 0..count
        invariant
            count == rev@.len(),
            digits == dec_digits(n as nat),
            digits == seq![(m + 48) as u8] + rev@.reverse(),
            digits.len() == 1 + count,
            m < 10,
            out@ == base + digits.take(1 + i),
    {
        let d = rev[count - 1 - i];
        proof {
            assert(rev@.reverse()[i as int] == rev@[count - 1 - i]);
            assert(digits[1 + i] == rev@.reverse()[i as int]);
            assert(digits.take(1 + i + 1) =~= digits.take(1 + i).push(digits[1 + i]));
        }
        out.push(d);
    }
    proof {
        assert(digits.take(1 + count) =~= digits);
    }
}

/// Renders the index line for one entry.
pub fn render_line(e: &Entry) -> (r: Vec<u8>)
    ensures
        r@ == line_spec(e.name@, e.offset, e.size),
{
    let mut out: Vec<u8> = Vec::new();
    let n = e.name.len();
    for i in 0..n
        invariant
            n == e.name@.len(),
            out@ == e.name@.take(i as int),
    {
        let b = e.name[i];
        proof {
            assert(e.name@.take(i + 1) =~= e.name@.take(i as int).push(e.name@[i as int]));
        }
        out.push(b);
    }
    proof {
        assert(e.name@.take(n as int) =~= e.name@);
    }
    out.push(32);
    push_decimal(&mut out, e.offset);
    out.push(32);
    push_decimal(&mut out, e.size);
    out.push(10);
    proof {
        assert(out@ =~= line_spec(e.name@, e.offset, e.size));
    }
    out
}

} // verus!
