use vstd::prelude::*;
use vstd::std_specs::iter::IteratorSpec;
use vstd::string::{axiom_spec_iter, next_postcondition};

verus! {

/// ASCII code of the digit `d` (0 to 9).
pub open spec fn digit(d: int) -> u8 {
    (48 + d) as u8
}

/// Decimal digits of `n`, most significant first, without leading zeros.
pub open spec fn decimal(n: nat) -> Seq<u8>
    decreases n,
{
    if n < 10 {
        seq![digit(n as int)]
    } else {
        decimal(n / 10) + seq![digit((n % 10) as int)]
    }
}

/// Decimal text of `i`, with a leading minus sign where it is negative.
pub open spec fn signed_decimal(i: int) -> Seq<u8> {
    if i < 0 {
        seq![45u8] + decimal((-i) as nat)
    } else {
        decimal(i as nat)
    }
}

/// Sends one byte.
pub fn putc(out: &mut Vec<u8>, c: u8)
    ensures
        final(out)@ == old(out)@.push(c),
{
    out.push(c);
}

/// The units that `puts` sends for a text: one per char, the char's code cut
/// to a byte.
pub open spec fn char_units(s: Seq<char>) -> Seq<u8> {
    s.map_values(|c: char| c as u8)
}

/// Sends the chars of `s`, one `putc` each.
pub fn puts(out: &mut Vec<u8>, s: &str)
    ensures
        final(out)@ == old(out)@ + char_units(s@),
{
    broadcast use axiom_spec_iter, next_postcondition;

    let mut it = s.chars();
    let ghost mut done: Seq<char> = seq![];
    loop
        invariant
            it.obeys_prophetic_iter_laws(),
            done + it.remaining() == s@,
            out@ == old(out)@ + char_units(done),
            it.decrease() is Some,
        ensures
            out@ == old(out)@ + char_units(s@),
        decreases it.decrease()->0,
    {
        match it.next() {
            Some(c) => {
                let unit = #[verifier::truncate] (c as u8);
                putc(out, unit);
                proof {
                    assert(done.push(c) + it.remaining() =~= s@);
                    assert(char_units(done.push(c)) =~= char_units(done).push(unit));
                    done = done.push(c);
                }
            },
            None => {
                assert(done =~= s@);
                break;
            },
        }
    }
}

/// Sends the decimal digits of `n`.
pub fn put_decimal(out: &mut Vec<u8>, n: u32)
    ensures
        final(out)@ == old(out)@ + decimal(n as nat),
    decreases n,
{
    if n >= 10 {
        put_decimal(out, n / 10);
    }
    out.push(48 + (n % 10) as u8);
    assert(decimal(n as nat) == if n < 10 {
        seq![digit(n as int)]
    } else {
        decimal((n / 10) as nat) + seq![digit((n % 10) as int)]
    });
}

/// Sends an integer in decimal.
pub fn puti(out: &mut Vec<u8>, i: i32)
    ensures
        final(out)@ == old(out)@ + signed_decimal(i as int),
{
    if i < 0 {
        putc(out, 45);
        put_decimal(out, (-(i as i64)) as u32);
        assert(old(out)@.push(45u8) + decimal((-i) as nat) == old(out)@ + (seq![45u8] + decimal((-i) as nat)));
    } else {
        put_decimal(out, i as u32);
    }
}

} // verus!
