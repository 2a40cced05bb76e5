//! Small verified text builders (decimal numbers, byte-array debug form).

use vstd::prelude::*;
use vstd::string::StringExecFns;

verus! {

/// The character of a decimal digit.
pub open spec fn digit_char(d: nat) -> char {
    if d == 0 {
        '0'
    } else if d == 1 {
        '1'
    } else if d == 2 {
        '2'
    } else if d == 3 {
        '3'
    } else if d == 4 {
        '4'
    } else if d == 5 {
        '5'
    } else if d == 6 {
        '6'
    } else if d == 7 {
        '7'
    } else if d == 8 {
        '8'
    } else {
        '9'
    }
}

/// The decimal representation of a natural number (no leading zeros).
pub open spec fn decimal(n: nat) -> Seq<char>
    decreases n,
{
    if n < 10 {
        seq![digit_char(n)]
    } else {
        decimal(n / 10) + seq![digit_char(n % 10)]
    }
}

fn digit_str(d: u64) -> (s: &'static str)
    requires
        d < 10,
    ensures
        s@ == seq![digit_char(d as nat)],
{
    if d == 0 {
        proof { reveal_strlit("0"); }
        "0"
    } else if d == 1 {
        proof { reveal_strlit("1"); }
        "1"
    } else if d == 2 {
        proof { reveal_strlit("2"); }
        "2"
    } else if d == 3 {
        proof { reveal_strlit("3"); }
        "3"
    } else if d == 4 {
        proof { reveal_strlit("4"); }
        "4"
    } else if d == 5 {
        proof { reveal_strlit("5"); }
        "5"
    } else if d == 6 {
        proof { reveal_strlit("6"); }
        "6"
    } else if d == 7 {
        proof { reveal_strlit("7"); }
        "7"
    } else if d == 8 {
        proof { reveal_strlit("8"); }
        "8"
    } else {
        proof { reveal_strlit("9"); }
        "9"
    }
}

/// Appends the decimal representation of `n`.
pub fn push_decimal(out: &mut String, n: u64)
    ensures
        final(out)@ == old(out)@ + decimal(n as nat),
    decreases n,
{
    if n >= 10 {
        push_decimal(out, n / 10);
    }
    out.append(digit_str(n % 10));
    proof {
        assert(final(out)@ =~= old(out)@ + decimal(n as nat));
    }
}

/// The debug form of a byte string: `[b0, b1, ...]` in decimal.
pub open spec fn bytes_debug(b: Seq<u8>) -> Seq<char> {
    seq!['['] + bytes_list(b) + seq![']']
}

/// The comma-separated decimal list of a byte string.
pub open spec fn bytes_list(b: Seq<u8>) -> Seq<char>
    decreases b.len(),
{
    if b.len() == 0 {
        Seq::empty()
    } else if b.len() == 1 {
        decimal(b[0] as nat)
    } else {
        bytes_list(b.drop_last()) + seq![',', ' '] + decimal(b.last() as nat)
    }
}

/// Appends the debug form of a 32-byte array.
pub fn push_bytes_debug(out: &mut String, b: &[u8; 32])
    ensures
        final(out)@ == old(out)@ + bytes_debug(b@),
{
    let ghost start = out@;
    proof { reveal_strlit("["); reveal_strlit("]"); reveal_strlit(", "); }
    out.append("[");
    let mut i: usize = 0;
    while i < 32
        invariant
            0 <= i <= 32,
            out@ == start + seq!['['] + bytes_list(b@.take(i as int)),
        decreases 32 - i,
    {
        let ghost prev = out@;
        proof { reveal_strlit(", "); }
        if i > 0 {
            out.append(", ");
        }
        let ghost mid = out@;
        push_decimal(out, b[i] as u64);
        proof {
            let t = b@.take(i + 1);
            assert(t.drop_last() =~= b@.take(i as int));
            assert(t.last() == b@[i as int]);
            if i == 0 {
                assert(t.len() == 1);
                assert(t[0] == b@[0]);
                assert(mid == prev);
                assert(bytes_list(t) == decimal(b@[0] as nat));
            } else {
                assert(mid == prev + seq![',', ' ']);
                assert(bytes_list(t) == bytes_list(b@.take(i as int)) + seq![',', ' '] + decimal(
                    b@[i as int] as nat,
                ));
            }
            assert(out@ =~= start + seq!['['] + bytes_list(t));
        }
        i = i + 1;
    }
    out.append("]");
    proof {
        assert(b@.take(32) =~= b@);
        assert(out@ =~= start + bytes_debug(b@));
    }
}

/// A lowercase hexadecimal digit.
pub open spec fn hex_digit(d: nat) -> char {
    if d < 10 {
        (48 + d) as char
    } else {
        (87 + d) as char
    }
}

/// Lowercase hexadecimal of a byte string, two digits per byte, in order.
pub open spec fn hex_chars(b: Seq<u8>) -> Seq<char>
    decreases b.len(),
{
    if b.len() == 0 {
        Seq::empty()
    } else {
        hex_chars(b.drop_last()) + seq![
            hex_digit(b.last() as nat / 16),
            hex_digit(b.last() as nat % 16),
        ]
    }
}

/// Calls `hex::encode`, which writes each byte as two lowercase hexadecimal
/// digits, high nibble first.
#[verifier::external_body]
pub(crate) fn hex_encode(b: &[u8]) -> (s: String)
    ensures
        s@ == hex_chars(b@),
{
    hex::encode(b)
}

} // verus!
