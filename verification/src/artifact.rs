//! The generated-identity artifact: the credential's raw private-key
//! bytes serialized as a JSON array of integers, exactly as it is written
//! to `program-id.json` at the destination root.

use vstd::prelude::*;
use vstd::string::*;

verus! {

/// The decimal digits of `n`, most significant first.
pub open spec fn spec_decimal(n: nat) -> Seq<char>
    decreases n,
{
    if n < 10 {
        seq![((48 + n) as u8) as char]
    } else {
        spec_decimal(n / 10).push(((48 + n % 10) as u8) as char)
    }
}

/// The JSON rendering of a byte sequence: the decimal bytes, separated by
/// commas, between square brackets, without spaces.
pub open spec fn spec_json_byte_array(bytes: Seq<u8>) -> Seq<char> {
    seq!['['] + spec_comma_separated(bytes) + seq![']']
}

/// The comma-separated decimal renderings of the bytes.
pub open spec fn spec_comma_separated(bytes: Seq<u8>) -> Seq<char>
    decreases bytes.len(),
{
    if bytes.len() == 0 {
        Seq::empty()
    } else if bytes.len() == 1 {
        spec_decimal(bytes[0] as nat)
    } else {
        spec_comma_separated(bytes.drop_last()) + seq![','] + spec_decimal(bytes.last() as nat)
    }
}

/// One decimal digit as a string slice.
fn digit_str(d: u8) -> (r: &'static str)
    requires
        d < 10,
    ensures
        r@ =~= seq![((48 + d) as u8) as char],
{
    proof {
        reveal_strlit("0");
        reveal_strlit("1");
        reveal_strlit("2");
        reveal_strlit("3");
        reveal_strlit("4");
        reveal_strlit("5");
        reveal_strlit("6");
        reveal_strlit("7");
        reveal_strlit("8");
        reveal_strlit("9");
    }
    match d {
        0 => "0",
        1 => "1",
        2 => "2",
        3 => "3",
        4 => "4",
        5 => "5",
        6 => "6",
        7 => "7",
        8 => "8",
        _ => "9",
    }
}

/// Append the decimal rendering of `n` to `out`.
fn append_decimal_u32(out: &mut String, n: u32)
    ensures
        final (out)@ == old(out)@ + spec_decimal(n as nat),
    decreases n,
{
    if n < 10 {
        let d = digit_str(n as u8);
        out.append(d);
    } else {
        append_decimal_u32(out, n / 10);
        let d = digit_str((n % 10) as u8);
        out.append(d);
        proof {
            assert(old(out)@ + spec_decimal((n / 10) as nat) + d@ =~= old(out)@ + spec_decimal(
                n as nat,
            ));
        }
    }
}

/// Serializes a credential's raw bytes as a JSON array of integers —
/// the exact contents of the generated `program-id.json` artifact.
pub fn program_id_json(key_bytes: &Vec<u8>) -> (r: String)
    ensures
        r@ == spec_json_byte_array(key_bytes@),
{
    let mut out = String::new();
    proof {
        reveal_strlit("[");
        reveal_strlit("]");
        reveal_strlit(",");
    }
    out.append("[");
    let mut i: usize = 0;
    while i < key_bytes.len()
        invariant
            i <= key_bytes@.len(),
            out@ =~= seq!['['] + spec_comma_separated(key_bytes@.take(i as int)),
        decreases key_bytes@.len() - i,
    {
        proof {
            reveal_strlit(",");
        }
        if i > 0 {
            out.append(",");
        }
        append_decimal_u32(&mut out, key_bytes[i] as u32);
        proof {
            let prefix = key_bytes@.take(i as int + 1);
            assert(prefix.drop_last() =~= key_bytes@.take(i as int));
            assert(prefix.last() == key_bytes@[i as int]);
            assert(out@ =~= seq!['['] + spec_comma_separated(prefix));
        }
        i = i + 1;
    }
    out.append("]");
    proof {
        assert(key_bytes@.take(key_bytes@.len() as int) =~= key_bytes@);
        assert(out@ =~= spec_json_byte_array(key_bytes@));
    }
    out
}

} // verus!
