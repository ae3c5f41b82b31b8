//! Small formatting helpers: the colon-separated lower-case hex form of a
//! hardware address, as bytes for the wire and as a string for logs and
//! upload paths.

use vstd::prelude::*;
use vstd::string::StringExecFns;

verus! {

/// ASCII code of the lower-case hex digit for `d`.
pub open spec fn hex_digit(d: u8) -> u8
    recommends
        d < 16,
{
    if d < 10 {
        (48 + d) as u8
    } else {
        (87 + d) as u8
    }
}

/// The ASCII bytes `"aa:bb:..."` of an address: two lower-case hex digits
/// per byte, colon-separated.
pub open spec fn mac_bytes(mac: Seq<u8>) -> Seq<u8>
    decreases mac.len(),
{
    if mac.len() == 0 {
        Seq::empty()
    } else if mac.len() == 1 {
        seq![hex_digit(mac[0] >> 4), hex_digit(mac[0] & 0x0f)]
    } else {
        mac_bytes(mac.drop_last()) + seq![
            58u8,
            hex_digit(mac.last() >> 4),
            hex_digit(mac.last() & 0x0f),
        ]
    }
}

/// `mac_bytes` as characters.
pub open spec fn mac_chars(mac: Seq<u8>) -> Seq<char> {
    mac_bytes(mac).map_values(|b: u8| b as char)
}

fn hex_digit_exec(d: u8) -> (r: u8)
    requires
        d < 16,
    ensures
        r == hex_digit(d),
{
    if d < 10 {
        48 + d
    } else {
        87 + d
    }
}

/// The colon-separated lower-case hex bytes of an address.
pub fn mac_to_bytes(mac: &[u8]) -> (r: Vec<u8>)
    ensures
        r@ == mac_bytes(mac@),
{
    let mut out: Vec<u8> = Vec::new();
    let mut i: usize = 0;
    proof {
        assert(mac@.take(0) =~= Seq::<u8>::empty());
    }
    while i < mac.len()
        invariant
            i <= mac@.len(),
            out@ == mac_bytes(mac@.take(i as int)),
        decreases mac@.len() - i,
    {
        if i > 0 {
            out.push(58);
        }
        let b = mac[i];
        proof {
            assert(b >> 4 < 16 && b & 0x0f < 16) by (bit_vector);
        }
        out.push(hex_digit_exec(b >> 4));
        out.push(hex_digit_exec(b & 0x0f));
        proof {
            let t = mac@.take(i + 1);
            assert(t.drop_last() =~= mac@.take(i as int));
            assert(t.last() == mac@[i as int]);
            if i == 0 {
                assert(out@ =~= mac_bytes(t));
            } else {
                assert(out@ =~= mac_bytes(t));
            }
        }
        i += 1;
    }
    proof {
        assert(mac@.take(mac@.len() as int) =~= mac@);
    }
    out
}

fn hex_digit_str(d: u8) -> (r: &'static str)
    requires
        d < 16,
    ensures
        r@ =~= seq![hex_digit(d) as char],
{
    proof {
        reveal_strlit("0");
        reveal_strlit("1");
        reveal_strlit("2");
        reveal_strlit("3");
        reveal_strlit("4");
        reveal_strlit("5");
        reveal_strlit("6");
        reveal_strlit("7");
        reveal_strlit("8");
        reveal_strlit("9");
        reveal_strlit("a");
        reveal_strlit("b");
        reveal_strlit("c");
        reveal_strlit("d");
        reveal_strlit("e");
        reveal_strlit("f");
    }
    match d {
        0 => "0",
        1 => "1",
        2 => "2",
        3 => "3",
        4 => "4",
        5 => "5",
        6 => "6",
        7 => "7",
        8 => "8",
        9 => "9",
        10 => "a",
        11 => "b",
        12 => "c",
        13 => "d",
        14 => "e",
        _ => "f",
    }
}

/// Formats an address as the colon-separated lower-case hex string used
/// for relay `src` fields, logs and upload paths.
pub fn mac_to_string(mac: &[u8]) -> (r: String)
    ensures
        r@ == mac_chars(mac@),
{
    proof {
        reveal_strlit(":");
    }
    let mut out = String::new();
    let mut i: usize = 0;
    proof {
        assert(mac@.take(0) =~= Seq::<u8>::empty());
        assert(out@ =~= mac_chars(mac@.take(0)));
    }
    while i < mac.len()
        invariant
            i <= mac@.len(),
            out@ == mac_chars(mac@.take(i as int)),
        decreases mac@.len() - i,
    {
        proof {
            reveal_strlit(":");
        }
        if i > 0 {
            out.append(":");
        }
        let b = mac[i];
        proof {
            assert(b >> 4 < 16 && b & 0x0f < 16) by (bit_vector);
        }
        out.append(hex_digit_str(b >> 4));
        out.append(hex_digit_str(b & 0x0f));
        proof {
            let t = mac@.take(i + 1);
            assert(t.drop_last() =~= mac@.take(i as int));
            assert(t.last() == mac@[i as int]);
            assert((":")@ =~= seq![':']);
            assert(':' == 58u8 as char);
            assert(out@ =~= mac_chars(t));
        }
        i += 1;
    }
    proof {
        assert(mac@.take(mac@.len() as int) =~= mac@);
    }
    out
}

} // verus!
