//! Peer identity: the 6-byte hardware address of a remote device and the
//! canonical storage key derived from it.
//!
//! The key format is uppercase colon-separated hexadecimal, exactly
//! `XX:XX:XX:XX:XX:XX` (17 characters). The derivation is deterministic and
//! injective, so records in the store correspond one-to-one to peers.

use vstd::prelude::*;

verus! {

/// The 6-byte hardware address that identifies a remote BLE peer. It is
/// supplied by the BLE stack with each connection event and is stable
/// across reconnects, unlike the connection handle.
#[derive(Clone, Copy, Debug, PartialEq, Eq)]
pub struct PeerAddress {
    pub octets: [u8; 6],
}

impl View for PeerAddress {
    type V = Seq<u8>;

    open spec fn view(&self) -> Seq<u8> {
        self.octets@
    }
}

impl PeerAddress {
    /// Wraps the raw 6-byte address handed over by the BLE stack.
    pub fn new(octets: [u8; 6]) -> (r: PeerAddress)
        ensures
            r@ == octets@,
    {
        PeerAddress { octets }
    }
}

/// The uppercase hexadecimal digit for a value below 16.
pub open spec fn hex_char(n: u8) -> char {
    if n == 0 {
        '0'
    } else if n == 1 {
        '1'
    } else if n == 2 {
        '2'
    } else if n == 3 {
        '3'
    } else if n == 4 {
        '4'
    } else if n == 5 {
        '5'
    } else if n == 6 {
        '6'
    } else if n == 7 {
        '7'
    } else if n == 8 {
        '8'
    } else if n == 9 {
        '9'
    } else if n == 10 {
        'A'
    } else if n == 11 {
        'B'
    } else if n == 12 {
        'C'
    } else if n == 13 {
        'D'
    } else if n == 14 {
        'E'
    } else {
        'F'
    }
}

/// The value of an uppercase hexadecimal digit; inverse of `hex_char`.
pub open spec fn hex_val(c: char) -> u8 {
    if c == '0' {
        0
    } else if c == '1' {
        1
    } else if c == '2' {
        2
    } else if c == '3' {
        3
    } else if c == '4' {
        4
    } else if c == '5' {
        5
    } else if c == '6' {
        6
    } else if c == '7' {
        7
    } else if c == '8' {
        8
    } else if c == '9' {
        9
    } else if c == 'A' {
        10
    } else if c == 'B' {
        11
    } else if c == 'C' {
        12
    } else if c == 'D' {
        13
    } else if c == 'E' {
        14
    } else {
        15
    }
}

proof fn lemma_hex_char_inverse(n: u8)
    requires
        n < 16,
    ensures
        hex_val(hex_char(n)) == n,
{
}

/// The two uppercase hexadecimal digits of one byte.
pub open spec fn byte_hex(b: u8) -> Seq<char> {
    seq![hex_char(b / 16), hex_char(b % 16)]
}

/// The canonical storage key of a 6-byte address: uppercase hexadecimal
/// bytes separated by colons, `XX:XX:XX:XX:XX:XX`.
pub open spec fn key_of(a: Seq<u8>) -> Seq<char>
    recommends
        a.len() == 6,
{
    byte_hex(a[0]) + seq![':'] + byte_hex(a[1]) + seq![':'] + byte_hex(a[2]) + seq![':'] + byte_hex(
        a[3],
    ) + seq![':'] + byte_hex(a[4]) + seq![':'] + byte_hex(a[5])
}

fn hex_char_str(n: u8) -> (r: &'static str)
    requires
        n < 16,
    ensures
        r@ == seq![hex_char(n)],
{
    proof {
        reveal_strlit("0");
        reveal_strlit("1");
        reveal_strlit("2");
        reveal_strlit("3");
        reveal_strlit("4");
        reveal_strlit("5");
        reveal_strlit("6");
        reveal_strlit("7");
        reveal_strlit("8");
        reveal_strlit("9");
        reveal_strlit("A");
        reveal_strlit("B");
        reveal_strlit("C");
        reveal_strlit("D");
        reveal_strlit("E");
        reveal_strlit("F");
    }
    let r: &'static str = if n == 0 {
        "0"
    } else if n == 1 {
        "1"
    } else if n == 2 {
        "2"
    } else if n == 3 {
        "3"
    } else if n == 4 {
        "4"
    } else if n == 5 {
        "5"
    } else if n == 6 {
        "6"
    } else if n == 7 {
        "7"
    } else if n == 8 {
        "8"
    } else if n == 9 {
        "9"
    } else if n == 10 {
        "A"
    } else if n == 11 {
        "B"
    } else if n == 12 {
        "C"
    } else if n == 13 {
        "D"
    } else if n == 14 {
        "E"
    } else {
        "F"
    };
    proof {
        assert(r@ =~= seq![hex_char(n)]);
    }
    r
}

fn push_byte_hex(s: &mut String, b: u8)
    ensures
        final(s)@ == old(s)@ + byte_hex(b),
{
    s.append(hex_char_str(b / 16));
    s.append(hex_char_str(b % 16));
    proof {
        assert(s@ =~= old(s)@ + byte_hex(b));
    }
}

/// Derives the canonical storage key for a peer address: 17 uppercase
/// hexadecimal and colon characters, `XX:XX:XX:XX:XX:XX`.
pub fn storage_key(addr: &PeerAddress) -> (r: String)
    ensures
        r@ == key_of(addr@),
        r@.len() == 17,
{
    proof {
        reveal_strlit(":");
    }
    let mut s = String::new();
    push_byte_hex(&mut s, addr.octets[0]);
    s.append(":");
    push_byte_hex(&mut s, addr.octets[1]);
    s.append(":");
    push_byte_hex(&mut s, addr.octets[2]);
    s.append(":");
    push_byte_hex(&mut s, addr.octets[3]);
    s.append(":");
    push_byte_hex(&mut s, addr.octets[4]);
    s.append(":");
    push_byte_hex(&mut s, addr.octets[5]);
    proof {
        assert(s@ =~= key_of(addr@));
    }
    s
}

/// Key derivation is deterministic and injective: two addresses derive the
/// same key exactly when they are the same address.
pub proof fn lemma_storage_key_injective(a: Seq<u8>, b: Seq<u8>)
    requires
        a.len() == 6,
        b.len() == 6,
    ensures
        key_of(a) == key_of(b) <==> a == b,
{
    if key_of(a) == key_of(b) {
        assert forall|i: int| 0 <= i < 6 implies a[i] == b[i] by {
            assert(key_of(a)[3 * i] == hex_char(a[i] / 16));
            assert(key_of(a)[3 * i + 1] == hex_char(a[i] % 16));
            assert(key_of(b)[3 * i] == hex_char(b[i] / 16));
            assert(key_of(b)[3 * i + 1] == hex_char(b[i] % 16));
            lemma_hex_char_inverse(a[i] / 16);
            lemma_hex_char_inverse(a[i] % 16);
            lemma_hex_char_inverse(b[i] / 16);
            lemma_hex_char_inverse(b[i] % 16);
            assert(a[i] == a[i] / 16 * 16 + a[i] % 16);
            assert(b[i] == b[i] / 16 * 16 + b[i] % 16);
        }
        assert(a =~= b);
    }
}

} // verus!
