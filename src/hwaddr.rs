//! Hardware (MAC-48) addresses.
use vstd::prelude::*;

use vstd::std_specs::cmp::PartialEqSpec;

use crate::text::{hex_byte, push_char, push_hex_byte};

verus! {

/// A hardware address (MAC-48) of an interface: six bytes, compared and
/// hashed by those bytes.
#[derive(Debug, Eq, Clone, Copy, Hash)]
pub struct HardwareAddr(pub [u8; 6]);

impl View for HardwareAddr {
    type V = Seq<u8>;

    open spec fn view(&self) -> Seq<u8> {
        self.0@
    }
}

impl PartialEq for HardwareAddr {
    fn eq(&self, o: &HardwareAddr) -> (r: bool)
        ensures
            r == (self@ == o@),
    {
        let r = self.0[0] == o.0[0] && self.0[1] == o.0[1] && self.0[2] == o.0[2] && self.0[3]
            == o.0[3] && self.0[4] == o.0[4] && self.0[5] == o.0[5];
        proof {
            if r {
                assert(self@ =~= o@);
            }
        }
        r
    }
}

impl vstd::std_specs::cmp::PartialEqSpecImpl for HardwareAddr {
    open spec fn obeys_eq_spec() -> bool {
        true
    }

    open spec fn eq_spec(&self, o: &HardwareAddr) -> bool {
        self@ == o@
    }
}

/// The bytes as lowercase hexadecimal, two digits each, with no separator.
pub open spec fn bare_hex(b: Seq<u8>) -> Seq<char>
    decreases b.len(),
{
    if b.len() == 0 {
        Seq::empty()
    } else {
        bare_hex(b.drop_last()) + hex_byte(b.last())
    }
}

/// The bytes as lowercase hexadecimal, two digits each, joined by colons.
pub open spec fn colon_hex(b: Seq<u8>) -> Seq<char>
    decreases b.len(),
{
    if b.len() == 0 {
        Seq::empty()
    } else if b.len() == 1 {
        hex_byte(b[0])
    } else {
        colon_hex(b.drop_last()) + seq![':'] + hex_byte(b.last())
    }
}

impl HardwareAddr {
    /// The empty address `00:00:00:00:00:00`.
    pub fn zero() -> (r: HardwareAddr)
        ensures
            r@ == seq![0u8, 0u8, 0u8, 0u8, 0u8, 0u8],
    {
        let r = HardwareAddr([0u8; 6]);
        assert(r@ =~= seq![0u8, 0u8, 0u8, 0u8, 0u8, 0u8]);
        r
    }

    /// The six octets as lowercase two-digit hexadecimal, separated by colons
    /// (`aa:bb:cc:dd:ee:ff`).
    pub fn as_string(&self) -> (r: String)
        ensures
            r@ == colon_hex(self@),
    {
        let mut s = String::new();
        let mut i: usize = 0;
        while i < 6
            invariant
                i <= 6,
                self@.len() == 6,
                s@ == colon_hex(self@.take(i as int)),
            decreases 6 - i,
        {
            if i > 0 {
                push_char(&mut s, ':');
            }
            push_hex_byte(&mut s, self.0[i]);
            assert(self@.take(i as int + 1).drop_last() =~= self@.take(i as int));
            i = i + 1;
        }
        assert(self@.take(6) =~= self@);
        s
    }

    /// The six octets as lowercase two-digit hexadecimal, with no separator
    /// (`aabbccddeeff`).
    pub fn as_bare_string(&self) -> (r: String)
        ensures
            r@ == bare_hex(self@),
    {
        let mut s = String::new();
        let mut i: usize = 0;
        while i < 6
            invariant
                i <= 6,
                self@.len() == 6,
                s@ == bare_hex(self@.take(i as int)),
            decreases 6 - i,
        {
            push_hex_byte(&mut s, self.0[i]);
            assert(self@.take(i as int + 1).drop_last() =~= self@.take(i as int));
            i = i + 1;
        }
        assert(self@.take(6) =~= self@);
        s
    }

    /// The six raw bytes, borrowed from this address.
    pub fn as_bytes(&self) -> (r: &[u8])
        ensures
            r@ == self@,
    {
        self.0.as_slice()
    }
}

/// The text with every colon taken out.
pub open spec fn without_colons(s: Seq<char>) -> Seq<char> {
    s.filter(|c: char| c != ':')
}

proof fn lemma_hex_byte_has_no_colon(b: u8)
    ensures
        without_colons(hex_byte(b)) == hex_byte(b),
{
    reveal_with_fuel(Seq::filter, 3);
    let h = hex_byte(b);
    assert(h.drop_last().drop_last() =~= Seq::<char>::empty());
    assert(h.drop_last() =~= seq![h[0]]);
    assert(h.filter(|c: char| c != ':') =~= h);
}

/// The bare form of any byte sequence is its colon-separated form with the
/// colons removed.
proof fn lemma_bare_hex_drops_colons(b: Seq<u8>)
    ensures
        bare_hex(b) == without_colons(colon_hex(b)),
    decreases b.len(),
{
    reveal_with_fuel(Seq::filter, 2);
    if b.len() == 0 {
    } else if b.len() == 1 {
        lemma_hex_byte_has_no_colon(b[0]);
        assert(b.drop_last() =~= Seq::<u8>::empty());
        assert(bare_hex(b.drop_last()) == Seq::<char>::empty());
        assert(bare_hex(b) =~= hex_byte(b[0]));
    } else {
        let pred = |c: char| c != ':';
        let init = colon_hex(b.drop_last());
        lemma_bare_hex_drops_colons(b.drop_last());
        lemma_hex_byte_has_no_colon(b.last());
        Seq::filter_distributes_over_add(init + seq![':'], hex_byte(b.last()), pred);
        Seq::filter_distributes_over_add(init, seq![':'], pred);
        assert(seq![':'].drop_last() =~= Seq::<char>::empty());
        assert(seq![':'].filter(pred) =~= Seq::<char>::empty());
        assert(init + Seq::<char>::empty() =~= init);
        assert(init.filter(pred) + Seq::<char>::empty() =~= init.filter(pred));
    }
}

/// For every address, `as_bare_string` is `as_string` with the colons
/// removed.
pub proof fn lemma_bare_string_drops_colons(a: HardwareAddr)
    ensures
        bare_hex(a@) == without_colons(colon_hex(a@)),
{
    lemma_bare_hex_drops_colons(a@);
}

/// The empty address reads `00:00:00:00:00:00`, and `000000000000` when
/// bare.
pub proof fn lemma_zero_text(a: HardwareAddr)
    requires
        a@ == seq![0u8, 0u8, 0u8, 0u8, 0u8, 0u8],
    ensures
        colon_hex(a@) == "00:00:00:00:00:00"@,
        bare_hex(a@) == "000000000000"@,
{
    reveal_strlit("00:00:00:00:00:00");
    reveal_strlit("000000000000");
    reveal_with_fuel(colon_hex, 7);
    reveal_with_fuel(bare_hex, 7);
    let z = a@;
    assert(hex_byte(0u8) =~= seq!['0', '0']);
    assert(z.drop_last() =~= seq![0u8, 0u8, 0u8, 0u8, 0u8]);
    assert(z.drop_last().drop_last() =~= seq![0u8, 0u8, 0u8, 0u8]);
    assert(z.drop_last().drop_last().drop_last() =~= seq![0u8, 0u8, 0u8]);
    assert(z.drop_last().drop_last().drop_last().drop_last() =~= seq![0u8, 0u8]);
    assert(z.drop_last().drop_last().drop_last().drop_last().drop_last() =~= seq![0u8]);
    assert(z.drop_last().drop_last().drop_last().drop_last().drop_last().drop_last()
        =~= Seq::<u8>::empty());
    assert(colon_hex(z) =~= "00:00:00:00:00:00"@);
    assert(bare_hex(z) =~= "000000000000"@);
}

/// Two addresses are `==` exactly when their six bytes agree one by one, that
/// is exactly when they are the same value (so that they also hash alike).
pub proof fn lemma_eq_iff_same_bytes(a: HardwareAddr, b: HardwareAddr)
    ensures
        a.eq_spec(&b) <==> (forall|i: int| 0 <= i < 6 ==> a.0[i] == b.0[i]),
        a.eq_spec(&b) <==> a == b,
{
    if forall|i: int| 0 <= i < 6 ==> a.0[i] == b.0[i] {
        assert(a@ =~= b@);
    }
    if a@ == b@ {
        assert(a.0 =~= b.0);
    }
}

} // verus!
