//! Little-endian integer wrappers and the nibble array used by the packed
//! board format, together with the byte-level spec functions that the
//! serializers are proved against.
use vstd::prelude::*;

verus! {

/// The little-endian bytes of a non-negative value, lowest byte first.
pub open spec fn le_bytes(v: int, n: nat) -> Seq<u8>
    decreases n,
{
    if n == 0 {
        Seq::empty()
    } else {
        seq![(v % 256) as u8] + le_bytes(v / 256, (n - 1) as nat)
    }
}

/// The value of a little-endian byte string.
pub open spec fn le_value(s: Seq<u8>) -> int
    decreases s.len(),
{
    if s.len() == 0 {
        0
    } else {
        s[0] + 256 * le_value(s.skip(1))
    }
}

pub open spec fn pow256(n: nat) -> int
    decreases n,
{
    if n == 0 {
        1
    } else {
        256 * pow256((n - 1) as nat)
    }
}

pub proof fn lemma_le_bytes_len(v: int, n: nat)
    ensures
        le_bytes(v, n).len() == n,
    decreases n,
{
    if n > 0 {
        lemma_le_bytes_len(v / 256, (n - 1) as nat);
    }
}

pub proof fn lemma_le_value_bound(s: Seq<u8>)
    ensures
        0 <= le_value(s) < pow256(s.len()),
    decreases s.len(),
{
    if s.len() > 0 {
        lemma_le_value_bound(s.skip(1));
    }
}

/// Encoding then decoding gives the value back.
pub proof fn lemma_le_roundtrip(v: int, n: nat)
    requires
        0 <= v < pow256(n),
    ensures
        le_value(le_bytes(v, n)) == v,
    decreases n,
{
    if n > 0 {
        lemma_le_bytes_len(v / 256, (n - 1) as nat);
        assert(le_bytes(v, n).skip(1) =~= le_bytes(v / 256, (n - 1) as nat));
        lemma_le_roundtrip(v / 256, (n - 1) as nat);
    }
}

/// Byte strings of equal length with the same value are equal.
pub proof fn lemma_le_value_injective(s1: Seq<u8>, s2: Seq<u8>)
    requires
        s1.len() == s2.len(),
        le_value(s1) == le_value(s2),
    ensures
        s1 =~= s2,
    decreases s1.len(),
{
    if s1.len() > 0 {
        lemma_le_value_bound(s1.skip(1));
        lemma_le_value_bound(s2.skip(1));
        assert(s1[0] == le_value(s1) % 256 && s2[0] == le_value(s2) % 256) by {
            assert(le_value(s1) == s1[0] + 256 * le_value(s1.skip(1)));
            assert(le_value(s2) == s2[0] + 256 * le_value(s2.skip(1)));
        }
        lemma_le_value_injective(s1.skip(1), s2.skip(1));
        assert(s1 =~= seq![s1[0]] + s1.skip(1));
        assert(s2 =~= seq![s2[0]] + s2.skip(1));
    }
}

/// A `u64` stored in little-endian byte order.
#[derive(Clone, Copy, Debug)]
pub struct U64Le(u64);

impl U64Le {
    pub closed spec fn spec_get(self) -> u64 {
        self.0
    }

    pub fn new(v: u64) -> (r: Self)
        ensures
            r.spec_get() == v,
    {
        U64Le(v)
    }

    pub fn get(self) -> (r: u64)
        ensures
            r == self.spec_get(),
    {
        self.0
    }

    /// The eight bytes of the stored value, lowest first.
    pub open spec fn spec_bytes(self) -> Seq<u8> {
        le_bytes(self.spec_get() as int, 8)
    }

    pub fn to_bytes(self) -> (r: Vec<u8>)
        ensures
            r@ == self.spec_bytes(),
            r@.len() == 8,
    {
        proof {
            lemma_le_bytes_len(self.spec_get() as int, 8);
        }
        let mut r: Vec<u8> = Vec::new();
        let mut v: u64 = self.0;
        let mut i: usize = 0;
        while i < 8
            invariant
                i <= 8,
                r@.len() == i,
                r@ + le_bytes(v as int, (8 - i) as nat) =~= le_bytes(self.spec_get() as int, 8),
            decreases 8 - i,
        {
            proof {
                lemma_le_bytes_len(v as int / 256, (7 - i) as nat);
                assert(le_bytes(v as int, (8 - i) as nat) =~= seq![(v as int % 256) as u8]
                    + le_bytes(v as int / 256, (7 - i) as nat));
            }
            r.push((v % 256) as u8);
            v = v / 256;
            i += 1;
            proof {
                assert(r@ + le_bytes(v as int, (8 - i) as nat) =~= le_bytes(
                    self.spec_get() as int,
                    8,
                ));
            }
        }
        r
    }

    pub fn from_bytes(b: &[u8]) -> (r: Self)
        requires
            b@.len() == 8,
        ensures
            r.spec_get() == le_value(b@),
    {
        let v: u64 = (b[0] as u64) + 256 * ((b[1] as u64) + 256 * ((b[2] as u64) + 256 * ((b[3]
            as u64) + 256 * ((b[4] as u64) + 256 * ((b[5] as u64) + 256 * ((b[6] as u64) + 256 * (
        b[7] as u64)))))));
        proof {
            reveal_with_fuel(le_value, 10);
            assert forall|k: int| 0 <= k < 8 implies b@.skip(k).skip(1) =~= b@.skip(k + 1) by {}
            assert(b@.skip(0) =~= b@);
            assert(le_value(b@.skip(8)) == 0);
        }
        U64Le(v)
    }
}

/// A `u16` stored in little-endian byte order.
#[derive(Clone, Copy, Debug)]
pub struct U16Le(u16);

impl U16Le {
    pub closed spec fn spec_get(self) -> u16 {
        self.0
    }

    pub fn new(v: u16) -> (r: Self)
        ensures
            r.spec_get() == v,
    {
        U16Le(v)
    }

    pub fn get(self) -> (r: u16)
        ensures
            r == self.spec_get(),
    {
        self.0
    }

    pub open spec fn spec_bytes(self) -> Seq<u8> {
        le_bytes(self.spec_get() as int, 2)
    }

    pub fn to_bytes(self) -> (r: Vec<u8>)
        ensures
            r@ == self.spec_bytes(),
            r@.len() == 2,
    {
        let mut r: Vec<u8> = Vec::new();
        r.push((self.0 % 256) as u8);
        r.push(((self.0 / 256) % 256) as u8);
        proof {
            reveal_with_fuel(le_bytes, 3);
            assert(r@ =~= self.spec_bytes());
        }
        r
    }

    pub fn from_bytes(b: &[u8]) -> (r: Self)
        requires
            b@.len() == 2,
        ensures
            r.spec_get() == le_value(b@),
    {
        let v: u16 = (b[0] as u16) + 256 * (b[1] as u16);
        proof {
            reveal_with_fuel(le_value, 4);
            assert(b@.skip(1).skip(1) =~= b@.skip(2));
            assert(b@.skip(0) =~= b@);
        }
        U16Le(v)
    }
}

/// The two's-complement `u16` image of an `i16`.
pub open spec fn u16_image(v: i16) -> int {
    if v >= 0 {
        v as int
    } else {
        v + 0x10000
    }
}

/// The `i16` whose two's-complement image a value in `[0, 0x10000)` is.
pub open spec fn i16_of_image(v: int) -> int {
    if v < 0x8000 {
        v
    } else {
        v - 0x10000
    }
}

/// An `i16` stored in little-endian byte order; the bytes are those of the
/// two's-complement `u16` image.
#[derive(Clone, Copy, Debug)]
pub struct I16Le(i16);

impl I16Le {
    pub closed spec fn spec_get(self) -> i16 {
        self.0
    }

    pub fn new(v: i16) -> (r: Self)
        ensures
            r.spec_get() == v,
    {
        I16Le(v)
    }

    pub fn get(self) -> (r: i16)
        ensures
            r == self.spec_get(),
    {
        self.0
    }

    pub open spec fn spec_bytes(self) -> Seq<u8> {
        le_bytes(u16_image(self.spec_get()), 2)
    }

    pub fn to_bytes(self) -> (r: Vec<u8>)
        ensures
            r@ == self.spec_bytes(),
            r@.len() == 2,
    {
        let u: u16 = if self.0 >= 0 {
            self.0 as u16
        } else {
            (self.0 as i32 + 0x10000) as u16
        };
        let mut r: Vec<u8> = Vec::new();
        r.push((u % 256) as u8);
        r.push(((u / 256) % 256) as u8);
        proof {
            reveal_with_fuel(le_bytes, 3);
            assert(r@ =~= self.spec_bytes());
        }
        r
    }

    pub fn from_bytes(b: &[u8]) -> (r: Self)
        requires
            b@.len() == 2,
        ensures
            r.spec_get() == i16_of_image(le_value(b@)),
    {
        let v: u16 = (b[0] as u16) + 256 * (b[1] as u16);
        proof {
            reveal_with_fuel(le_value, 4);
            assert(b@.skip(1).skip(1) =~= b@.skip(2));
            assert(b@.skip(0) =~= b@);
            assert(v == le_value(b@));
        }
        if v < 0x8000 {
            I16Le(v as i16)
        } else {
            I16Le((v as i32 - 0x10000) as i16)
        }
    }
}

/// 32 four-bit slots, nibble `i` holding the piece code of the `i`-th
/// occupied square.
#[derive(Clone, Debug)]
pub struct U4Array32 {
    nibbles: Vec<u8>,
}

impl U4Array32 {
    pub closed spec fn view(self) -> Seq<u8> {
        self.nibbles@
    }

    pub open spec fn wf(self) -> bool {
        &&& self@.len() == 32
        &&& forall|i: int| 0 <= i < 32 ==> self@[i] < 16
    }

    /// All 32 slots zero.
    pub fn zeroed() -> (r: Self)
        ensures
            r.wf(),
            forall|i: int| 0 <= i < 32 ==> r@[i] == 0,
    {
        let mut nibbles: Vec<u8> = Vec::new();
        let mut i: usize = 0;
        while i < 32
            invariant
                i <= 32,
                nibbles@.len() == i,
                forall|j: int| 0 <= j < i ==> nibbles@[j] == 0,
            decreases 32 - i,
        {
            nibbles.push(0);
            i += 1;
        }
        U4Array32 { nibbles }
    }

    pub fn get(&self, i: usize) -> (r: u8)
        requires
            self.wf(),
            i < 32,
        ensures
            r == self@[i as int],
    {
        self.nibbles[i]
    }

    /// Or the value into slot `i`, as the packed format's writer does on a
    /// zeroed array.
    pub fn set(&mut self, i: usize, v: u8)
        requires
            old(self).wf(),
            i < 32,
            v < 16,
        ensures
            final(self).wf(),
            final(self)@ == old(self)@.update(i as int, (old(self)@[i as int] | v) as u8),
            old(self)@[i as int] == 0 ==> final(self)@ == old(self)@.update(i as int, v),
    {
        proof {
            let a = self.nibbles@[i as int];
            assert(a < 16 && v < 16 ==> (a | v) < 16) by (bit_vector);
            assert(0u8 | v == v) by (bit_vector);
        }
        let merged = self.nibbles[i] | v;
        self.nibbles[i] = merged;
    }

    /// The 16 bytes of the packed nibble array: byte `j` holds slots `2j`
    /// (low) and `2j + 1` (high).
    pub open spec fn spec_bytes(self) -> Seq<u8> {
        Seq::new(16, |j: int| (self@[2 * j] + 16 * self@[2 * j + 1]) as u8)
    }

    pub fn to_bytes(&self) -> (r: Vec<u8>)
        requires
            self.wf(),
        ensures
            r@ == self.spec_bytes(),
            r@.len() == 16,
    {
        let mut r: Vec<u8> = Vec::new();
        let mut j: usize = 0;
        while j < 16
            invariant
                self.wf(),
                j <= 16,
                r@.len() == j,
                forall|k: int| 0 <= k < j ==> r@[k] == self.spec_bytes()[k],
            decreases 16 - j,
        {
            r.push(self.nibbles[2 * j] + 16 * self.nibbles[2 * j + 1]);
            j += 1;
        }
        proof {
            assert(r@ =~= self.spec_bytes());
        }
        r
    }

    pub fn from_bytes(b: &[u8]) -> (r: Self)
        requires
            b@.len() == 16,
        ensures
            r.wf(),
            forall|i: int| 0 <= i < 32 ==> r@[i] == nibble_of_bytes(b@, i),
    {
        let mut nibbles: Vec<u8> = Vec::new();
        let mut i: usize = 0;
        while i < 32
            invariant
                b@.len() == 16,
                i <= 32,
                nibbles@.len() == i,
                forall|k: int| 0 <= k < i ==> nibbles@[k] == nibble_of_bytes(b@, k) && nibbles@[k] < 16,
            decreases 32 - i,
        {
            let byte = b[i / 2];
            let nib = if i % 2 == 0 {
                byte % 16
            } else {
                byte / 16
            };
            nibbles.push(nib);
            i += 1;
        }
        U4Array32 { nibbles }
    }
}

/// Nibble `i` of a byte string: the low half of byte `i / 2` for even `i`,
/// the high half for odd `i`.
pub open spec fn nibble_of_bytes(b: Seq<u8>, i: int) -> u8 {
    if i % 2 == 0 {
        (b[i / 2] % 16) as u8
    } else {
        (b[i / 2] / 16) as u8
    }
}

/// Packing nibbles to bytes and reading them back is the identity.
pub proof fn lemma_nibble_bytes_roundtrip(a: U4Array32, i: int)
    requires
        a.wf(),
        0 <= i < 32,
    ensures
        nibble_of_bytes(a.spec_bytes(), i) == a@[i],
{
    let b = a.spec_bytes();
    if i % 2 == 0 {
        assert(b[i / 2] == a@[i] + 16 * a@[i + 1]);
    } else {
        assert(b[i / 2] == a@[i - 1] + 16 * a@[i]);
    }
}

} // verus!
