//! Layout descriptors and the element encoding the buffer stores.

use vstd::prelude::*;

verus! {

/// A (size, alignment) pair describing a storage region's requirements.
#[derive(Clone, Copy, PartialEq, Eq, Structural, Debug)]
pub struct Layout {
    pub size: usize,
    pub align: usize,
}

/// Holds exactly of the powers of two.
pub open spec fn is_pow2(n: nat) -> bool
    decreases n,
{
    if n == 0 {
        false
    } else if n == 1 {
        true
    } else {
        n % 2 == 0 && is_pow2(n / 2)
    }
}

/// A layout the storage contract accepts: its alignment is a power of two
/// (and hence at least one).
pub open spec fn layout_wf(l: Layout) -> bool {
    is_pow2(l.align as nat)
}

pub proof fn lemma_small_pow2()
    ensures
        is_pow2(1),
        is_pow2(2),
        is_pow2(4),
        is_pow2(8),
{
    assert(is_pow2(1));
    assert(is_pow2(2));
    assert(is_pow2(4));
    assert(is_pow2(8));
}

pub proof fn lemma_pow2_pos(n: nat)
    requires
        is_pow2(n),
    ensures
        n >= 1,
{
}

/// An element type the buffer can store: a fixed byte size, a fixed
/// power-of-two alignment, and an exact encoding to and from bytes.
pub trait Element: Sized {
    /// Bytes one element occupies.
    spec fn size_spec() -> nat;

    /// Alignment an element's storage must satisfy.
    spec fn align_spec() -> nat;

    /// The bytes that encode an element.
    spec fn to_bytes_spec(v: Self) -> Seq<u8>;

    /// The element a run of `size_spec()` bytes decodes to.
    spec fn from_bytes_spec(s: Seq<u8>) -> Self;

    proof fn size_align_properties()
        ensures
            Self::size_spec() >= 1,
            Self::size_spec() <= usize::MAX,
            is_pow2(Self::align_spec()),
            Self::align_spec() <= usize::MAX,
    ;

    /// Encoding an element and decoding the bytes yields the element back.
    proof fn round_trip(v: Self)
        ensures
            Self::to_bytes_spec(v).len() == Self::size_spec(),
            Self::from_bytes_spec(Self::to_bytes_spec(v)) == v,
    ;

    fn size() -> (r: usize)
        ensures
            r == Self::size_spec(),
    ;

    fn align() -> (r: usize)
        ensures
            r == Self::align_spec(),
    ;

    fn to_bytes(self) -> (r: Vec<u8>)
        ensures
            r@ == Self::to_bytes_spec(self),
            r@.len() == Self::size_spec(),
    ;

    fn from_bytes(bytes: &Vec<u8>) -> (r: Self)
        requires
            bytes@.len() == Self::size_spec(),
        ensures
            r == Self::from_bytes_spec(bytes@),
    ;
}

/// The layout for `repeat` contiguous elements of `T`: `repeat` times the
/// element size, at the element's alignment.
pub open spec fn spec_layout_for<T: Element>(repeat: usize) -> Layout {
    Layout { size: (T::size_spec() * repeat) as usize, align: T::align_spec() as usize }
}

/// Computes the layout for `repeat` contiguous elements of `T`.
pub fn layout_for<T: Element>(repeat: usize) -> (r: Layout)
    requires
        T::size_spec() * repeat <= usize::MAX,
    ensures
        r == spec_layout_for::<T>(repeat),
        r.size == T::size_spec() * repeat,
        r.align == T::align_spec(),
        layout_wf(r),
{
    proof {
        T::size_align_properties();
    }
    Layout { size: T::size() * repeat, align: T::align() }
}

/// A vector of `n` zero bytes.
pub fn zeroed(n: usize) -> (r: Vec<u8>)
    ensures
        r@ == Seq::new(n as nat, |i: int| 0u8),
{
    let mut r: Vec<u8> = Vec::new();
    let mut i: usize = 0;
    while i < n
        invariant
            i <= n,
            r@.len() == i,
            forall|j: int| 0 <= j < i ==> r@[j] == 0u8,
        decreases n - i,
    {
        r.push(0u8);
        i += 1;
    }
    proof {
        assert(r@ =~= Seq::new(n as nat, |i: int| 0u8));
    }
    r
}

impl Element for u8 {
    open spec fn size_spec() -> nat {
        1
    }

    open spec fn align_spec() -> nat {
        1
    }

    open spec fn to_bytes_spec(v: u8) -> Seq<u8> {
        seq![v]
    }

    open spec fn from_bytes_spec(s: Seq<u8>) -> u8 {
        s[0]
    }

    proof fn size_align_properties() {
        lemma_small_pow2();
    }

    proof fn round_trip(v: u8) {
    }

    fn size() -> (r: usize) {
        1
    }

    fn align() -> (r: usize) {
        1
    }

    fn to_bytes(self) -> (r: Vec<u8>) {
        let mut r: Vec<u8> = Vec::new();
        r.push(self);
        proof {
            assert(r@ =~= Self::to_bytes_spec(self));
        }
        r
    }

    fn from_bytes(bytes: &Vec<u8>) -> (r: u8) {
        bytes[0]
    }
}

impl Element for u16 {
    open spec fn size_spec() -> nat {
        2
    }

    open spec fn align_spec() -> nat {
        2
    }

    open spec fn to_bytes_spec(v: u16) -> Seq<u8> {
        seq![(v & 0xff) as u8, ((v >> 8) & 0xff) as u8]
    }

    open spec fn from_bytes_spec(s: Seq<u8>) -> u16 {
        (s[0] as u16) | ((s[1] as u16) << 8)
    }

    proof fn size_align_properties() {
        lemma_small_pow2();
    }

    proof fn round_trip(v: u16) {
        let b0 = (v & 0xff) as u8;
        let b1 = ((v >> 8) & 0xff) as u8;
        assert((b0 as u16) | ((b1 as u16) << 8) == v) by (bit_vector)
            requires
                b0 == (v & 0xff) as u8,
                b1 == ((v >> 8) & 0xff) as u8,
        ;
        assert(Self::to_bytes_spec(v)[0] == b0);
        assert(Self::to_bytes_spec(v)[1] == b1);
    }

    fn size() -> (r: usize) {
        2
    }

    fn align() -> (r: usize) {
        2
    }

    fn to_bytes(self) -> (r: Vec<u8>) {
        let mut r: Vec<u8> = Vec::new();
        r.push((self & 0xff) as u8);
        r.push(((self >> 8) & 0xff) as u8);
        proof {
            assert(r@ =~= Self::to_bytes_spec(self));
        }
        r
    }

    fn from_bytes(bytes: &Vec<u8>) -> (r: u16) {
        (bytes[0] as u16) | ((bytes[1] as u16) << 8)
    }
}

impl Element for u32 {
    open spec fn size_spec() -> nat {
        4
    }

    open spec fn align_spec() -> nat {
        4
    }

    open spec fn to_bytes_spec(v: u32) -> Seq<u8> {
        seq![
            (v & 0xff) as u8,
            ((v >> 8) & 0xff) as u8,
            ((v >> 16) & 0xff) as u8,
            ((v >> 24) & 0xff) as u8,
        ]
    }

    open spec fn from_bytes_spec(s: Seq<u8>) -> u32 {
        (s[0] as u32) | ((s[1] as u32) << 8) | ((s[2] as u32) << 16) | ((s[3] as u32) << 24)
    }

    proof fn size_align_properties() {
        lemma_small_pow2();
    }

    proof fn round_trip(v: u32) {
        let b0 = (v & 0xff) as u8;
        let b1 = ((v >> 8) & 0xff) as u8;
        let b2 = ((v >> 16) & 0xff) as u8;
        let b3 = ((v >> 24) & 0xff) as u8;
        assert((b0 as u32) | ((b1 as u32) << 8) | ((b2 as u32) << 16) | ((b3 as u32) << 24)
            == v) by (bit_vector)
            requires
                b0 == (v & 0xff) as u8,
                b1 == ((v >> 8) & 0xff) as u8,
                b2 == ((v >> 16) & 0xff) as u8,
                b3 == ((v >> 24) & 0xff) as u8,
        ;
        assert(Self::to_bytes_spec(v)[0] == b0);
        assert(Self::to_bytes_spec(v)[1] == b1);
        assert(Self::to_bytes_spec(v)[2] == b2);
        assert(Self::to_bytes_spec(v)[3] == b3);
    }

    fn size() -> (r: usize) {
        4
    }

    fn align() -> (r: usize) {
        4
    }

    fn to_bytes(self) -> (r: Vec<u8>) {
        let mut r: Vec<u8> = Vec::new();
        r.push((self & 0xff) as u8);
        r.push(((self >> 8) & 0xff) as u8);
        r.push(((self >> 16) & 0xff) as u8);
        r.push(((self >> 24) & 0xff) as u8);
        proof {
            assert(r@ =~= Self::to_bytes_spec(self));
        }
        r
    }

    fn from_bytes(bytes: &Vec<u8>) -> (r: u32) {
        (bytes[0] as u32) | ((bytes[1] as u32) << 8) | ((bytes[2] as u32) << 16) | ((bytes[3]
            as u32) << 24)
    }
}

impl Element for u64 {
    open spec fn size_spec() -> nat {
        8
    }

    open spec fn align_spec() -> nat {
        8
    }

    open spec fn to_bytes_spec(v: u64) -> Seq<u8> {
        seq![
            (v & 0xff) as u8,
            ((v >> 8) & 0xff) as u8,
            ((v >> 16) & 0xff) as u8,
            ((v >> 24) & 0xff) as u8,
            ((v >> 32) & 0xff) as u8,
            ((v >> 40) & 0xff) as u8,
            ((v >> 48) & 0xff) as u8,
            ((v >> 56) & 0xff) as u8,
        ]
    }

    open spec fn from_bytes_spec(s: Seq<u8>) -> u64 {
        (s[0] as u64) | ((s[1] as u64) << 8) | ((s[2] as u64) << 16) | ((s[3] as u64) << 24)
            | ((s[4] as u64) << 32) | ((s[5] as u64) << 40) | ((s[6] as u64) << 48) | ((s[7]
            as u64) << 56)
    }

    proof fn size_align_properties() {
        lemma_small_pow2();
    }

    proof fn round_trip(v: u64) {
        let b0 = (v & 0xff) as u8;
        let b1 = ((v >> 8) & 0xff) as u8;
        let b2 = ((v >> 16) & 0xff) as u8;
        let b3 = ((v >> 24) & 0xff) as u8;
        let b4 = ((v >> 32) & 0xff) as u8;
        let b5 = ((v >> 40) & 0xff) as u8;
        let b6 = ((v >> 48) & 0xff) as u8;
        let b7 = ((v >> 56) & 0xff) as u8;
        assert((b0 as u64) | ((b1 as u64) << 8) | ((b2 as u64) << 16) | ((b3 as u64) << 24)
            | ((b4 as u64) << 32) | ((b5 as u64) << 40) | ((b6 as u64) << 48) | ((b7 as u64)
            << 56) == v) by (bit_vector)
            requires
                b0 == (v & 0xff) as u8,
                b1 == ((v >> 8) & 0xff) as u8,
                b2 == ((v >> 16) & 0xff) as u8,
                b3 == ((v >> 24) & 0xff) as u8,
                b4 == ((v >> 32) & 0xff) as u8,
                b5 == ((v >> 40) & 0xff) as u8,
                b6 == ((v >> 48) & 0xff) as u8,
                b7 == ((v >> 56) & 0xff) as u8,
        ;
        assert(Self::to_bytes_spec(v)[0] == b0);
        assert(Self::to_bytes_spec(v)[1] == b1);
        assert(Self::to_bytes_spec(v)[2] == b2);
        assert(Self::to_bytes_spec(v)[3] == b3);
        assert(Self::to_bytes_spec(v)[4] == b4);
        assert(Self::to_bytes_spec(v)[5] == b5);
        assert(Self::to_bytes_spec(v)[6] == b6);
        assert(Self::to_bytes_spec(v)[7] == b7);
    }

    fn size() -> (r: usize) {
        8
    }

    fn align() -> (r: usize) {
        8
    }

    fn to_bytes(self) -> (r: Vec<u8>) {
        let mut r: Vec<u8> = Vec::new();
        r.push((self & 0xff) as u8);
        r.push(((self >> 8) & 0xff) as u8);
        r.push(((self >> 16) & 0xff) as u8);
        r.push(((self >> 24) & 0xff) as u8);
        r.push(((self >> 32) & 0xff) as u8);
        r.push(((self >> 40) & 0xff) as u8);
        r.push(((self >> 48) & 0xff) as u8);
        r.push(((self >> 56) & 0xff) as u8);
        proof {
            assert(r@ =~= Self::to_bytes_spec(self));
        }
        r
    }

    fn from_bytes(bytes: &Vec<u8>) -> (r: u64) {
        (bytes[0] as u64) | ((bytes[1] as u64) << 8) | ((bytes[2] as u64) << 16) | ((bytes[3]
            as u64) << 24) | ((bytes[4] as u64) << 32) | ((bytes[5] as u64) << 40) | ((bytes[6]
            as u64) << 48) | ((bytes[7] as u64) << 56)
    }
}

} // verus!
