//! A backend that bumps a monotonic offset through one shared inline block.

use core::marker::PhantomData;
use vstd::prelude::*;

use crate::traits::{AllocError, Storage};
use crate::utils::{layout_wf, lemma_pow2_pos, zeroed, Element, Layout};

verus! {

/// The backend: its state lives in the context, so the type itself is empty.
/// `S` is the block type: its size fixes the arena's byte capacity and its
/// alignment bounds the alignment the backend can serve.
pub struct InlineBumpStorage<S> {
    pub marker: PhantomData<S>,
}

/// The shared arena: one fixed block of bytes and the monotonic offset of
/// the next free byte. Every handle the backend issues references a range
/// of this block.
pub struct InlineBumpContext<S> {
    pub storage: Vec<u8>,
    pub tracker: usize,
    pub marker: PhantomData<S>,
}

/// A handle into the shared arena: solely a byte offset into its block.
#[derive(Clone, Copy, PartialEq, Eq, Structural, Debug)]
pub struct InlineBumpHandle {
    pub at: usize,
}

/// The smallest multiple of `a` at or after `t`: where a bump allocation
/// at offset `t` starts once padded to alignment `a`.
pub open spec fn align_up(t: nat, a: nat) -> nat
    recommends
        a >= 1,
{
    if t % a == 0 {
        t
    } else {
        (t + a - t % a) as nat
    }
}

pub proof fn lemma_align_up(t: nat, a: nat)
    requires
        a >= 1,
    ensures
        t <= align_up(t, a),
        align_up(t, a) < t + a,
        align_up(t, a) % a == 0,
{
    vstd::arithmetic::div_mod::lemma_mod_division_less_than_divisor(t as int, a as int);
    if t % a != 0 {
        vstd::arithmetic::div_mod::lemma_fundamental_div_mod(t as int, a as int);
        let q = t as int / a as int;
        assert(t == a as int * q + t % a);
        assert(a as int * (q + 1) == a as int * q + a) by (nonlinear_arith);
        assert(t + a - t % a == a as int * (q + 1));
        vstd::arithmetic::div_mod::lemma_mod_multiples_basic(q + 1, a as int);
        assert((a as int * (q + 1)) % a as int == 0) by {
            assert(a as int * (q + 1) == (q + 1) * a as int) by (nonlinear_arith);
        }
    }
}

/// Bump allocations never overlap: when one allocation succeeds from some
/// context and a second one succeeds from the context the first left
/// behind, the second range starts at or after the end of the first, so
/// the first stays valid and untouched whatever is written through the
/// second. Exhaustion, by contrast, fails the overflowing allocation
/// (`can_allocate` is exactly the success condition of `allocate`) and
/// leaves the context unchanged.
pub proof fn lemma_bump_allocations_disjoint<S: Element>(
    c0: InlineBumpContext<S>,
    l1: Layout,
    h1: InlineBumpHandle,
    c1: InlineBumpContext<S>,
    l2: Layout,
    h2: InlineBumpHandle,
    c2: InlineBumpContext<S>,
)
    requires
        layout_wf(l1),
        layout_wf(l2),
        InlineBumpStorage::<S>::alloc_post(l1, c0, h1, c1),
        InlineBumpStorage::<S>::alloc_post(l2, c1, h2, c2),
    ensures
        h1.at + l1.size <= h2.at,
{
    lemma_pow2_pos(l2.align as nat);
    lemma_align_up(c1.tracker as nat, l2.align as nat);
}

impl<S: Element> InlineBumpContext<S> {
    /// A fresh arena: a zeroed block of `S`'s size, next free byte at zero.
    pub fn new() -> (r: Self)
        ensures
            r.storage@ == Seq::new(S::size_spec(), |i: int| 0u8),
            r.storage@.len() == S::size_spec(),
            r.tracker == 0,
    {
        proof {
            S::size_align_properties();
        }
        let block = zeroed(S::size());
        proof {
            assert(block@ =~= Seq::new(S::size_spec(), |i: int| 0u8));
        }
        InlineBumpContext { storage: block, tracker: 0, marker: PhantomData }
    }
}

impl<S: Element> Storage for InlineBumpStorage<S> {
    type Handle = InlineBumpHandle;

    type Context = InlineBumpContext<S>;

    open spec fn valid(layout: Layout, handle: Self::Handle, context: Self::Context) -> bool {
        &&& handle.at + layout.size <= context.tracker
        &&& handle.at + layout.size <= context.storage@.len()
        &&& layout.align >= 1
        &&& handle.at as nat % layout.align as nat == 0
    }

    open spec fn contents(layout: Layout, handle: Self::Handle, context: Self::Context) -> Seq<
        u8,
    > {
        context.storage@.subrange(handle.at as int, handle.at + layout.size)
    }

    open spec fn can_allocate(layout: Layout, context: Self::Context) -> bool {
        &&& layout.align <= S::align_spec()
        &&& align_up(context.tracker as nat, layout.align as nat) + layout.size
            <= context.storage@.len()
    }

    open spec fn alloc_post(
        layout: Layout,
        old_context: Self::Context,
        handle: Self::Handle,
        new_context: Self::Context,
    ) -> bool {
        &&& handle.at == align_up(old_context.tracker as nat, layout.align as nat)
        &&& new_context.tracker == handle.at + layout.size
        &&& new_context.storage@ == old_context.storage@
    }

    /// Fails if the request asks stricter alignment than the block's own,
    /// or if the padded offset plus the requested size would run past the
    /// block's end; otherwise advances the tracker and hands out the
    /// reserved range's start. Nothing is written: the arena's bytes stay.
    fn allocate(layout: Layout, context: &mut Self::Context) -> (r: Result<
        Self::Handle,
        AllocError,
    >) {
        proof {
            S::size_align_properties();
            lemma_pow2_pos(layout.align as nat);
            lemma_align_up(context.tracker as nat, layout.align as nat);
        }
        let align_bound = S::align();
        if layout.align > align_bound {
            return Err(AllocError);
        }
        let cap = context.storage.len();
        let t = context.tracker;
        let rem = t % layout.align;
        let pad = if rem == 0 {
            0
        } else {
            layout.align - rem
        };
        if pad > usize::MAX - t {
            return Err(AllocError);
        }
        let start = t + pad;
        if start > cap || layout.size > cap - start {
            return Err(AllocError);
        }
        context.tracker = start + layout.size;
        let h = InlineBumpHandle { at: start };
        proof {
            assert(Self::valid(layout, h, *context));
            assert(Self::contents(layout, h, *context).len() == layout.size);
            assert(Self::alloc_post(layout, *old(context), h, *context));
            assert(forall|l2: Layout, h2: Self::Handle|
                #[trigger] Self::valid(l2, h2, *old(context)) ==> Self::valid(l2, h2, *context)
                    && Self::contents(l2, h2, *context) == Self::contents(l2, h2, *old(context)));
        }
        Ok(h)
    }

    /// A no-op by design: a bump arena never reclaims space; the block is
    /// released only when the context itself is dropped.
    fn deallocate(layout: Layout, handle: &Self::Handle, context: &mut Self::Context) {
    }

    fn read_bytes(
        layout: Layout,
        handle: &Self::Handle,
        context: &Self::Context,
        at: usize,
        len: usize,
    ) -> (r: Vec<u8>) {
        let base = handle.at;
        let cap = context.storage.len();
        let mut r: Vec<u8> = Vec::new();
        let mut i: usize = 0;
        while i < len
            invariant
                i <= len,
                at + len <= layout.size,
                base == handle.at,
                cap == context.storage@.len(),
                base + layout.size <= cap,
                r@.len() == i,
                forall|j: int| 0 <= j < i ==> r@[j] == context.storage@[base + at + j],
            decreases len - i,
        {
            r.push(context.storage[base + at + i]);
            i += 1;
        }
        proof {
            assert(r@ =~= Self::contents(layout, *handle, *context).subrange(
                at as int,
                at + len,
            ));
        }
        r
    }

    fn write_bytes(
        layout: Layout,
        handle: &mut Self::Handle,
        context: &mut Self::Context,
        at: usize,
        data: &Vec<u8>,
    ) {
        let base = handle.at;
        let cap = context.storage.len();
        let len = data.len();
        let mut i: usize = 0;
        while i < len
            invariant
                i <= len,
                len == data@.len(),
                at + len <= layout.size,
                base == handle.at,
                cap == context.storage@.len(),
                base + layout.size <= cap,
                context.storage@.len() == old(context).storage@.len(),
                context.tracker == old(context).tracker,
                handle.at == old(handle).at,
                forall|j: int|
                    0 <= j < context.storage@.len() ==> context.storage@[j] == (if base + at <= j
                        < base + at + i {
                        data@[j - base - at]
                    } else {
                        old(context).storage@[j]
                    }),
            decreases len - i,
        {
            context.storage.set(base + at + i, data[i]);
            i += 1;
        }
        proof {
            assert(Self::contents(layout, *handle, *context) =~= Self::contents(
                layout,
                *old(handle),
                *old(context),
            ).subrange(0, at as int) + data@ + Self::contents(
                layout,
                *old(handle),
                *old(context),
            ).subrange(at + data@.len(), layout.size as int));
        }
    }
}

} // verus!
