//! The storage-backend contract: the capability any backend must implement.

use vstd::prelude::*;

use crate::utils::{layout_wf, Layout};

verus! {

/// Raised by a backend that cannot satisfy a requested layout. A binary
/// failure signal by design: it carries no further diagnostic payload.
#[derive(Clone, Copy, PartialEq, Eq, Structural, Debug)]
pub struct AllocError;

/// The smaller of the two layouts' sizes: how many leading bytes a
/// reallocation preserves.
pub open spec fn min_size(a: Layout, b: Layout) -> int {
    if a.size < b.size {
        a.size as int
    } else {
        b.size as int
    }
}

/// The polymorphic storage capability: allocate, deallocate, read and write
/// through an opaque `Handle`, with backend-chosen external state in a
/// `Context` threaded through every call.
///
/// A backend chooses what a handle is and where the bytes live — in the
/// context (a shared arena) or in the handle itself — and exposes that
/// choice only through the spec functions below:
/// - `valid`: the handle references a reserved block for this layout;
/// - `contents`: the `layout.size` bytes of that block;
/// - `can_allocate`: exactly when an allocation request succeeds;
/// - `alloc_post`: the backend-specific description of a fresh allocation.
pub trait Storage: Sized {
    type Handle;

    type Context;

    /// The handle references a block reserved for `layout` in `context`.
    spec fn valid(layout: Layout, handle: Self::Handle, context: Self::Context) -> bool;

    /// The bytes of the block a valid handle references; `layout.size` of them.
    spec fn contents(layout: Layout, handle: Self::Handle, context: Self::Context) -> Seq<u8>;

    /// Exactly when an allocation for `layout` succeeds in `context`.
    spec fn can_allocate(layout: Layout, context: Self::Context) -> bool;

    /// What a successful allocation did: how the fresh handle and the new
    /// context relate to the old context. Backend-specific.
    spec fn alloc_post(
        layout: Layout,
        old_context: Self::Context,
        handle: Self::Handle,
        new_context: Self::Context,
    ) -> bool;

    /// Reserves a block able to hold `layout`. Fails exactly when the
    /// backend cannot satisfy the size/alignment request; on failure the
    /// context is left unchanged. Success disturbs no block already
    /// reserved: every handle valid before stays valid, its bytes intact.
    fn allocate(layout: Layout, context: &mut Self::Context) -> (r: Result<
        Self::Handle,
        AllocError,
    >)
        requires
            layout_wf(layout),
        ensures
            r is Ok <==> Self::can_allocate(layout, *old(context)),
            r matches Ok(h) ==> ({
                &&& Self::valid(layout, h, *final(context))
                &&& Self::contents(layout, h, *final(context)).len() == layout.size
                &&& Self::alloc_post(layout, *old(context), h, *final(context))
                &&& forall|l2: Layout, h2: Self::Handle|
                    #[trigger] Self::valid(l2, h2, *old(context)) ==> Self::valid(
                        l2,
                        h2,
                        *final(context),
                    ) && Self::contents(l2, h2, *final(context)) == Self::contents(
                        l2,
                        h2,
                        *old(context),
                    )
            }),
            r is Err ==> *final(context) == *old(context),
    ;

    /// Releases the block `handle` references. May be a true release or an
    /// intentional no-op; either way no other reserved block is disturbed.
    fn deallocate(layout: Layout, handle: &Self::Handle, context: &mut Self::Context)
        requires
            layout_wf(layout),
            Self::valid(layout, *handle, *old(context)),
        ensures
            forall|l2: Layout, h2: Self::Handle|
                #[trigger] Self::valid(l2, h2, *old(context)) ==> Self::valid(
                    l2,
                    h2,
                    *final(context),
                ) && Self::contents(l2, h2, *final(context)) == Self::contents(
                    l2,
                    h2,
                    *old(context),
                ),
    ;

    /// Reads `len` bytes of the referenced block, starting `at` bytes in.
    fn read_bytes(
        layout: Layout,
        handle: &Self::Handle,
        context: &Self::Context,
        at: usize,
        len: usize,
    ) -> (r: Vec<u8>)
        requires
            Self::valid(layout, *handle, *context),
            Self::contents(layout, *handle, *context).len() == layout.size,
            at + len <= layout.size,
        ensures
            r@ == Self::contents(layout, *handle, *context).subrange(at as int, at + len),
    ;

    /// Overwrites `data.len()` bytes of the referenced block, starting `at`
    /// bytes in. The rest of the block keeps its bytes; every other handle
    /// valid before stays valid.
    fn write_bytes(
        layout: Layout,
        handle: &mut Self::Handle,
        context: &mut Self::Context,
        at: usize,
        data: &Vec<u8>,
    )
        requires
            Self::valid(layout, *old(handle), *old(context)),
            Self::contents(layout, *old(handle), *old(context)).len() == layout.size,
            at + data@.len() <= layout.size,
        ensures
            Self::valid(layout, *final(handle), *final(context)),
            Self::contents(layout, *final(handle), *final(context)) == Self::contents(
                layout,
                *old(handle),
                *old(context),
            ).subrange(0, at as int) + data@ + Self::contents(
                layout,
                *old(handle),
                *old(context),
            ).subrange(at + data@.len(), layout.size as int),
            forall|l2: Layout, h2: Self::Handle|
                #[trigger] Self::valid(l2, h2, *old(context)) ==> Self::valid(
                    l2,
                    h2,
                    *final(context),
                ),
    ;

    /// Moves a block to a fresh reservation sized by `new_layout`: the
    /// first `min(old, new)` sizes' worth of bytes carry over, the old
    /// handle is released, and the fresh handle is returned. Fails exactly
    /// when the nested allocation fails, leaving the context unchanged.
    ///
    /// The default behavior is built purely from the three primitives:
    /// allocate, copy, deallocate. A backend may override it (growth in
    /// place, say) as long as the contract here is preserved.
    fn reallocate(
        old_layout: Layout,
        new_layout: Layout,
        old_handle: &Self::Handle,
        context: &mut Self::Context,
    ) -> (r: Result<Self::Handle, AllocError>)
        requires
            layout_wf(old_layout),
            layout_wf(new_layout),
            Self::valid(old_layout, *old_handle, *old(context)),
            Self::contents(old_layout, *old_handle, *old(context)).len() == old_layout.size,
        ensures
            r is Ok <==> Self::can_allocate(new_layout, *old(context)),
            r matches Ok(h) ==> ({
                &&& Self::valid(new_layout, h, *final(context))
                &&& Self::contents(new_layout, h, *final(context)).len() == new_layout.size
                &&& Self::contents(new_layout, h, *final(context)).subrange(
                    0,
                    min_size(old_layout, new_layout),
                ) == Self::contents(old_layout, *old_handle, *old(context)).subrange(
                    0,
                    min_size(old_layout, new_layout),
                )
            }),
            r is Err ==> *final(context) == *old(context),
    {
        let new_handle = match Self::allocate(new_layout, context) {
            Ok(h) => h,
            Err(e) => {
                return Err(e);
            },
        };
        let size = if old_layout.size < new_layout.size {
            old_layout.size
        } else {
            new_layout.size
        };
        let data = Self::read_bytes(old_layout, old_handle, context, 0, size);
        let mut new_handle = new_handle;
        Self::write_bytes(new_layout, &mut new_handle, context, 0, &data);
        Self::deallocate(old_layout, old_handle, context);
        proof {
            assert(Self::contents(new_layout, new_handle, *context).subrange(
                0,
                min_size(old_layout, new_layout),
            ) =~= data@);
        }
        Ok(new_handle)
    }
}

/// `Storage::allocate` for a backend that needs no context: the unit
/// context is supplied implicitly.
pub fn allocate_contextless<S: Storage<Context = ()>>(layout: Layout) -> (r: Result<
    S::Handle,
    AllocError,
>)
    requires
        layout_wf(layout),
    ensures
        r is Ok <==> S::can_allocate(layout, ()),
        r matches Ok(h) ==> ({
            &&& S::valid(layout, h, ())
            &&& S::contents(layout, h, ()).len() == layout.size
            &&& S::alloc_post(layout, (), h, ())
        }),
{
    let mut unit_context = ();
    S::allocate(layout, &mut unit_context)
}

} // verus!
