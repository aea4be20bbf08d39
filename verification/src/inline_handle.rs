//! A backend that embeds a fixed-size byte block directly in each handle.

use core::marker::PhantomData;
use vstd::prelude::*;

use crate::traits::{AllocError, Storage};
use crate::utils::{zeroed, Element, Layout};

verus! {

/// The backend: stateless beyond its unit context. `SIZE` is the byte
/// capacity each handle carries inline; `ALIGN` is the reference type whose
/// alignment bounds the alignment the backend can serve.
pub struct InlineHandleStorage<ALIGN, const SIZE: usize> {
    pub marker: PhantomData<ALIGN>,
}

/// A fully self-contained handle: it owns its `SIZE` bytes directly, so no
/// external context is needed to reach them.
pub struct InlineHandle<ALIGN, const SIZE: usize> {
    pub inline: Vec<u8>,
    pub marker: PhantomData<ALIGN>,
}

impl<ALIGN: Element, const SIZE: usize> Storage for InlineHandleStorage<ALIGN, SIZE> {
    type Handle = InlineHandle<ALIGN, SIZE>;

    type Context = ();

    open spec fn valid(layout: Layout, handle: Self::Handle, context: ()) -> bool {
        &&& handle.inline@.len() == SIZE
        &&& layout.size <= SIZE
    }

    open spec fn contents(layout: Layout, handle: Self::Handle, context: ()) -> Seq<u8> {
        handle.inline@.subrange(0, layout.size as int)
    }

    open spec fn can_allocate(layout: Layout, context: ()) -> bool {
        &&& layout.size <= SIZE
        &&& layout.align <= ALIGN::align_spec()
    }

    open spec fn alloc_post(
        layout: Layout,
        old_context: (),
        handle: Self::Handle,
        new_context: (),
    ) -> bool {
        handle.inline@ == Seq::new(SIZE as nat, |i: int| 0u8)
    }

    /// Succeeds exactly when the layout fits the inline capacity and asks
    /// no stricter alignment than `ALIGN`'s; the fresh block is
    /// zero-initialized.
    fn allocate(layout: Layout, context: &mut ()) -> (r: Result<Self::Handle, AllocError>) {
        let align_bound = ALIGN::align();
        if layout.size <= SIZE && layout.align <= align_bound {
            let block = zeroed(SIZE);
            let h = InlineHandle { inline: block, marker: PhantomData };
            proof {
                assert(h.inline@ =~= Seq::new(SIZE as nat, |i: int| 0u8));
                assert(Self::valid(layout, h, *context));
                assert(Self::contents(layout, h, *context).len() == layout.size);
                assert(Self::alloc_post(layout, *old(context), h, *context));
                assert(forall|l2: Layout, h2: Self::Handle|
                    #[trigger] Self::valid(l2, h2, *old(context)) ==> Self::valid(l2, h2, *context)
                        && Self::contents(l2, h2, *context) == Self::contents(
                        l2,
                        h2,
                        *old(context),
                    ));
            }
            Ok(h)
        } else {
            Err(AllocError)
        }
    }

    /// A no-op: the storage is released when the handle itself is dropped
    /// by its owner.
    fn deallocate(layout: Layout, handle: &Self::Handle, context: &mut ()) {
    }

    fn read_bytes(
        layout: Layout,
        handle: &Self::Handle,
        context: &(),
        at: usize,
        len: usize,
    ) -> (r: Vec<u8>) {
        let mut r: Vec<u8> = Vec::new();
        let mut i: usize = 0;
        while i < len
            invariant
                i <= len,
                at + len <= layout.size,
                at + len <= handle.inline@.len(),
                r@.len() == i,
                forall|j: int| 0 <= j < i ==> r@[j] == handle.inline@[at + j],
            decreases len - i,
        {
            r.push(handle.inline[at + i]);
            i += 1;
        }
        proof {
            assert(r@ =~= Self::contents(layout, *handle, *context).subrange(
                at as int,
                at + len,
            ));
        }
        r
    }

    fn write_bytes(
        layout: Layout,
        handle: &mut Self::Handle,
        context: &mut (),
        at: usize,
        data: &Vec<u8>,
    ) {
        let len = data.len();
        let mut i: usize = 0;
        while i < len
            invariant
                i <= len,
                len == data@.len(),
                at + len <= layout.size,
                at + len <= handle.inline@.len(),
                handle.inline@.len() == old(handle).inline@.len(),
                forall|j: int|
                    0 <= j < handle.inline@.len() ==> handle.inline@[j] == (if at <= j < at + i {
                        data@[j - at]
                    } else {
                        old(handle).inline@[j]
                    }),
            decreases len - i,
        {
            handle.inline.set(at + i, data[i]);
            i += 1;
        }
        proof {
            assert(Self::contents(layout, *handle, *context) =~= Self::contents(
                layout,
                *old(handle),
                *old(context),
            ).subrange(0, at as int) + data@ + Self::contents(
                layout,
                *old(handle),
                *old(context),
            ).subrange(at + data@.len(), layout.size as int));
        }
    }
}

} // verus!
