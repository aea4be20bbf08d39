//! The growable buffer: a length/capacity-tracked sequence of typed
//! elements over any backend satisfying the storage contract.

use core::marker::PhantomData;
use vstd::arithmetic::mul::lemma_mul_inequality;
use vstd::prelude::*;

use crate::traits::Storage;
use crate::utils::{layout_for, spec_layout_for, Element, Layout};

verus! {

/// Raised by the buffer when an underlying allocation fails during
/// construction or growth, or when the handle-presence invariant is
/// violated. Undifferentiated by design.
#[derive(Clone, Copy, PartialEq, Eq, Structural, Debug)]
pub struct VecError;

/// A growable buffer of `T` elements over the storage backend `S`. Owns
/// exactly one backend handle once allocation has succeeded; tracks how
/// many element slots are backed (`capacity`) and how many hold an
/// initialized value (`length`).
pub struct RawVec<T, S: Storage> {
    pub handle: Option<S::Handle>,
    pub capacity: usize,
    pub length: usize,
    pub marker: PhantomData<T>,
}

impl<T: Element, S: Storage> RawVec<T, S> {
    /// The layout backing the current capacity.
    pub open spec fn layout_spec(self) -> Layout {
        spec_layout_for::<T>(self.capacity)
    }

    /// The layout one slot larger: what a full buffer grows to on push.
    pub open spec fn grown_layout_spec(self) -> Layout {
        spec_layout_for::<T>((self.capacity + 1) as usize)
    }

    /// The buffer's storage bytes in the given context.
    pub open spec fn bytes(self, context: S::Context) -> Seq<u8> {
        S::contents(self.layout_spec(), self.handle->Some_0, context)
    }

    /// The initialized elements, decoded slot by slot from the storage bytes.
    pub open spec fn elems(self, context: S::Context) -> Seq<T> {
        Seq::new(
            self.length as nat,
            |i: int|
                T::from_bytes_spec(
                    self.bytes(context).subrange(
                        i * T::size_spec() as int,
                        (i + 1) * T::size_spec() as int,
                    ),
                ),
        )
    }

    /// The buffer's invariant, relative to the context its handle came
    /// from: the length never exceeds the capacity, the backing layout
    /// fits the machine, and the handle is present and references a block
    /// of exactly the layout's size.
    pub open spec fn wf(self, context: S::Context) -> bool {
        &&& self.length <= self.capacity
        &&& T::size_spec() * self.capacity <= usize::MAX
        &&& self.handle is Some
        &&& S::valid(self.layout_spec(), self.handle->Some_0, context)
        &&& self.bytes(context).len() == self.layout_spec().size
    }

    /// Wraps an already-allocated handle: `capacity` backed slots, none of
    /// them initialized yet.
    pub fn with_handle_capacity(handle: S::Handle, capacity: usize) -> (r: Self)
        ensures
            r.handle == Some(handle),
            r.capacity == capacity,
            r.length == 0,
    {
        RawVec { handle: Some(handle), capacity, length: 0, marker: PhantomData }
    }

    /// Allocates storage for exactly `capacity` slots through the backend,
    /// in the given context. Succeeds exactly when the backend can satisfy
    /// the layout for `capacity` elements of `T`; the fresh buffer is empty.
    pub fn with_capacity_context(capacity: usize, context: &mut S::Context) -> (r: Result<
        Self,
        VecError,
    >)
        requires
            T::size_spec() * capacity <= usize::MAX,
        ensures
            r is Ok <==> S::can_allocate(spec_layout_for::<T>(capacity), *old(context)),
            r matches Ok(v) ==> ({
                &&& v.wf(*final(context))
                &&& v.capacity == capacity
                &&& v.length == 0
                &&& v.elems(*final(context)) == Seq::<T>::empty()
                &&& S::alloc_post(
                    spec_layout_for::<T>(capacity),
                    *old(context),
                    v.handle->Some_0,
                    *final(context),
                )
            }),
            r is Err ==> *final(context) == *old(context),
    {
        let layout = layout_for::<T>(capacity);
        match S::allocate(layout, context) {
            Ok(h) => {
                let v = Self::with_handle_capacity(h, capacity);
                proof {
                    assert(v.elems(*context) =~= Seq::<T>::empty());
                }
                Ok(v)
            },
            Err(_) => Err(VecError),
        }
    }

    /// `with_capacity_context` for a backend that needs no context: the
    /// unit context is supplied implicitly.
    pub fn with_capacity_contextless(capacity: usize) -> (r: Result<Self, VecError>) where
        S: Storage<Context = ()>
        requires
            T::size_spec() * capacity <= usize::MAX,
        ensures
            r is Ok <==> S::can_allocate(spec_layout_for::<T>(capacity), ()),
            r matches Ok(v) ==> ({
                &&& v.wf(())
                &&& v.capacity == capacity
                &&& v.length == 0
                &&& v.elems(()) == Seq::<T>::empty()
            }),
    {
        let layout = layout_for::<T>(capacity);
        match crate::traits::allocate_contextless::<S>(layout) {
            Ok(h) => {
                let v = Self::with_handle_capacity(h, capacity);
                proof {
                    assert(v.elems(()) =~= Seq::<T>::empty());
                }
                Ok(v)
            },
            Err(_) => Err(VecError),
        }
    }

    /// Moves the buffer's storage to a reservation for `new_capacity`
    /// slots, through the backend's reallocate; the bytes of the slots
    /// both capacities back carry over. Succeeds exactly when the backend
    /// can allocate the new layout; on failure nothing changes.
    fn resize(&mut self, new_capacity: usize, context: &mut S::Context) -> (r: Result<
        (),
        VecError,
    >)
        requires
            old(self).wf(*old(context)),
            old(self).length <= new_capacity,
            T::size_spec() * new_capacity <= usize::MAX,
        ensures
            r is Ok <==> S::can_allocate(spec_layout_for::<T>(new_capacity), *old(context)),
            r is Ok ==> ({
                &&& final(self).wf(*final(context))
                &&& final(self).capacity == new_capacity
                &&& final(self).length == old(self).length
                &&& forall|j: int|
                    0 <= j < crate::traits::min_size(
                        old(self).layout_spec(),
                        spec_layout_for::<T>(new_capacity),
                    ) ==> final(self).bytes(*final(context))[j] == old(self).bytes(
                        *old(context),
                    )[j]
            }),
            r is Err ==> *final(self) == *old(self) && *final(context) == *old(context),
    {
        let old_layout = layout_for::<T>(self.capacity);
        let new_layout = layout_for::<T>(new_capacity);
        let result = match &self.handle {
            Some(h) => S::reallocate(old_layout, new_layout, h, context),
            None => {
                proof {
                    assert(false);
                }
                Err(crate::traits::AllocError)
            },
        };
        match result {
            Ok(new_handle) => {
                let ghost m = crate::traits::min_size(old_layout, new_layout);
                proof {
                    assert(forall|j: int|
                        0 <= j < m ==> S::contents(new_layout, new_handle, *context)[j]
                            == S::contents(
                            old_layout,
                            old(self).handle->Some_0,
                            *old(context),
                        )[j]) by {
                        let c_new = S::contents(new_layout, new_handle, *context);
                        let c_old = S::contents(
                            old_layout,
                            old(self).handle->Some_0,
                            *old(context),
                        );
                        assert(forall|j: int|
                            0 <= j < m ==> c_new.subrange(0, m)[j] == c_new[j] && c_old.subrange(
                                0,
                                m,
                            )[j] == c_old[j]);
                    }
                }
                self.handle = Some(new_handle);
                self.capacity = new_capacity;
                Ok(())
            },
            Err(_) => Err(VecError),
        }
    }

    /// Appends `value`. If the buffer is full, first grows the capacity by
    /// exactly one slot through the backend's reallocate. Succeeds exactly
    /// when no growth is needed, or the one-slot-larger layout fits the
    /// machine and the backend can allocate it; on failure nothing changes,
    /// and the error reports the failed reallocation.
    pub fn try_push(&mut self, value: T, context: &mut S::Context) -> (r: Result<(), VecError>)
        requires
            old(self).wf(*old(context)),
        ensures
            r is Ok <==> (old(self).length < old(self).capacity || (T::size_spec() * (old(
                self,
            ).capacity + 1) <= usize::MAX && S::can_allocate(
                old(self).grown_layout_spec(),
                *old(context),
            ))),
            r is Ok ==> ({
                &&& final(self).wf(*final(context))
                &&& final(self).length == old(self).length + 1
                &&& final(self).elems(*final(context)) == old(self).elems(*old(context)).push(
                    value,
                )
                &&& final(self).capacity == (if old(self).length == old(self).capacity {
                    old(self).capacity + 1
                } else {
                    old(self).capacity as int
                })
            }),
            r is Err ==> *final(self) == *old(self) && *final(context) == *old(context),
    {
        proof {
            T::size_align_properties();
        }
        if self.length == self.capacity {
            if self.capacity == usize::MAX {
                proof {
                    lemma_mul_inequality(1, T::size_spec() as int, old(self).capacity + 1);
                }
                return Err(VecError);
            }
            let element_size = T::size();
            proof {
                assert(self.capacity * (T::size_spec() as int) == T::size_spec() * self.capacity)
                    by (nonlinear_arith);
                assert((T::size_spec() as int) * (self.capacity + 1) == T::size_spec()
                    * self.capacity + T::size_spec()) by (nonlinear_arith);
            }
            let current_size = self.capacity * element_size;
            if element_size > usize::MAX - current_size {
                return Err(VecError);
            }
            let new_capacity = self.capacity + 1;
            let grow_result = self.resize(new_capacity, context);
            match grow_result {
                Ok(_) => {},
                Err(e) => {
                    return Err(e);
                },
            }
        }
        let ghost mid_self = *self;
        let ghost mid_context = *context;
        proof {
            lemma_mul_inequality(self.length + 1, self.capacity as int, T::size_spec() as int);
            assert((self.length + 1) * (T::size_spec() as int) == self.length * (
            T::size_spec() as int) + T::size_spec()) by (nonlinear_arith);
            assert(self.length * (T::size_spec() as int) >= 0) by (nonlinear_arith)
                requires
                    self.length as int >= 0,
                    T::size_spec() as int >= 0,
            ;
            assert(self.capacity * (T::size_spec() as int) == T::size_spec() * self.capacity)
                by (nonlinear_arith);
        }
        let element_size = T::size();
        let offset = self.length * element_size;
        let layout = layout_for::<T>(self.capacity);
        let data = value.to_bytes();
        match &mut self.handle {
            Some(h) => {
                S::write_bytes(layout, h, context, offset, &data);
            },
            None => {
                proof {
                    assert(false);
                }
                return Err(VecError);
            },
        }
        self.length = self.length + 1;
        proof {
            T::round_trip(value);
            let es = T::size_spec() as int;
            let n = old(self).length as int;
            let off = n * es;
            let b_old = old(self).bytes(*old(context));
            let b_mid = mid_self.bytes(mid_context);
            let b_new = self.bytes(*context);
            let e_old = old(self).elems(*old(context));
            let e_new = self.elems(*context);
            if old(self).length == old(self).capacity {
                lemma_mul_inequality(
                    old(self).capacity as int,
                    old(self).capacity + 1,
                    es,
                );
                assert(forall|j: int| 0 <= j < off ==> b_mid[j] == b_old[j]);
            } else {
                assert(b_mid == b_old);
            }
            assert(forall|j: int| 0 <= j < off ==> b_new[j] == b_mid[j]) by {
                assert(forall|j: int|
                    0 <= j < off ==> b_new[j] == b_mid.subrange(0, off)[j]);
            }
            assert forall|i: int| 0 <= i < n implies e_new[i] == e_old[i] by {
                lemma_mul_inequality(i + 1, n, es);
                assert(i * es >= 0) by (nonlinear_arith)
                    requires
                        i >= 0,
                        es >= 0,
                ;
                assert((i + 1) * es == i * es + es) by (nonlinear_arith);
                assert(b_new.subrange(i * es, (i + 1) * es) =~= b_old.subrange(
                    i * es,
                    (i + 1) * es,
                ));
            }
            assert(e_new[n] == value) by {
                assert((n + 1) * es == n * es + es) by (nonlinear_arith);
                assert(b_new.subrange(off, off + es) =~= T::to_bytes_spec(value));
            }
            assert(e_new =~= e_old.push(value));
        }
        Ok(())
    }

    /// Removes and returns the last element; the capacity is unchanged.
    /// The buffer must be non-empty: popping an empty buffer is a contract
    /// violation, not a recoverable error.
    pub fn try_pop(&mut self, context: &mut S::Context) -> (r: Result<T, VecError>)
        requires
            old(self).wf(*old(context)),
            old(self).length > 0,
        ensures
            r is Ok,
            r matches Ok(v) ==> ({
                &&& v == old(self).elems(*old(context)).last()
                &&& final(self).wf(*final(context))
                &&& final(self).elems(*final(context)) == old(self).elems(
                    *old(context),
                ).drop_last()
                &&& final(self).length == old(self).length - 1
                &&& final(self).capacity == old(self).capacity
            }),
            *final(context) == *old(context),
    {
        proof {
            T::size_align_properties();
            lemma_mul_inequality(self.length as int, self.capacity as int, T::size_spec() as int);
            assert(self.length * (T::size_spec() as int) == (self.length - 1) * (
            T::size_spec() as int) + T::size_spec()) by (nonlinear_arith);
            assert((self.length - 1) * (T::size_spec() as int) >= 0) by (nonlinear_arith)
                requires
                    self.length as int >= 1,
                    T::size_spec() as int >= 0,
            ;
            assert(self.capacity * (T::size_spec() as int) == T::size_spec() * self.capacity)
                by (nonlinear_arith);
        }
        let element_size = T::size();
        let at = self.length - 1;
        let offset = at * element_size;
        let layout = layout_for::<T>(self.capacity);
        let data = match &self.handle {
            Some(h) => S::read_bytes(layout, h, context, offset, element_size),
            None => {
                proof {
                    assert(false);
                }
                return Err(VecError);
            },
        };
        let value = T::from_bytes(&data);
        self.length = at;
        proof {
            assert(self.elems(*context) =~= old(self).elems(*old(context)).drop_last());
            assert(value == old(self).elems(*old(context)).last());
        }
        Ok(value)
    }

    /// `try_push` for a backend that needs no context: the unit context is
    /// supplied implicitly.
    pub fn try_push_contextless(&mut self, value: T) -> (r: Result<(), VecError>) where
        S: Storage<Context = ()>
        requires
            old(self).wf(()),
        ensures
            r is Ok <==> (old(self).length < old(self).capacity || (T::size_spec() * (old(
                self,
            ).capacity + 1) <= usize::MAX && S::can_allocate(old(self).grown_layout_spec(), ()))),
            r is Ok ==> ({
                &&& final(self).wf(())
                &&& final(self).length == old(self).length + 1
                &&& final(self).elems(()) == old(self).elems(()).push(value)
                &&& final(self).capacity == (if old(self).length == old(self).capacity {
                    old(self).capacity + 1
                } else {
                    old(self).capacity as int
                })
            }),
            r is Err ==> *final(self) == *old(self),
    {
        let mut unit_context = ();
        self.try_push(value, &mut unit_context)
    }

    /// `try_pop` for a backend that needs no context: the unit context is
    /// supplied implicitly.
    pub fn try_pop_contextless(&mut self) -> (r: Result<T, VecError>) where
        S: Storage<Context = ()>
        requires
            old(self).wf(()),
            old(self).length > 0,
        ensures
            r is Ok,
            r matches Ok(v) ==> ({
                &&& v == old(self).elems(()).last()
                &&& final(self).wf(())
                &&& final(self).elems(()) == old(self).elems(()).drop_last()
                &&& final(self).length == old(self).length - 1
                &&& final(self).capacity == old(self).capacity
            }),
    {
        let mut unit_context = ();
        self.try_pop(&mut unit_context)
    }
}

/// What popping `n` times from a buffer holding the elements `s` does,
/// per `try_pop`'s contract: the values returned, in pop order, and the
/// elements left behind.
pub open spec fn pop_all<T>(s: Seq<T>, n: nat) -> (Seq<T>, Seq<T>)
    decreases n,
{
    if n == 0 {
        (Seq::<T>::empty(), s)
    } else {
        let rest = pop_all(s.drop_last(), (n - 1) as nat);
        (seq![s.last()] + rest.0, rest.1)
    }
}

/// Stack discipline. A buffer holds `s`; pushing the values `vs` in order
/// leaves it holding `s + vs` (each `try_push` appends one element, by its
/// contract). Popping `vs.len()` times then returns exactly the pushed
/// values in reverse order of insertion and restores the buffer's elements
/// to `s` — in particular, its length returns to its pre-push value.
pub proof fn lemma_stack_discipline<T>(s: Seq<T>, vs: Seq<T>)
    ensures
        pop_all(s + vs, vs.len()).0 == vs.reverse(),
        pop_all(s + vs, vs.len()).1 == s,
    decreases vs.len(),
{
    if vs.len() == 0 {
        assert(s + vs =~= s);
        assert(vs.reverse() =~= Seq::<T>::empty());
    } else {
        lemma_stack_discipline(s, vs.drop_last());
        assert((s + vs).last() == vs.last());
        assert((s + vs).drop_last() =~= s + vs.drop_last());
        assert(seq![vs.last()] + vs.drop_last().reverse() =~= vs.reverse());
    }
}

} // verus!
