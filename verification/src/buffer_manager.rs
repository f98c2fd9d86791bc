use vstd::prelude::*;
use crate::buffer_manager::buffer_operations::{BufferAllocator, SupportsCopying};
use crate::error::EngineError;
use crate::store::{StoreKey, Table};

pub mod buffer_operations;
pub mod buffer_pair;

verus! {

/// Which slot an allocation goes to: the singleton staging slot, one named
/// standard slot, or one named per-frame uniform list.
pub enum AllocateBufferType<S, U> {
    /// The singleton staging buffer.
    Temp,
    /// The one buffer under a standard name.
    Standard { name: S },
    /// A new entry at the end of a uniform name's list.
    Uniform { name: U },
}

/// What to copy from: host bytes, or one of the manager's slots.
pub enum BufferManagerDataType<S, U> {
    /// Host data, written through mapped memory.
    Data(Vec<u8>),
    /// The staging buffer.
    TempBuffer,
    /// The buffer under a standard name.
    StandardBuffer { name: S },
    /// One entry of a uniform name's list.
    UniformBuffers { name: U, index: usize },
}

/// Which of the manager's slots to copy into.
pub enum BufferManagerCopyType<S, U> {
    /// The staging buffer.
    TempBuffer,
    /// The buffer under a standard name.
    StandardBuffer(S),
    /// One entry of a uniform name's list.
    UniformBuffers(U, usize),
}

/// The copy source names the same logical slot as the destination: the
/// staging slot on both sides, the same standard name, or the same uniform
/// name and index. Such a copy is refused outright: the one-shot device
/// copy must never see the same buffer on both sides. Host data and copies
/// between different slots, of the same category or not, are fine.
pub open spec fn same_slot_spec<S, U>(
    data: &BufferManagerDataType<S, U>,
    buffer_type: &BufferManagerCopyType<S, U>,
) -> bool {
    match (data, buffer_type) {
        (BufferManagerDataType::TempBuffer, BufferManagerCopyType::TempBuffer) => true,
        (
            BufferManagerDataType::StandardBuffer { name: x },
            BufferManagerCopyType::StandardBuffer(y),
        ) => *x == *y,
        (
            BufferManagerDataType::UniformBuffers { name: x, index: i },
            BufferManagerCopyType::UniformBuffers(y, j),
        ) => *x == *y && *i == *j,
        _ => false,
    }
}

/// Decides [`same_slot_spec`].
pub fn same_slot<S: StoreKey, U: StoreKey>(
    data: &BufferManagerDataType<S, U>,
    buffer_type: &BufferManagerCopyType<S, U>,
) -> (r: bool)
    ensures
        r == same_slot_spec(data, buffer_type),
{
    match (data, buffer_type) {
        (BufferManagerDataType::TempBuffer, BufferManagerCopyType::TempBuffer) => true,
        (
            BufferManagerDataType::StandardBuffer { name: x },
            BufferManagerCopyType::StandardBuffer(y),
        ) => x.key_eq(y),
        (
            BufferManagerDataType::UniformBuffers { name: x, index: i },
            BufferManagerCopyType::UniformBuffers(y, j),
        ) => x.key_eq(y) && *i == *j,
        _ => false,
    }
}

/// The generic buffer lifecycle tracker: at most one staging buffer, one
/// buffer per standard name, and a list of buffers per uniform name (one
/// entry per in-flight frame).
///
/// Every stored handle is live in the allocator that dealt it out, and no
/// handle is stored twice ([`BufferManager::owns`]); allocating over an
/// occupied slot frees the old buffer first, so replacement never leaks and
/// freeing never double-frees.
pub struct BufferManager<B, S, U> {
    /// The staging slot; at most one buffer exists here.
    pub temp_buffer: Option<B>,
    /// One buffer per standard name.
    pub buffers: Table<S, B>,
    /// A list of buffers per uniform name.
    pub uniform_buffers: Table<U, Vec<B>>,
}

impl<B: Copy, S: StoreKey, U: StoreKey> BufferManager<B, S, U> {
    /// A staging buffer exists.
    pub open spec fn has_temp(self) -> bool {
        self.temp_buffer is Some
    }

    /// The staging buffer.
    pub open spec fn temp(self) -> B {
        self.temp_buffer->Some_0
    }

    /// A buffer exists under the standard name `s`.
    pub open spec fn std_has(self, s: S) -> bool {
        self.buffers.contains_spec(s)
    }

    /// The buffer under the standard name `s`.
    pub open spec fn std_at(self, s: S) -> B {
        self.buffers.get_spec(s)
    }

    /// A list exists under the uniform name `u`.
    pub open spec fn uni_has(self, u: U) -> bool {
        self.uniform_buffers.contains_spec(u)
    }

    /// The list under the uniform name `u`, in allocation order.
    pub open spec fn uni_at(self, u: U) -> Seq<B> {
        self.uniform_buffers.get_spec(u)@
    }

    /// Both name tables have pairwise-distinct keys.
    pub open spec fn wf(self) -> bool {
        self.buffers.wf() && self.uniform_buffers.wf()
    }

    /// No handle sits in two slots.
    pub open spec fn distinct(self) -> bool {
        &&& forall|s: S|
            self.has_temp() && self.std_has(s) ==> #[trigger] self.std_at(s) != self.temp()
        &&& forall|u: U, i: int|
            self.has_temp() && self.uni_has(u) && 0 <= i < self.uni_at(u).len()
                ==> #[trigger] self.uni_at(u)[i] != self.temp()
        &&& forall|s1: S, s2: S|
            s1 != s2 && self.std_has(s1) && self.std_has(s2) ==> #[trigger] self.std_at(s1)
                != #[trigger] self.std_at(s2)
        &&& forall|s: S, u: U, i: int|
            self.std_has(s) && self.uni_has(u) && 0 <= i < self.uni_at(u).len()
                ==> #[trigger] self.std_at(s) != #[trigger] self.uni_at(u)[i]
        &&& forall|u1: U, i1: int, u2: U, i2: int|
            self.uni_has(u1) && self.uni_has(u2) && 0 <= i1 < self.uni_at(u1).len() && 0 <= i2
                < self.uni_at(u2).len() && (u1 != u2 || i1 != i2) ==> #[trigger] self.uni_at(
                u1,
            )[i1] != #[trigger] self.uni_at(u2)[i2]
    }

    /// Every stored handle is live in the allocator's ledger, and no handle
    /// is stored twice. This is what makes every free provably sound and
    /// every replacement provably leak-free.
    pub open spec fn owns(self, live: Set<B>) -> bool {
        &&& self.has_temp() ==> live.contains(self.temp())
        &&& forall|s: S| self.std_has(s) ==> live.contains(#[trigger] self.std_at(s))
        &&& forall|u: U, i: int|
            self.uni_has(u) && 0 <= i < self.uni_at(u).len() ==> live.contains(
                #[trigger] self.uni_at(u)[i],
            )
        &&& self.distinct()
    }

    /// Equal standard tables look up equally.
    pub proof fn lemma_std_bridge(pre: Self, post: Self)
        requires
            post.buffers == pre.buffers,
        ensures
            forall|s: S| #[trigger] post.std_has(s) == pre.std_has(s),
            forall|s: S| #[trigger] post.std_at(s) == pre.std_at(s),
    {
    }

    /// Equal uniform tables look up equally.
    pub proof fn lemma_uni_bridge(pre: Self, post: Self)
        requires
            post.uniform_buffers == pre.uniform_buffers,
        ensures
            forall|u: U| #[trigger] post.uni_has(u) == pre.uni_has(u),
            forall|u: U| #[trigger] post.uni_at(u) == pre.uni_at(u),
    {
    }

    /// Equal staging slots look up equally.
    pub proof fn lemma_temp_bridge(pre: Self, post: Self)
        requires
            post.temp_buffer == pre.temp_buffer,
        ensures
            post.has_temp() == pre.has_temp(),
            pre.has_temp() ==> post.temp() == pre.temp(),
    {
    }

    /// A fresh manager: every slot empty. It owns its (empty) contents
    /// against any ledger.
    pub fn new() -> (r: Self)
        ensures
            r.wf(),
            !r.has_temp(),
            forall|s: S| !r.std_has(s),
            forall|u: U| !r.uni_has(u),
            forall|live: Set<B>| r.owns(live),
    {
        BufferManager { temp_buffer: None, buffers: Table::new(), uniform_buffers: Table::new() }
    }

    /// The buffer under a standard name; the name must have been
    /// allocated, there is no silent default.
    pub fn get_standard_buffer(&self, name: S) -> (r: B)
        requires
            self.wf(),
            self.std_has(name),
        ensures
            r == self.std_at(name),
    {
        *self.buffers.get(&name)
    }

    /// The buffer list under a uniform name; the name must have been set
    /// up, there is no silent default.
    pub fn get_uniform_buffers(&self, name: U) -> (r: &Vec<B>)
        requires
            self.wf(),
            self.uni_has(name),
        ensures
            r@ == self.uni_at(name),
    {
        self.uniform_buffers.get(&name)
    }

    /// Makes sure a uniform name has a list, empty at first. A list already
    /// present is kept as it is.
    pub fn setup_uniform_buffer(&mut self, name: U)
        requires
            old(self).wf(),
        ensures
            final(self).wf(),
            forall|u2: U| final(self).uni_has(u2) == (old(self).uni_has(u2) || u2 == name),
            old(self).uni_has(name) ==> *final(self) == *old(self),
            !old(self).uni_has(name) ==> final(self).uni_at(name) == Seq::<B>::empty(),
            forall|u2: U|
                u2 != name && old(self).uni_has(u2) ==> final(self).uni_at(u2) == old(
                self,
                ).uni_at(u2),
            final(self).temp_buffer == old(self).temp_buffer,
            final(self).buffers == old(self).buffers,
            forall|live: Set<B>| old(self).owns(live) ==> final(self).owns(live),
    {
        if !self.uniform_buffers.contains(&name) {
            self.uniform_buffers.insert_new(name, Vec::new());
            proof {
                let pre = *old(self);
                let post = *self;
                Self::lemma_std_bridge(pre, post);
                Self::lemma_temp_bridge(pre, post);
                assert forall|live: Set<B>| pre.owns(live) implies post.owns(live) by {
                    assert forall|u: U, i: int|
                        post.uni_has(u) && 0 <= i < post.uni_at(u).len() implies live.contains(
                        #[trigger] post.uni_at(u)[i]) by {
                        assert(u != name);
                        assert(post.uni_at(u) == pre.uni_at(u));
                    }
                    assert forall|u: U, i: int|
                        post.has_temp() && post.uni_has(u) && 0 <= i < post.uni_at(u).len()
                        implies #[trigger] post.uni_at(u)[i] != post.temp() by {
                        assert(u != name);
                        assert(post.uni_at(u) == pre.uni_at(u));
                    }
                    assert forall|s: S, u: U, i: int|
                        post.std_has(s) && post.uni_has(u) && 0 <= i < post.uni_at(u).len()
                        implies #[trigger] post.std_at(s) != #[trigger] post.uni_at(u)[i] by {
                        assert(u != name);
                        assert(post.uni_at(u) == pre.uni_at(u));
                    }
                    assert forall|u1: U, i1: int, u2: U, i2: int|
                        post.uni_has(u1) && post.uni_has(u2) && 0 <= i1 < post.uni_at(u1).len()
                            && 0 <= i2 < post.uni_at(u2).len() && (u1 != u2 || i1 != i2)
                        implies #[trigger] post.uni_at(u1)[i1] != #[trigger] post.uni_at(
                        u2,
                    )[i2] by {
                        assert(u1 != name && u2 != name);
                        assert(post.uni_at(u1) == pre.uni_at(u1));
                        assert(post.uni_at(u2) == pre.uni_at(u2));
                    }
                }
            }
        }
    }

    /// `post` and the ledger counters are what allocating into the standard
    /// slot `name` leaves behind: one buffer created, the old occupant (and
    /// only it) destroyed, and the name registered.
    pub open spec fn standard_allocation(
        pre: Self,
        post: Self,
        name: S,
        created0: nat,
        destroyed0: nat,
        created1: nat,
        destroyed1: nat,
    ) -> bool {
        &&& created1 == created0 + 1
        &&& destroyed1 == destroyed0 + (if pre.std_has(name) {
            1nat
        } else {
            0nat
        })
        &&& forall|s2: S| post.std_has(s2) == (pre.std_has(s2) || s2 == name)
    }

    /// `post` and the ledger counters are what allocating into the staging
    /// slot leaves behind: one buffer created, the old staging buffer (and
    /// only it) destroyed first, and a staging buffer present.
    pub open spec fn temp_allocation(
        pre: Self,
        post: Self,
        created0: nat,
        destroyed0: nat,
        created1: nat,
        destroyed1: nat,
    ) -> bool {
        &&& created1 == created0 + 1
        &&& destroyed1 == destroyed0 + (if pre.has_temp() {
            1nat
        } else {
            0nat
        })
        &&& post.has_temp()
    }

    /// The replace-in-place law: allocating the same standard name twice in
    /// succession leaves exactly one live buffer under it. Counting from a
    /// balanced ledger, every created buffer but the one now under the name
    /// has been destroyed: the replaced buffer is never leaked.
    pub proof fn lemma_standard_replace_no_leak(
        m0: Self,
        m1: Self,
        m2: Self,
        name: S,
        c0: nat,
        d0: nat,
        c1: nat,
        d1: nat,
        c2: nat,
        d2: nat,
    )
        requires
            !m0.std_has(name),
            d0 == c0,
            Self::standard_allocation(m0, m1, name, c0, d0, c1, d1),
            Self::standard_allocation(m1, m2, name, c1, d1, c2, d2),
        ensures
            m2.std_has(name),
            d2 == c2 - 1,
    {
    }

    /// The staging singleton law: allocating the staging slot twice without
    /// an intervening free destroys the first staging buffer. Counting from
    /// a balanced ledger, every created buffer but the one staging buffer
    /// now present has been destroyed: the first one is never leaked.
    pub proof fn lemma_temp_singleton_no_leak(
        m0: Self,
        m1: Self,
        m2: Self,
        c0: nat,
        d0: nat,
        c1: nat,
        d1: nat,
        c2: nat,
        d2: nat,
    )
        requires
            !m0.has_temp(),
            d0 == c0,
            Self::temp_allocation(m0, m1, c0, d0, c1, d1),
            Self::temp_allocation(m1, m2, c1, d1, c2, d2),
        ensures
            m2.has_temp(),
            d2 == c2 - 1,
    {
    }

    /// Allocates a buffer of `size` bytes into the named slot, freeing
    /// whatever the slot held first: an existing staging buffer (the
    /// staging slot is a singleton), or the buffer previously under the
    /// same standard name (replace-in-place, never double-allocate).
    /// A uniform allocation appends to its name's list instead. `size`
    /// counts bytes: a caller uploading typed elements passes the element
    /// size times the element count.
    ///
    /// On success exactly one buffer was created, and exactly one was
    /// destroyed when and only when a temp or standard slot was occupied:
    /// replacement never leaks. On failure nothing changed at all.
    #[verifier::rlimit(50)]
    pub fn allocate_buffer_with_size<A: BufferAllocator<Output = B>>(
        &mut self,
        buffer_type: AllocateBufferType<S, U>,
        needed_data: &mut A,
        usage: u32,
        properties: u32,
        size: u64,
    ) -> (r: Result<(), EngineError>)
        requires
            old(self).wf(),
            old(self).owns(old(needed_data).live()),
        ensures
            final(self).wf(),
            final(self).owns(final(needed_data).live()),
            match r {
                Err(_) => *final(self) == *old(self) && *final(needed_data) == *old(needed_data),
                Ok(()) => {
                    &&& final(needed_data).created() == old(needed_data).created() + 1
                    &&& (buffer_type matches AllocateBufferType::Temp ==> Self::temp_allocation(
                        *old(self),
                        *final(self),
                        old(needed_data).created(),
                        old(needed_data).destroyed(),
                        final(needed_data).created(),
                        final(needed_data).destroyed(),
                    ))
                    &&& (buffer_type matches AllocateBufferType::Standard { name }
                        ==> Self::standard_allocation(
                        *old(self),
                        *final(self),
                        name,
                        old(needed_data).created(),
                        old(needed_data).destroyed(),
                        final(needed_data).created(),
                        final(needed_data).destroyed(),
                    ))
                    &&& match buffer_type {
                        AllocateBufferType::Temp => {
                            &&& final(needed_data).destroyed() == old(needed_data).destroyed()
                                + (if old(self).has_temp() {
                                1nat
                            } else {
                                0nat
                            })
                            &&& final(self).has_temp()
                            &&& final(needed_data).live().contains(final(self).temp())
                            &&& !old(needed_data).live().contains(final(self).temp())
                            &&& final(self).buffers == old(self).buffers
                            &&& final(self).uniform_buffers == old(self).uniform_buffers
                        },
                        AllocateBufferType::Standard { name } => {
                            &&& final(needed_data).destroyed() == old(needed_data).destroyed()
                                + (if old(self).std_has(name) {
                                1nat
                            } else {
                                0nat
                            })
                            &&& forall|s2: S|
                                final(self).std_has(s2) == (old(self).std_has(s2) || s2 == name)
                            &&& final(needed_data).live().contains(final(self).std_at(name))
                            &&& !old(needed_data).live().contains(final(self).std_at(name))
                            &&& forall|s2: S|
                                s2 != name && old(self).std_has(s2) ==> final(self).std_at(s2)
                                    == old(self).std_at(s2)
                            &&& final(self).temp_buffer == old(self).temp_buffer
                            &&& final(self).uniform_buffers == old(self).uniform_buffers
                        },
                        AllocateBufferType::Uniform { name } => {
                            &&& final(needed_data).destroyed() == old(needed_data).destroyed()
                            &&& forall|u2: U|
                                final(self).uni_has(u2) == (old(self).uni_has(u2) || u2 == name)
                            &&& final(self).uni_at(name) == (if old(self).uni_has(name) {
                                old(self).uni_at(name)
                            } else {
                                Seq::<B>::empty()
                            }).push(final(self).uni_at(name).last())
                            &&& final(needed_data).live().contains(final(self).uni_at(name).last())
                            &&& !old(needed_data).live().contains(final(self).uni_at(name).last())
                            &&& forall|u2: U|
                                u2 != name && old(self).uni_has(u2) ==> final(self).uni_at(u2)
                                    == old(self).uni_at(u2)
                            &&& final(self).temp_buffer == old(self).temp_buffer
                            &&& final(self).buffers == old(self).buffers
                        },
                    }
                },
            },
    {
        let b = match needed_data.allocate_with_size(size, usage, properties) {
            Ok(b) => b,
            Err(e) => {
                return Err(e);
            }
        };
        let ghost pre = *old(self);
        let ghost live0 = old(needed_data).live();
        match buffer_type {
            AllocateBufferType::Temp => {
                match self.temp_buffer {
                    Some(oldb) => {
                        proof {
                            assert(pre.has_temp());
                            assert(oldb == pre.temp());
                            assert(live0.contains(oldb));
                        }
                        needed_data.free(oldb);
                        self.temp_buffer = Some(b);
                        proof {
                            let post = *self;
                            let live2 = needed_data.live();
                            Self::lemma_std_bridge(pre, post);
                            Self::lemma_uni_bridge(pre, post);
                            assert(live2 =~= live0.insert(b).remove(oldb));
                            assert(b != oldb);
                            assert forall|s: S| post.std_has(s) implies live2.contains(
                                #[trigger] post.std_at(s),
                            ) by {
                                assert(pre.std_at(s) != oldb);
                                assert(live0.contains(pre.std_at(s)));
                            }
                            assert forall|u: U, i: int|
                                post.uni_has(u) && 0 <= i < post.uni_at(u).len()
                                implies live2.contains(#[trigger] post.uni_at(u)[i]) by {
                                assert(pre.uni_at(u)[i] != oldb);
                                assert(live0.contains(pre.uni_at(u)[i]));
                            }
                            assert forall|s: S|
                                post.has_temp() && post.std_has(s) implies #[trigger] post.std_at(
                                s,
                            ) != post.temp() by {
                                assert(live0.contains(pre.std_at(s)));
                            }
                            assert forall|u: U, i: int|
                                post.has_temp() && post.uni_has(u) && 0 <= i < post.uni_at(
                                    u,
                                ).len() implies #[trigger] post.uni_at(u)[i] != post.temp() by {
                                assert(live0.contains(pre.uni_at(u)[i]));
                            }
                        }
                    }
                    None => {
                        self.temp_buffer = Some(b);
                        proof {
                            let post = *self;
                            let live2 = needed_data.live();
                            Self::lemma_std_bridge(pre, post);
                            Self::lemma_uni_bridge(pre, post);
                            assert forall|s: S|
                                post.has_temp() && post.std_has(s) implies #[trigger] post.std_at(
                                s,
                            ) != post.temp() by {
                                assert(live0.contains(pre.std_at(s)));
                            }
                            assert forall|u: U, i: int|
                                post.has_temp() && post.uni_has(u) && 0 <= i < post.uni_at(
                                    u,
                                ).len() implies #[trigger] post.uni_at(u)[i] != post.temp() by {
                                assert(live0.contains(pre.uni_at(u)[i]));
                            }
                        }
                    }
                }
            }
            AllocateBufferType::Standard { name } => {
                if self.buffers.contains(&name) {
                    let oldb = *self.buffers.get(&name);
                    proof {
                        assert(oldb == pre.std_at(name));
                        assert(live0.contains(oldb));
                    }
                    needed_data.free(oldb);
                    let slot = self.buffers.get_mut(&name);
                    *slot = b;
                    let ghost vnew: B = *slot;
                    proof {
                        Table::lemma_updated(pre.buffers, self.buffers, name, vnew);
                        let post = *self;
                        let live2 = needed_data.live();
                        Self::lemma_uni_bridge(pre, post);
                        Self::lemma_temp_bridge(pre, post);
                        assert(live2 =~= live0.insert(b).remove(oldb));
                        assert(b != oldb);
                        assert(post.std_at(name) == b);
                        assert forall|s2: S|
                            post.std_has(s2) == (pre.std_has(s2) || s2 == name) by {
                            assert(post.buffers.contains_spec(s2) == pre.buffers.contains_spec(
                                s2,
                            ));
                        }
                        assert forall|s: S| post.std_has(s) implies live2.contains(
                            #[trigger] post.std_at(s),
                        ) by {
                            if s != name {
                                assert(post.std_at(s) == pre.std_at(s));
                                assert(pre.std_at(s) != oldb);
                                assert(live0.contains(pre.std_at(s)));
                            }
                        }
                        assert forall|u: U, i: int|
                            post.uni_has(u) && 0 <= i < post.uni_at(u).len()
                            implies live2.contains(#[trigger] post.uni_at(u)[i]) by {
                            assert(pre.uni_at(u)[i] != oldb);
                            assert(live0.contains(pre.uni_at(u)[i]));
                        }
                        assert(post.has_temp() ==> live2.contains(post.temp()));
                        assert forall|s: S|
                            post.has_temp() && post.std_has(s) implies #[trigger] post.std_at(s)
                            != post.temp() by {
                            if s != name {
                                assert(post.std_at(s) == pre.std_at(s));
                            } else {
                                assert(live0.contains(pre.temp()));
                            }
                        }
                        assert forall|s1: S, s2: S|
                            s1 != s2 && post.std_has(s1) && post.std_has(s2)
                            implies #[trigger] post.std_at(s1) != #[trigger] post.std_at(
                            s2,
                        ) by {
                            if s1 != name && s2 != name {
                                assert(post.std_at(s1) == pre.std_at(s1));
                                assert(post.std_at(s2) == pre.std_at(s2));
                            } else if s1 == name {
                                assert(post.std_at(s2) == pre.std_at(s2));
                                assert(live0.contains(pre.std_at(s2)));
                            } else {
                                assert(post.std_at(s1) == pre.std_at(s1));
                                assert(live0.contains(pre.std_at(s1)));
                            }
                        }
                        assert forall|s: S, u: U, i: int|
                            post.std_has(s) && post.uni_has(u) && 0 <= i < post.uni_at(u).len()
                            implies #[trigger] post.std_at(s) != #[trigger] post.uni_at(
                            u,
                        )[i] by {
                            if s != name {
                                assert(post.std_at(s) == pre.std_at(s));
                            } else {
                                assert(live0.contains(pre.uni_at(u)[i]));
                            }
                        }
                    }
                } else {
                    self.buffers.insert_new(name, b);
                    proof {
                        let post = *self;
                        let live2 = needed_data.live();
                        Self::lemma_uni_bridge(pre, post);
                        Self::lemma_temp_bridge(pre, post);
                        assert(live2 =~= live0.insert(b));
                        assert(post.std_at(name) == b);
                        assert forall|s: S| post.std_has(s) implies live2.contains(
                            #[trigger] post.std_at(s),
                        ) by {
                            if s != name {
                                assert(post.std_at(s) == pre.std_at(s));
                                assert(live0.contains(pre.std_at(s)));
                            }
                        }
                        assert forall|u: U, i: int|
                            post.uni_has(u) && 0 <= i < post.uni_at(u).len()
                            implies live2.contains(#[trigger] post.uni_at(u)[i]) by {
                            assert(live0.contains(pre.uni_at(u)[i]));
                        }
                        assert forall|s: S|
                            post.has_temp() && post.std_has(s) implies #[trigger] post.std_at(s)
                            != post.temp() by {
                            if s != name {
                                assert(post.std_at(s) == pre.std_at(s));
                            } else {
                                assert(live0.contains(pre.temp()));
                            }
                        }
                        assert forall|s1: S, s2: S|
                            s1 != s2 && post.std_has(s1) && post.std_has(s2)
                            implies #[trigger] post.std_at(s1) != #[trigger] post.std_at(
                            s2,
                        ) by {
                            if s1 != name && s2 != name {
                                assert(post.std_at(s1) == pre.std_at(s1));
                                assert(post.std_at(s2) == pre.std_at(s2));
                            } else if s1 == name {
                                assert(post.std_at(s2) == pre.std_at(s2));
                                assert(live0.contains(pre.std_at(s2)));
                            } else {
                                assert(post.std_at(s1) == pre.std_at(s1));
                                assert(live0.contains(pre.std_at(s1)));
                            }
                        }
                        assert forall|s: S, u: U, i: int|
                            post.std_has(s) && post.uni_has(u) && 0 <= i < post.uni_at(u).len()
                            implies #[trigger] post.std_at(s) != #[trigger] post.uni_at(
                            u,
                        )[i] by {
                            if s != name {
                                assert(post.std_at(s) == pre.std_at(s));
                            } else {
                                assert(live0.contains(pre.uni_at(u)[i]));
                            }
                        }
                    }
                }
            }
            AllocateBufferType::Uniform { name } => {
                if self.uniform_buffers.contains(&name) {
                    let list = self.uniform_buffers.get_mut(&name);
                    list.push(b);
                    let ghost vnew: Vec<B> = *list;
                    proof {
                        Table::lemma_updated(pre.uniform_buffers, self.uniform_buffers, name, vnew);
                    }
                } else {
                    let mut list: Vec<B> = Vec::new();
                    list.push(b);
                    self.uniform_buffers.insert_new(name, list);
                }
                proof {
                    let post = *self;
                    let live2 = needed_data.live();
                    Self::lemma_std_bridge(pre, post);
                    Self::lemma_temp_bridge(pre, post);
                    assert(live2 =~= live0.insert(b));
                    assert(post.uni_at(name) == (if pre.uni_has(name) {
                        pre.uni_at(name)
                    } else {
                        Seq::<B>::empty()
                    }).push(b));
                    assert(post.uni_at(name).last() == b);
                    assert forall|u2: U|
                        post.uni_has(u2) == (pre.uni_has(u2) || u2 == name) by {
                        assert(post.uniform_buffers.contains_spec(u2) == (
                        pre.uniform_buffers.contains_spec(u2) || u2 == name));
                    }
                    assert forall|u: U, i: int|
                        post.uni_has(u) && 0 <= i < post.uni_at(u).len() implies live2.contains(
                        #[trigger] post.uni_at(u)[i]) by {
                        if u != name {
                            assert(post.uni_at(u) == pre.uni_at(u));
                            assert(live0.contains(pre.uni_at(u)[i]));
                        } else {
                            if i < post.uni_at(name).len() - 1 {
                                assert(post.uni_at(name)[i] == pre.uni_at(name)[i]);
                                assert(live0.contains(pre.uni_at(name)[i]));
                            } else {
                                assert(post.uni_at(name)[i] == b);
                            }
                        }
                    }
                    assert forall|s: S| post.std_has(s) implies live2.contains(
                        #[trigger] post.std_at(s),
                    ) by {
                        assert(live0.contains(pre.std_at(s)));
                    }
                    assert forall|u: U, i: int|
                        post.has_temp() && post.uni_has(u) && 0 <= i < post.uni_at(u).len()
                        implies #[trigger] post.uni_at(u)[i] != post.temp() by {
                        assert(live0.contains(pre.temp()));
                        if u != name {
                            assert(post.uni_at(u) == pre.uni_at(u));
                        } else if i < post.uni_at(name).len() - 1 {
                            assert(post.uni_at(name)[i] == pre.uni_at(name)[i]);
                        } else {
                            assert(post.uni_at(name)[i] == b);
                        }
                    }
                    assert forall|s: S, u: U, i: int|
                        post.std_has(s) && post.uni_has(u) && 0 <= i < post.uni_at(u).len()
                        implies #[trigger] post.std_at(s) != #[trigger] post.uni_at(u)[i] by {
                        assert(live0.contains(pre.std_at(s)));
                        if u != name {
                            assert(post.uni_at(u) == pre.uni_at(u));
                        } else if i < post.uni_at(name).len() - 1 {
                            assert(post.uni_at(name)[i] == pre.uni_at(name)[i]);
                        } else {
                            assert(post.uni_at(name)[i] == b);
                        }
                    }
                    assert forall|u1: U, i1: int, u2: U, i2: int|
                        post.uni_has(u1) && post.uni_has(u2) && 0 <= i1 < post.uni_at(u1).len()
                            && 0 <= i2 < post.uni_at(u2).len() && (u1 != u2 || i1 != i2)
                        implies #[trigger] post.uni_at(u1)[i1] != #[trigger] post.uni_at(
                        u2,
                    )[i2] by {
                        if u1 != name && 0 <= i1 < pre.uni_at(u1).len() {
                            assert(post.uni_at(u1) == pre.uni_at(u1));
                        }
                        if u2 != name && 0 <= i2 < pre.uni_at(u2).len() {
                            assert(post.uni_at(u2) == pre.uni_at(u2));
                        }
                        if u1 == name {
                            if i1 < post.uni_at(name).len() - 1 {
                                assert(post.uni_at(name)[i1] == pre.uni_at(name)[i1]);
                            } else {
                                assert(post.uni_at(name)[i1] == b);
                            }
                        }
                        if u2 == name {
                            if i2 < post.uni_at(name).len() - 1 {
                                assert(post.uni_at(name)[i2] == pre.uni_at(name)[i2]);
                            } else {
                                assert(post.uni_at(name)[i2] == b);
                            }
                        }
                        if u1 == name && u2 == name && i1 == post.uni_at(name).len() - 1 && i2
                            != post.uni_at(name).len() - 1 {
                            assert(live0.contains(pre.uni_at(name)[i2]));
                        }
                        if u2 == name && u1 == name && i2 == post.uni_at(name).len() - 1 && i1
                            != post.uni_at(name).len() - 1 {
                            assert(live0.contains(pre.uni_at(name)[i1]));
                        }
                        if u1 == name && u2 != name && i1 == post.uni_at(name).len() - 1 {
                            assert(live0.contains(pre.uni_at(u2)[i2]));
                        }
                        if u2 == name && u1 != name && i2 == post.uni_at(name).len() - 1 {
                            assert(live0.contains(pre.uni_at(u1)[i1]));
                        }
                    }
                }
            }
        }
        Ok(())
    }

    /// The copy source names no allocated buffer.
    pub open spec fn copy_source_missing(self, data: &BufferManagerDataType<S, U>) -> bool {
        match data {
            BufferManagerDataType::Data(_) => false,
            BufferManagerDataType::TempBuffer => !self.has_temp(),
            BufferManagerDataType::StandardBuffer { name } => !self.std_has(*name),
            BufferManagerDataType::UniformBuffers { name, index } => !self.uni_has(*name) || (
            *index as int) >= self.uni_at(*name).len(),
        }
    }

    /// The copy destination names no allocated buffer.
    pub open spec fn copy_target_missing(self, buffer_type: &BufferManagerCopyType<S, U>) -> bool {
        match buffer_type {
            BufferManagerCopyType::TempBuffer => !self.has_temp(),
            BufferManagerCopyType::StandardBuffer(name) => !self.std_has(*name),
            BufferManagerCopyType::UniformBuffers(name, index) => !self.uni_has(*name) || (
            *index as int) >= self.uni_at(*name).len(),
        }
    }

    /// Copies into the named destination slot: host bytes through mapped
    /// memory, or another slot's buffer through a one-shot, synchronous
    /// device copy.
    ///
    /// `size` counts bytes, as for allocation.
    ///
    /// A source naming the same logical slot as the destination is refused
    /// with `SameBufferCopy` before anything reaches the device; a missing
    /// source or destination is refused with `NotFound`. No slot changes,
    /// and no buffer is created or destroyed.
    pub fn copy_data_to_buffer_with_size<A: SupportsCopying<Output = B>>(
        &mut self,
        data: BufferManagerDataType<S, U>,
        buffer_type: BufferManagerCopyType<S, U>,
        needed_data: &mut A,
        size: u64,
    ) -> (r: Result<(), EngineError>)
        requires
            old(self).wf(),
            old(self).owns(old(needed_data).live()),
        ensures
            *final(self) == *old(self),
            final(needed_data).live() == old(needed_data).live(),
            final(needed_data).created() == old(needed_data).created(),
            final(needed_data).destroyed() == old(needed_data).destroyed(),
            same_slot_spec(&data, &buffer_type) ==> r == Err::<(), EngineError>(
                EngineError::SameBufferCopy,
            ) && *final(needed_data) == *old(needed_data),
            !same_slot_spec(&data, &buffer_type) && (old(self).copy_target_missing(
                &buffer_type,
            ) || old(self).copy_source_missing(&data)) ==> r == Err::<(), EngineError>(
                EngineError::NotFound,
            ) && *final(needed_data) == *old(needed_data),
    {
        let ghost pre = *old(self);
        let ghost live0 = old(needed_data).live();
        if same_slot(&data, &buffer_type) {
            return Err(EngineError::SameBufferCopy);
        }
        let dest: B = match &buffer_type {
            BufferManagerCopyType::TempBuffer => {
                match self.temp_buffer {
                    Some(bb) => bb,
                    None => {
                        return Err(EngineError::NotFound);
                    }
                }
            }
            BufferManagerCopyType::StandardBuffer(name) => {
                match self.buffers.try_get(name) {
                    Some(bb) => *bb,
                    None => {
                        return Err(EngineError::NotFound);
                    }
                }
            }
            BufferManagerCopyType::UniformBuffers(name, index) => {
                match self.uniform_buffers.try_get(name) {
                    Some(list) => {
                        if *index < list.len() {
                            list[*index]
                        } else {
                            return Err(EngineError::NotFound);
                        }
                    }
                    None => {
                        return Err(EngineError::NotFound);
                    }
                }
            }
        };
        proof {
            match &buffer_type {
                BufferManagerCopyType::TempBuffer => {
                    assert(dest == pre.temp());
                    assert(live0.contains(dest));
                }
                BufferManagerCopyType::StandardBuffer(name) => {
                    assert(dest == pre.std_at(*name));
                    assert(live0.contains(dest));
                }
                BufferManagerCopyType::UniformBuffers(name, index) => {
                    assert(dest == pre.uni_at(*name)[*index as int]);
                    assert(live0.contains(dest));
                }
            }
        }
        match &data {
            BufferManagerDataType::Data(bytes) => {
                needed_data.write_bytes(dest, bytes.as_slice(), size)
            }
            BufferManagerDataType::TempBuffer => {
                let source: B = match self.temp_buffer {
                    Some(bb) => bb,
                    None => {
                        return Err(EngineError::NotFound);
                    }
                };
                proof {
                    assert(source == pre.temp());
                    assert(live0.contains(source));
                    match &buffer_type {
                        BufferManagerCopyType::TempBuffer => {
                            assert(false);
                        }
                        BufferManagerCopyType::StandardBuffer(name) => {
                            assert(pre.std_at(*name) != pre.temp());
                        }
                        BufferManagerCopyType::UniformBuffers(name, index) => {
                            assert(pre.uni_at(*name)[*index as int] != pre.temp());
                        }
                    }
                }
                needed_data.copy(source, dest, size)
            }
            BufferManagerDataType::StandardBuffer { name } => {
                let source: B = match self.buffers.try_get(name) {
                    Some(bb) => *bb,
                    None => {
                        return Err(EngineError::NotFound);
                    }
                };
                proof {
                    assert(source == pre.std_at(*name));
                    assert(live0.contains(source));
                    match &buffer_type {
                        BufferManagerCopyType::TempBuffer => {
                            assert(pre.std_at(*name) != pre.temp());
                        }
                        BufferManagerCopyType::StandardBuffer(n2) => {
                            assert(*name != *n2);
                            assert(pre.std_at(*name) != pre.std_at(*n2));
                        }
                        BufferManagerCopyType::UniformBuffers(n2, i2) => {
                            assert(pre.std_at(*name) != pre.uni_at(*n2)[*i2 as int]);
                        }
                    }
                }
                needed_data.copy(source, dest, size)
            }
            BufferManagerDataType::UniformBuffers { name, index } => {
                let source: B = match self.uniform_buffers.try_get(name) {
                    Some(list) => {
                        if *index < list.len() {
                            list[*index]
                        } else {
                            return Err(EngineError::NotFound);
                        }
                    }
                    None => {
                        return Err(EngineError::NotFound);
                    }
                };
                proof {
                    assert(source == pre.uni_at(*name)[*index as int]);
                    assert(live0.contains(source));
                    match &buffer_type {
                        BufferManagerCopyType::TempBuffer => {
                            assert(pre.uni_at(*name)[*index as int] != pre.temp());
                        }
                        BufferManagerCopyType::StandardBuffer(n2) => {
                            assert(pre.std_at(*n2) != pre.uni_at(*name)[*index as int]);
                        }
                        BufferManagerCopyType::UniformBuffers(n2, i2) => {
                            assert(*name != *n2 || *index != *i2);
                            assert(pre.uni_at(*name)[*index as int] != pre.uni_at(
                                *n2,
                            )[*i2 as int]);
                        }
                    }
                }
                needed_data.copy(source, dest, size)
            }
        }
    }

    /// Frees the buffer under a standard name, destroying handle and memory
    /// in one call, and empties the slot; the name can then be allocated
    /// anew. With nothing under the name this is a safe no-op.
    pub fn free_standard_buffer<A: BufferAllocator<Output = B>>(
        &mut self,
        name: S,
        allocator: &mut A,
    )
        requires
            old(self).wf(),
            old(self).owns(old(allocator).live()),
        ensures
            final(self).wf(),
            final(self).owns(final(allocator).live()),
            !final(self).std_has(name),
            forall|s2: S| s2 != name ==> final(self).std_has(s2) == old(self).std_has(s2),
            forall|s2: S|
                s2 != name && old(self).std_has(s2) ==> final(self).std_at(s2) == old(
                self,
                ).std_at(s2),
            final(self).temp_buffer == old(self).temp_buffer,
            final(self).uniform_buffers == old(self).uniform_buffers,
            !old(self).std_has(name) ==> *final(self) == *old(self) && *final(allocator) == *old(
                allocator,
            ),
            old(self).std_has(name) ==> {
                &&& final(allocator).destroyed() == old(allocator).destroyed() + 1
                &&& final(allocator).created() == old(allocator).created()
                &&& final(allocator).live() == old(allocator).live().remove(old(self).std_at(name))
            },
    {
        let ghost pre = *old(self);
        let ghost live0 = old(allocator).live();
        if self.buffers.contains(&name) {
            let b = self.buffers.remove(&name);
            proof {
                assert(b == pre.std_at(name));
                assert(live0.contains(b));
            }
            allocator.free(b);
            proof {
                let post = *self;
                let live1 = allocator.live();
                Self::lemma_uni_bridge(pre, post);
                Self::lemma_temp_bridge(pre, post);
                assert forall|s: S| post.std_has(s) implies live1.contains(
                    #[trigger] post.std_at(s),
                ) by {
                    assert(s != name);
                    assert(post.std_at(s) == pre.std_at(s));
                    assert(pre.std_at(s) != b);
                    assert(live0.contains(pre.std_at(s)));
                }
                assert forall|u: U, i: int|
                    post.uni_has(u) && 0 <= i < post.uni_at(u).len() implies live1.contains(
                    #[trigger] post.uni_at(u)[i]) by {
                    assert(pre.uni_at(u)[i] != b);
                    assert(live0.contains(pre.uni_at(u)[i]));
                }
                assert(post.has_temp() ==> live1.contains(post.temp()));
                assert forall|s: S|
                    post.has_temp() && post.std_has(s) implies #[trigger] post.std_at(s)
                    != post.temp() by {
                    assert(s != name);
                    assert(post.std_at(s) == pre.std_at(s));
                }
                assert forall|s1: S, s2: S|
                    s1 != s2 && post.std_has(s1) && post.std_has(s2)
                    implies #[trigger] post.std_at(s1) != #[trigger] post.std_at(s2) by {
                    assert(post.std_at(s1) == pre.std_at(s1));
                    assert(post.std_at(s2) == pre.std_at(s2));
                }
                assert forall|s: S, u: U, i: int|
                    post.std_has(s) && post.uni_has(u) && 0 <= i < post.uni_at(u).len()
                    implies #[trigger] post.std_at(s) != #[trigger] post.uni_at(u)[i] by {
                    assert(post.std_at(s) == pre.std_at(s));
                }
            }
        }
    }

    /// Frees every buffer under a uniform name and leaves the (kept) entry
    /// with an empty list. With no entry under the name this is a safe
    /// no-op.
    pub fn free_uniform_buffers<A: BufferAllocator<Output = B>>(
        &mut self,
        name: U,
        allocator: &mut A,
    )
        requires
            old(self).wf(),
            old(self).owns(old(allocator).live()),
        ensures
            final(self).wf(),
            final(self).owns(final(allocator).live()),
            forall|u2: U| final(self).uni_has(u2) == old(self).uni_has(u2),
            forall|u2: U|
                u2 != name && old(self).uni_has(u2) ==> final(self).uni_at(u2) == old(
                self,
                ).uni_at(u2),
            final(self).temp_buffer == old(self).temp_buffer,
            final(self).buffers == old(self).buffers,
            !old(self).uni_has(name) ==> *final(self) == *old(self) && *final(allocator) == *old(
                allocator,
            ),
            old(self).uni_has(name) ==> {
                &&& final(self).uni_at(name) == Seq::<B>::empty()
                &&& final(allocator).destroyed() == old(allocator).destroyed() + old(
                    self,
                ).uni_at(name).len()
                &&& final(allocator).created() == old(allocator).created()
                &&& forall|x: B|
                    final(allocator).live().contains(x) == (old(allocator).live().contains(x)
                        && !old(self).uni_at(name).contains(x))
            },
    {
        let ghost pre = *old(self);
        let ghost live0 = old(allocator).live();
        if self.uniform_buffers.contains(&name) {
            let slot = self.uniform_buffers.get_mut(&name);
            let mut l: Vec<B> = Vec::new();
            core::mem::swap(slot, &mut l);
            let ghost vnew: Vec<B> = *slot;
            proof {
                Table::lemma_updated(pre.uniform_buffers, self.uniform_buffers, name, vnew);
            }
            let ghost mid = *self;
            proof {
                Self::lemma_std_bridge(pre, mid);
                Self::lemma_temp_bridge(pre, mid);
                assert(mid.uni_at(name) == Seq::<B>::empty());
                assert forall|u2: U|
                    u2 != name && pre.uni_has(u2) implies mid.uni_at(u2) == pre.uni_at(u2) by {}
                assert(l@ == pre.uni_at(name));
            }
            let n: usize = l.len();
            let mut i: usize = 0;
            while i < n
                invariant
                    i <= n,
                    n == l@.len(),
                    l@ == pre.uni_at(name),
                    pre.wf(),
                    pre.owns(live0),
                    pre.uni_has(name),
                    *self == mid,
                    mid.uni_at(name) == Seq::<B>::empty(),
                    mid.buffers == pre.buffers,
                    mid.temp_buffer == pre.temp_buffer,
                    forall|u2: U| mid.uni_has(u2) == pre.uni_has(u2),
                    forall|u2: U|
                        u2 != name && pre.uni_has(u2) ==> mid.uni_at(u2) == pre.uni_at(u2),
                    allocator.created() == old(allocator).created(),
                    allocator.destroyed() == old(allocator).destroyed() + i,
                    forall|x: B|
                        allocator.live().contains(x) == (live0.contains(x) && !l@.take(
                            i as int,
                        ).contains(x)),
                decreases n - i,
            {
                let ghost livek = allocator.live();
                proof {
                    assert(l@.contains(l@[i as int]));
                    assert(!l@.take(i as int).contains(l@[i as int])) by {
                        if l@.take(i as int).contains(l@[i as int]) {
                            let j = choose|j: int|
                                0 <= j < i && l@.take(i as int)[j] == l@[i as int];
                            assert(pre.uni_at(name)[j] == pre.uni_at(name)[i as int]);
                        }
                    }
                    assert(livek.contains(l@[i as int]));
                }
                allocator.free(l[i]);
                i += 1;
                proof {
                    assert forall|x: B|
                        allocator.live().contains(x) == (live0.contains(x) && !l@.take(
                            i as int,
                        ).contains(x)) by {
                        assert(l@.take(i as int) == l@.take(i - 1).push(l@[i - 1]));
                        if l@.take(i as int).contains(x) {
                            let j = choose|j: int| 0 <= j < i && l@.take(i as int)[j] == x;
                            if j < i - 1 {
                                assert(l@.take(i - 1)[j] == x);
                            }
                        }
                        if l@.take(i - 1).contains(x) {
                            let j = choose|j: int| 0 <= j < i - 1 && (#[trigger] l@.take(i - 1)[j]) == x;
                            assert(l@.take(i as int)[j] == x);
                        }
                        if x == l@[i - 1] {
                            assert(l@.take(i as int)[i - 1] == x);
                        }
                    }
                }
            }
            proof {
                let post = *self;
                let live1 = allocator.live();
                assert forall|x: B|
                    live1.contains(x) == (live0.contains(x) && !pre.uni_at(name).contains(x)) by {
                    assert(l@.take(n as int) == l@);
                }
                assert forall|s: S| post.std_has(s) implies live1.contains(
                    #[trigger] post.std_at(s),
                ) by {
                    assert(post.std_at(s) == pre.std_at(s));
                    assert(live0.contains(pre.std_at(s)));
                    if pre.uni_at(name).contains(pre.std_at(s)) {
                        let j = choose|j: int|
                            0 <= j < pre.uni_at(name).len() && pre.uni_at(name)[j] == pre.std_at(
                                s,
                            );
                        assert(pre.std_at(s) != pre.uni_at(name)[j]);
                    }
                }
                assert forall|u: U, i2: int|
                    post.uni_has(u) && 0 <= i2 < post.uni_at(u).len() implies live1.contains(
                    #[trigger] post.uni_at(u)[i2]) by {
                    assert(u != name);
                    assert(post.uni_at(u) == pre.uni_at(u));
                    assert(live0.contains(pre.uni_at(u)[i2]));
                    if pre.uni_at(name).contains(pre.uni_at(u)[i2]) {
                        let j = choose|j: int|
                            0 <= j < pre.uni_at(name).len() && pre.uni_at(name)[j] == pre.uni_at(
                                u,
                            )[i2];
                        assert(pre.uni_at(u)[i2] != pre.uni_at(name)[j]);
                    }
                }
                assert(post.has_temp() ==> live1.contains(post.temp())) by {
                    if post.has_temp() {
                        assert(pre.has_temp());
                        assert(post.temp() == pre.temp());
                        assert(live0.contains(pre.temp()));
                        if pre.uni_at(name).contains(pre.temp()) {
                            let j = choose|j: int|
                                0 <= j < pre.uni_at(name).len() && pre.uni_at(name)[j]
                                    == pre.temp();
                            assert(pre.uni_at(name)[j] != pre.temp());
                        }
                    }
                }
            }
        }
    }

    /// Frees the staging buffer if one exists; with none this is a safe
    /// no-op. Afterwards no staging buffer exists.
    pub fn free_temp_buffer<A: BufferAllocator<Output = B>>(&mut self, allocator: &mut A)
        requires
            old(self).wf(),
            old(self).owns(old(allocator).live()),
        ensures
            final(self).wf(),
            final(self).owns(final(allocator).live()),
            !final(self).has_temp(),
            final(self).buffers == old(self).buffers,
            final(self).uniform_buffers == old(self).uniform_buffers,
            !old(self).has_temp() ==> *final(self) == *old(self) && *final(allocator) == *old(
                allocator,
            ),
            old(self).has_temp() ==> {
                &&& final(allocator).destroyed() == old(allocator).destroyed() + 1
                &&& final(allocator).created() == old(allocator).created()
                &&& final(allocator).live() == old(allocator).live().remove(old(self).temp())
            },
    {
        match self.temp_buffer {
            None => {}
            Some(b) => {
                allocator.free(b);
                self.temp_buffer = None;
                proof {
                    let pre = *old(self);
                    let post = *self;
                    Self::lemma_std_bridge(pre, post);
                    Self::lemma_uni_bridge(pre, post);
                    let live1 = allocator.live();
                    assert forall|s: S| post.std_has(s) implies live1.contains(
                        #[trigger] post.std_at(s),
                    ) by {
                        assert(pre.std_at(s) != pre.temp());
                    }
                    assert forall|u: U, i: int|
                        post.uni_has(u) && 0 <= i < post.uni_at(u).len() implies live1.contains(
                        #[trigger] post.uni_at(u)[i]) by {
                        assert(pre.uni_at(u)[i] != pre.temp());
                    }
                }
            }
        }
    }
}

} // verus!
