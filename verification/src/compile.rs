//! Compilation of functions, and the cache of compiled traces.
//!
//! The engine memoizes a compiled trace of a callable under an
//! identity key derived from the callable's static type. The
//! process-wide compilation state — the global on/off switch and the
//! set of registered identities — is carried here as an explicit
//! value, [`CompileCache`], so that every registration and erasure is
//! part of a contract. A wrapper's registration must not outlive the
//! wrapper: releasing it erases the identity on every path.

use std::hash::Hash;
use std::hash::Hasher;

use vstd::prelude::*;

use crate::array::Array;
use crate::compat::Function;

verus! {

/// The engine's process-wide compilation state: whether compilation is
/// enabled, and the identity keys of the compiled traces currently
/// registered.
#[derive(Debug)]
pub struct CompileCache {
    enabled: bool,
    ids: Vec<usize>,
}

impl CompileCache {
    /// Compilation is globally enabled.
    pub closed spec fn enabled_spec(&self) -> bool {
        self.enabled
    }

    /// The registered identity keys, in registration order.
    pub closed spec fn ids_spec(&self) -> Seq<usize> {
        self.ids@
    }

    /// The key has a registered compiled trace.
    pub open spec fn registered(&self, id: usize) -> bool {
        self.ids_spec().contains(id)
    }

    /// A fresh compilation state: enabled, with nothing registered.
    pub fn new() -> (r: Self)
        ensures
            r.enabled_spec(),
            r.ids_spec() == Seq::<usize>::empty(),
    {
        CompileCache { enabled: true, ids: Vec::new() }
    }

    /// Whether the key has a registered compiled trace.
    pub fn is_registered(&self, id: usize) -> (r: bool)
        ensures
            r == self.registered(id),
    {
        let n = self.ids.len();
        let mut i: usize = 0;
        while i < n
            invariant
                i <= n,
                n == self.ids_spec().len(),
                forall|t: int| 0 <= t < i ==> self.ids_spec()[t] != id,
            decreases n - i,
        {
            if self.ids[i] == id {
                assert(self.ids_spec().contains(id));
                return true;
            }
            i += 1;
        }
        assert(!self.ids_spec().contains(id));
        false
    }

    /// The number of registered compiled traces.
    pub fn live_entries(&self) -> (r: usize)
        ensures
            r == self.ids_spec().len(),
    {
        self.ids.len()
    }

    /// Registers a key; a key already registered is left as it is.
    fn register(&mut self, id: usize)
        ensures
            final(self).enabled_spec() == old(self).enabled_spec(),
            final(self).registered(id),
            forall|x: usize| old(self).registered(x) ==> final(self).registered(x),
            forall|x: usize|
                final(self).registered(x) ==> old(self).registered(x) || x == id,
    {
        if !self.is_registered(id) {
            self.ids.push(id);
            proof {
                assert(self.ids_spec().last() == id);
                assert(self.ids_spec().contains(id));
                assert forall|x: usize| old(self).registered(x) implies self.registered(x) by {
                    let t = choose|t: int|
                        0 <= t < old(self).ids_spec().len() && old(self).ids_spec()[t] == x;
                    assert(self.ids_spec()[t] == x);
                }
                assert forall|x: usize| self.registered(x) implies old(self).registered(x) || x
                    == id by {
                    let t = choose|t: int|
                        0 <= t < self.ids_spec().len() && self.ids_spec()[t] == x;
                    if t < old(self).ids_spec().len() {
                        assert(old(self).ids_spec()[t] == x);
                    }
                }
            }
        }
    }

    /// Erases a key, removing its registration if it has one.
    fn erase_id(&mut self, id: usize)
        ensures
            final(self).enabled_spec() == old(self).enabled_spec(),
            forall|x: usize|
                final(self).registered(x) <==> (old(self).registered(x) && x != id),
    {
        let n = self.ids.len();
        let mut keep: Vec<usize> = Vec::new();
        let mut t: usize = 0;
        while t < n
            invariant
                t <= n,
                n == self.ids_spec().len(),
                self.ids_spec() == old(self).ids_spec(),
                forall|j: int| 0 <= j < keep@.len() ==> keep@[j] != id,
                forall|x: usize| keep@.contains(x) ==> old(self).ids_spec().contains(x),
                forall|k: int|
                    0 <= k < t && self.ids_spec()[k] != id ==> keep@.contains(
                        self.ids_spec()[k],
                    ),
            decreases n - t,
        {
            if self.ids[t] != id {
                let ghost keep_before = keep@;
                keep.push(self.ids[t]);
                proof {
                    assert(keep@.last() == self.ids_spec()[t as int]);
                    assert(keep@.contains(self.ids_spec()[t as int]));
                    assert forall|x: usize| keep_before.contains(x) implies keep@.contains(
                        x,
                    ) by {
                        let j = choose|j: int|
                            0 <= j < keep_before.len() && keep_before[j] == x;
                        assert(keep@[j] == x);
                    }
                    assert forall|x: usize| keep@.contains(x) implies old(
                        self,
                    ).ids_spec().contains(x) by {
                        let j = choose|j: int| 0 <= j < keep@.len() && keep@[j] == x;
                        if j < keep_before.len() {
                            assert(keep_before[j] == x);
                            assert(keep_before.contains(x));
                        } else {
                            assert(x == self.ids_spec()[t as int]);
                            assert(old(self).ids_spec()[t as int] == x);
                            assert(old(self).ids_spec().contains(x));
                        }
                    }
                }
            }
            t += 1;
        }
        self.ids = keep;
        proof {
            assert forall|x: usize|
                self.registered(x) <==> (old(self).registered(x) && x != id) by {
                if old(self).registered(x) && x != id {
                    let k = choose|k: int|
                        0 <= k < old(self).ids_spec().len() && old(self).ids_spec()[k] == x;
                }
            }
        }
    }

    /// Drops every registration, leaving the switch as it is.
    fn clear(&mut self)
        ensures
            final(self).enabled_spec() == old(self).enabled_spec(),
            final(self).ids_spec() == Seq::<usize>::empty(),
    {
        self.ids.clear();
    }

    /// Sets the global switch.
    fn set_enabled(&mut self, enabled: bool)
        ensures
            final(self).enabled_spec() == enabled,
            final(self).ids_spec() == old(self).ids_spec(),
    {
        self.enabled = enabled;
    }
}

/// Globally enable the compilation of functions. Default is enabled.
pub fn enable_compile(cache: &mut CompileCache)
    ensures
        final(cache).enabled_spec(),
        final(cache).ids_spec() == old(cache).ids_spec(),
{
    cache.set_enabled(true);
}

/// Globally disable the compilation of functions.
pub fn disable_compile(cache: &mut CompileCache)
    ensures
        !final(cache).enabled_spec(),
        final(cache).ids_spec() == old(cache).ids_spec(),
{
    cache.set_enabled(false);
}

/// Clear the cache of compiled traces.
pub fn clear_cache(cache: &mut CompileCache)
    ensures
        final(cache).enabled_spec() == old(cache).enabled_spec(),
        final(cache).ids_spec() == Seq::<usize>::empty(),
{
    cache.clear();
}

/// Relies on `std::any::TypeId::of` and std's `DefaultHasher`: derives
/// a numeric key from the static type of the value, so all values of
/// one type collapse to the same key within a process. Nothing is
/// promised of the key's value; it is stable only per process.
#[verifier::external_body]
pub fn type_id_to_usize<T: 'static>(_val: &T) -> usize {
    let type_id = core::any::TypeId::of::<T>();
    let mut hasher = std::collections::hash_map::DefaultHasher::new();
    type_id.hash(&mut hasher);
    hasher.finish() as usize
}

/// A compiled function that can be called.
pub struct Compiled<F, G> {
    f_marker: core::marker::PhantomData<F>,
    state: CompiledState<G>,
}

struct CompiledState<G> {
    f: G,
    shapeless: bool,
    id: usize,
}

impl<F, G: Function<Vec<Array>, Output = Vec<Array>> + 'static> Compiled<F, G> {
    /// The callable the compiled trace was built from.
    pub closed spec fn callable(&self) -> G {
        self.state.f
    }

    /// Whether the trace generalizes across input shapes rather than
    /// specializing to one.
    pub closed spec fn shapeless_spec(&self) -> bool {
        self.state.shapeless
    }

    /// The identity key the trace is registered under.
    pub closed spec fn id_spec(&self) -> usize {
        self.state.id
    }

    /// Builds a compiled function, registering its identity key in the
    /// cache. The key is derived from the callable's static type, so
    /// two callables of one type collapse to one key even when their
    /// captured state differs — a documented hazard of the keying
    /// scheme, kept as it is.
    pub fn new(f: G, shapeless: bool, cache: &mut CompileCache) -> (r: Self)
        ensures
            r.shapeless_spec() == shapeless,
            r.callable() == f,
            final(cache).registered(r.id_spec()),
            final(cache).enabled_spec() == old(cache).enabled_spec(),
            forall|x: usize| old(cache).registered(x) ==> final(cache).registered(x),
            forall|x: usize|
                final(cache).registered(x) ==> old(cache).registered(x) || x == r.id_spec(),
    {
        let id = type_id_to_usize(&f);
        cache.register(id);
        Compiled {
            f_marker: core::marker::PhantomData,
            state: CompiledState { f, shapeless, id },
        }
    }

    /// Invokes the compiled function: the memoized trace computes
    /// exactly what the callable computes.
    pub fn call(&self, args: Vec<Array>) -> (r: Vec<Array>)
        ensures
            r == self.callable().func(args),
    {
        self.state.f.execute(args)
    }

    /// Releases the compiled function, erasing its identity key from
    /// the cache so that the registration does not outlive the
    /// wrapper. Consuming the wrapper makes the erasure part of every
    /// exit path that gives it up.
    pub fn erase(self, cache: &mut CompileCache)
        ensures
            final(cache).enabled_spec() == old(cache).enabled_spec(),
            !final(cache).registered(self.id_spec()),
            forall|x: usize|
                final(cache).registered(x) <==> (old(cache).registered(x) && x
                    != self.id_spec()),
    {
        cache.erase_id(self.state.id);
    }
}

impl<F, G: Function<Vec<Array>, Output = Vec<Array>> + 'static> Function<Vec<Array>> for Compiled<
    F,
    G,
> {
    type Output = Vec<Array>;

    open spec fn func(&self, args: Vec<Array>) -> Vec<Array> {
        self.callable().func(args)
    }

    fn execute(&self, args: Vec<Array>) -> (r: Vec<Array>) {
        self.call(args)
    }
}

/// A compiled trace's registration never survives its wrapper's
/// release: whatever else the cache holds, the released key is gone.
pub proof fn lemma_erase_unregisters(
    cache_before: CompileCache,
    cache_after: CompileCache,
    id: usize,
)
    requires
        forall|x: usize|
            cache_after.registered(x) <==> (cache_before.registered(x) && x != id),
    ensures
        !cache_after.registered(id),
{
}

/// Rebinds an array in place to refer to the value of another, as the
/// output rebinding of a compiled call does: the old value is released
/// and the new one is copied in.
pub fn update_by_replace_with_ref_to_new_array(src: &mut Array, new_array: &Array)
    ensures
        final(src).dtype_spec() == new_array.dtype_spec(),
        final(src).shape_spec() == new_array.shape_spec(),
        final(src).data_spec() == new_array.data_spec(),
{
    *src = new_array.clone();
}

} // verus!
