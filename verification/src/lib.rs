//! A type-indexed value registry and a layered dependency resolver.
//!
//! The crate stores one value per registered type in a [`typemap::TypeMap`]
//! and resolves the parameters of handler functions from a chain of such
//! maps: an [`Injector`] owns one local map and optionally a parent
//! injector, and looks a type up child-to-root, so local values shadow a
//! parent's values of the same type. [`Injector::call`] invokes a handler
//! function by resolving each of its parameter types from the chain.

pub mod cell;
pub mod laws;
pub mod typemap;
pub mod value;

use vstd::prelude::*;

use crate::typemap::TypeMap;
use crate::value::Storable;
use crate::value::Value;

verus! {

/// The value under the key `k` in the first scope of `c` that holds the
/// key, searching front to back, or nothing if no scope holds it.
pub open spec fn chain_lookup(c: Seq<Map<u64, Value>>, k: u64) -> Option<Value>
    decreases c.len(),
{
    if c.len() == 0 {
        None
    } else if c[0].contains_key(k) {
        Some(c[0][k])
    } else {
        chain_lookup(c.drop_first(), k)
    }
}

/// The value of the type `T` that the scope chain `c` resolves to: the
/// value under `T`'s token in the first scope holding one, downcast
/// back to `T`.
pub open spec fn resolved_in<T: Storable>(c: Seq<Map<u64, Value>>) -> Option<T> {
    match chain_lookup(c, T::key_spec()) {
        Some(v) => T::of_value_spec(v),
        None => None,
    }
}

/// The chain `c` with the value under the key `k` replaced by `w` in
/// the first scope that holds the key, and every other scope unchanged.
pub open spec fn chain_update(c: Seq<Map<u64, Value>>, k: u64, w: Value) -> Seq<Map<u64, Value>>
    decreases c.len(),
{
    if c.len() == 0 {
        c
    } else if c[0].contains_key(k) {
        seq![c[0].insert(k, w)] + c.drop_first()
    } else {
        seq![c[0]] + chain_update(c.drop_first(), k, w)
    }
}

/// A scoped registry of values, one per type: a local [`TypeMap`] plus
/// an optional parent scope. Lookups search the local map first and then
/// the ancestors, so a scope's own values shadow its ancestors' values
/// of the same type.
pub struct Injector {
    values: TypeMap,
    parent: Option<Box<Injector>>,
}

impl View for Injector {
    type V = Seq<Map<u64, Value>>;

    closed spec fn view(&self) -> Seq<Map<u64, Value>> {
        self.chain()
    }
}

impl Default for Injector {
    /// Creates an empty injector with no parent, as [`Injector::new`]
    /// does.
    fn default() -> (r: Injector)
        ensures
            r@ == seq![Map::<u64, Value>::empty()],
            r.wf(),
    {
        Injector::new()
    }
}

impl Injector {
    /// The chain of scopes, local map first, root last.
    pub closed spec fn chain(self) -> Seq<Map<u64, Value>>
        decreases self,
    {
        match self.parent {
            Some(p) => seq![self.values@] + p.chain(),
            None => seq![self.values@],
        }
    }

    /// Every map of the chain is well formed.
    pub closed spec fn wf(self) -> bool
        decreases self,
    {
        &&& self.values.wf()
        &&& match self.parent {
            Some(p) => p.wf(),
            None => true,
        }
    }

    /// The erased value that a lookup of the key `k` resolves to.
    pub open spec fn lookup(self, k: u64) -> Option<Value> {
        chain_lookup(self@, k)
    }

    /// The value of the type `T` that this scope resolves to: the value
    /// under `T`'s token in the nearest scope holding one, downcast back
    /// to `T`.
    pub open spec fn resolved<T: Storable>(self) -> Option<T> {
        resolved_in::<T>(self@)
    }

    /// Creates an empty injector with no parent.
    pub fn new() -> (r: Injector)
        ensures
            r@ == seq![Map::<u64, Value>::empty()],
            r.wf(),
    {
        let r = Injector { values: TypeMap::new(), parent: None };
        proof {
            assert(r@ =~= seq![Map::<u64, Value>::empty()]);
        }
        r
    }

    /// Attaches `parent` as the outer scope, consuming both injectors.
    /// The local values are kept; lookups that miss them continue into
    /// `parent`. The attachment is permanent: there is no way to detach
    /// or re-parent afterwards.
    pub fn with_parent(self, parent: Injector) -> (r: Injector)
        requires
            self.wf(),
            parent.wf(),
        ensures
            r@ == seq![self@[0]] + parent@,
            r.wf(),
    {
        let r = Injector { values: self.values, parent: Some(Box::new(parent)) };
        proof {
            assert(r@ =~= seq![self@[0]] + parent@);
        }
        r
    }

    /// Stores `v` in the local scope, keyed by its type, replacing any
    /// local value of the same type. Ancestor scopes are never touched.
    pub fn add_value<T: Storable>(&mut self, v: T)
        requires
            old(self).wf(),
        ensures
            final(self)@ == old(self)@.update(0, old(self)@[0].insert(T::key_spec(), v.to_value_spec())),
            final(self).wf(),
    {
        self.values.insert::<T>(v);
        proof {
            assert(final(self)@ =~= old(self)@.update(
                0,
                old(self)@[0].insert(T::key_spec(), v.to_value_spec()),
            ));
        }
    }

    /// Returns a reference to the value of the type `T` in the nearest
    /// scope that holds one, or nothing if no scope in the chain does.
    pub fn get<T: Storable>(&self) -> (r: Option<&T>)
        requires
            self.wf(),
        ensures
            match r {
                Some(x) => self.resolved::<T>() == Some(*x),
                None => self.resolved::<T>() is None,
            },
            r is Some <==> self.lookup(T::key_spec()) is Some,
        decreases *self,
    {
        proof {
            assert(self@.len() >= 1);
            assert(self@[0] == self.values@);
            assert(self@.drop_first() =~= match self.parent {
                Some(p) => p@,
                None => Seq::<Map<u64, Value>>::empty(),
            });
        }
        let local = self.values.get::<T>();
        match local {
            Some(x) => Some(x),
            None => {
                proof {
                    assert(!self.values@.contains_key(T::key_spec()));
                    assert(self.lookup(T::key_spec()) == chain_lookup(
                        self@.drop_first(),
                        T::key_spec(),
                    ));
                }
                match &self.parent {
                    Some(p) => {
                        let rr = p.get::<T>();
                        proof {
                            assert(self@.drop_first() == p@);
                        }
                        rr
                    },
                    None => {
                        proof {
                            assert(self.lookup(T::key_spec()) is None);
                        }
                        None
                    },
                }
            },
        }
    }

    /// Returns an exclusive reference to the value of the type `T` in
    /// the nearest scope that holds one, or nothing if no scope in the
    /// chain does. The final state of that scope holds, under `T`'s
    /// token, whatever value the caller leaves behind the reference;
    /// every other scope is unchanged.
    pub fn get_mut<T: Storable>(&mut self) -> (r: Option<&mut T>)
        requires
            old(self).wf(),
        ensures
            match r {
                Some(x) => {
                    &&& old(self).resolved::<T>() == Some(*x)
                    &&& final(self)@ == chain_update(
                        old(self)@,
                        T::key_spec(),
                        final(x).to_value_spec(),
                    )
                    &&& final(self).wf()
                },
                None => {
                    &&& old(self).resolved::<T>() is None
                    &&& *final(self) == *old(self)
                    &&& final(self).wf()
                },
            },
            r is Some <==> old(self).lookup(T::key_spec()) is Some,
        decreases *old(self),
    {
        proof {
            assert(self@.len() >= 1);
            assert(self@[0] == self.values@);
            assert(self@.drop_first() =~= match self.parent {
                Some(p) => p@,
                None => Seq::<Map<u64, Value>>::empty(),
            });
        }
        if self.values.contains::<T>() {
            proof {
                assert(self.lookup(T::key_spec()) == Some(self.values@[T::key_spec()]));
            }
            let r = self.values.get_mut::<T>();
            r
        } else {
            proof {
                assert(!self.values@.contains_key(T::key_spec()));
                assert(self.lookup(T::key_spec()) == chain_lookup(
                    self@.drop_first(),
                    T::key_spec(),
                ));
                if self.parent is None {
                    assert(self.lookup(T::key_spec()) is None);
                }
            }
            match &mut self.parent {
                Some(p) => p.get_mut::<T>(),
                None => None,
            }
        }
    }

    /// Resolves every declared parameter type of `f` from the chain,
    /// local scope first, and invokes `f` with the resolved references.
    /// Every parameter type must be registered somewhere in the chain;
    /// [`Injector::try_call`] reports a missing one as an error instead.
    pub fn call<Args, F: CallInjector<Args>>(&self, f: F) -> (r: F::Output)
        requires
            self.wf(),
            f.deps(self),
            f.accepts(self),
        ensures
            f.outcome(self, r),
    {
        CallInjector::call(&f, self)
    }

    /// Resolves every declared parameter type of `f` from the chain and
    /// invokes `f`, or returns the token of a parameter type that no
    /// scope of the chain holds.
    pub fn try_call<Args, F: CallInjector<Args>>(&self, f: F) -> (r: Result<
        F::Output,
        MissingDependency,
    >)
        requires
            self.wf(),
            f.accepts(self),
        ensures
            r is Ok <==> f.deps(self),
            r matches Ok(res) ==> f.outcome(self, res),
            r matches Err(e) ==> self.lookup(e.key) is None,
    {
        CallInjector::try_call(&f, self)
    }
}

/// The error of a failed resolution: a handler declared a parameter of
/// a type that no scope in the chain holds. `key` is the identity token
/// of the unresolved type.
#[derive(Clone, Copy, Debug, PartialEq, Eq, Structural)]
pub struct MissingDependency {
    pub key: u64,
}

/// A handler that an [`Injector`] can invoke by resolving each of its
/// parameter types from the scope chain. The trait is implemented for
/// plain functions and closures of each supported arity, taking each
/// parameter by reference; `Args` names the tuple of resolved parameter
/// types and disambiguates the implementations, and `Output` is what
/// the handler returns.
pub trait CallInjector<Args> {
    /// What the handler returns.
    type Output;

    /// Whether every parameter type of the handler resolves somewhere
    /// in the chain of `i`.
    spec fn deps(&self, i: &Injector) -> bool;

    /// Whether the handler's own precondition accepts the arguments
    /// that `i` resolves, whichever parameters resolve at all.
    spec fn accepts(&self, i: &Injector) -> bool;

    /// The relation the handler's result stands in to the resolved
    /// arguments: exactly the handler's own postcondition, applied to
    /// the values that `i` resolves.
    spec fn outcome(&self, i: &Injector, r: Self::Output) -> bool;

    /// Resolves every declared parameter type from `i` and invokes the
    /// handler. Every parameter type must be registered somewhere in
    /// the chain; [`CallInjector::try_call`] reports a missing one as
    /// an error instead.
    fn call(&self, i: &Injector) -> (r: Self::Output)
        requires
            i.wf(),
            self.deps(i),
            self.accepts(i),
        ensures
            self.outcome(i, r),
    ;

    /// Resolves every declared parameter type from `i` and invokes the
    /// handler, or reports the token of a parameter type that no scope
    /// of the chain holds.
    fn try_call(&self, i: &Injector) -> (r: Result<Self::Output, MissingDependency>)
        requires
            i.wf(),
            self.accepts(i),
        ensures
            r is Ok <==> self.deps(i),
            r matches Ok(res) ==> self.outcome(i, res),
            r matches Err(e) ==> i.lookup(e.key) is None,
    ;
}

impl<Res, F: Fn() -> Res> CallInjector<()> for F {
    type Output = Res;

    open spec fn deps(&self, i: &Injector) -> bool {
        true
    }

    open spec fn accepts(&self, i: &Injector) -> bool {
        call_requires(*self, ())
    }

    open spec fn outcome(&self, i: &Injector, r: Res) -> bool {
        call_ensures(*self, (), r)
    }

    fn call(&self, i: &Injector) -> Res {
        (self)()
    }

    fn try_call(&self, i: &Injector) -> Result<Res, MissingDependency> {
        Ok((self)())
    }
}

impl<A: Storable, Res, F: Fn(&A) -> Res> CallInjector<(A,)> for F {
    type Output = Res;

    open spec fn deps(&self, i: &Injector) -> bool {
        i.resolved::<A>() is Some
    }

    open spec fn accepts(&self, i: &Injector) -> bool {
        forall|a: &A|
            i.resolved::<A>() == Some(*a) ==> call_requires(*self, (a,))
    }

    open spec fn outcome(&self, i: &Injector, r: Res) -> bool {
        exists|a: &A|
            i.resolved::<A>() == Some(*a) && call_ensures(*self, (a,), r)
    }

    fn call(&self, i: &Injector) -> Res {
        match self.try_call(i) {
            Ok(r) => r,
            Err(_) => unreached(),
        }
    }

    fn try_call(&self, i: &Injector) -> Result<Res, MissingDependency> {
        let a = match i.get::<A>() {
            Some(a) => a,
            None => {
                return Err(MissingDependency { key: A::key() });
            },
        };
        Ok((self)(a,))
    }
}

impl<A: Storable, B: Storable, Res, F: Fn(&A, &B) -> Res> CallInjector<(A, B)> for F {
    type Output = Res;

    open spec fn deps(&self, i: &Injector) -> bool {
        &&& i.resolved::<A>() is Some
        &&& i.resolved::<B>() is Some
    }

    open spec fn accepts(&self, i: &Injector) -> bool {
        forall|a: &A, b: &B|
            i.resolved::<A>() == Some(*a) && i.resolved::<B>() == Some(*b) ==> call_requires(*self, (a, b))
    }

    open spec fn outcome(&self, i: &Injector, r: Res) -> bool {
        exists|a: &A, b: &B|
            i.resolved::<A>() == Some(*a) && i.resolved::<B>() == Some(*b) && call_ensures(*self, (a, b), r)
    }

    fn call(&self, i: &Injector) -> Res {
        match self.try_call(i) {
            Ok(r) => r,
            Err(_) => unreached(),
        }
    }

    fn try_call(&self, i: &Injector) -> Result<Res, MissingDependency> {
        let a = match i.get::<A>() {
            Some(a) => a,
            None => {
                return Err(MissingDependency { key: A::key() });
            },
        };
        let b = match i.get::<B>() {
            Some(b) => b,
            None => {
                return Err(MissingDependency { key: B::key() });
            },
        };
        Ok((self)(a, b))
    }
}

impl<A: Storable, B: Storable, C: Storable, Res, F: Fn(&A, &B, &C) -> Res> CallInjector<(A, B, C)> for F {
    type Output = Res;

    open spec fn deps(&self, i: &Injector) -> bool {
        &&& i.resolved::<A>() is Some
        &&& i.resolved::<B>() is Some
        &&& i.resolved::<C>() is Some
    }

    open spec fn accepts(&self, i: &Injector) -> bool {
        forall|a: &A, b: &B, c: &C|
            i.resolved::<A>() == Some(*a) && i.resolved::<B>() == Some(*b) && i.resolved::<C>() == Some(*c) ==> call_requires(*self, (a, b, c))
    }

    open spec fn outcome(&self, i: &Injector, r: Res) -> bool {
        exists|a: &A, b: &B, c: &C|
            i.resolved::<A>() == Some(*a) && i.resolved::<B>() == Some(*b) && i.resolved::<C>() == Some(*c) && call_ensures(*self, (a, b, c), r)
    }

    fn call(&self, i: &Injector) -> Res {
        match self.try_call(i) {
            Ok(r) => r,
            Err(_) => unreached(),
        }
    }

    fn try_call(&self, i: &Injector) -> Result<Res, MissingDependency> {
        let a = match i.get::<A>() {
            Some(a) => a,
            None => {
                return Err(MissingDependency { key: A::key() });
            },
        };
        let b = match i.get::<B>() {
            Some(b) => b,
            None => {
                return Err(MissingDependency { key: B::key() });
            },
        };
        let c = match i.get::<C>() {
            Some(c) => c,
            None => {
                return Err(MissingDependency { key: C::key() });
            },
        };
        Ok((self)(a, b, c))
    }
}

impl<A: Storable, B: Storable, C: Storable, D: Storable, Res, F: Fn(&A, &B, &C, &D) -> Res> CallInjector<(A, B, C, D)> for F {
    type Output = Res;

    open spec fn deps(&self, i: &Injector) -> bool {
        &&& i.resolved::<A>() is Some
        &&& i.resolved::<B>() is Some
        &&& i.resolved::<C>() is Some
        &&& i.resolved::<D>() is Some
    }

    open spec fn accepts(&self, i: &Injector) -> bool {
        forall|a: &A, b: &B, c: &C, d: &D|
            i.resolved::<A>() == Some(*a) && i.resolved::<B>() == Some(*b) && i.resolved::<C>() == Some(*c) && i.resolved::<D>() == Some(*d) ==> call_requires(*self, (a, b, c, d))
    }

    open spec fn outcome(&self, i: &Injector, r: Res) -> bool {
        exists|a: &A, b: &B, c: &C, d: &D|
            i.resolved::<A>() == Some(*a) && i.resolved::<B>() == Some(*b) && i.resolved::<C>() == Some(*c) && i.resolved::<D>() == Some(*d) && call_ensures(*self, (a, b, c, d), r)
    }

    fn call(&self, i: &Injector) -> Res {
        match self.try_call(i) {
            Ok(r) => r,
            Err(_) => unreached(),
        }
    }

    fn try_call(&self, i: &Injector) -> Result<Res, MissingDependency> {
        let a = match i.get::<A>() {
            Some(a) => a,
            None => {
                return Err(MissingDependency { key: A::key() });
            },
        };
        let b = match i.get::<B>() {
            Some(b) => b,
            None => {
                return Err(MissingDependency { key: B::key() });
            },
        };
        let c = match i.get::<C>() {
            Some(c) => c,
            None => {
                return Err(MissingDependency { key: C::key() });
            },
        };
        let d = match i.get::<D>() {
            Some(d) => d,
            None => {
                return Err(MissingDependency { key: D::key() });
            },
        };
        Ok((self)(a, b, c, d))
    }
}

impl<A: Storable, B: Storable, C: Storable, D: Storable, E: Storable, Res, F: Fn(&A, &B, &C, &D, &E) -> Res> CallInjector<(A, B, C, D, E)> for F {
    type Output = Res;

    open spec fn deps(&self, i: &Injector) -> bool {
        &&& i.resolved::<A>() is Some
        &&& i.resolved::<B>() is Some
        &&& i.resolved::<C>() is Some
        &&& i.resolved::<D>() is Some
        &&& i.resolved::<E>() is Some
    }

    open spec fn accepts(&self, i: &Injector) -> bool {
        forall|a: &A, b: &B, c: &C, d: &D, e: &E|
            i.resolved::<A>() == Some(*a) && i.resolved::<B>() == Some(*b) && i.resolved::<C>() == Some(*c) && i.resolved::<D>() == Some(*d) && i.resolved::<E>() == Some(*e) ==> call_requires(*self, (a, b, c, d, e))
    }

    open spec fn outcome(&self, i: &Injector, r: Res) -> bool {
        exists|a: &A, b: &B, c: &C, d: &D, e: &E|
            i.resolved::<A>() == Some(*a) && i.resolved::<B>() == Some(*b) && i.resolved::<C>() == Some(*c) && i.resolved::<D>() == Some(*d) && i.resolved::<E>() == Some(*e) && call_ensures(*self, (a, b, c, d, e), r)
    }

    fn call(&self, i: &Injector) -> Res {
        match self.try_call(i) {
            Ok(r) => r,
            Err(_) => unreached(),
        }
    }

    fn try_call(&self, i: &Injector) -> Result<Res, MissingDependency> {
        let a = match i.get::<A>() {
            Some(a) => a,
            None => {
                return Err(MissingDependency { key: A::key() });
            },
        };
        let b = match i.get::<B>() {
            Some(b) => b,
            None => {
                return Err(MissingDependency { key: B::key() });
            },
        };
        let c = match i.get::<C>() {
            Some(c) => c,
            None => {
                return Err(MissingDependency { key: C::key() });
            },
        };
        let d = match i.get::<D>() {
            Some(d) => d,
            None => {
                return Err(MissingDependency { key: D::key() });
            },
        };
        let e = match i.get::<E>() {
            Some(e) => e,
            None => {
                return Err(MissingDependency { key: E::key() });
            },
        };
        Ok((self)(a, b, c, d, e))
    }
}

impl<A: Storable, B: Storable, C: Storable, D: Storable, E: Storable, G: Storable, Res, F: Fn(&A, &B, &C, &D, &E, &G) -> Res> CallInjector<(A, B, C, D, E, G)> for F {
    type Output = Res;

    open spec fn deps(&self, i: &Injector) -> bool {
        &&& i.resolved::<A>() is Some
        &&& i.resolved::<B>() is Some
        &&& i.resolved::<C>() is Some
        &&& i.resolved::<D>() is Some
        &&& i.resolved::<E>() is Some
        &&& i.resolved::<G>() is Some
    }

    open spec fn accepts(&self, i: &Injector) -> bool {
        forall|a: &A, b: &B, c: &C, d: &D, e: &E, g: &G|
            i.resolved::<A>() == Some(*a) && i.resolved::<B>() == Some(*b) && i.resolved::<C>() == Some(*c) && i.resolved::<D>() == Some(*d) && i.resolved::<E>() == Some(*e) && i.resolved::<G>() == Some(*g) ==> call_requires(*self, (a, b, c, d, e, g))
    }

    open spec fn outcome(&self, i: &Injector, r: Res) -> bool {
        exists|a: &A, b: &B, c: &C, d: &D, e: &E, g: &G|
            i.resolved::<A>() == Some(*a) && i.resolved::<B>() == Some(*b) && i.resolved::<C>() == Some(*c) && i.resolved::<D>() == Some(*d) && i.resolved::<E>() == Some(*e) && i.resolved::<G>() == Some(*g) && call_ensures(*self, (a, b, c, d, e, g), r)
    }

    fn call(&self, i: &Injector) -> Res {
        match self.try_call(i) {
            Ok(r) => r,
            Err(_) => unreached(),
        }
    }

    fn try_call(&self, i: &Injector) -> Result<Res, MissingDependency> {
        let a = match i.get::<A>() {
            Some(a) => a,
            None => {
                return Err(MissingDependency { key: A::key() });
            },
        };
        let b = match i.get::<B>() {
            Some(b) => b,
            None => {
                return Err(MissingDependency { key: B::key() });
            },
        };
        let c = match i.get::<C>() {
            Some(c) => c,
            None => {
                return Err(MissingDependency { key: C::key() });
            },
        };
        let d = match i.get::<D>() {
            Some(d) => d,
            None => {
                return Err(MissingDependency { key: D::key() });
            },
        };
        let e = match i.get::<E>() {
            Some(e) => e,
            None => {
                return Err(MissingDependency { key: E::key() });
            },
        };
        let g = match i.get::<G>() {
            Some(g) => g,
            None => {
                return Err(MissingDependency { key: G::key() });
            },
        };
        Ok((self)(a, b, c, d, e, g))
    }
}

impl<A: Storable, B: Storable, C: Storable, D: Storable, E: Storable, G: Storable, H: Storable, Res, F: Fn(&A, &B, &C, &D, &E, &G, &H) -> Res> CallInjector<(A, B, C, D, E, G, H)> for F {
    type Output = Res;

    open spec fn deps(&self, i: &Injector) -> bool {
        &&& i.resolved::<A>() is Some
        &&& i.resolved::<B>() is Some
        &&& i.resolved::<C>() is Some
        &&& i.resolved::<D>() is Some
        &&& i.resolved::<E>() is Some
        &&& i.resolved::<G>() is Some
        &&& i.resolved::<H>() is Some
    }

    open spec fn accepts(&self, i: &Injector) -> bool {
        forall|a: &A, b: &B, c: &C, d: &D, e: &E, g: &G, h: &H|
            i.resolved::<A>() == Some(*a) && i.resolved::<B>() == Some(*b) && i.resolved::<C>() == Some(*c) && i.resolved::<D>() == Some(*d) && i.resolved::<E>() == Some(*e) && i.resolved::<G>() == Some(*g) && i.resolved::<H>() == Some(*h) ==> call_requires(*self, (a, b, c, d, e, g, h))
    }

    open spec fn outcome(&self, i: &Injector, r: Res) -> bool {
        exists|a: &A, b: &B, c: &C, d: &D, e: &E, g: &G, h: &H|
            i.resolved::<A>() == Some(*a) && i.resolved::<B>() == Some(*b) && i.resolved::<C>() == Some(*c) && i.resolved::<D>() == Some(*d) && i.resolved::<E>() == Some(*e) && i.resolved::<G>() == Some(*g) && i.resolved::<H>() == Some(*h) && call_ensures(*self, (a, b, c, d, e, g, h), r)
    }

    fn call(&self, i: &Injector) -> Res {
        match self.try_call(i) {
            Ok(r) => r,
            Err(_) => unreached(),
        }
    }

    fn try_call(&self, i: &Injector) -> Result<Res, MissingDependency> {
        let a = match i.get::<A>() {
            Some(a) => a,
            None => {
                return Err(MissingDependency { key: A::key() });
            },
        };
        let b = match i.get::<B>() {
            Some(b) => b,
            None => {
                return Err(MissingDependency { key: B::key() });
            },
        };
        let c = match i.get::<C>() {
            Some(c) => c,
            None => {
                return Err(MissingDependency { key: C::key() });
            },
        };
        let d = match i.get::<D>() {
            Some(d) => d,
            None => {
                return Err(MissingDependency { key: D::key() });
            },
        };
        let e = match i.get::<E>() {
            Some(e) => e,
            None => {
                return Err(MissingDependency { key: E::key() });
            },
        };
        let g = match i.get::<G>() {
            Some(g) => g,
            None => {
                return Err(MissingDependency { key: G::key() });
            },
        };
        let h = match i.get::<H>() {
            Some(h) => h,
            None => {
                return Err(MissingDependency { key: H::key() });
            },
        };
        Ok((self)(a, b, c, d, e, g, h))
    }
}

impl<A: Storable, B: Storable, C: Storable, D: Storable, E: Storable, G: Storable, H: Storable, J: Storable, Res, F: Fn(&A, &B, &C, &D, &E, &G, &H, &J) -> Res> CallInjector<(A, B, C, D, E, G, H, J)> for F {
    type Output = Res;

    open spec fn deps(&self, i: &Injector) -> bool {
        &&& i.resolved::<A>() is Some
        &&& i.resolved::<B>() is Some
        &&& i.resolved::<C>() is Some
        &&& i.resolved::<D>() is Some
        &&& i.resolved::<E>() is Some
        &&& i.resolved::<G>() is Some
        &&& i.resolved::<H>() is Some
        &&& i.resolved::<J>() is Some
    }

    open spec fn accepts(&self, i: &Injector) -> bool {
        forall|a: &A, b: &B, c: &C, d: &D, e: &E, g: &G, h: &H, j: &J|
            i.resolved::<A>() == Some(*a) && i.resolved::<B>() == Some(*b) && i.resolved::<C>() == Some(*c) && i.resolved::<D>() == Some(*d) && i.resolved::<E>() == Some(*e) && i.resolved::<G>() == Some(*g) && i.resolved::<H>() == Some(*h) && i.resolved::<J>() == Some(*j) ==> call_requires(*self, (a, b, c, d, e, g, h, j))
    }

    open spec fn outcome(&self, i: &Injector, r: Res) -> bool {
        exists|a: &A, b: &B, c: &C, d: &D, e: &E, g: &G, h: &H, j: &J|
            i.resolved::<A>() == Some(*a) && i.resolved::<B>() == Some(*b) && i.resolved::<C>() == Some(*c) && i.resolved::<D>() == Some(*d) && i.resolved::<E>() == Some(*e) && i.resolved::<G>() == Some(*g) && i.resolved::<H>() == Some(*h) && i.resolved::<J>() == Some(*j) && call_ensures(*self, (a, b, c, d, e, g, h, j), r)
    }

    fn call(&self, i: &Injector) -> Res {
        match self.try_call(i) {
            Ok(r) => r,
            Err(_) => unreached(),
        }
    }

    fn try_call(&self, i: &Injector) -> Result<Res, MissingDependency> {
        let a = match i.get::<A>() {
            Some(a) => a,
            None => {
                return Err(MissingDependency { key: A::key() });
            },
        };
        let b = match i.get::<B>() {
            Some(b) => b,
            None => {
                return Err(MissingDependency { key: B::key() });
            },
        };
        let c = match i.get::<C>() {
            Some(c) => c,
            None => {
                return Err(MissingDependency { key: C::key() });
            },
        };
        let d = match i.get::<D>() {
            Some(d) => d,
            None => {
                return Err(MissingDependency { key: D::key() });
            },
        };
        let e = match i.get::<E>() {
            Some(e) => e,
            None => {
                return Err(MissingDependency { key: E::key() });
            },
        };
        let g = match i.get::<G>() {
            Some(g) => g,
            None => {
                return Err(MissingDependency { key: G::key() });
            },
        };
        let h = match i.get::<H>() {
            Some(h) => h,
            None => {
                return Err(MissingDependency { key: H::key() });
            },
        };
        let j = match i.get::<J>() {
            Some(j) => j,
            None => {
                return Err(MissingDependency { key: J::key() });
            },
        };
        Ok((self)(a, b, c, d, e, g, h, j))
    }
}

impl<A: Storable, B: Storable, C: Storable, D: Storable, E: Storable, G: Storable, H: Storable, J: Storable, K: Storable, Res, F: Fn(&A, &B, &C, &D, &E, &G, &H, &J, &K) -> Res> CallInjector<(A, B, C, D, E, G, H, J, K)> for F {
    type Output = Res;

    open spec fn deps(&self, i: &Injector) -> bool {
        &&& i.resolved::<A>() is Some
        &&& i.resolved::<B>() is Some
        &&& i.resolved::<C>() is Some
        &&& i.resolved::<D>() is Some
        &&& i.resolved::<E>() is Some
        &&& i.resolved::<G>() is Some
        &&& i.resolved::<H>() is Some
        &&& i.resolved::<J>() is Some
        &&& i.resolved::<K>() is Some
    }

    open spec fn accepts(&self, i: &Injector) -> bool {
        forall|a: &A, b: &B, c: &C, d: &D, e: &E, g: &G, h: &H, j: &J, k: &K|
            i.resolved::<A>() == Some(*a) && i.resolved::<B>() == Some(*b) && i.resolved::<C>() == Some(*c) && i.resolved::<D>() == Some(*d) && i.resolved::<E>() == Some(*e) && i.resolved::<G>() == Some(*g) && i.resolved::<H>() == Some(*h) && i.resolved::<J>() == Some(*j) && i.resolved::<K>() == Some(*k) ==> call_requires(*self, (a, b, c, d, e, g, h, j, k))
    }

    open spec fn outcome(&self, i: &Injector, r: Res) -> bool {
        exists|a: &A, b: &B, c: &C, d: &D, e: &E, g: &G, h: &H, j: &J, k: &K|
            i.resolved::<A>() == Some(*a) && i.resolved::<B>() == Some(*b) && i.resolved::<C>() == Some(*c) && i.resolved::<D>() == Some(*d) && i.resolved::<E>() == Some(*e) && i.resolved::<G>() == Some(*g) && i.resolved::<H>() == Some(*h) && i.resolved::<J>() == Some(*j) && i.resolved::<K>() == Some(*k) && call_ensures(*self, (a, b, c, d, e, g, h, j, k), r)
    }

    fn call(&self, i: &Injector) -> Res {
        match self.try_call(i) {
            Ok(r) => r,
            Err(_) => unreached(),
        }
    }

    fn try_call(&self, i: &Injector) -> Result<Res, MissingDependency> {
        let a = match i.get::<A>() {
            Some(a) => a,
            None => {
                return Err(MissingDependency { key: A::key() });
            },
        };
        let b = match i.get::<B>() {
            Some(b) => b,
            None => {
                return Err(MissingDependency { key: B::key() });
            },
        };
        let c = match i.get::<C>() {
            Some(c) => c,
            None => {
                return Err(MissingDependency { key: C::key() });
            },
        };
        let d = match i.get::<D>() {
            Some(d) => d,
            None => {
                return Err(MissingDependency { key: D::key() });
            },
        };
        let e = match i.get::<E>() {
            Some(e) => e,
            None => {
                return Err(MissingDependency { key: E::key() });
            },
        };
        let g = match i.get::<G>() {
            Some(g) => g,
            None => {
                return Err(MissingDependency { key: G::key() });
            },
        };
        let h = match i.get::<H>() {
            Some(h) => h,
            None => {
                return Err(MissingDependency { key: H::key() });
            },
        };
        let j = match i.get::<J>() {
            Some(j) => j,
            None => {
                return Err(MissingDependency { key: J::key() });
            },
        };
        let k = match i.get::<K>() {
            Some(k) => k,
            None => {
                return Err(MissingDependency { key: K::key() });
            },
        };
        Ok((self)(a, b, c, d, e, g, h, j, k))
    }
}

impl<A: Storable, B: Storable, C: Storable, D: Storable, E: Storable, G: Storable, H: Storable, J: Storable, K: Storable, M: Storable, Res, F: Fn(&A, &B, &C, &D, &E, &G, &H, &J, &K, &M) -> Res> CallInjector<(A, B, C, D, E, G, H, J, K, M)> for F {
    type Output = Res;

    open spec fn deps(&self, i: &Injector) -> bool {
        &&& i.resolved::<A>() is Some
        &&& i.resolved::<B>() is Some
        &&& i.resolved::<C>() is Some
        &&& i.resolved::<D>() is Some
        &&& i.resolved::<E>() is Some
        &&& i.resolved::<G>() is Some
        &&& i.resolved::<H>() is Some
        &&& i.resolved::<J>() is Some
        &&& i.resolved::<K>() is Some
        &&& i.resolved::<M>() is Some
    }

    open spec fn accepts(&self, i: &Injector) -> bool {
        forall|a: &A, b: &B, c: &C, d: &D, e: &E, g: &G, h: &H, j: &J, k: &K, m: &M|
            i.resolved::<A>() == Some(*a) && i.resolved::<B>() == Some(*b) && i.resolved::<C>() == Some(*c) && i.resolved::<D>() == Some(*d) && i.resolved::<E>() == Some(*e) && i.resolved::<G>() == Some(*g) && i.resolved::<H>() == Some(*h) && i.resolved::<J>() == Some(*j) && i.resolved::<K>() == Some(*k) && i.resolved::<M>() == Some(*m) ==> call_requires(*self, (a, b, c, d, e, g, h, j, k, m))
    }

    open spec fn outcome(&self, i: &Injector, r: Res) -> bool {
        exists|a: &A, b: &B, c: &C, d: &D, e: &E, g: &G, h: &H, j: &J, k: &K, m: &M|
            i.resolved::<A>() == Some(*a) && i.resolved::<B>() == Some(*b) && i.resolved::<C>() == Some(*c) && i.resolved::<D>() == Some(*d) && i.resolved::<E>() == Some(*e) && i.resolved::<G>() == Some(*g) && i.resolved::<H>() == Some(*h) && i.resolved::<J>() == Some(*j) && i.resolved::<K>() == Some(*k) && i.resolved::<M>() == Some(*m) && call_ensures(*self, (a, b, c, d, e, g, h, j, k, m), r)
    }

    fn call(&self, i: &Injector) -> Res {
        match self.try_call(i) {
            Ok(r) => r,
            Err(_) => unreached(),
        }
    }

    fn try_call(&self, i: &Injector) -> Result<Res, MissingDependency> {
        let a = match i.get::<A>() {
            Some(a) => a,
            None => {
                return Err(MissingDependency { key: A::key() });
            },
        };
        let b = match i.get::<B>() {
            Some(b) => b,
            None => {
                return Err(MissingDependency { key: B::key() });
            },
        };
        let c = match i.get::<C>() {
            Some(c) => c,
            None => {
                return Err(MissingDependency { key: C::key() });
            },
        };
        let d = match i.get::<D>() {
            Some(d) => d,
            None => {
                return Err(MissingDependency { key: D::key() });
            },
        };
        let e = match i.get::<E>() {
            Some(e) => e,
            None => {
                return Err(MissingDependency { key: E::key() });
            },
        };
        let g = match i.get::<G>() {
            Some(g) => g,
            None => {
                return Err(MissingDependency { key: G::key() });
            },
        };
        let h = match i.get::<H>() {
            Some(h) => h,
            None => {
                return Err(MissingDependency { key: H::key() });
            },
        };
        let j = match i.get::<J>() {
            Some(j) => j,
            None => {
                return Err(MissingDependency { key: J::key() });
            },
        };
        let k = match i.get::<K>() {
            Some(k) => k,
            None => {
                return Err(MissingDependency { key: K::key() });
            },
        };
        let m = match i.get::<M>() {
            Some(m) => m,
            None => {
                return Err(MissingDependency { key: M::key() });
            },
        };
        Ok((self)(a, b, c, d, e, g, h, j, k, m))
    }
}

} // verus!
