//! The listener and subject capabilities of the publish/subscribe pattern.

use vstd::prelude::*;

verus! {

/// A listener that reacts to each value a subject pushes to it. Its view is
/// the state the contracts speak of.
pub trait Observer<T>: View + Sized {
    /// The name a listener in state `v` declares; a subject keeps it under it.
    spec fn id_of(v: Self::V) -> Seq<char>;

    /// The state of a listener in state `v` once it has processed `value`.
    spec fn after_update(v: Self::V, value: T) -> Self::V;

    /// Processing a value never changes the declared name.
    proof fn lemma_update_keeps_id(v: Self::V, value: T)
        ensures
            Self::id_of(Self::after_update(v, value)) == Self::id_of(v),
    ;

    fn update(&mut self, value: &T)
        ensures
            final(self)@ == Self::after_update(old(self)@, *value),
    ;

    fn name(&self) -> (r: String)
        ensures
            r@ == Self::id_of(self@),
    ;
}

/// The listeners of `m`, each after it has processed `value`.
pub open spec fn notified<T, O: Observer<T>>(m: Map<Seq<char>, O::V>, value: T) -> Map<
    Seq<char>,
    O::V,
> {
    Map::new(|k: Seq<char>| m.dom().contains(k), |k: Seq<char>| O::after_update(m[k], value))
}

/// A subject that keeps listeners by name and pushes values to all of them.
pub trait Observable<T, O: Observer<T>> {
    /// The registered listeners, by name.
    spec fn listeners(&self) -> Map<Seq<char>, O::V>;

    /// The subject's internal invariant.
    spec fn inv(&self) -> bool;

    /// Keeps `observer` under its own name, replacing any listener held under
    /// that name, and returns the name.
    fn register(&mut self, observer: O) -> (r: String)
        requires
            old(self).inv(),
        ensures
            final(self).inv(),
            r@ == O::id_of(observer@),
            final(self).listeners() == old(self).listeners().insert(O::id_of(observer@), observer@),
    ;

    /// Drops the listener held under `name`, if any.
    fn remove(&mut self, name: String)
        requires
            old(self).inv(),
        ensures
            final(self).inv(),
            final(self).listeners() == old(self).listeners().remove(name@),
    ;

    /// Delivers `record` to every registered listener.
    fn notify(&mut self, record: T)
        requires
            old(self).inv(),
        ensures
            final(self).inv(),
            final(self).listeners() == notified::<T, O>(old(self).listeners(), record),
    ;
}

/// Of two listeners registered under distinct names, once the first is
/// removed by its name, a notification reaches the second alone.
pub proof fn lemma_removed_listener_gets_nothing<T, O: Observer<T>>(a: O::V, b: O::V, value: T)
    requires
        O::id_of(a) != O::id_of(b),
    ensures
        notified::<T, O>(
            Map::empty().insert(O::id_of(a), a).insert(O::id_of(b), b).remove(O::id_of(a)),
            value,
        ) == Map::<Seq<char>, O::V>::empty().insert(O::id_of(b), O::after_update(b, value)),
{
    let m = Map::<Seq<char>, O::V>::empty().insert(O::id_of(a), a).insert(O::id_of(b), b).remove(
        O::id_of(a),
    );
    assert(notified::<T, O>(m, value) =~= Map::<Seq<char>, O::V>::empty().insert(
        O::id_of(b),
        O::after_update(b, value),
    ));
}

/// Of two listeners registered under one name, only the second one is kept:
/// a notification reaches it alone.
pub proof fn lemma_same_name_keeps_last<T, O: Observer<T>>(a: O::V, b: O::V, value: T)
    requires
        O::id_of(a) == O::id_of(b),
    ensures
        notified::<T, O>(Map::empty().insert(O::id_of(a), a).insert(O::id_of(b), b), value)
            == Map::<Seq<char>, O::V>::empty().insert(O::id_of(b), O::after_update(b, value)),
{
    let m = Map::<Seq<char>, O::V>::empty().insert(O::id_of(a), a).insert(O::id_of(b), b);
    assert(notified::<T, O>(m, value) =~= Map::<Seq<char>, O::V>::empty().insert(
        O::id_of(b),
        O::after_update(b, value),
    ));
}

} // verus!
