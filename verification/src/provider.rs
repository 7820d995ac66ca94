//! Provider factories: implementations of a service, registered under their IDs.

use crate::error::ChonkitError;
use crate::text::str_eq;
use vstd::prelude::*;

verus! {

/// Used to track provider IDs.
pub trait Identity {
    /// The ID of the provider, as a sequence of characters.
    spec fn spec_id(&self) -> Seq<char>;

    /// The ID the provider is registered under.
    fn id(&self) -> (res: &'static str)
        ensures
            res@ == self.spec_id(),
    ;
}

/// Provider factories are used to decouple concrete implementations from the business logic.
///
/// Each ID names at most one provider.
#[derive(Clone)]
pub struct ProviderFactory<T> {
    providers: Vec<(&'static str, T)>,
}

/// The map from IDs to providers that a list of registrations holds, later ones winning.
pub open spec fn registrations_map<T>(ps: Seq<(&'static str, T)>) -> Map<Seq<char>, T>
    decreases ps.len(),
{
    if ps.len() == 0 {
        Map::empty()
    } else {
        registrations_map(ps.drop_last()).insert(ps.last().0@, ps.last().1)
    }
}

/// No ID occurs twice in the registrations.
pub open spec fn unique_ids<T>(ps: Seq<(&'static str, T)>) -> bool {
    forall|i: int, j: int| 0 <= i < j < ps.len() ==> #[trigger] ps[i].0@ != #[trigger] ps[j].0@
}

proof fn lemma_registrations_contain<T>(ps: Seq<(&'static str, T)>, k: Seq<char>)
    ensures
        registrations_map(ps).contains_key(k) <==> exists|i: int|
            0 <= i < ps.len() && #[trigger] ps[i].0@ == k,
    decreases ps.len(),
{
    if ps.len() > 0 {
        lemma_registrations_contain(ps.drop_last(), k);
        if registrations_map(ps.drop_last()).contains_key(k) {
            let i = choose|i: int| 0 <= i < ps.drop_last().len() && #[trigger] ps.drop_last()[i].0@ == k;
            assert(ps[i].0@ == k);
        }
        if exists|i: int| 0 <= i < ps.len() && #[trigger] ps[i].0@ == k {
            let i = choose|i: int| 0 <= i < ps.len() && #[trigger] ps[i].0@ == k;
            if i < ps.len() - 1 {
                assert(ps.drop_last()[i].0@ == k);
            }
        }
    }
}

proof fn lemma_registrations_value<T>(ps: Seq<(&'static str, T)>, i: int)
    requires
        unique_ids(ps),
        0 <= i < ps.len(),
    ensures
        registrations_map(ps).contains_key(ps[i].0@),
        registrations_map(ps)[ps[i].0@] == ps[i].1,
    decreases ps.len(),
{
    if i < ps.len() - 1 {
        lemma_registrations_value(ps.drop_last(), i);
        assert(ps.drop_last()[i] == ps[i]);
        assert(ps[i].0@ != ps[ps.len() - 1].0@);
    }
}

proof fn lemma_registrations_update<T>(ps: Seq<(&'static str, T)>, i: int, v: T)
    requires
        unique_ids(ps),
        0 <= i < ps.len(),
    ensures
        registrations_map(ps.update(i, (ps[i].0, v))) == registrations_map(ps).insert(ps[i].0@, v),
    decreases ps.len(),
{
    let qs = ps.update(i, (ps[i].0, v));
    if i == ps.len() - 1 {
        assert(qs.drop_last() =~= ps.drop_last());
        assert(registrations_map(qs) =~= registrations_map(ps).insert(ps[i].0@, v));
    } else {
        assert(qs.drop_last() =~= ps.drop_last().update(i, (ps[i].0, v)));
        lemma_registrations_update(ps.drop_last(), i, v);
        assert(ps[i].0@ != ps.last().0@);
        assert(registrations_map(qs) =~= registrations_map(ps).insert(ps[i].0@, v));
    }
}

impl<T> ProviderFactory<T> {
    /// The providers by ID.
    pub closed spec fn providers_map(&self) -> Map<Seq<char>, T> {
        registrations_map(self.providers@)
    }

    /// Each ID is registered once.
    pub closed spec fn wf(&self) -> bool {
        unique_ids(self.providers@)
    }

    /// Get a provider from this factory: a clone of the one registered under `input`.
    pub fn get_provider(&self, input: &str) -> (res: Result<T, ChonkitError>) where T: Clone
        requires
            self.wf(),
        ensures
            res is Ok <==> self.providers_map().contains_key(input@),
            res matches Ok(t) ==> cloned::<T>(self.providers_map()[input@], t),
            res matches Err(e) ==> e matches ChonkitError::InvalidProvider(m) && m@ == input@,
    {
        let mut i: usize = 0;
        while i < self.providers.len()
            invariant
                i <= self.providers@.len(),
                unique_ids(self.providers@),
                forall|k: int| 0 <= k < i ==> #[trigger] self.providers@[k].0@ != input@,
            decreases self.providers@.len() - i,
        {
            if str_eq(self.providers[i].0, input) {
                proof {
                    lemma_registrations_value(self.providers@, i as int);
                }
                return Ok(self.providers[i].1.clone());
            }
            i += 1;
        }
        proof {
            lemma_registrations_contain(self.providers@, input@);
        }
        Err(ChonkitError::InvalidProvider(input.to_owned()))
    }

    /// List all registered provider IDs, each once.
    pub fn list_provider_ids(&self) -> (res: Vec<&'static str>)
        requires
            self.wf(),
        ensures
            res@.map_values(|s: &'static str| s@).no_duplicates(),
            forall|k: Seq<char>|
                self.providers_map().contains_key(k) <==> res@.map_values(
                    |s: &'static str| s@,
                ).contains(k),
    {
        let mut res: Vec<&'static str> = Vec::new();
        for i in 0..self.providers.len()
            invariant
                res@.len() == i,
                forall|k: int| 0 <= k < i ==> #[trigger] res@[k] == self.providers@[k].0,
        {
            res.push(self.providers[i].0);
        }
        proof {
            let ids = res@.map_values(|s: &'static str| s@);
            assert forall|a: int, b: int| 0 <= a < ids.len() && 0 <= b < ids.len() && a != b implies ids[a]
                != ids[b] by {
                if a < b {
                    assert(self.providers@[a].0@ != self.providers@[b].0@);
                } else {
                    assert(self.providers@[b].0@ != self.providers@[a].0@);
                }
            }
            assert forall|k: Seq<char>|
                self.providers_map().contains_key(k) <==> ids.contains(k) by {
                lemma_registrations_contain(self.providers@, k);
                if ids.contains(k) {
                    let a = choose|a: int| 0 <= a < ids.len() && ids[a] == k;
                    assert(self.providers@[a].0@ == k);
                }
                if self.providers_map().contains_key(k) {
                    let a = choose|a: int| 0 <= a < self.providers@.len() && #[trigger] self.providers@[a].0@ == k;
                    assert(ids[a] == k);
                }
            }
        }
        res
    }

    /// Register a provider in this factory, under the ID it gives; one registered under the
    /// same ID before is replaced.
    pub fn register(&mut self, provider: T) where T: Identity
        requires
            old(self).wf(),
        ensures
            final(self).wf(),
            final(self).providers_map() == old(self).providers_map().insert(provider.spec_id(), provider),
    {
        let id = provider.id();
        let mut i: usize = 0;
        while i < self.providers.len()
            invariant
                i <= self.providers@.len(),
                self.providers@ == old(self).providers@,
                unique_ids(self.providers@),
                id@ == provider.spec_id(),
                forall|k: int| 0 <= k < i ==> #[trigger] self.providers@[k].0@ != id@,
            decreases self.providers@.len() - i,
        {
            if str_eq(self.providers[i].0, id) {
                proof {
                    lemma_registrations_update(self.providers@, i as int, provider);
                }
                let ghost before = self.providers@;
                self.providers.set(i, (self.providers[i].0, provider));
                proof {
                    assert(self.providers@ =~= before.update(i as int, (before[i as int].0, provider)));
                    assert(registrations_map(self.providers@) == registrations_map(before).insert(
                        id@,
                        provider,
                    ));
                    assert(unique_ids(self.providers@)) by {
                        assert forall|a: int, b: int| 0 <= a < b < self.providers@.len() implies #[trigger] self.providers@[a].0@
                            != #[trigger] self.providers@[b].0@ by {
                            assert(before[a].0@ != before[b].0@);
                        }
                    }
                }
                return;
            }
            i += 1;
        }
        let ghost before = self.providers@;
        self.providers.push((id, provider));
        proof {
            assert(self.providers@.drop_last() =~= before);
            assert(registrations_map(self.providers@) == registrations_map(before).insert(
                id@,
                provider,
            ));
            assert(unique_ids(self.providers@)) by {
                assert forall|a: int, b: int| 0 <= a < b < self.providers@.len() implies #[trigger] self.providers@[a].0@
                    != #[trigger] self.providers@[b].0@ by {
                    if b < before.len() {
                        assert(before[a].0@ != before[b].0@);
                    } else {
                        assert(before[a].0@ != id@);
                    }
                }
            }
        }
    }
}

impl<T> Default for ProviderFactory<T> {
    fn default() -> (res: Self)
        ensures
            res.wf(),
            res.providers_map() == Map::<Seq<char>, T>::empty(),
    {
        let res = Self { providers: Vec::new() };
        assert(res.providers_map() =~= Map::<Seq<char>, T>::empty());
        res
    }
}

/// After a provider is registered, [ProviderFactory::get_provider] finds it under its own ID,
/// whatever was registered there before, every other ID keeps the provider it had (or stays
/// unknown), and [ProviderFactory::list_provider_ids] lists the IDs before and its ID.
pub proof fn law_register_then_get<T: Identity>(
    before: ProviderFactory<T>,
    after: ProviderFactory<T>,
    p: T,
    other: Seq<char>,
)
    requires
        after.providers_map() == before.providers_map().insert(p.spec_id(), p),
        other != p.spec_id(),
    ensures
        after.providers_map().contains_key(p.spec_id()),
        after.providers_map()[p.spec_id()] == p,
        after.providers_map().contains_key(other) == before.providers_map().contains_key(other),
        before.providers_map().contains_key(other) ==> after.providers_map()[other]
            == before.providers_map()[other],
        after.providers_map().dom() == before.providers_map().dom().insert(p.spec_id()),
{
    assert(after.providers_map().dom() =~= before.providers_map().dom().insert(p.spec_id()));
}

/// The providers by ID that registering `ps`, in order, into an empty factory gives: each
/// under its own ID, a later one replacing an earlier one with the same ID.
pub open spec fn registered<T: Identity>(ps: Seq<T>) -> Map<Seq<char>, T>
    decreases ps.len(),
{
    if ps.len() == 0 {
        Map::empty()
    } else {
        registered(ps.drop_last()).insert(ps.last().spec_id(), ps.last())
    }
}

/// The IDs of the providers `ps`, in order.
pub open spec fn provider_ids<T: Identity>(ps: Seq<T>) -> Seq<Seq<char>> {
    ps.map_values(|p: T| p.spec_id())
}

/// Registering one more provider into a factory that holds the registrations `ps` gives a
/// factory that holds `ps` followed by it. With the empty factory that
/// [ProviderFactory::default] gives, which holds no registration, this carries over to every
/// sequence of calls of [ProviderFactory::register].
pub proof fn law_register_extends<T: Identity>(
    before: ProviderFactory<T>,
    after: ProviderFactory<T>,
    ps: Seq<T>,
    p: T,
)
    requires
        before.providers_map() == registered(ps),
        after.providers_map() == before.providers_map().insert(p.spec_id(), p),
    ensures
        after.providers_map() == registered(ps.push(p)),
{
    assert(ps.push(p).drop_last() =~= ps);
}

proof fn lemma_registered_keys<T: Identity>(ps: Seq<T>, k: Seq<char>)
    ensures
        registered(ps).contains_key(k) <==> provider_ids(ps).contains(k),
    decreases ps.len(),
{
    if ps.len() > 0 {
        lemma_registered_keys(ps.drop_last(), k);
        let ids = provider_ids(ps);
        let pre = provider_ids(ps.drop_last());
        assert(pre =~= ids.drop_last());
        assert(ids[ids.len() - 1] == ps.last().spec_id());
        if k == ps.last().spec_id() {
            assert(ids.contains(k));
        }
        if pre.contains(k) {
            let i = choose|i: int| 0 <= i < pre.len() && pre[i] == k;
            assert(ids[i] == k);
        }
        if ids.contains(k) {
            let i = choose|i: int| 0 <= i < ids.len() && ids[i] == k;
            if i < ids.len() - 1 {
                assert(pre[i] == k);
            }
        }
    }
}

/// After the providers `ps` are registered in order into an empty factory,
/// [ProviderFactory::list_provider_ids] lists the ID of each of them, each ID exactly once and
/// nothing else, so as many IDs as there are distinct IDs among `ps`. `ids` is a list that
/// `list_provider_ids` may give for such a factory: without duplicates, with the factory's
/// IDs and no other.
pub proof fn law_registered_listed<T: Identity>(ps: Seq<T>, ids: Seq<Seq<char>>)
    requires
        ids.no_duplicates(),
        forall|k: Seq<char>| registered(ps).contains_key(k) <==> ids.contains(k),
    ensures
        forall|i: int| 0 <= i < ps.len() ==> ids.contains(#[trigger] ps[i].spec_id()),
        forall|j: int| 0 <= j < ids.len() ==> provider_ids(ps).contains(#[trigger] ids[j]),
        ids.len() == provider_ids(ps).to_set().len(),
{
    let pids = provider_ids(ps);
    assert forall|i: int| 0 <= i < ps.len() implies ids.contains(#[trigger] ps[i].spec_id()) by {
        assert(pids[i] == ps[i].spec_id());
        lemma_registered_keys(ps, ps[i].spec_id());
    }
    assert forall|j: int| 0 <= j < ids.len() implies pids.contains(#[trigger] ids[j]) by {
        assert(ids.contains(ids[j]));
        lemma_registered_keys(ps, ids[j]);
    }
    assert(ids.to_set() =~= pids.to_set()) by {
        assert forall|k: Seq<char>| ids.to_set().contains(k) <==> pids.to_set().contains(k) by {
            lemma_registered_keys(ps, k);
        }
    }
    ids.unique_seq_to_set();
}

} // verus!
