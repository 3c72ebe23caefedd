//! The identity store: which users exist, and the key bound to each.

use crate::errors::Rejected;
use crate::keys::{key_option_view, KeyMaterial, KeyView};
use vstd::prelude::*;

verus! {

/// One user of the configured universe with the key bound to it, if any.
pub struct Identity {
    pub user_id: String,
    pub public_key: Option<KeyMaterial>,
}

/// The users of the service. Its value is a map from each configured user id
/// to the key bound to it; a key, once bound, stays.
pub struct IdentityStore {
    entries: Vec<Identity>,
}

/// Whether `user` is one of `users`.
pub open spec fn listed(users: Seq<String>, user: Seq<char>) -> bool {
    exists|i: int| 0 <= i < users.len() && (#[trigger] users[i])@ == user
}

/// What `register` answers on a store of value `store`.
pub open spec fn register_result(
    store: Map<Seq<char>, Option<KeyView>>,
    user: Seq<char>,
    key: KeyView,
) -> Result<(), Rejected> {
    if !store.contains_key(user) {
        Err(Rejected::UnknownUser)
    } else if store[user] is Some {
        Err(Rejected::AlreadyRegistered)
    } else if !(key is Ed25519) {
        Err(Rejected::UnsupportedAlgorithm)
    } else {
        Ok(())
    }
}

/// The store after `register`: the key is bound where the call succeeds, and
/// nothing changes where it fails.
pub open spec fn store_after_register(
    store: Map<Seq<char>, Option<KeyView>>,
    user: Seq<char>,
    key: KeyView,
) -> Map<Seq<char>, Option<KeyView>> {
    if register_result(store, user, key) is Ok {
        store.insert(user, Some(key))
    } else {
        store
    }
}

/// The store after registering each of `keys` for `user`, one after another.
pub open spec fn store_after_registrations(
    store: Map<Seq<char>, Option<KeyView>>,
    user: Seq<char>,
    keys: Seq<KeyView>,
) -> Map<Seq<char>, Option<KeyView>>
    decreases keys.len(),
{
    if keys.len() == 0 {
        store
    } else {
        store_after_register(
            store_after_registrations(store, user, keys.drop_last()),
            user,
            keys.last(),
        )
    }
}

/// A bound key is immutable and the universe is fixed: whatever a registration
/// brings and however it ends, the users stay the same and every key that was
/// bound before is bound after.
pub proof fn lemma_bound_key_is_immutable(
    store: Map<Seq<char>, Option<KeyView>>,
    user: Seq<char>,
    key: KeyView,
    other: Seq<char>,
)
    ensures
        store_after_register(store, user, key).contains_key(other) <==> store.contains_key(other),
        store.contains_key(other) && store[other] is Some ==> store_after_register(
            store,
            user,
            key,
        )[other] == store[other],
{
}

/// Registrations for one unregistered user, in whatever order they are
/// served: the first is accepted, every later one is rejected as already
/// registered, and the key that stays bound is the first one.
pub proof fn lemma_one_registration_succeeds(
    store: Map<Seq<char>, Option<KeyView>>,
    user: Seq<char>,
    keys: Seq<KeyView>,
)
    requires
        store.contains_key(user),
        store[user] is None,
        keys.len() >= 1,
        forall|i: int| 0 <= i < keys.len() ==> keys[i] is Ed25519,
    ensures
        register_result(store, user, keys[0]) is Ok,
        forall|i: int|
            1 <= i < keys.len() ==> register_result(
                #[trigger] store_after_registrations(store, user, keys.take(i)),
                user,
                keys[i],
            ) == Err::<(), Rejected>(Rejected::AlreadyRegistered),
        store_after_registrations(store, user, keys)[user] == Some(keys[0]),
        store_after_registrations(store, user, keys).contains_key(user),
    decreases keys.len(),
{
    if keys.len() == 1 {
        assert(keys.drop_last().len() == 0);
        assert(store_after_registrations(store, user, keys.drop_last()) == store);
    } else {
        let shorter = keys.drop_last();
        lemma_one_registration_succeeds(store, user, shorter);
        assert(shorter[0] == keys[0]);
        assert forall|i: int| 1 <= i < keys.len() implies register_result(
            #[trigger] store_after_registrations(store, user, keys.take(i)),
            user,
            keys[i],
        ) == Err::<(), Rejected>(Rejected::AlreadyRegistered) by {
            if i < shorter.len() {
                assert(keys.take(i) =~= shorter.take(i));
                assert(keys[i] == shorter[i]);
            } else {
                assert(keys.take(i) =~= shorter);
            }
        }
    }
}

impl View for IdentityStore {
    type V = Map<Seq<char>, Option<KeyView>>;

    closed spec fn view(&self) -> Map<Seq<char>, Option<KeyView>> {
        Map::new(
            |user: Seq<char>| self.has(user),
            |user: Seq<char>| key_option_view(self.entries[self.position(user)].public_key),
        )
    }
}

impl IdentityStore {
    closed spec fn has(&self, user: Seq<char>) -> bool {
        exists|i: int| 0 <= i < self.entries.len() && (#[trigger] self.entries[i]).user_id@ == user
    }

    closed spec fn position(&self, user: Seq<char>) -> int {
        choose|i: int| 0 <= i < self.entries.len() && (#[trigger] self.entries[i]).user_id@ == user
    }

    /// No user id occurs twice, and every bound key is an Ed25519 key.
    pub closed spec fn wf(&self) -> bool {
        &&& forall|i: int, j: int|
            0 <= i < j < self.entries.len() ==> (#[trigger] self.entries[i]).user_id@ != (
            #[trigger] self.entries[j]).user_id@
        &&& forall|i: int|
            0 <= i < self.entries.len() ==> (match (#[trigger] self.entries[i]).public_key {
                Some(key) => key@ is Ed25519,
                None => true,
            })
    }

    proof fn lemma_entry(&self, i: int)
        requires
            self.wf(),
            0 <= i < self.entries.len(),
        ensures
            self@.contains_key(self.entries[i].user_id@),
            self@[self.entries[i].user_id@] == key_option_view(self.entries[i].public_key),
    {
        let user = self.entries[i].user_id@;
        assert(self.has(user));
        let j = self.position(user);
        assert(0 <= j < self.entries.len() && self.entries[j].user_id@ == user);
        assert(i == j);
    }

    /// Every key in a well-formed store is an Ed25519 key.
    pub proof fn lemma_bound_keys_are_ed25519(&self, user: Seq<char>)
        requires
            self.wf(),
            self@.contains_key(user),
        ensures
            match self@[user] {
                Some(key) => key is Ed25519,
                None => true,
            },
    {
        let j = self.position(user);
        assert(self.has(user));
        self.lemma_entry(j);
    }

    /// A store over the given universe of users, none of them registered. A
    /// user id listed twice counts once.
    pub fn new(users: Vec<String>) -> (store: IdentityStore)
        ensures
            store.wf(),
            forall|user: Seq<char>| store@.contains_key(user) <==> listed(users@, user),
            forall|user: Seq<char>| store@.contains_key(user) ==> store@[user] is None,
    {
        let mut store = IdentityStore { entries: Vec::new() };
        let mut i: usize = 0;
        while i < users.len()
            invariant
                i <= users.len(),
                store.wf(),
                forall|user: Seq<char>|
                    store.has(user) <==> listed(users@.subrange(0, i as int), user),
                forall|k: int|
                    0 <= k < store.entries.len() ==> (#[trigger] store.entries[k]).public_key is None,
            decreases users.len() - i,
        {
            let found = store.find(&users[i]);
            let ghost before = store;
            let ghost prefix = users@.subrange(0, i as int);
            let ghost next = users@.subrange(0, i + 1);
            if found.is_none() {
                store.entries.push(Identity { user_id: users[i].clone(), public_key: None });
                proof {
                    assert forall|user: Seq<char>| store.has(user) <==> listed(next, user) by {
                        if store.has(user) {
                            let k = store.position(user);
                            if k < before.entries.len() {
                                assert(before.entries[k].user_id@ == user);
                                assert(before.has(user));
                                let m = choose|m: int|
                                    0 <= m < prefix.len() && (#[trigger] prefix[m])@ == user;
                                assert(next[m]@ == user);
                            } else {
                                assert(next[i as int]@ == user);
                            }
                        }
                        if listed(next, user) {
                            let m = choose|m: int|
                                0 <= m < next.len() && (#[trigger] next[m])@ == user;
                            if m < i {
                                assert(prefix[m]@ == user);
                                assert(before.has(user));
                                let k = before.position(user);
                                assert(store.entries[k].user_id@ == user);
                            } else {
                                assert(store.entries[before.entries.len() as int].user_id@ == user);
                            }
                        }
                    }
                    assert forall|a: int, b: int| 0 <= a < b < store.entries.len() implies (
                    #[trigger] store.entries[a]).user_id@ != (#[trigger] store.entries[b]).user_id@ by {
                        if b == before.entries.len() {
                            assert(before.entries[a].user_id@ == store.entries[a].user_id@);
                            assert(!before.has(users[i as int]@));
                        } else {
                            assert(before.entries[a].user_id@ == store.entries[a].user_id@);
                            assert(before.entries[b].user_id@ == store.entries[b].user_id@);
                        }
                    }
                }
            } else {
                proof {
                    assert forall|user: Seq<char>| store.has(user) <==> listed(next, user) by {
                        if store.has(user) {
                            let m = choose|m: int|
                                0 <= m < prefix.len() && (#[trigger] prefix[m])@ == user;
                            assert(next[m]@ == user);
                        }
                        if listed(next, user) {
                            let m = choose|m: int|
                                0 <= m < next.len() && (#[trigger] next[m])@ == user;
                            if m < i {
                                assert(prefix[m]@ == user);
                            } else {
                                assert(store.has(users[i as int]@));
                            }
                        }
                    }
                }
            }
            i += 1;
        }
        proof {
            assert(users@.subrange(0, i as int) =~= users@);
            assert forall|user: Seq<char>| store@.contains_key(user) implies store@[user] is None by {
                let k = store.position(user);
                assert(store.has(user));
                assert(store.entries[k].public_key is None);
            }
        }
        store
    }

    fn find(&self, user_id: &String) -> (found: Option<usize>)
        ensures
            match found {
                Some(i) => i < self.entries.len() && self.entries[i as int].user_id@ == user_id@,
                None => !self.has(user_id@),
            },
            found is Some <==> self@.contains_key(user_id@),
    {
        let mut i: usize = 0;
        while i < self.entries.len()
            invariant
                i <= self.entries.len(),
                forall|k: int| 0 <= k < i ==> (#[trigger] self.entries[k]).user_id@ != user_id@,
            decreases self.entries.len() - i,
        {
            if self.entries[i].user_id == *user_id {
                assert(self.has(user_id@));
                return Some(i);
            }
            i += 1;
        }
        None
    }

    /// Whether the user belongs to the configured universe.
    pub fn contains(&self, user_id: &str) -> (known: bool)
        ensures
            known == self@.contains_key(user_id@),
    {
        let wanted = user_id.to_owned();
        self.find(&wanted).is_some()
    }

    /// The key bound to the user; `None` if the user is unknown or has not
    /// registered.
    pub fn lookup(&self, user_id: &str) -> (key: Option<&KeyMaterial>)
        requires
            self.wf(),
        ensures
            match key {
                Some(k) => self@.contains_key(user_id@) && self@[user_id@] == Some(k@) && k@ is Ed25519,
                None => !self@.contains_key(user_id@) || self@[user_id@] is None,
            },
    {
        let wanted = user_id.to_owned();
        match self.find(&wanted) {
            Some(i) => {
                proof {
                    self.lemma_entry(i as int);
                }
                match &self.entries[i].public_key {
                    Some(k) => Some(k),
                    None => None,
                }
            },
            None => None,
        }
    }

    /// Binds `key` to the user, once: the first registration wins.
    pub fn register(&mut self, user_id: &str, key: KeyMaterial) -> (result: Result<(), Rejected>)
        requires
            old(self).wf(),
        ensures
            final(self).wf(),
            result == register_result(old(self)@, user_id@, key@),
            final(self)@ == store_after_register(old(self)@, user_id@, key@),
    {
        let wanted = user_id.to_owned();
        match self.find(&wanted) {
            None => Err(Rejected::UnknownUser),
            Some(i) => {
                proof {
                    self.lemma_entry(i as int);
                }
                if self.entries[i].public_key.is_some() {
                    Err(Rejected::AlreadyRegistered)
                } else if !key.is_ed25519() {
                    Err(Rejected::UnsupportedAlgorithm)
                } else {
                    let ghost before = *self;
                    let ghost bound = key@;
                    self.entries.set(i, Identity { user_id: wanted, public_key: Some(key) });
                    proof {
                        assert forall|k: int| 0 <= k < self.entries.len() implies (
                        #[trigger] self.entries[k]).user_id@ == before.entries[k].user_id@ by {}
                        assert(self.wf());
                        let target = before@.insert(user_id@, Some(bound));
                        assert forall|user: Seq<char>| #[trigger] self@.contains_key(user) implies
                            target.contains_key(user) by {
                            let k = self.position(user);
                            assert(before.entries[k].user_id@ == user);
                            assert(before.has(user));
                        }
                        assert forall|user: Seq<char>| #[trigger] target.contains_key(user) implies
                            self@.contains_key(user) && self@[user] == target[user] by {
                            if user == user_id@ {
                                self.lemma_entry(i as int);
                            } else {
                                assert(before.has(user));
                                let k = before.position(user);
                                assert(self.entries[k].user_id@ == user);
                                before.lemma_entry(k);
                                self.lemma_entry(k);
                            }
                        }
                        assert(self@ =~= target);
                    }
                    Ok(())
                }
            },
        }
    }
}

} // verus!
