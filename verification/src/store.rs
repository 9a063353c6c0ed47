use vstd::prelude::*;

use crate::account::AccountId;

verus! {

/// The messages currently held, looked up by holder: at most one text per
/// identity.
///
/// Its view is the finite map from each holder to their text.
pub struct RecordStore {
    keys: Vec<AccountId>,
    texts: Vec<String>,
}

impl View for RecordStore {
    type V = Map<AccountId, Seq<char>>;

    closed spec fn view(&self) -> Map<AccountId, Seq<char>> {
        Map::new(
            |id: AccountId| self.keys@.contains(id),
            |id: AccountId| self.texts@[self.keys@.index_of(id)]@,
        )
    }
}

impl RecordStore {
    /// The representation is sound: one text per key, and no key twice.
    pub closed spec fn wf(&self) -> bool {
        &&& self.keys@.len() == self.texts@.len()
        &&& self.keys@.no_duplicates()
    }

    /// In a sound store the key in slot `i` maps to the text in slot `i`.
    proof fn lemma_slot(&self, i: int)
        requires
            self.wf(),
            0 <= i < self.keys@.len(),
        ensures
            self@.contains_key(self.keys@[i]),
            self@[self.keys@[i]] == self.texts@[i]@,
    {
        let id = self.keys@[i];
        assert(self.keys@.contains(id));
        assert(self.keys@.index_of(id) == i);
    }

    /// A store that holds nothing.
    pub fn new() -> (store: Self)
        ensures
            store.wf(),
            store@ == Map::<AccountId, Seq<char>>::empty(),
    {
        let store = RecordStore { keys: Vec::new(), texts: Vec::new() };
        assert(store@ =~= Map::<AccountId, Seq<char>>::empty());
        store
    }

    /// The slot that holds `id`, if one does.
    fn slot_of(&self, id: AccountId) -> (slot: Option<usize>)
        requires
            self.wf(),
        ensures
            match slot {
                Some(i) => i < self.keys@.len() && self.keys@[i as int] == id,
                None => !self.keys@.contains(id),
            },
    {
        let mut i: usize = 0;
        while i < self.keys.len()
            invariant
                i <= self.keys@.len(),
                forall|j: int| 0 <= j < i ==> self.keys@[j] != id,
            decreases self.keys@.len() - i,
        {
            if self.keys[i] == id {
                return Some(i);
            }
            i += 1;
        }
        None
    }

    /// Whether `id` holds a message.
    pub fn contains(&self, id: AccountId) -> (held: bool)
        requires
            self.wf(),
        ensures
            held == self@.contains_key(id),
    {
        self.slot_of(id).is_some()
    }

    /// A copy of the text that `id` holds, if they hold one.
    pub fn get(&self, id: AccountId) -> (text: Option<String>)
        requires
            self.wf(),
        ensures
            match text {
                Some(t) => self@.contains_key(id) && t@ == self@[id],
                None => !self@.contains_key(id),
            },
    {
        match self.slot_of(id) {
            Some(i) => {
                proof {
                    self.lemma_slot(i as int);
                }
                Some(self.texts[i].clone())
            },
            None => None,
        }
    }

    /// Stores `text` for `id`, in place of any text that `id` held.
    pub fn insert(&mut self, id: AccountId, text: String)
        requires
            old(self).wf(),
        ensures
            final(self).wf(),
            final(self)@ == old(self)@.insert(id, text@),
    {
        match self.slot_of(id) {
            Some(i) => {
                self.texts.set(i, text);
                proof {
                    assert forall|k: AccountId| self.keys@.contains(k) implies #[trigger] self@[k]
                        == old(self)@.insert(id, text@)[k] by {
                        let j = self.keys@.index_of(k);
                        old(self).lemma_slot(j);
                        self.lemma_slot(j);
                    }
                    assert(self@ =~= old(self)@.insert(id, text@));
                }
            },
            None => {
                self.keys.push(id);
                self.texts.push(text);
                proof {
                    let n = old(self).keys@.len() as int;
                    assert(self.keys@[n] == id);
                    assert forall|k: AccountId| self.keys@.contains(k) implies old(self)@.insert(
                        id,
                        text@,
                    ).contains_key(k) && #[trigger] self@[k] == old(self)@.insert(id, text@)[k] by {
                        let j = self.keys@.index_of(k);
                        self.lemma_slot(j);
                        if j < n {
                            assert(old(self).keys@[j] == k);
                            old(self).lemma_slot(j);
                        }
                    }
                    assert forall|k: AccountId|
                        old(self)@.insert(id, text@).contains_key(k) implies self.keys@.contains(
                        k,
                    ) by {
                        if k == id {
                            assert(self.keys@[n] == k);
                        } else {
                            let j = old(self).keys@.index_of(k);
                            assert(self.keys@[j] == k);
                        }
                    }
                    assert(self@ =~= old(self)@.insert(id, text@));
                }
            },
        }
    }

    /// Drops the message that `id` holds; a store in which `id` holds none
    /// stays as it is.
    pub fn remove(&mut self, id: AccountId)
        requires
            old(self).wf(),
        ensures
            final(self).wf(),
            final(self)@ == old(self)@.remove(id),
    {
        match self.slot_of(id) {
            Some(i) => {
                self.keys.remove(i);
                self.texts.remove(i);
                proof {
                    let gone = i as int;
                    assert forall|k: AccountId| self.keys@.contains(k) implies old(
                        self,
                    )@.remove(id).contains_key(k) && #[trigger] self@[k] == old(self)@.remove(
                        id,
                    )[k] by {
                        let j = self.keys@.index_of(k);
                        self.lemma_slot(j);
                        if j < gone {
                            assert(old(self).keys@[j] == k);
                            old(self).lemma_slot(j);
                        } else {
                            assert(old(self).keys@[j + 1] == k);
                            old(self).lemma_slot(j + 1);
                        }
                    }
                    assert forall|k: AccountId|
                        old(self)@.remove(id).contains_key(k) implies self.keys@.contains(k) by {
                        let j = old(self).keys@.index_of(k);
                        if j < gone {
                            assert(self.keys@[j] == k);
                        } else {
                            assert(self.keys@[j - 1] == k);
                        }
                    }
                    assert(self@ =~= old(self)@.remove(id));
                }
            },
            None => {
                assert(self@ =~= old(self)@.remove(id));
            },
        }
    }
}

} // verus!
