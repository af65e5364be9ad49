//! The keyed store that the commands read and write.

use crate::bytes::same_bytes;
use vstd::prelude::*;

verus! {

/// What a slot of the store holds.
#[derive(Debug, PartialEq, Eq)]
pub enum Value {
    /// A slot that was created and not written yet. The store never shows
    /// such a slot to a reader.
    Nil,
    Integer(i64),
    Data(Vec<u8>),
}

/// What a key of the store maps to: a [`Value`] other than `Nil`.
pub enum Content {
    Integer(int),
    Data(Seq<u8>),
}

/// The mathematical content of a [`Database`].
pub type Store = Map<Seq<u8>, Content>;

impl View for Value {
    type V = Option<Content>;

    open spec fn view(&self) -> Option<Content> {
        match self {
            Value::Nil => None,
            Value::Integer(number) => Some(Content::Integer(*number as int)),
            Value::Data(bytes) => Some(Content::Data(bytes@)),
        }
    }
}

impl Value {
    /// Replaces whatever the slot held by `payload`.
    pub fn set(&mut self, payload: Vec<u8>)
        ensures
            *final(self) == Value::Data(payload),
    {
        *self = Value::Data(payload);
    }
}

/// What `store` holds under `key`, if anything.
pub open spec fn lookup(store: Store, key: Seq<u8>) -> Option<Content> {
    if store.contains_key(key) {
        Some(store[key])
    } else {
        None
    }
}

/// `store` after the slot of `key` was left holding `slot`: an unwritten slot
/// is no entry.
pub open spec fn with_slot(store: Store, key: Seq<u8>, slot: Option<Content>) -> Store {
    match slot {
        Some(content) => store.insert(key, content),
        None => store.remove(key),
    }
}

/// A store of values under byte-string keys. Slot `i` is `keys[i]` with
/// `values[i]`; no key has two slots. A key is found by comparing it with
/// each in turn.
pub struct Database {
    keys: Vec<Vec<u8>>,
    values: Vec<Value>,
}

impl View for Database {
    type V = Store;

    closed spec fn view(&self) -> Store {
        Map::new(
            |key: Seq<u8>| self.written(key),
            |key: Seq<u8>| self.values@[self.slot_of(key)]@->0,
        )
    }
}

impl Database {
    #[verifier::type_invariant]
    spec fn well_formed(self) -> bool {
        &&& self.keys@.len() == self.values@.len()
        &&& forall|i: int, j: int|
            0 <= i < j < self.keys@.len() ==> self.keys@[i]@ != self.keys@[j]@
    }

    spec fn is_slot_of(self, i: int, key: Seq<u8>) -> bool {
        0 <= i < self.keys@.len() && self.keys@[i]@ == key
    }

    spec fn slot_of(self, key: Seq<u8>) -> int {
        choose|i: int| self.is_slot_of(i, key)
    }

    spec fn written(self, key: Seq<u8>) -> bool {
        exists|i: int| self.is_slot_of(i, key) && self.values@[i]@ is Some
    }

    proof fn lemma_slot(self, i: int)
        requires
            self.well_formed(),
            0 <= i < self.keys@.len(),
        ensures
            self.slot_of(self.keys@[i]@) == i,
            self.written(self.keys@[i]@) == (self.values@[i]@ is Some),
            lookup(self@, self.keys@[i]@) == self.values@[i]@,
    {
        let key = self.keys@[i]@;
        assert(self.is_slot_of(i, key));
        let j = self.slot_of(key);
        assert(self.is_slot_of(j, key));
        assert(j == i);
    }

    proof fn lemma_no_slot(self, key: Seq<u8>)
        requires
            forall|i: int| 0 <= i < self.keys@.len() ==> self.keys@[i]@ != key,
        ensures
            !self@.contains_key(key),
    {
    }

    /// The empty store.
    pub fn new() -> (db: Database)
        ensures
            db@ == Map::<Seq<u8>, Content>::empty(),
    {
        let db = Database { keys: Vec::new(), values: Vec::new() };
        assert(db@ =~= Map::<Seq<u8>, Content>::empty());
        db
    }

    fn find(&self, key: &Vec<u8>) -> (at: Option<usize>)
        ensures
            match at {
                Some(i) => self.is_slot_of(i as int, key@),
                None => forall|i: int| 0 <= i < self.keys@.len() ==> self.keys@[i]@ != key@,
            },
    {
        let mut i: usize = 0;
        while i < self.keys.len()
            invariant
                i <= self.keys@.len(),
                forall|j: int| 0 <= j < i ==> self.keys@[j]@ != key@,
            decreases self.keys@.len() - i,
        {
            if same_bytes(self.keys[i].as_slice(), key.as_slice()) {
                return Some(i);
            }
            i += 1;
        }
        None
    }

    /// The value under `key`, if the store holds one.
    pub fn get(&self, key: &Vec<u8>) -> (found: Option<&Value>)
        ensures
            match found {
                Some(value) => value@ is Some && value@ == lookup(self@, key@),
                None => !self@.contains_key(key@),
            },
    {
        proof {
            use_type_invariant(self);
        }
        match self.find(key) {
            Some(i) => {
                proof {
                    self.lemma_slot(i as int);
                }
                match &self.values[i] {
                    Value::Nil => None,
                    value => Some(value),
                }
            },
            None => {
                proof {
                    self.lemma_no_slot(key@);
                }
                None
            },
        }
    }

    /// The slot of `key`, for a writer to fill. Where the store has none
    /// under `key` the slot is a fresh one that holds [`Value::Nil`]; what the
    /// writer leaves in it is what the store holds under `key` afterwards.
    pub fn get_or_create(&mut self, key: &Vec<u8>) -> (slot: &mut Value)
        ensures
            slot@ == lookup(old(self)@, key@),
            final(self)@ == with_slot(old(self)@, key@, final(slot)@),
    {
        proof {
            use_type_invariant(&*self);
        }
        let at = match self.find(key) {
            Some(i) => i,
            None => {
                proof {
                    self.lemma_no_slot(key@);
                }
                self.add_slot(key)
            },
        };
        proof {
            use_type_invariant(&*self);
            self.lemma_slot(at as int);
            let before = *self;
            assert forall|after: Database|
                after.keys@ == before.keys@ && #[trigger] after.values@ == before.values@.update(
                    at as int,
                    after.values@[at as int],
                ) implies after@ == with_slot(before@, key@, after.values@[at as int]@) by {
                before.lemma_rewritten(after, at as int);
            }
        }
        &mut self.values[at]
    }

    proof fn lemma_rewritten(self, after: Database, at: int)
        requires
            self.well_formed(),
            0 <= at < self.keys@.len(),
            after.keys@ == self.keys@,
            after.values@ == self.values@.update(at, after.values@[at]),
        ensures
            after@ == with_slot(self@, self.keys@[at]@, after.values@[at]@),
    {
        let key = self.keys@[at]@;
        let expected = with_slot(self@, key, after.values@[at]@);
        assert forall|k: Seq<u8>| after@.contains_key(k) == expected.contains_key(k) by {
            if after.written(k) {
                let i = choose|i: int| after.is_slot_of(i, k) && after.values@[i]@ is Some;
                self.lemma_slot(i);
            }
            if self.written(k) {
                let i = choose|i: int| self.is_slot_of(i, k) && self.values@[i]@ is Some;
                self.lemma_slot(i);
                after.lemma_slot(i);
            }
            self.lemma_slot(at);
            after.lemma_slot(at);
        }
        assert forall|k: Seq<u8>| after@.contains_key(k) implies after@[k] == expected[k] by {
            let i = choose|i: int| after.is_slot_of(i, k) && after.values@[i]@ is Some;
            self.lemma_slot(i);
            after.lemma_slot(i);
        }
        assert(after@ =~= expected);
    }

    fn add_slot(&mut self, key: &Vec<u8>) -> (at: usize)
        requires
            forall|i: int| 0 <= i < old(self).keys@.len() ==> old(self).keys@[i]@ != key@,
        ensures
            at == old(self).keys@.len(),
            final(self).is_slot_of(at as int, key@),
            final(self).values@ == old(self).values@.push(Value::Nil),
            final(self)@ == old(self)@,
    {
        proof {
            use_type_invariant(&*self);
        }
        let ghost before = *self;
        // The two vectors grow together: the store is taken apart and put
        // together again, so that every store that exists is well formed.
        let mut taken = Database { keys: Vec::new(), values: Vec::new() };
        std::mem::swap(self, &mut taken);
        let Database { mut keys, mut values } = taken;
        let at = keys.len();
        keys.push(key.clone());
        values.push(Value::Nil);
        *self = Database { keys, values };
        proof {
            assert forall|k: Seq<u8>| self.written(k) == before.written(k) by {
                if self.written(k) {
                    let i = choose|i: int| self.is_slot_of(i, k) && self.values@[i]@ is Some;
                    assert(before.is_slot_of(i, k));
                }
                if before.written(k) {
                    let i = choose|i: int| before.is_slot_of(i, k) && before.values@[i]@ is Some;
                    assert(self.is_slot_of(i, k));
                }
            }
            assert forall|k: Seq<u8>| self.written(k) implies self.values@[self.slot_of(k)]@
                == before.values@[before.slot_of(k)]@ by {
                assert(before.written(k));
                let i = choose|i: int| before.is_slot_of(i, k) && before.values@[i]@ is Some;
                before.lemma_slot(i);
                self.lemma_slot(i);
            }
            assert(self@ =~= before@);
        }
        at
    }
}

} // verus!
