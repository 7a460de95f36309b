use crate::error::ApiError;
use crate::keyed::{keyed, lemma_keyed_entries, lemma_keyed_push, lemma_keyed_remove};
use crate::model::PendingConnection;
use vstd::prelude::*;

verus! {

/// The registrations that wait for their verification, each under its
/// connection token.
pub struct PendingStore {
    pub entries: Vec<PendingConnection>,
}

/// The tokens of a sequence of registrations, in order.
pub open spec fn pending_tokens_of(entries: Seq<PendingConnection>) -> Seq<Seq<char>> {
    Seq::new(entries.len(), |i: int| entries[i].connection_token@)
}

impl View for PendingStore {
    type V = Map<Seq<char>, PendingConnection>;

    /// The store as a map from connection token to registration.
    open spec fn view(&self) -> Map<Seq<char>, PendingConnection> {
        keyed(self.tokens(), self.entries@)
    }
}

impl PendingStore {
    pub open spec fn tokens(&self) -> Seq<Seq<char>> {
        pending_tokens_of(self.entries@)
    }

    /// No token stands for two registrations.
    pub open spec fn wf(&self) -> bool {
        self.tokens().no_duplicates()
    }

    pub fn new() -> (store: PendingStore)
        ensures
            store.wf(),
            store@ == Map::<Seq<char>, PendingConnection>::empty(),
    {
        let store = PendingStore { entries: Vec::new() };
        assert(store@ =~= Map::<Seq<char>, PendingConnection>::empty());
        store
    }

    pub fn len(&self) -> (n: usize)
        ensures
            n == self.entries@.len(),
    {
        self.entries.len()
    }

    fn position(&self, token: &String) -> (found: Option<usize>)
        requires
            self.wf(),
        ensures
            match found {
                Some(i) => i < self.entries@.len() && self.entries@[i as int].connection_token@
                    == token@ && self@.dom().contains(token@) && self@[token@]
                    == self.entries@[i as int],
                None => !self@.dom().contains(token@),
            },
    {
        let mut i: usize = 0;
        while i < self.entries.len()
            invariant
                self.wf(),
                i <= self.entries@.len(),
                forall|j: int| 0 <= j < i ==> self.tokens()[j] != token@,
            decreases self.entries@.len() - i,
        {
            if self.entries[i].connection_token == *token {
                proof {
                    lemma_keyed_entries(self.tokens(), self.entries@);
                    assert(self.tokens()[i as int] == token@);
                }
                return Some(i);
            }
            i += 1;
        }
        proof {
            lemma_keyed_entries(self.tokens(), self.entries@);
        }
        None
    }

    pub fn contains(&self, token: &String) -> (present: bool)
        requires
            self.wf(),
        ensures
            present == self@.dom().contains(token@),
    {
        self.position(token).is_some()
    }

    /// Stores `entry` under its own token. A token that is already pending
    /// is refused, and the store stays as it was.
    pub fn put(&mut self, entry: PendingConnection) -> (result: Result<(), ApiError>)
        requires
            old(self).wf(),
        ensures
            final(self).wf(),
            old(self)@.dom().contains(entry.connection_token@) ==> result == Err::<(), ApiError>(
                ApiError::InternalError,
            ) && final(self).entries@ == old(self).entries@,
            !old(self)@.dom().contains(entry.connection_token@) ==> result == Ok::<(), ApiError>(
                (),
            ) && final(self)@ == old(self)@.insert(entry.connection_token@, entry),
    {
        match self.position(&entry.connection_token) {
            Some(_) => Err(ApiError::InternalError),
            None => {
                proof {
                    lemma_keyed_entries(self.tokens(), self.entries@);
                    lemma_keyed_push(self.tokens(), self.entries@, entry.connection_token@, entry);
                    assert(pending_tokens_of(self.entries@.push(entry)) =~= self.tokens().push(
                        entry.connection_token@,
                    ));
                }
                self.entries.push(entry);
                Ok(())
            },
        }
    }

    /// Removes and returns the registration under `token`, if there is one:
    /// a registration can be taken once.
    pub fn take(&mut self, token: &String) -> (taken: Option<PendingConnection>)
        requires
            old(self).wf(),
        ensures
            final(self).wf(),
            final(self)@ == old(self)@.remove(token@),
            taken == (if old(self)@.dom().contains(token@) {
                Some(old(self)@[token@])
            } else {
                None
            }),
            taken.is_some() ==> taken.unwrap().connection_token@ == token@,
    {
        match self.position(token) {
            Some(i) => {
                proof {
                    lemma_keyed_remove(self.tokens(), self.entries@, i as int);
                    assert(pending_tokens_of(self.entries@.remove(i as int))
                        =~= self.tokens().remove(i as int));
                }
                Some(self.entries.remove(i))
            },
            None => {
                assert(self@.remove(token@) =~= self@);
                None
            },
        }
    }
}

} // verus!
