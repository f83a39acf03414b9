//! The stored view of each source account and the identifier mapping of its destinations.
use vstd::prelude::*;

use crate::account::AccountKey;
use crate::search::{first_index, is_first_index, lemma_first_index_is, lemma_first_index_none};

verus! {

/// The stored view of a post. `created_at` is in microseconds since the Unix epoch.
#[derive(Clone, Debug)]
pub struct SourcePost {
    pub identifier: String,
    pub content: String,
    pub created_at: i64,
}

/// The stored view of a repost. `created_at` is in microseconds since the Unix epoch.
#[derive(Clone, Debug)]
pub struct SourceRepost {
    pub identifier: String,
    pub target_identifier: String,
    pub created_at: i64,
}

/// One item authored on the source, as the last fetch saw it.
#[derive(Clone, Debug)]
pub enum SourceStatus {
    Post(SourcePost),
    Repost(SourceRepost),
}

impl SourceStatus {
    pub open spec fn created(self) -> i64 {
        match self {
            SourceStatus::Post(p) => p.created_at,
            SourceStatus::Repost(r) => r.created_at,
        }
    }

    pub fn created_at(&self) -> (r: &i64)
        ensures
            *r == self.created(),
    {
        match self {
            SourceStatus::Post(p) => &p.created_at,
            SourceStatus::Repost(r) => &r.created_at,
        }
    }
}

/// A source account and the view of its timeline.
#[derive(Clone, Debug)]
pub struct Source {
    pub origin: String,
    pub identifier: String,
    pub statuses: Vec<SourceStatus>,
}

impl Source {
    pub open spec fn key(self) -> AccountKey {
        AccountKey { origin: self.origin, identifier: self.identifier }
    }
}

/// A destination identifier and the source identifier it mirrors.
#[derive(Clone, Debug)]
pub struct IdentifierPair {
    pub identifier: String,
    pub src_identifier: String,
}

/// One row of the identifier mapping of a destination account.
#[derive(Clone, Debug)]
pub enum DestinationStatus {
    Post(IdentifierPair),
    Repost(IdentifierPair),
}

impl DestinationStatus {
    pub open spec fn ids(self) -> IdentifierPair {
        match self {
            DestinationStatus::Post(p) => p,
            DestinationStatus::Repost(p) => p,
        }
    }
}

/// A destination account and its identifier mapping, newest rows first.
#[derive(Clone, Debug)]
pub struct Destination {
    pub origin: String,
    pub identifier: String,
    pub statuses: Vec<DestinationStatus>,
}

impl Destination {
    pub open spec fn key(self) -> AccountKey {
        AccountKey { origin: self.origin, identifier: self.identifier }
    }
}

/// One configured source account with its destinations.
#[derive(Clone, Debug)]
pub struct User {
    pub src: Source,
    pub dsts: Vec<Destination>,
}

pub open spec fn is_dst_of(key: AccountKey) -> spec_fn(Destination) -> bool {
    |d: Destination| d.key().same(key)
}

/// The position of the destination named by `key`.
pub open spec fn dst_position(dsts: Seq<Destination>, key: AccountKey) -> Option<int> {
    first_index(dsts, is_dst_of(key))
}

impl User {
    pub fn get_or_create_dst_mut(&mut self, account_key: &AccountKey) -> (r: &mut Destination)
        ensures
            final(self).src == old(self).src,
            match dst_position(old(self).dsts@, *account_key) {
                Some(i) => *r == old(self).dsts@[i] && final(self).dsts@ == old(
                    self,
                ).dsts@.update(i, *final(r)),
                None => (*r).key() == *account_key && (*r).statuses@.len() == 0 && final(self).dsts@
                    == old(self).dsts@.push(*final(r)),
            },
    {
        
        let mut i: usize = 0;
        while i < self.dsts.len()
            invariant
                *self == *old(self),
                i <= self.dsts@.len(),
                forall|j: int| 0 <= j < i ==> !is_dst_of(*account_key)(self.dsts@[j]),
            decreases self.dsts@.len() - i,
        {
            let found = self.dsts[i].origin == account_key.origin && self.dsts[i].identifier
                == account_key.identifier;
            assert(found == is_dst_of(*account_key)(self.dsts@[i as int]));
            if found {
                proof {
                    assert(is_first_index(self.dsts@, is_dst_of(*account_key), i as int));
                    lemma_first_index_is(self.dsts@, is_dst_of(*account_key), i as int);
                }
                return &mut self.dsts[i];
            }
            i += 1;
        }
        proof {
            lemma_first_index_none(self.dsts@, is_dst_of(*account_key));
        }
        self.dsts.push(
            Destination {
                origin: account_key.origin.clone(),
                identifier: account_key.identifier.clone(),
                statuses: Vec::new(),
            },
        );
        let n = self.dsts.len() - 1;
        &mut self.dsts[n]
    }
}

} // verus!
