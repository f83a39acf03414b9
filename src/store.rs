//! The persisted root: every configured user and the queue of pending writes.
pub mod operations;
pub mod user;

use vstd::prelude::*;

use crate::account::AccountKey;
use crate::search::{first_index, is_first_index, lemma_first_index_is, lemma_first_index_none};
use self::operations::{AccountPair, Operation};
use self::user::{dst_position, Destination, DestinationStatus, Source, User};

verus! {

#[derive(Clone, Debug, Default)]
pub struct Store {
    pub users: Vec<User>,
    pub operations: Vec<Operation>,
}

pub open spec fn is_user_of(key: AccountKey) -> spec_fn(User) -> bool {
    |u: User| u.src.key().same(key)
}

/// The position of the user whose source account is named by `key`.
pub open spec fn user_position(users: Seq<User>, key: AccountKey) -> Option<int> {
    first_index(users, is_user_of(key))
}

/// `new` is `old` with `status` prepended to the mapping of the destination named by
/// `account_pair`, the user and the destination created at the end when missing.
pub open spec fn row_added(
    old: Seq<User>,
    new: Seq<User>,
    account_pair: AccountPair,
    status: DestinationStatus,
) -> bool {
    let src = account_pair.src_key();
    let dst = account_pair.dst_key();
    let ui = match user_position(old, src) {
        Some(i) => i,
        None => old.len() as int,
    };
    let old_dsts = match user_position(old, src) {
        Some(i) => old[i].dsts@,
        None => Seq::<Destination>::empty(),
    };
    let di = match dst_position(old_dsts, dst) {
        Some(j) => j,
        None => old_dsts.len() as int,
    };
    let old_rows = match dst_position(old_dsts, dst) {
        Some(j) => old_dsts[j].statuses@,
        None => Seq::<DestinationStatus>::empty(),
    };
    let u = new[ui];
    &&& new.len() == (if ui < old.len() {
        old.len()
    } else {
        old.len() + 1
    })
    &&& forall|k: int| 0 <= k < old.len() && k != ui ==> new[k] == old[k]
    &&& u.src.key().same(src)
    &&& ui < old.len() ==> u.src == old[ui].src
    &&& ui == old.len() ==> u.src.statuses@.len() == 0
    &&& u.dsts@.len() == (if di < old_dsts.len() {
        old_dsts.len()
    } else {
        old_dsts.len() + 1
    })
    &&& forall|k: int| 0 <= k < old_dsts.len() && k != di ==> u.dsts@[k] == old_dsts[k]
    &&& u.dsts@[di].key().same(dst)
    &&& u.dsts@[di].statuses@ == seq![status] + old_rows
}

/// `new` is `old` in which the destination named by `account_pair` (created at the end, with
/// its user, when missing) now holds `d`, and `d0` is what it held before.
pub open spec fn dst_replaced(
    old: Seq<User>,
    new: Seq<User>,
    account_pair: AccountPair,
    d0: Destination,
    d: Destination,
) -> bool {
    let src = account_pair.src_key();
    let dst = account_pair.dst_key();
    let ui = match user_position(old, src) {
        Some(i) => i,
        None => old.len() as int,
    };
    let old_dsts = match user_position(old, src) {
        Some(i) => old[i].dsts@,
        None => Seq::<Destination>::empty(),
    };
    let di = match dst_position(old_dsts, dst) {
        Some(j) => j,
        None => old_dsts.len() as int,
    };
    let u = new[ui];
    &&& new.len() == (if ui < old.len() {
        old.len()
    } else {
        old.len() + 1
    })
    &&& forall|k: int| 0 <= k < old.len() && k != ui ==> new[k] == old[k]
    &&& u.src.key().same(src)
    &&& ui < old.len() ==> u.src == old[ui].src
    &&& ui == old.len() ==> u.src.statuses@.len() == 0
    &&& u.dsts@.len() == (if di < old_dsts.len() {
        old_dsts.len()
    } else {
        old_dsts.len() + 1
    })
    &&& forall|k: int| 0 <= k < old_dsts.len() && k != di ==> u.dsts@[k] == old_dsts[k]
    &&& u.dsts@[di] == d
    &&& if di < old_dsts.len() {
        d0 == old_dsts[di]
    } else {
        d0.key().same(dst) && d0.statuses@.len() == 0
    }
}

impl Store {
    pub fn new() -> (r: Store)
        ensures
            r.users@.len() == 0,
            r.operations@.len() == 0,
    {
        Store { users: Vec::new(), operations: Vec::new() }
    }

    pub fn get_or_create_user(&mut self, account_key: &AccountKey) -> (r: &mut User)
        ensures
            final(self).operations == old(self).operations,
            match user_position(old(self).users@, *account_key) {
                Some(i) => *r == old(self).users@[i] && final(self).users@ == old(
                    self,
                ).users@.update(i, *final(r)),
                None => (*r).src.key() == *account_key && (*r).src.statuses@.len() == 0
                    && (*r).dsts@.len() == 0 && final(self).users@ == old(self).users@.push(
                    *final(r),
                ),
            },
    {
        let mut i: usize = 0;
        while i < self.users.len()
            invariant
                *self == *old(self),
                i <= self.users@.len(),
                forall|j: int| 0 <= j < i ==> !is_user_of(*account_key)(self.users@[j]),
            decreases self.users@.len() - i,
        {
            let found = self.users[i].src.origin == account_key.origin
                && self.users[i].src.identifier == account_key.identifier;
            if found {
                proof {
                    assert(is_first_index(self.users@, is_user_of(*account_key), i as int));
                    lemma_first_index_is(self.users@, is_user_of(*account_key), i as int);
                }
                return &mut self.users[i];
            }
            i += 1;
        }
        proof {
            lemma_first_index_none(self.users@, is_user_of(*account_key));
        }
        self.users.push(
            User {
                src: Source {
                    origin: account_key.origin.clone(),
                    identifier: account_key.identifier.clone(),
                    statuses: Vec::new(),
                },
                dsts: Vec::new(),
            },
        );
        let n = self.users.len() - 1;
        &mut self.users[n]
    }

    /// The destination named by `account_pair`, created with its user when missing.
    pub fn get_or_create_dst(&mut self, account_pair: &AccountPair) -> (r: &mut Destination)
        ensures
            final(self).operations == old(self).operations,
            dst_replaced(old(self).users@, final(self).users@, *account_pair, *r, *final(r)),
    {
        let src = account_pair.to_src_key();
        let dst = account_pair.to_dst_key();
        let user = self.get_or_create_user(&src);
        user.get_or_create_dst_mut(&dst)
    }

    /// Prepends `status` to the mapping of the destination named by `account_pair`,
    /// creating the user and the destination when they are missing.
    pub fn add_destination_status(&mut self, account_pair: &AccountPair, status: DestinationStatus)
        ensures
            final(self).operations == old(self).operations,
            row_added(old(self).users@, final(self).users@, *account_pair, status),
    {
        let src = account_pair.to_src_key();
        let dst = account_pair.to_dst_key();
        let user = self.get_or_create_user(&src);
        let d = user.get_or_create_dst_mut(&dst);
        let ghost before = d.statuses@;
        d.statuses.insert(0, status);
        assert(d.statuses@ =~= seq![status] + before);
    }
}

} // verus!
