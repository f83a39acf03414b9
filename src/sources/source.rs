//! A freshly fetched source timeline and the operations read from it.
use vstd::prelude::*;

use crate::store::operations::{
    AccountPair, CreatePostOperation, CreatePostOperationStatus,
    CreateRepostOperation, CreateRepostOperationStatus, DeletePostOperation,
    DeletePostOperationStatus, DeleteRepostOperation, DeleteRepostOperationStatus, External, Facet,
    Medium, Operation as QueuedOperation, OperationStatusView, OperationView, UpdatePostOperation,
    UpdatePostOperationStatus,
};
use crate::account::AccountKey;
use crate::store::user::{DestinationStatus, SourcePost, SourceRepost, SourceStatus, User};
use crate::search::{is_first_index, lemma_first_index_is, lemma_first_index_some};
use crate::store::{is_user_of, user_position, Store};
use super::operation_factory::{create_operations, diff, lemma_diff_fixpoint, post_identifiers_distinct};

verus! {

/// What an adapter knows of a post's link card.
#[derive(Clone, Debug)]
pub enum LiveExternal {
    /// The source exposes this card.
    Known(External),
    /// The post has no card.
    Absent,
    /// The source does not expose cards: one is read from the first reachable link.
    Unknown,
}

/// A post as fetched. `created_at` is in microseconds since the Unix epoch.
#[derive(Clone, Debug)]
pub struct LivePost {
    pub identifier: String,
    pub uri: String,
    pub content: String,
    pub facets: Vec<Facet>,
    pub reply_src_identifier: Option<String>,
    pub media: Vec<Medium>,
    pub external: LiveExternal,
    pub created_at: i64,
}

/// One item of the source timeline as fetched.
#[derive(Clone, Debug)]
pub enum LiveStatus {
    Post(LivePost),
    Repost(CreateRepostOperationStatus),
}

impl LiveStatus {
    pub open spec fn created(self) -> i64 {
        match self {
            LiveStatus::Post(p) => p.created_at,
            LiveStatus::Repost(r) => r.created_at,
        }
    }

    pub fn created_at(&self) -> (r: &i64)
        ensures
            *r == self.created(),
    {
        match self {
            LiveStatus::Post(p) => &p.created_at,
            LiveStatus::Repost(r) => &r.created_at,
        }
    }
}

/// The stored form of a live item: only what the diff compares.
pub open spec fn normalized(live: LiveStatus) -> SourceStatus {
    match live {
        LiveStatus::Post(p) => SourceStatus::Post(
            SourcePost { identifier: p.identifier, content: p.content, created_at: p.created_at },
        ),
        LiveStatus::Repost(r) => SourceStatus::Repost(
            SourceRepost {
                identifier: r.src_identifier,
                target_identifier: r.target_src_identifier,
                created_at: r.created_at,
            },
        ),
    }
}

pub open spec fn normalized_all(live: Seq<LiveStatus>) -> Seq<SourceStatus> {
    live.map_values(|l: LiveStatus| normalized(l))
}

pub fn to_source_status(live: &LiveStatus) -> (r: SourceStatus)
    ensures
        r == normalized(*live),
{
    match live {
        LiveStatus::Post(p) => SourceStatus::Post(
            SourcePost {
                identifier: p.identifier.clone(),
                content: p.content.clone(),
                created_at: p.created_at,
            },
        ),
        LiveStatus::Repost(r) => SourceStatus::Repost(
            SourceRepost {
                identifier: r.src_identifier.clone(),
                target_identifier: r.target_src_identifier.clone(),
                created_at: r.created_at,
            },
        ),
    }
}

/// The stored view that replaces the previous one after a fetch.
pub fn to_source_statuses(live: &Vec<LiveStatus>) -> (r: Vec<SourceStatus>)
    ensures
        r@ == normalized_all(live@),
{
    let mut r: Vec<SourceStatus> = Vec::new();
    let mut i: usize = 0;
    while i < live.len()
        invariant
            i <= live@.len(),
            r@ == normalized_all(live@.take(i as int)),
        decreases live@.len() - i,
    {
        r.push(to_source_status(&live[i]));
        i += 1;
        assert(r@ =~= normalized_all(live@.take(i as int)));
    }
    assert(live@.take(i as int) =~= live@);
    r
}

/// An operation read from the source timeline, not yet addressed to a destination.
#[derive(Clone, Debug)]
pub enum Operation {
    CreatePost(CreatePostOperationStatus),
    CreateRepost(CreateRepostOperationStatus),
    UpdatePost(UpdatePostOperationStatus),
    DeletePost(DeletePostOperationStatus),
    DeleteRepost(DeleteRepostOperationStatus),
}

impl View for Operation {
    type V = OperationStatusView;

    open spec fn view(&self) -> OperationStatusView {
        match self {
            Operation::CreatePost(s) => OperationStatusView::CreatePost(s@),
            Operation::CreateRepost(s) => OperationStatusView::CreateRepost(*s),
            Operation::UpdatePost(s) => OperationStatusView::UpdatePost(s@),
            Operation::DeletePost(s) => OperationStatusView::DeletePost(*s),
            Operation::DeleteRepost(s) => OperationStatusView::DeleteRepost(*s),
        }
    }
}

pub open spec fn source_ops_view(ops: Seq<Operation>) -> Seq<OperationStatusView> {
    ops.map_values(|o: Operation| o@)
}

pub proof fn lemma_source_ops_view_push(ops: Seq<Operation>, o: Operation)
    ensures
        source_ops_view(ops.push(o)) == source_ops_view(ops).push(o@),
{
    assert(source_ops_view(ops.push(o)) =~= source_ops_view(ops).push(o@));
}

impl Operation {
    /// The queued form of this operation, addressed to `account_pair`.
    pub fn to_store(&self, account_pair: AccountPair) -> (r: QueuedOperation)
        ensures
            r@ == (OperationView { account_pair, status: self@ }),
    {
        match self {
            Operation::CreatePost(s) => QueuedOperation::CreatePost(
                CreatePostOperation { account_pair, status: s.duplicate() },
            ),
            Operation::CreateRepost(s) => QueuedOperation::CreateRepost(
                CreateRepostOperation { account_pair, status: s.duplicate() },
            ),
            Operation::UpdatePost(s) => QueuedOperation::UpdatePost(
                UpdatePostOperation { account_pair, status: s.duplicate() },
            ),
            Operation::DeletePost(s) => QueuedOperation::DeletePost(
                DeletePostOperation {
                    account_pair,
                    status: DeletePostOperationStatus { src_identifier: s.src_identifier.clone() },
                },
            ),
            Operation::DeleteRepost(s) => QueuedOperation::DeleteRepost(
                DeleteRepostOperation {
                    account_pair,
                    status: DeleteRepostOperationStatus { src_identifier: s.src_identifier.clone() },
                },
            ),
        }
    }
}

/// The stored view of the source `src`: empty when the store has no such user yet.
pub open spec fn stored_view(users: Seq<User>, src: AccountKey) -> Seq<SourceStatus> {
    match user_position(users, src) {
        Some(i) => users[i].src.statuses@,
        None => Seq::empty(),
    }
}

pub open spec fn has_queued_from(operations: Seq<QueuedOperation>, src: AccountKey) -> bool {
    exists|k: int| 0 <= k < operations.len() && (#[trigger] operations[k])@.account_pair.src_key().same(src)
}

/// What a run does after the fetch of one source account.
pub struct FetchOutcome {
    /// The operations diffed from the fetch, to be merged for every destination.
    pub operations: Vec<Operation>,
    /// The destination adapters are needed: there are operations to merge, or operations of
    /// this source are queued.
    pub needs_destinations: bool,
    /// The store must be committed: the source had no stored view, or there are operations.
    pub needs_commit: bool,
}

/// Records a fetch of the source `src_account_key`: diffs `live_statuses` against the stored
/// view, replaces the stored view with the normalized fetch, and says what the run must do
/// next. `cards` are the link cards read for the live items, as for
/// [`create_operations`].
pub fn record_fetch(
    store: &mut Store,
    src_account_key: &AccountKey,
    live_statuses: &Vec<LiveStatus>,
    cards: &Vec<Option<External>>,
) -> (r: FetchOutcome)
    ensures
        source_ops_view(r.operations@) == diff(
            live_statuses@,
            stored_view(old(store).users@, *src_account_key),
            cards@,
        ),
        r.needs_destinations == (r.operations@.len() > 0 || has_queued_from(
            old(store).operations@,
            *src_account_key,
        )),
        r.needs_commit == (stored_view(old(store).users@, *src_account_key).len() == 0
            || r.operations@.len() > 0),
        stored_view(final(store).users@, *src_account_key) == normalized_all(live_statuses@),
        final(store).operations == old(store).operations,
        match user_position(old(store).users@, *src_account_key) {
            Some(i) => final(store).users@.len() == old(store).users@.len() && (forall|k: int|
                0 <= k < old(store).users@.len() && k != i ==> final(store).users@[k] == old(
                    store,
                ).users@[k]) && final(store).users@[i].dsts == old(store).users@[i].dsts
                && final(store).users@[i].src.origin == old(store).users@[i].src.origin
                && final(store).users@[i].src.identifier == old(store).users@[i].src.identifier,
            None => final(store).users@.len() == old(store).users@.len() + 1 && (forall|k: int|
                0 <= k < old(store).users@.len() ==> final(store).users@[k] == old(
                    store,
                ).users@[k]) && final(store).users@.last().src.key() == *src_account_key
                && final(store).users@.last().dsts@.len() == 0,
        },
{
    let has_queued = has_users_operations(&store.operations, src_account_key);
    proof {
        lemma_first_index_some(store.users@, is_user_of(*src_account_key));
    }
    let ghost old_users = store.users@;
    let user = store.get_or_create_user(src_account_key);
    let initialize = user.src.statuses.len() == 0;
    let operations = create_operations(live_statuses, &user.src.statuses, cards);
    user.src.statuses = to_source_statuses(live_statuses);
    proof {
        let users = store.users@;
        let i = match user_position(old_users, *src_account_key) {
            Some(i) => i,
            None => old_users.len() as int,
        };
        assert(is_first_index(users, is_user_of(*src_account_key), i)) by {
            assert forall|j: int| 0 <= j < i implies !is_user_of(*src_account_key)(users[j]) by {
                assert(users[j] == old_users[j]);
            }
        }
        lemma_first_index_is(users, is_user_of(*src_account_key), i);
    }
    FetchOutcome {
        needs_destinations: operations.len() > 0 || has_queued,
        needs_commit: initialize || operations.len() > 0,
        operations,
    }
}

/// Fetching the same timeline again finds nothing to do: once a fetch has stored its
/// normalized view, a fetch of the same timeline yields no operation, provided no two of its
/// posts share an identifier.
pub proof fn lemma_refetch_is_quiet(
    users: Seq<User>,
    src: AccountKey,
    live: Seq<LiveStatus>,
    cards: Seq<Option<External>>,
)
    requires
        stored_view(users, src) == normalized_all(live),
        post_identifiers_distinct(live),
    ensures
        diff(live, stored_view(users, src), cards) == Seq::<OperationStatusView>::empty(),
{
    lemma_diff_fixpoint(live, cards);
}

/// Whether any queued operation was read from the source `src_key`.
pub fn has_users_operations(operations: &Vec<QueuedOperation>, src_key: &AccountKey) -> (r: bool)
    ensures
        r == has_queued_from(operations@, *src_key),
{
    let mut i: usize = 0;
    while i < operations.len()
        invariant
            i <= operations@.len(),
            forall|k: int|
                0 <= k < i ==> !(#[trigger] operations@[k])@.account_pair.src_key().same(*src_key),
        decreases operations@.len() - i,
    {
        if operations[i].account_pair().to_src_key().same_as(src_key) {
            return true;
        }
        i += 1;
    }
    false
}

/// Every source status of every user, users in stored order.
pub open spec fn all_source_statuses(users: Seq<User>) -> Seq<SourceStatus>
    decreases users.len(),
{
    if users.len() == 0 {
        seq![]
    } else {
        all_source_statuses(users.drop_last()) + users.last().src.statuses@
    }
}

/// The post a source status refers to: a post itself, or the target of a repost.
pub open spec fn referenced_post(s: SourceStatus) -> Seq<char> {
    match s {
        SourceStatus::Post(p) => p.identifier@,
        SourceStatus::Repost(r) => r.target_identifier@,
    }
}

pub open spec fn referenced_posts(statuses: Seq<SourceStatus>) -> Seq<Seq<char>>
    decreases statuses.len(),
{
    if statuses.len() == 0 {
        seq![]
    } else {
        referenced_posts(statuses.drop_last()).push(referenced_post(statuses.last()))
    }
}

pub open spec fn referenced_reposts(statuses: Seq<SourceStatus>) -> Seq<Seq<char>>
    decreases statuses.len(),
{
    if statuses.len() == 0 {
        seq![]
    } else {
        let rest = referenced_reposts(statuses.drop_last());
        match statuses.last() {
            SourceStatus::Post(_) => rest,
            SourceStatus::Repost(r) => rest.push(r.identifier@),
        }
    }
}

pub open spec fn strings_view(v: Seq<String>) -> Seq<Seq<char>> {
    v.map_values(|s: String| s@)
}

pub proof fn lemma_strings_view_push(v: Seq<String>, s: String)
    ensures
        strings_view(v.push(s)) == strings_view(v).push(s@),
{
    assert(strings_view(v.push(s)) =~= strings_view(v).push(s@));
}

proof fn lemma_all_source_statuses_step(users: Seq<User>, i: int)
    requires
        0 <= i < users.len(),
    ensures
        all_source_statuses(users.take(i + 1)) == all_source_statuses(users.take(i))
            + users[i].src.statuses@,
{
    assert(users.take(i + 1).drop_last() =~= users.take(i));
}

/// The identifiers of every post that some source status refers to.
pub fn necessary_post_src_identifiers(users: &Vec<User>) -> (r: Vec<String>)
    ensures
        strings_view(r@) == referenced_posts(all_source_statuses(users@)),
{
    let mut r: Vec<String> = Vec::new();
    let mut i: usize = 0;
    while i < users.len()
        invariant
            i <= users@.len(),
            strings_view(r@) == referenced_posts(all_source_statuses(users@.take(i as int))),
        decreases users@.len() - i,
    {
        let statuses = &users[i].src.statuses;
        let ghost head = all_source_statuses(users@.take(i as int));
        let mut k: usize = 0;
        while k < statuses.len()
            invariant
                k <= statuses@.len(),
                strings_view(r@) == referenced_posts(head + statuses@.take(k as int)),
            decreases statuses@.len() - k,
        {
            let id = match &statuses[k] {
                SourceStatus::Post(p) => p.identifier.clone(),
                SourceStatus::Repost(q) => q.target_identifier.clone(),
            };
            proof {
                lemma_strings_view_push(r@, id);
                assert((head + statuses@.take(k + 1)).drop_last() =~= head + statuses@.take(
                    k as int,
                ));
            }
            r.push(id);
            k += 1;
        }
        proof {
            assert(statuses@.take(k as int) =~= statuses@);
            lemma_all_source_statuses_step(users@, i as int);
        }
        i += 1;
    }
    assert(users@.take(i as int) =~= users@);
    r
}

/// The identifiers of every repost among the source statuses.
pub fn necessary_repost_src_identifiers(users: &Vec<User>) -> (r: Vec<String>)
    ensures
        strings_view(r@) == referenced_reposts(all_source_statuses(users@)),
{
    let mut r: Vec<String> = Vec::new();
    let mut i: usize = 0;
    while i < users.len()
        invariant
            i <= users@.len(),
            strings_view(r@) == referenced_reposts(all_source_statuses(users@.take(i as int))),
        decreases users@.len() - i,
    {
        let statuses = &users[i].src.statuses;
        let ghost head = all_source_statuses(users@.take(i as int));
        let mut k: usize = 0;
        while k < statuses.len()
            invariant
                k <= statuses@.len(),
                strings_view(r@) == referenced_reposts(head + statuses@.take(k as int)),
            decreases statuses@.len() - k,
        {
            proof {
                assert((head + statuses@.take(k + 1)).drop_last() =~= head + statuses@.take(
                    k as int,
                ));
            }
            match &statuses[k] {
                SourceStatus::Post(_) => {},
                SourceStatus::Repost(q) => {
                    let id = q.identifier.clone();
                    proof {
                        lemma_strings_view_push(r@, id);
                    }
                    r.push(id);
                },
            }
            k += 1;
        }
        proof {
            assert(statuses@.take(k as int) =~= statuses@);
            lemma_all_source_statuses_step(users@, i as int);
        }
        i += 1;
    }
    assert(users@.take(i as int) =~= users@);
    r
}

fn contains_string(v: &Vec<String>, s: &String) -> (r: bool)
    ensures
        r == strings_view(v@).contains(s@),
{
    let mut i: usize = 0;
    while i < v.len()
        invariant
            i <= v@.len(),
            forall|j: int| 0 <= j < i ==> strings_view(v@)[j] != s@,
        decreases v@.len() - i,
    {
        if v[i] == *s {
            assert(strings_view(v@)[i as int] == s@);
            return true;
        }
        i += 1;
    }
    false
}

/// Whether a mapping row is still needed: a post row when some source status refers to its
/// post, a repost row when its repost is still a source status.
pub open spec fn row_is_needed(posts: Seq<Seq<char>>, reposts: Seq<Seq<char>>) -> spec_fn(
    DestinationStatus,
) -> bool {
    |row: DestinationStatus|
        match row {
            DestinationStatus::Post(p) => posts.contains(p.src_identifier@),
            DestinationStatus::Repost(p) => reposts.contains(p.src_identifier@),
        }
}

/// Prunes the identifier mapping: keeps each destination row whose source item is still
/// referenced by some user's source statuses, and says whether any row was removed.
pub fn retain_all_dst_statuses(store: &mut Store) -> (updated: bool)
    ensures
        ({
            let posts = referenced_posts(all_source_statuses(old(store).users@));
            let reposts = referenced_reposts(all_source_statuses(old(store).users@));
            &&& final(store).operations == old(store).operations
            &&& final(store).users@.len() == old(store).users@.len()
            &&& forall|u: int|
                0 <= u < old(store).users@.len() ==> {
                    let a = old(store).users@[u];
                    let b = #[trigger] final(store).users@[u];
                    &&& b.src == a.src
                    &&& b.dsts@.len() == a.dsts@.len()
                    &&& forall|d: int|
                        0 <= d < a.dsts@.len() ==> {
                            let x = a.dsts@[d];
                            let y = #[trigger] b.dsts@[d];
                            &&& y.origin == x.origin
                            &&& y.identifier == x.identifier
                            &&& y.statuses@ == x.statuses@.filter(row_is_needed(posts, reposts))
                        }
                }
            &&& forall|u: int, d: int, k: int|
                0 <= u < final(store).users@.len() && 0 <= d < final(store).users@[u].dsts@.len()
                    && 0 <= k < final(store).users@[u].dsts@[d].statuses@.len()
                    ==> row_is_needed(posts, reposts)(
                    #[trigger] final(store).users@[u].dsts@[d].statuses@[k],
                )
            &&& updated == exists|u: int, d: int|
                0 <= u < old(store).users@.len() && 0 <= d < old(store).users@[u].dsts@.len()
                    && (#[trigger] final(store).users@[u].dsts@[d]).statuses@.len()
                    != old(store).users@[u].dsts@[d].statuses@.len()
        }),
{
    let posts = necessary_post_src_identifiers(&store.users);
    let reposts = necessary_repost_src_identifiers(&store.users);
    let ghost ps = strings_view(posts@);
    let ghost rs = strings_view(reposts@);
    let ghost keep = row_is_needed(ps, rs);
    let mut updated = false;
    let mut users: Vec<User> = Vec::new();
    std::mem::swap(&mut users, &mut store.users);
    let ghost old_users = users@;
    let mut done: Vec<User> = Vec::new();
    while users.len() > 0
        invariant
            done@.len() + users@.len() == old_users.len(),
            users@ == old_users.skip(done@.len() as int),
            ps == strings_view(posts@),
            rs == strings_view(reposts@),
            keep == row_is_needed(ps, rs),
            store.operations == old(store).operations,
            forall|u: int|
                0 <= u < done@.len() ==> {
                    let a = old_users[u];
                    let b = #[trigger] done@[u];
                    &&& b.src == a.src
                    &&& b.dsts@.len() == a.dsts@.len()
                    &&& forall|d: int|
                        0 <= d < a.dsts@.len() ==> {
                            let x = a.dsts@[d];
                            let y = #[trigger] b.dsts@[d];
                            &&& y.origin == x.origin
                            &&& y.identifier == x.identifier
                            &&& y.statuses@ == x.statuses@.filter(keep)
                        }
                },
            updated == exists|u: int, d: int|
                0 <= u < done@.len() && 0 <= d < old_users[u].dsts@.len()
                    && (#[trigger] done@[u].dsts@[d]).statuses@.len()
                    != old_users[u].dsts@[d].statuses@.len(),
        decreases users@.len(),
    {
        let ghost n = done@.len() as int;
        let mut user = users.remove(0);
        assert(user == old_users[n]);
        let ghost user0 = user;
        let mut dsts: Vec<crate::store::user::Destination> = Vec::new();
        std::mem::swap(&mut dsts, &mut user.dsts);
        let mut new_dsts: Vec<crate::store::user::Destination> = Vec::new();
        let mut changed = false;
        while dsts.len() > 0
            invariant
                new_dsts@.len() + dsts@.len() == user0.dsts@.len(),
                dsts@ == user0.dsts@.skip(new_dsts@.len() as int),
                keep == row_is_needed(ps, rs),
                ps == strings_view(posts@),
                rs == strings_view(reposts@),
                forall|d: int|
                    0 <= d < new_dsts@.len() ==> {
                        let x = user0.dsts@[d];
                        let y = #[trigger] new_dsts@[d];
                        &&& y.origin == x.origin
                        &&& y.identifier == x.identifier
                        &&& y.statuses@ == x.statuses@.filter(keep)
                    },
                changed == exists|d: int|
                    0 <= d < new_dsts@.len() && (#[trigger] new_dsts@[d]).statuses@.len()
                        != user0.dsts@[d].statuses@.len(),
            decreases dsts@.len(),
        {
            let ghost m = new_dsts@.len() as int;
            let mut dst = dsts.remove(0);
            assert(dst == user0.dsts@[m]);
            let ghost rows0 = dst.statuses@;
            let mut rows: Vec<DestinationStatus> = Vec::new();
            std::mem::swap(&mut rows, &mut dst.statuses);
            let n_rows = rows.len();
            let mut kept_rows: Vec<DestinationStatus> = Vec::new();
            let ghost mut k: int = 0;
            while rows.len() > 0
                invariant
                    0 <= k <= rows0.len(),
                    rows@ == rows0.skip(k),
                    kept_rows@ == rows0.take(k).filter(keep),
                    keep == row_is_needed(ps, rs),
                    ps == strings_view(posts@),
                    rs == strings_view(reposts@),
                decreases rows@.len(),
            {
                let row = rows.remove(0);
                assert(row == rows0[k]);
                assert(rows0.take(k + 1) =~= rows0.take(k).push(row));
                proof {
                    rows0.take(k).lemma_filter_push(row, keep);
                }
                let needed = match &row {
                    DestinationStatus::Post(p) => contains_string(&posts, &p.src_identifier),
                    DestinationStatus::Repost(p) => contains_string(&reposts, &p.src_identifier),
                };
                if needed {
                    kept_rows.push(row);
                }
                proof {
                    assert(rows0.skip(k).remove(0) =~= rows0.skip(k + 1));
                    k = k + 1;
                }
            }
            assert(rows0.take(k) =~= rows0);
            let ghost was_changed = changed;
            let differs = kept_rows.len() != n_rows;
            if differs {
                changed = true;
            }
            dst.statuses = kept_rows;
            let ghost prev = new_dsts@;
            new_dsts.push(dst);
            proof {
                if was_changed {
                    let d0 = choose|d: int|
                        0 <= d < prev.len() && (#[trigger] prev[d]).statuses@.len()
                            != user0.dsts@[d].statuses@.len();
                    assert(new_dsts@[d0] == prev[d0]);
                }
                if differs {
                    assert(new_dsts@[m] == dst);
                }
                if !changed {
                    assert forall|d: int| 0 <= d < new_dsts@.len() implies (
                    #[trigger] new_dsts@[d]).statuses@.len() == user0.dsts@[d].statuses@.len() by {
                        if d < m {
                            assert(new_dsts@[d] == prev[d]);
                        }
                    }
                }
            }
            assert(user0.dsts@.skip(m).remove(0) =~= user0.dsts@.skip(m + 1));
        }
        user.dsts = new_dsts;
        let ghost was_updated = updated;
        if changed {
            updated = true;
        }
        let ghost prev_done = done@;
        done.push(user);
        proof {
            if was_updated {
                let (u0, d0) = choose|u: int, d: int|
                    0 <= u < prev_done.len() && 0 <= d < old_users[u].dsts@.len()
                        && (#[trigger] prev_done[u].dsts@[d]).statuses@.len()
                        != old_users[u].dsts@[d].statuses@.len();
                assert(done@[u0] == prev_done[u0]);
            }
            if changed {
                let d0 = choose|d: int|
                    0 <= d < user.dsts@.len() && (#[trigger] user.dsts@[d]).statuses@.len()
                        != user0.dsts@[d].statuses@.len();
                assert(done@[n] == user);
                assert(done@[n].dsts@[d0] == user.dsts@[d0]);
            }
            if !updated {
                assert forall|u: int, d: int|
                    0 <= u < done@.len() && 0 <= d < old_users[u].dsts@.len() implies (
                    #[trigger] done@[u].dsts@[d]).statuses@.len()
                    == old_users[u].dsts@[d].statuses@.len() by {
                    if u < n {
                        assert(done@[u] == prev_done[u]);
                    } else {
                        assert(done@[u] == user);
                    }
                }
            }
        }
        assert(old_users.skip(n).remove(0) =~= old_users.skip(n + 1));
    }
    store.users = done;
    proof {
        assert forall|u: int, d: int, k: int|
            0 <= u < store.users@.len() && 0 <= d < store.users@[u].dsts@.len() && 0 <= k
                < store.users@[u].dsts@[d].statuses@.len() implies keep(
            #[trigger] store.users@[u].dsts@[d].statuses@[k],
        ) by {
            let x = old_users[u].dsts@[d].statuses@;
            x.lemma_filter_pred(keep, k);
        }
    }
    updated
}

} // verus!
