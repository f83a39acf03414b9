//! The merge engine: folds freshly diffed operations into the persisted queue.
use vstd::prelude::*;

use crate::account::AccountKey;
use crate::store::operations::{
    copy_facets, AccountPair, CreatePostStatusView, Operation as QueuedOperation,
    OperationStatusView, OperationView,
};
use crate::store::Store;
use super::source::{source_ops_view, Operation};

verus! {

pub open spec fn queue_view(q: Seq<QueuedOperation>) -> Seq<OperationView> {
    q.map_values(|o: QueuedOperation| o@)
}

pub proof fn lemma_queue_view_push(q: Seq<QueuedOperation>, o: QueuedOperation)
    ensures
        queue_view(q.push(o)) == queue_view(q).push(o@),
{
    assert(queue_view(q.push(o)) =~= queue_view(q).push(o@));
}

/// Two pairs name the same accounts.
pub open spec fn same_pair(a: AccountPair, b: AccountPair) -> bool {
    a.src_key().same(b.src_key()) && a.dst_key().same(b.dst_key())
}

pub open spec fn is_create_post_for(pair: AccountPair, id: Seq<char>) -> spec_fn(OperationView) -> bool {
    |o: OperationView|
        same_pair(o.account_pair, pair) && match o.status {
            OperationStatusView::CreatePost(c) => c.src_identifier@ == id,
            _ => false,
        }
}

pub open spec fn is_create_repost_for(pair: AccountPair, id: Seq<char>) -> spec_fn(OperationView) -> bool {
    |o: OperationView|
        same_pair(o.account_pair, pair) && match o.status {
            OperationStatusView::CreateRepost(c) => c.src_identifier@ == id,
            _ => false,
        }
}

pub open spec fn queued(queue: Seq<OperationView>, p: spec_fn(OperationView) -> bool) -> bool {
    exists|k: int| 0 <= k < queue.len() && p(queue[k])
}

/// An edit or a deletion aimed at an item whose creation is still queued for the same pair
/// has nothing to act on: the queued creation is rewritten or cancelled instead.
pub open spec fn is_redundant(queue: Seq<OperationView>, pair: AccountPair, o: OperationStatusView) -> bool {
    match o {
        OperationStatusView::UpdatePost(u) => queued(queue, is_create_post_for(pair, u.src_identifier@)),
        OperationStatusView::DeletePost(d) => queued(queue, is_create_post_for(pair, d.src_identifier@)),
        OperationStatusView::DeleteRepost(d) => queued(
            queue,
            is_create_repost_for(pair, d.src_identifier@),
        ),
        _ => false,
    }
}

/// The first `n` diffed operations addressed to `pair`, the redundant ones left out.
pub open spec fn stamped(
    queue: Seq<OperationView>,
    pair: AccountPair,
    ops: Seq<OperationStatusView>,
    n: int,
) -> Seq<OperationView>
    decreases n,
{
    if n <= 0 {
        seq![]
    } else {
        let rest = stamped(queue, pair, ops, n - 1);
        if is_redundant(queue, pair, ops[n - 1]) {
            rest
        } else {
            rest.push(OperationView { account_pair: pair, status: ops[n - 1] })
        }
    }
}

/// The diffed operations addressed to each of the first `m` destinations in turn.
pub open spec fn addressed(
    queue: Seq<OperationView>,
    src: AccountKey,
    dsts: Seq<AccountKey>,
    ops: Seq<OperationStatusView>,
    m: int,
) -> Seq<OperationView>
    decreases m,
{
    if m <= 0 {
        seq![]
    } else {
        addressed(queue, src, dsts, ops, m - 1) + stamped(
            queue,
            AccountPair::of_keys(src, dsts[m - 1]),
            ops,
            ops.len() as int,
        )
    }
}

pub open spec fn is_delete_post_of(id: Seq<char>) -> spec_fn(OperationStatusView) -> bool {
    |o: OperationStatusView|
        match o {
            OperationStatusView::DeletePost(d) => d.src_identifier@ == id,
            _ => false,
        }
}

pub open spec fn is_delete_repost_of(id: Seq<char>) -> spec_fn(OperationStatusView) -> bool {
    |o: OperationStatusView|
        match o {
            OperationStatusView::DeleteRepost(d) => d.src_identifier@ == id,
            _ => false,
        }
}

pub open spec fn deletes_post(ops: Seq<OperationStatusView>, id: Seq<char>) -> bool {
    exists|i: int| 0 <= i < ops.len() && is_delete_post_of(id)(ops[i])
}

pub open spec fn deletes_repost(ops: Seq<OperationStatusView>, id: Seq<char>) -> bool {
    exists|i: int| 0 <= i < ops.len() && is_delete_repost_of(id)(ops[i])
}

/// A queued creation of the source `src` is cancelled by a deletion of its item, and a
/// queued repost also by a deletion of the post it reposts.
pub open spec fn is_cancelled(o: OperationView, src: AccountKey, ops: Seq<OperationStatusView>) -> bool {
    o.account_pair.src_key().same(src) && match o.status {
        OperationStatusView::CreatePost(c) => deletes_post(ops, c.src_identifier@),
        OperationStatusView::CreateRepost(c) => deletes_post(ops, c.target_src_identifier@)
            || deletes_repost(ops, c.src_identifier@),
        _ => false,
    }
}

/// A queued post creation after the edits among the first `n` diffed operations.
pub open spec fn with_updates(c: CreatePostStatusView, ops: Seq<OperationStatusView>, n: int) -> CreatePostStatusView
    decreases n,
{
    if n <= 0 {
        c
    } else {
        let prev = with_updates(c, ops, n - 1);
        match ops[n - 1] {
            OperationStatusView::UpdatePost(u) => if u.src_identifier@ == c.src_identifier@ {
                CreatePostStatusView {
                    src_identifier: prev.src_identifier,
                    src_uri: prev.src_uri,
                    content: u.content,
                    facets: u.facets,
                    reply_src_identifier: prev.reply_src_identifier,
                    media: prev.media,
                    external: prev.external,
                    created_at: prev.created_at,
                }
            } else {
                prev
            },
            _ => prev,
        }
    }
}

/// A queued operation after the edits of the source `src`: a creation not yet sent takes
/// the edited content.
pub open spec fn updated(o: OperationView, src: AccountKey, ops: Seq<OperationStatusView>) -> OperationView {
    match o.status {
        OperationStatusView::CreatePost(c) => if o.account_pair.src_key().same(src) {
            OperationView {
                account_pair: o.account_pair,
                status: OperationStatusView::CreatePost(with_updates(c, ops, ops.len() as int)),
            }
        } else {
            o
        },
        _ => o,
    }
}

/// The first `n` queued operations that survive the diffed operations, edits applied.
pub open spec fn kept(
    queue: Seq<OperationView>,
    src: AccountKey,
    ops: Seq<OperationStatusView>,
    n: int,
) -> Seq<OperationView>
    decreases n,
{
    if n <= 0 {
        seq![]
    } else {
        let rest = kept(queue, src, ops, n - 1);
        if is_cancelled(queue[n - 1], src, ops) {
            rest
        } else {
            rest.push(updated(queue[n - 1], src, ops))
        }
    }
}

/// The queue after a merge, before it is put in order.
pub open spec fn merged(
    queue: Seq<OperationView>,
    src: AccountKey,
    dsts: Seq<AccountKey>,
    ops: Seq<OperationStatusView>,
) -> Seq<OperationView> {
    kept(queue, src, ops, queue.len() as int) + addressed(queue, src, dsts, ops, dsts.len() as int)
}

/// Ascending by sort key: the last element is the one popped first (see [`lemma_queue_order`]).
pub open spec fn sorted_by_key(q: Seq<OperationView>) -> bool {
    forall|i: int, j: int| 0 <= i < j < q.len() ==> q[i].sort_key() <= q[j].sort_key()
}

fn same_pair_exec(a: &AccountPair, b: &AccountPair) -> (r: bool)
    ensures
        r == same_pair(*a, *b),
{
    a.src_origin == b.src_origin && a.src_account_identifier == b.src_account_identifier
        && a.dst_origin == b.dst_origin && a.dst_account_identifier == b.dst_account_identifier
}

fn queued_create_post(queue: &Vec<QueuedOperation>, pair: &AccountPair, id: &String) -> (r: bool)
    ensures
        r == queued(queue_view(queue@), is_create_post_for(*pair, id@)),
{
    let mut i: usize = 0;
    while i < queue.len()
        invariant
            i <= queue@.len(),
            forall|j: int| 0 <= j < i ==> !is_create_post_for(*pair, id@)(queue_view(queue@)[j]),
        decreases queue@.len() - i,
    {
        assert(queue_view(queue@)[i as int] == queue@[i as int]@);
        match &queue[i] {
            QueuedOperation::CreatePost(c) => {
                if same_pair_exec(&c.account_pair, pair) && c.status.src_identifier == *id {
                    assert(is_create_post_for(*pair, id@)(queue_view(queue@)[i as int]));
                    return true;
                }
            },
            _ => {},
        }
        i += 1;
    }
    false
}

fn queued_create_repost(queue: &Vec<QueuedOperation>, pair: &AccountPair, id: &String) -> (r: bool)
    ensures
        r == queued(queue_view(queue@), is_create_repost_for(*pair, id@)),
{
    let mut i: usize = 0;
    while i < queue.len()
        invariant
            i <= queue@.len(),
            forall|j: int|
                0 <= j < i ==> !is_create_repost_for(*pair, id@)(queue_view(queue@)[j]),
        decreases queue@.len() - i,
    {
        assert(queue_view(queue@)[i as int] == queue@[i as int]@);
        match &queue[i] {
            QueuedOperation::CreateRepost(c) => {
                if same_pair_exec(&c.account_pair, pair) && c.status.src_identifier == *id {
                    assert(is_create_repost_for(*pair, id@)(queue_view(queue@)[i as int]));
                    return true;
                }
            },
            _ => {},
        }
        i += 1;
    }
    false
}

fn redundant(queue: &Vec<QueuedOperation>, pair: &AccountPair, o: &Operation) -> (r: bool)
    ensures
        r == is_redundant(queue_view(queue@), *pair, o@),
{
    match o {
        Operation::UpdatePost(u) => queued_create_post(queue, pair, &u.src_identifier),
        Operation::DeletePost(d) => queued_create_post(queue, pair, &d.src_identifier),
        Operation::DeleteRepost(d) => queued_create_repost(queue, pair, &d.src_identifier),
        _ => false,
    }
}

/// Addresses the diffed operations to every destination in turn, leaving out those that
/// `queue` makes redundant.
pub fn to_store_operations(
    queue: &Vec<QueuedOperation>,
    dst_account_keys: &Vec<AccountKey>,
    operations: &Vec<Operation>,
    src_account_key: &AccountKey,
) -> (r: Vec<QueuedOperation>)
    ensures
        queue_view(r@) == addressed(
            queue_view(queue@),
            *src_account_key,
            dst_account_keys@,
            source_ops_view(operations@),
            dst_account_keys@.len() as int,
        ),
{
    let ghost q = queue_view(queue@);
    let ghost ops = source_ops_view(operations@);
    let mut r: Vec<QueuedOperation> = Vec::new();
    let mut m: usize = 0;
    while m < dst_account_keys.len()
        invariant
            m <= dst_account_keys@.len(),
            q == queue_view(queue@),
            ops == source_ops_view(operations@),
            queue_view(r@) == addressed(q, *src_account_key, dst_account_keys@, ops, m as int),
        decreases dst_account_keys@.len() - m,
    {
        let pair = AccountPair::from_keys(src_account_key.duplicate(), dst_account_keys[m].duplicate());
        let ghost head = queue_view(r@);
        let mut n: usize = 0;
        while n < operations.len()
            invariant
                n <= operations@.len(),
                q == queue_view(queue@),
                ops == source_ops_view(operations@),
                queue_view(r@) == head + stamped(q, pair, ops, n as int),
            decreases operations@.len() - n,
        {
            assert(ops[n as int] == operations@[n as int]@);
            if !redundant(queue, &pair, &operations[n]) {
                let o = operations[n].to_store(pair.duplicate());
                proof {
                    lemma_queue_view_push(r@, o);
                }
                r.push(o);
                assert(queue_view(r@) =~= head + stamped(q, pair, ops, n + 1));
            }
            n += 1;
        }
        m += 1;
        assert(queue_view(r@) =~= addressed(q, *src_account_key, dst_account_keys@, ops, m as int));
    }
    r
}

fn deletes_post_exec(ops: &Vec<Operation>, id: &String) -> (r: bool)
    ensures
        r == deletes_post(source_ops_view(ops@), id@),
{
    let mut i: usize = 0;
    while i < ops.len()
        invariant
            i <= ops@.len(),
            forall|j: int| 0 <= j < i ==> !is_delete_post_of(id@)(source_ops_view(ops@)[j]),
        decreases ops@.len() - i,
    {
        assert(source_ops_view(ops@)[i as int] == ops@[i as int]@);
        match &ops[i] {
            Operation::DeletePost(d) => {
                if d.src_identifier == *id {
                    assert(is_delete_post_of(id@)(source_ops_view(ops@)[i as int]));
                    return true;
                }
            },
            _ => {},
        }
        i += 1;
    }
    false
}

fn deletes_repost_exec(ops: &Vec<Operation>, id: &String) -> (r: bool)
    ensures
        r == deletes_repost(source_ops_view(ops@), id@),
{
    let mut i: usize = 0;
    while i < ops.len()
        invariant
            i <= ops@.len(),
            forall|j: int| 0 <= j < i ==> !is_delete_repost_of(id@)(source_ops_view(ops@)[j]),
        decreases ops@.len() - i,
    {
        assert(source_ops_view(ops@)[i as int] == ops@[i as int]@);
        match &ops[i] {
            Operation::DeleteRepost(d) => {
                if d.src_identifier == *id {
                    assert(is_delete_repost_of(id@)(source_ops_view(ops@)[i as int]));
                    return true;
                }
            },
            _ => {},
        }
        i += 1;
    }
    false
}

fn cancelled(o: &QueuedOperation, src: &AccountKey, ops: &Vec<Operation>) -> (r: bool)
    ensures
        r == is_cancelled(o@, *src, source_ops_view(ops@)),
{
    match o {
        QueuedOperation::CreatePost(c) => {
            src.same_as(&c.account_pair.to_src_key()) && deletes_post_exec(
                ops,
                &c.status.src_identifier,
            )
        },
        QueuedOperation::CreateRepost(c) => {
            src.same_as(&c.account_pair.to_src_key()) && (deletes_post_exec(
                ops,
                &c.status.target_src_identifier,
            ) || deletes_repost_exec(ops, &c.status.src_identifier))
        },
        _ => false,
    }
}

/// A queued operation with the source's edits applied to it.
fn with_edits(o: QueuedOperation, src: &AccountKey, ops: &Vec<Operation>) -> (r: QueuedOperation)
    ensures
        r@ == updated(o@, *src, source_ops_view(ops@)),
{
    match o {
        QueuedOperation::CreatePost(mut c) => {
            if !src.same_as(&c.account_pair.to_src_key()) {
                return QueuedOperation::CreatePost(c);
            }
            let ghost c0 = c;
            let ghost v = source_ops_view(ops@);
            let mut i: usize = 0;
            while i < ops.len()
                invariant
                    i <= ops@.len(),
                    v == source_ops_view(ops@),
                    c.account_pair == c0.account_pair,
                    c.status.src_identifier == c0.status.src_identifier,
                    c.status@ == with_updates(c0.status@, v, i as int),
                decreases ops@.len() - i,
            {
                assert(v[i as int] == ops@[i as int]@);
                if let Operation::UpdatePost(u) = &ops[i] {
                    if u.src_identifier == c.status.src_identifier {
                        c.status.content = u.content.clone();
                        c.status.facets = copy_facets(&u.facets);
                    }
                }
                i += 1;
            }
            QueuedOperation::CreatePost(c)
        },
        other => other,
    }
}

proof fn lemma_multiset_insert<A>(s: Seq<A>, p: int, x: A)
    requires
        0 <= p <= s.len(),
    ensures
        s.insert(p, x).to_multiset() == s.to_multiset().insert(x),
{
    broadcast use vstd::seq_lib::group_to_multiset_ensures;
    broadcast use vstd::multiset::group_multiset_axioms;

    let t = s.insert(p, x);
    assert(t.remove(p) =~= s);
    assert(t[p] == x);
    assert(t.contains(x));
    assert(s.to_multiset() =~= t.to_multiset().remove(x));
    assert(t.to_multiset() =~= s.to_multiset().insert(x));
}

proof fn lemma_queue_view_insert(q: Seq<QueuedOperation>, p: int, o: QueuedOperation)
    requires
        0 <= p <= q.len(),
    ensures
        queue_view(q.insert(p, o)) == queue_view(q).insert(p, o@),
{
    assert(queue_view(q.insert(p, o)) =~= queue_view(q).insert(p, o@));
}

proof fn lemma_queue_view_remove_first(q: Seq<QueuedOperation>)
    requires
        q.len() > 0,
    ensures
        queue_view(q.remove(0)) == queue_view(q).remove(0),
        queue_view(q).remove(0).to_multiset() == queue_view(q).to_multiset().remove(q[0]@),
{
    broadcast use vstd::seq_lib::group_to_multiset_ensures;

    assert(queue_view(q.remove(0)) =~= queue_view(q).remove(0));
}

pub open spec fn has_key(k: int) -> spec_fn(OperationView) -> bool {
    |o: OperationView| o.sort_key() == k
}

proof fn lemma_filter_split_first(s: Seq<OperationView>, k: int)
    requires
        s.len() > 0,
    ensures
        s.filter(has_key(k)) == if s[0].sort_key() == k {
            seq![s[0]] + s.remove(0).filter(has_key(k))
        } else {
            s.remove(0).filter(has_key(k))
        },
{
    assert(s =~= seq![s[0]] + s.remove(0));
    s.remove(0).lemma_filter_prepend(s[0], has_key(k));
}

proof fn lemma_filter_insert_above(qb: Seq<OperationView>, p: int, x: OperationView, k: int)
    requires
        0 <= p <= qb.len(),
        forall|j: int| p <= j < qb.len() ==> qb[j].sort_key() > x.sort_key(),
    ensures
        qb.insert(p, x).filter(has_key(k)) == if x.sort_key() == k {
            qb.filter(has_key(k)).push(x)
        } else {
            qb.filter(has_key(k))
        },
{
    let a = qb.take(p);
    let b = qb.skip(p);
    assert(qb =~= a + b);
    assert(qb.insert(p, x) =~= (a + seq![x]) + b);
    Seq::filter_distributes_over_add(a, b, has_key(k));
    Seq::filter_distributes_over_add(a + seq![x], b, has_key(k));
    Seq::filter_distributes_over_add(a, seq![x], has_key(k));
    seq![].lemma_filter_prepend(x, has_key(k));
    assert(seq![x] =~= seq![x] + Seq::<OperationView>::empty());
    if x.sort_key() == k {
        assert(b.all(|y: OperationView| !has_key(k)(y))) by {
            assert forall|j: int| 0 <= j < b.len() implies !has_key(k)(#[trigger] b[j]) by {
                assert(b[j] == qb[p + j]);
            }
        }
        b.lemma_all_neg_filter_empty(has_key(k));
        assert(b.filter(has_key(k)) =~= Seq::<OperationView>::empty());
        assert(qb.insert(p, x).filter(has_key(k)) =~= qb.filter(has_key(k)).push(x));
    } else {
        assert(seq![x].filter(has_key(k)) =~= Seq::<OperationView>::empty());
        assert(qb.insert(p, x).filter(has_key(k)) =~= qb.filter(has_key(k)));
    }
}

/// Puts the queue in ascending order of sort key, so that popping from the end yields the
/// newest creations first, then edits and repost deletions, then post deletions. Operations
/// with equal keys keep their relative order: each is placed after those with a key no greater.
pub fn sort_operations(operations: &mut Vec<QueuedOperation>)
    ensures
        sorted_by_key(queue_view(final(operations)@)),
        queue_view(final(operations)@).to_multiset() == queue_view(old(operations)@).to_multiset(),
        forall|k: int|
            queue_view(final(operations)@).filter(#[trigger] has_key(k)) == queue_view(
                old(operations)@,
            ).filter(has_key(k)),
{
    broadcast use vstd::seq_lib::group_to_multiset_ensures;
    broadcast use vstd::multiset::group_multiset_axioms;

    let mut input: Vec<QueuedOperation> = Vec::new();
    std::mem::swap(&mut input, operations);
    let ghost all = queue_view(input@).to_multiset();
    let ghost orig = queue_view(input@);
    assert(queue_view(operations@) =~= seq![]);
    assert forall|k: int|
        queue_view(operations@).filter(#[trigger] has_key(k)) + queue_view(input@).filter(has_key(k))
            == orig.filter(has_key(k)) by {
        assert(queue_view(operations@).filter(has_key(k)) =~= Seq::<OperationView>::empty());
        assert(Seq::<OperationView>::empty() + orig.filter(has_key(k)) =~= orig.filter(has_key(k)));
    }
    while input.len() > 0
        invariant
            sorted_by_key(queue_view(operations@)),
            queue_view(operations@).to_multiset().add(queue_view(input@).to_multiset()) == all,
            forall|k: int|
                queue_view(operations@).filter(#[trigger] has_key(k)) + queue_view(input@).filter(
                    has_key(k),
                ) == orig.filter(has_key(k)),
        decreases input@.len(),
    {
        let ghost before_input = input@;
        let o = input.remove(0);
        proof {
            lemma_queue_view_remove_first(before_input);
        }
        let key = o.sort_key();
        let mut p: usize = 0;
        while p < operations.len() && operations[p].sort_key() <= key
            invariant
                p <= operations@.len(),
                forall|j: int| 0 <= j < p ==> queue_view(operations@)[j].sort_key() <= key,
            decreases operations@.len() - p,
        {
            p += 1;
        }
        let ghost before = operations@;
        operations.insert(p, o);
        proof {
            lemma_queue_view_insert(before, p as int, o);
            lemma_multiset_insert(queue_view(before), p as int, o@);
            let q = queue_view(operations@);
            let qb = queue_view(before);
            assert forall|i: int, j: int| 0 <= i < j < q.len() implies q[i].sort_key()
                <= q[j].sort_key() by {
                if j < p {
                    assert(q[i] == qb[i] && q[j] == qb[j]);
                } else if j == p {
                    assert(q[i] == qb[i]);
                } else if i == p {
                    assert(q[j] == qb[j - 1]);
                    assert(qb[p as int].sort_key() > key);
                } else if i < p {
                    assert(q[i] == qb[i] && q[j] == qb[j - 1]);
                    if (p as int) < j - 1 {
                        assert(qb[i].sort_key() <= key);
                    }
                } else {
                    assert(q[i] == qb[i - 1] && q[j] == qb[j - 1]);
                }
            }
            let bi = queue_view(before_input);
            assert(bi[0] == o@);
            assert(bi.contains(o@));
            bi.to_multiset_ensures();
            assert(bi.to_multiset().count(o@) > 0);
            assert(queue_view(input@).to_multiset() == bi.to_multiset().remove(o@));
            assert(queue_view(operations@).to_multiset() == qb.to_multiset().insert(o@));
            assert(queue_view(operations@).to_multiset().add(queue_view(input@).to_multiset())
                =~= qb.to_multiset().add(bi.to_multiset()));
            assert forall|j: int| p <= j < qb.len() implies qb[j].sort_key() > o@.sort_key() by {
                assert(qb[p as int].sort_key() > key);
                if j > p {
                    assert(qb[p as int].sort_key() <= qb[j].sort_key());
                }
            }
            assert forall|k: int|
                queue_view(operations@).filter(#[trigger] has_key(k)) + queue_view(input@).filter(
                    has_key(k),
                ) == orig.filter(has_key(k)) by {
                lemma_filter_insert_above(qb, p as int, o@, k);
                lemma_filter_split_first(bi, k);
                assert(qb.filter(has_key(k)) + bi.filter(has_key(k)) == orig.filter(has_key(k)));
                if o@.sort_key() == k {
                    assert(qb.filter(has_key(k)).push(o@) + queue_view(input@).filter(has_key(k))
                        =~= qb.filter(has_key(k)) + (seq![o@] + queue_view(input@).filter(
                        has_key(k),
                    )));
                }
            }
        }
    }
    assert(queue_view(input@) =~= seq![]);
    assert(queue_view(operations@).to_multiset() =~= all);
    assert forall|k: int|
        queue_view(operations@).filter(#[trigger] has_key(k)) == orig.filter(has_key(k)) by {
        assert(queue_view(input@).filter(has_key(k)) =~= Seq::<OperationView>::empty());
        assert(queue_view(operations@).filter(has_key(k)) + Seq::<OperationView>::empty()
            =~= queue_view(operations@).filter(has_key(k)));
    }
}

/// Folds the operations diffed from the source `src_account_key` into the queue: queued
/// creations that the new deletions obsolete are cancelled, queued post creations take the
/// new edits, the operations are addressed to every destination (those made redundant by a
/// queued creation left out), and the queue is put back in key order, operations of equal
/// key in the order of [`merged`].
pub fn merge_operations(
    store: &mut Store,
    dst_account_keys: &Vec<AccountKey>,
    src_account_key: &AccountKey,
    src_operations: &Vec<Operation>,
)
    ensures
        final(store).users == old(store).users,
        sorted_by_key(queue_view(final(store).operations@)),
        queue_view(final(store).operations@).to_multiset() == merged(
            queue_view(old(store).operations@),
            *src_account_key,
            dst_account_keys@,
            source_ops_view(src_operations@),
        ).to_multiset(),
        forall|k: int|
            queue_view(final(store).operations@).filter(#[trigger] has_key(k)) == merged(
                queue_view(old(store).operations@),
                *src_account_key,
                dst_account_keys@,
                source_ops_view(src_operations@),
            ).filter(has_key(k)),
{
    let ghost q0 = queue_view(store.operations@);
    let ghost ops = source_ops_view(src_operations@);
    let mut new_operations = to_store_operations(
        &store.operations,
        dst_account_keys,
        src_operations,
        src_account_key,
    );
    let mut queue: Vec<QueuedOperation> = Vec::new();
    std::mem::swap(&mut queue, &mut store.operations);
    assert(queue_view(store.operations@) =~= kept(q0, *src_account_key, ops, 0));
    let ghost mut i: int = 0;
    while queue.len() > 0
        invariant
            0 <= i <= q0.len(),
            queue_view(queue@) == q0.skip(i),
            ops == source_ops_view(src_operations@),
            queue_view(store.operations@) == kept(q0, *src_account_key, ops, i),
            store.users == old(store).users,
        decreases queue@.len(),
    {
        let ghost before = queue@;
        let o = queue.remove(0);
        proof {
            lemma_queue_view_remove_first(before);
            assert(q0.skip(i)[0] == q0[i]);
            assert(q0.skip(i).remove(0) =~= q0.skip(i + 1));
        }
        if !cancelled(&o, src_account_key, src_operations) {
            let e = with_edits(o, src_account_key, src_operations);
            proof {
                lemma_queue_view_push(store.operations@, e);
            }
            store.operations.push(e);
        }
        proof {
            i = i + 1;
        }
    }
    assert(q0.skip(i).len() == 0);
    store.operations.append(&mut new_operations);
    assert(queue_view(store.operations@) =~= merged(q0, *src_account_key, dst_account_keys@, ops));
    sort_operations(&mut store.operations);
}

proof fn lemma_push_contains<A>(s: Seq<A>, y: A, x: A)
    requires
        s.push(y).contains(x),
    ensures
        x == y || s.contains(x),
{
    let k = choose|k: int| 0 <= k < s.push(y).len() && #[trigger] s.push(y)[k] == x;
    if k < s.len() {
        assert(s[k] == x);
    }
}

proof fn lemma_concat_contains<A>(a: Seq<A>, b: Seq<A>, x: A)
    requires
        (a + b).contains(x),
    ensures
        a.contains(x) || b.contains(x),
{
    let k = choose|k: int| 0 <= k < (a + b).len() && #[trigger] (a + b)[k] == x;
    if k < a.len() {
        assert(a[k] == x);
    } else {
        assert(b[k - a.len()] == x);
    }
}

proof fn lemma_kept_members(
    queue: Seq<OperationView>,
    src: AccountKey,
    ops: Seq<OperationStatusView>,
    n: int,
)
    requires
        n <= queue.len(),
    ensures
        forall|x: OperationView|
            kept(queue, src, ops, n).contains(x) ==> exists|k: int|
                0 <= k < n && !is_cancelled(queue[k], src, ops) && x == updated(
                    queue[k],
                    src,
                    ops,
                ),
    decreases n,
{
    if n > 0 {
        lemma_kept_members(queue, src, ops, n - 1);
        let rest = kept(queue, src, ops, n - 1);
        assert forall|x: OperationView| kept(queue, src, ops, n).contains(x) implies exists|k: int|
            0 <= k < n && !is_cancelled(queue[k], src, ops) && x == updated(queue[k], src, ops) by {
            if !is_cancelled(queue[n - 1], src, ops) {
                lemma_push_contains(rest, updated(queue[n - 1], src, ops), x);
            }
        }
    }
}

proof fn lemma_stamped_members(
    queue: Seq<OperationView>,
    pair: AccountPair,
    ops: Seq<OperationStatusView>,
    n: int,
)
    requires
        n <= ops.len(),
    ensures
        forall|x: OperationView|
            stamped(queue, pair, ops, n).contains(x) ==> exists|i: int|
                0 <= i < n && !is_redundant(queue, pair, ops[i]) && x == (OperationView {
                    account_pair: pair,
                    status: ops[i],
                }),
    decreases n,
{
    if n > 0 {
        lemma_stamped_members(queue, pair, ops, n - 1);
        let rest = stamped(queue, pair, ops, n - 1);
        assert forall|x: OperationView| stamped(queue, pair, ops, n).contains(x) implies exists|
            i: int,
        |
            0 <= i < n && !is_redundant(queue, pair, ops[i]) && x == (OperationView {
                account_pair: pair,
                status: ops[i],
            }) by {
            if !is_redundant(queue, pair, ops[n - 1]) {
                lemma_push_contains(rest, OperationView { account_pair: pair, status: ops[n - 1] }, x);
            }
        }
    }
}

proof fn lemma_addressed_members(
    queue: Seq<OperationView>,
    src: AccountKey,
    dsts: Seq<AccountKey>,
    ops: Seq<OperationStatusView>,
    m: int,
)
    requires
        m <= dsts.len(),
    ensures
        forall|x: OperationView|
            addressed(queue, src, dsts, ops, m).contains(x) ==> exists|j: int|
                0 <= j < m && stamped(
                    queue,
                    AccountPair::of_keys(src, dsts[j]),
                    ops,
                    ops.len() as int,
                ).contains(x),
    decreases m,
{
    if m > 0 {
        lemma_addressed_members(queue, src, dsts, ops, m - 1);
        let a = addressed(queue, src, dsts, ops, m - 1);
        let b = stamped(queue, AccountPair::of_keys(src, dsts[m - 1]), ops, ops.len() as int);
        assert forall|x: OperationView| (a + b).contains(x) implies exists|j: int|
            0 <= j < m && stamped(
                queue,
                AccountPair::of_keys(src, dsts[j]),
                ops,
                ops.len() as int,
            ).contains(x) by {
            lemma_concat_contains(a, b, x);
        }
    }
}

/// Every operation of the merged queue comes from the queue before (edited, same pair) or is
/// a diffed operation addressed to one of the merged destinations.
proof fn lemma_merged_members(
    queue: Seq<OperationView>,
    src: AccountKey,
    dsts: Seq<AccountKey>,
    ops: Seq<OperationStatusView>,
    x: OperationView,
)
    requires
        merged(queue, src, dsts, ops).contains(x),
    ensures
        (exists|k: int|
            0 <= k < queue.len() && !is_cancelled(queue[k], src, ops) && x == updated(
                queue[k],
                src,
                ops,
            )) || (exists|j: int, i: int|
            0 <= j < dsts.len() && 0 <= i < ops.len() && !is_redundant(
                queue,
                AccountPair::of_keys(src, dsts[j]),
                ops[i],
            ) && x == (OperationView {
                account_pair: AccountPair::of_keys(src, dsts[j]),
                status: ops[i],
            })),
{
    let a = kept(queue, src, ops, queue.len() as int);
    let b = addressed(queue, src, dsts, ops, dsts.len() as int);
    lemma_kept_members(queue, src, ops, queue.len() as int);
    lemma_addressed_members(queue, src, dsts, ops, dsts.len() as int);
    lemma_concat_contains(a, b, x);
    if b.contains(x) {
        let j = choose|j: int|
            0 <= j < dsts.len() && stamped(
                queue,
                AccountPair::of_keys(src, dsts[j]),
                ops,
                ops.len() as int,
            ).contains(x);
        lemma_stamped_members(queue, AccountPair::of_keys(src, dsts[j]), ops, ops.len() as int);
    }
}

proof fn lemma_member_of_permutation(result: Seq<OperationView>, target: Seq<OperationView>, k: int)
    requires
        result.to_multiset() == target.to_multiset(),
        0 <= k < result.len(),
    ensures
        target.contains(result[k]),
{
    result.to_multiset_ensures();
    target.to_multiset_ensures();
    assert(result.contains(result[k]));
    assert(result.to_multiset().count(result[k]) > 0);
}

/// The merge keeps every queued operation addressed to a configured destination of its
/// source: if each operation queued before was, and each destination merged in is configured
/// for the source, each operation of the merged queue is.
pub proof fn lemma_merge_keeps_destinations_configured(
    queue: Seq<OperationView>,
    src: AccountKey,
    dsts: Seq<AccountKey>,
    ops: Seq<OperationStatusView>,
    result: Seq<OperationView>,
    configured: spec_fn(AccountPair) -> bool,
)
    requires
        forall|k: int| 0 <= k < queue.len() ==> configured(#[trigger] queue[k].account_pair),
        forall|j: int| 0 <= j < dsts.len() ==> configured(AccountPair::of_keys(src, #[trigger] dsts[j])),
        result.to_multiset() == merged(queue, src, dsts, ops).to_multiset(),
    ensures
        forall|k: int| 0 <= k < result.len() ==> configured(#[trigger] result[k].account_pair),
{
    assert forall|k: int| 0 <= k < result.len() implies configured(
        #[trigger] result[k].account_pair,
    ) by {
        lemma_member_of_permutation(result, merged(queue, src, dsts, ops), k);
        lemma_merged_members(queue, src, dsts, ops, result[k]);
    }
}

/// Whether an operation is about the source post `x`: creating, reposting, editing or
/// deleting it.
pub open spec fn mentions(o: OperationStatusView, x: Seq<char>) -> bool {
    match o {
        OperationStatusView::CreatePost(c) => c.src_identifier@ == x,
        OperationStatusView::CreateRepost(c) => c.target_src_identifier@ == x,
        OperationStatusView::UpdatePost(u) => u.src_identifier@ == x,
        OperationStatusView::DeletePost(d) => d.src_identifier@ == x,
        OperationStatusView::DeleteRepost(_) => false,
    }
}

proof fn lemma_with_updates_keeps_identifier(
    c: CreatePostStatusView,
    ops: Seq<OperationStatusView>,
    n: int,
)
    ensures
        with_updates(c, ops, n).src_identifier == c.src_identifier,
    decreases n,
{
    if n > 0 {
        lemma_with_updates_keeps_identifier(c, ops, n - 1);
    }
}

/// A post created and deleted at the source before its creation was sent anywhere leaves
/// nothing about it queued for that source: when the diffed operations delete `x` (and say
/// nothing else of it), and its creation is still queued for every destination merged in,
/// with no edit or deletion of it queued, the merged queue holds no operation of the source
/// that mentions `x`.
pub proof fn lemma_delete_cancels_pending_create(
    queue: Seq<OperationView>,
    src: AccountKey,
    dsts: Seq<AccountKey>,
    ops: Seq<OperationStatusView>,
    x: Seq<char>,
    result: Seq<OperationView>,
)
    requires
        result.to_multiset() == merged(queue, src, dsts, ops).to_multiset(),
        deletes_post(ops, x),
        forall|i: int|
            0 <= i < ops.len() && mentions(#[trigger] ops[i], x) ==> is_delete_post_of(x)(ops[i]),
        forall|j: int|
            0 <= j < dsts.len() ==> queued(
                queue,
                is_create_post_for(AccountPair::of_keys(src, #[trigger] dsts[j]), x),
            ),
        forall|k: int|
            0 <= k < queue.len() && (#[trigger] queue[k]).account_pair.src_key().same(src)
                && mentions(queue[k].status, x) ==> queue[k].status is CreatePost
                || queue[k].status is CreateRepost,
    ensures
        forall|k: int|
            0 <= k < result.len() && (#[trigger] result[k]).account_pair.src_key().same(src)
                ==> !mentions(result[k].status, x),
{
    assert forall|k: int|
        0 <= k < result.len() && (#[trigger] result[k]).account_pair.src_key().same(
            src,
        ) implies !mentions(result[k].status, x) by {
        let y = result[k];
        lemma_member_of_permutation(result, merged(queue, src, dsts, ops), k);
        lemma_merged_members(queue, src, dsts, ops, y);
        if exists|n: int|
            0 <= n < queue.len() && !is_cancelled(queue[n], src, ops) && y == updated(
                queue[n],
                src,
                ops,
            ) {
            let n = choose|n: int|
                0 <= n < queue.len() && !is_cancelled(queue[n], src, ops) && y == updated(
                    queue[n],
                    src,
                    ops,
                );
            if let OperationStatusView::CreatePost(c) = queue[n].status {
                lemma_with_updates_keeps_identifier(c, ops, ops.len() as int);
            }
            if mentions(y.status, x) {
                assert(queue[n].account_pair == y.account_pair);
                assert(mentions(queue[n].status, x));
            }
        } else {
            let (j, i) = choose|j: int, i: int|
                0 <= j < dsts.len() && 0 <= i < ops.len() && !is_redundant(
                    queue,
                    AccountPair::of_keys(src, dsts[j]),
                    ops[i],
                ) && y == (OperationView {
                    account_pair: AccountPair::of_keys(src, dsts[j]),
                    status: ops[i],
                });
            if mentions(y.status, x) {
                assert(is_delete_post_of(x)(ops[i]));
                assert(queued(queue, is_create_post_for(AccountPair::of_keys(src, dsts[j]), x)));
            }
        }
    }
}

/// The place of an operation in pop order: creations first, then edits and repost
/// deletions, then post deletions.
pub open spec fn pop_rank(o: OperationView) -> int {
    match o.status {
        OperationStatusView::CreatePost(_) => 0,
        OperationStatusView::CreateRepost(_) => 0,
        OperationStatusView::UpdatePost(_) => 1,
        OperationStatusView::DeleteRepost(_) => 1,
        OperationStatusView::DeletePost(_) => 2,
    }
}

pub open spec fn created_of(o: OperationView) -> int {
    match o.status {
        OperationStatusView::CreatePost(c) => c.created_at as int,
        OperationStatusView::CreateRepost(c) => c.created_at as int,
        _ => 0,
    }
}

/// Popping a queue in key order from the back yields the creations newest first, then the
/// edits and repost deletions, then the post deletions: of two operations, the one nearer the
/// back (`q[j]`, popped earlier) comes no later in that order, and of two creations it is the
/// newer or equally new.
pub proof fn lemma_queue_order(q: Seq<OperationView>, i: int, j: int)
    requires
        sorted_by_key(q),
        0 <= i < j < q.len(),
    ensures
        pop_rank(q[j]) <= pop_rank(q[i]),
        pop_rank(q[i]) == 0 && pop_rank(q[j]) == 0 ==> created_of(q[j]) >= created_of(q[i]),
{
    assert(q[i].sort_key() <= q[j].sort_key());
}

} // verus!
