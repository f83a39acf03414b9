//! The diff engine: from a fetched timeline and its stored view to authoring operations.
use vstd::prelude::*;

use crate::search::{first_index, is_first_index, lemma_first_index_is, lemma_first_index_none};
use crate::store::operations::{
    copy_external_option, copy_facets, copy_media, copy_string_option, CreatePostOperationStatus,
    CreatePostStatusView, DeletePostOperationStatus, DeleteRepostOperationStatus, External, Facet,
    OperationStatusView, UpdatePostOperationStatus, UpdatePostStatusView,
};
use crate::store::user::SourceStatus;
use super::source::{
    lemma_strings_view_push, strings_view, normalized, normalized_all, lemma_source_ops_view_push, source_ops_view, LiveExternal, LivePost, LiveStatus, Operation,
};

verus! {

/// The latest creation time in `stored`; below every `i64` when `stored` is empty.
pub open spec fn latest_created(stored: Seq<SourceStatus>) -> int
    decreases stored.len(),
{
    if stored.len() == 0 {
        i64::MIN as int - 1
    } else {
        let rest = latest_created(stored.drop_last());
        if stored.last().created() as int > rest {
            stored.last().created() as int
        } else {
            rest
        }
    }
}

/// The earliest creation time in `live`; above every `i64` when `live` is empty.
pub open spec fn oldest_created(live: Seq<LiveStatus>) -> int
    decreases live.len(),
{
    if live.len() == 0 {
        i64::MAX as int + 1
    } else {
        let rest = oldest_created(live.drop_last());
        if (live.last().created() as int) < rest {
            live.last().created() as int
        } else {
            rest
        }
    }
}

pub open spec fn is_live_post_with(identifier: Seq<char>) -> spec_fn(LiveStatus) -> bool {
    |l: LiveStatus|
        match l {
            LiveStatus::Post(p) => p.identifier@ == identifier,
            LiveStatus::Repost(_) => false,
        }
}

pub open spec fn is_live_repost_with(identifier: Seq<char>) -> spec_fn(LiveStatus) -> bool {
    |l: LiveStatus|
        match l {
            LiveStatus::Post(_) => false,
            LiveStatus::Repost(r) => r.src_identifier@ == identifier,
        }
}

pub open spec fn has_live(live: Seq<LiveStatus>, p: spec_fn(LiveStatus) -> bool) -> bool {
    exists|j: int| 0 <= j < live.len() && p(live[j])
}

/// A reply is mirrored only when the post it answers is in the same batch: replies to other
/// accounts are left out.
pub open spec fn reply_in_batch(live: Seq<LiveStatus>, post: LivePost) -> bool {
    match post.reply_src_identifier {
        Some(r) => has_live(live, is_live_post_with(r@)),
        None => true,
    }
}

/// Whether `live[i]` is newer than everything stored and passes the reply filter.
pub open spec fn is_creation(live: Seq<LiveStatus>, stored: Seq<SourceStatus>, i: int) -> bool {
    &&& live[i].created() > latest_created(stored)
    &&& match live[i] {
        LiveStatus::Post(p) => reply_in_batch(live, p),
        LiveStatus::Repost(_) => true,
    }
}

/// The link card read for `live[i]`, when one was.
pub open spec fn card_at(cards: Seq<Option<External>>, i: int) -> Option<External> {
    if 0 <= i < cards.len() {
        cards[i]
    } else {
        None
    }
}

pub open spec fn resolved_external(external: LiveExternal, card: Option<External>) -> Option<External> {
    match external {
        LiveExternal::Known(x) => Some(x),
        LiveExternal::Absent => None,
        LiveExternal::Unknown => card,
    }
}

/// The creation that a new live item stands for.
pub open spec fn creation_of(live: LiveStatus, card: Option<External>) -> OperationStatusView {
    match live {
        LiveStatus::Post(p) => OperationStatusView::CreatePost(
            CreatePostStatusView {
                src_identifier: p.identifier,
                src_uri: p.uri,
                content: p.content,
                facets: p.facets@,
                reply_src_identifier: p.reply_src_identifier,
                media: p.media@,
                external: resolved_external(p.external, card),
                created_at: p.created_at,
            },
        ),
        LiveStatus::Repost(r) => OperationStatusView::CreateRepost(r),
    }
}

/// The creations among the first `n` live items, in live order.
pub open spec fn creations(
    live: Seq<LiveStatus>,
    stored: Seq<SourceStatus>,
    cards: Seq<Option<External>>,
    n: int,
) -> Seq<OperationStatusView>
    decreases n,
{
    if n <= 0 {
        seq![]
    } else {
        let rest = creations(live, stored, cards, n - 1);
        if is_creation(live, stored, n - 1) {
            rest.push(creation_of(live[n - 1], card_at(cards, n - 1)))
        } else {
            rest
        }
    }
}

/// What a stored item inside the live window turns into: an edit, a deletion, or nothing.
pub open spec fn change_of(live: Seq<LiveStatus>, stored: SourceStatus) -> Option<OperationStatusView> {
    match stored {
        SourceStatus::Post(p) => match first_index(live, is_live_post_with(p.identifier@)) {
            Some(j) => match live[j] {
                LiveStatus::Post(l) => if l.content@ == p.content@ {
                    None
                } else {
                    Some(
                        OperationStatusView::UpdatePost(
                            UpdatePostStatusView {
                                src_identifier: l.identifier,
                                content: l.content,
                                facets: l.facets@,
                            },
                        ),
                    )
                },
                LiveStatus::Repost(_) => None,
            },
            None => Some(
                OperationStatusView::DeletePost(
                    DeletePostOperationStatus { src_identifier: p.identifier },
                ),
            ),
        },
        SourceStatus::Repost(r) => if has_live(live, is_live_repost_with(r.identifier@)) {
            None
        } else {
            Some(
                OperationStatusView::DeleteRepost(
                    DeleteRepostOperationStatus { src_identifier: r.identifier },
                ),
            )
        },
    }
}

/// The edits and deletions among the first `n` stored items, in stored order. Only items at
/// or after the oldest live item are compared: older ones fell out of the fetched window.
pub open spec fn changes(live: Seq<LiveStatus>, stored: Seq<SourceStatus>, n: int) -> Seq<
    OperationStatusView,
>
    decreases n,
{
    if n <= 0 {
        seq![]
    } else {
        let rest = changes(live, stored, n - 1);
        if stored[n - 1].created() >= oldest_created(live) {
            match change_of(live, stored[n - 1]) {
                Some(o) => rest.push(o),
                None => rest,
            }
        } else {
            rest
        }
    }
}

/// The operations that a fetch of `live` yields against the stored view `stored`: nothing
/// when either is empty (the first fetch only records a baseline), else the creations followed
/// by the edits and deletions.
pub open spec fn diff(
    live: Seq<LiveStatus>,
    stored: Seq<SourceStatus>,
    cards: Seq<Option<External>>,
) -> Seq<OperationStatusView> {
    if live.len() == 0 || stored.len() == 0 {
        seq![]
    } else {
        creations(live, stored, cards, live.len() as int) + changes(
            live,
            stored,
            stored.len() as int,
        )
    }
}

/// Whether no two posts of `live` share an identifier.
pub open spec fn post_identifiers_distinct(live: Seq<LiveStatus>) -> bool {
    forall|i: int, j: int|
        0 <= i < live.len() && 0 <= j < live.len() && i != j && live[i] is Post && live[j] is Post
            ==> live[i]->Post_0.identifier@ != live[j]->Post_0.identifier@
}

proof fn lemma_latest_bounds(stored: Seq<SourceStatus>)
    ensures
        forall|k: int| 0 <= k < stored.len() ==> stored[k].created() <= latest_created(stored),
    decreases stored.len(),
{
    if stored.len() > 0 {
        lemma_latest_bounds(stored.drop_last());
        assert forall|k: int| 0 <= k < stored.len() implies stored[k].created() <= latest_created(
            stored,
        ) by {
            if k < stored.len() - 1 {
                assert(stored.drop_last()[k] == stored[k]);
            }
        }
    }
}

proof fn lemma_no_creations(
    live: Seq<LiveStatus>,
    stored: Seq<SourceStatus>,
    cards: Seq<Option<External>>,
    n: int,
)
    requires
        n <= live.len(),
        forall|k: int| 0 <= k < live.len() ==> live[k].created() <= latest_created(stored),
    ensures
        creations(live, stored, cards, n) == Seq::<OperationStatusView>::empty(),
    decreases n,
{
    if n > 0 {
        lemma_no_creations(live, stored, cards, n - 1);
    }
}

proof fn lemma_no_changes(live: Seq<LiveStatus>, n: int)
    requires
        n <= live.len(),
        post_identifiers_distinct(live),
    ensures
        changes(live, normalized_all(live), n) == Seq::<OperationStatusView>::empty(),
    decreases n,
{
    if n > 0 {
        lemma_no_changes(live, n - 1);
        let k = n - 1;
        let stored = normalized_all(live);
        assert(stored[k] == normalized(live[k]));
        match live[k] {
            LiveStatus::Post(p) => {
                let pred = is_live_post_with(p.identifier@);
                assert(is_first_index(live, pred, k)) by {
                    assert forall|j: int| 0 <= j < k implies !pred(live[j]) by {
                        if live[j] is Post {
                            assert(live[j]->Post_0.identifier@ != p.identifier@);
                        }
                    }
                }
                lemma_first_index_is(live, pred, k);
                assert(change_of(live, stored[k]) is None);
            },
            LiveStatus::Repost(r) => {
                assert(is_live_repost_with(r.src_identifier@)(live[k]));
                assert(change_of(live, stored[k]) is None);
            },
        }
    }
}

/// Diffing a timeline against the stored view made from that same timeline yields no
/// operation, provided no two of its posts share an identifier.
pub proof fn lemma_diff_fixpoint(live: Seq<LiveStatus>, cards: Seq<Option<External>>)
    requires
        post_identifiers_distinct(live),
    ensures
        diff(live, normalized_all(live), cards) == Seq::<OperationStatusView>::empty(),
{
    let stored = normalized_all(live);
    if live.len() > 0 {
        lemma_latest_bounds(stored);
        assert forall|k: int| 0 <= k < live.len() implies live[k].created() <= latest_created(
            stored,
        ) by {
            assert(stored[k] == normalized(live[k]));
        }
        lemma_no_creations(live, stored, cards, live.len() as int);
        lemma_no_changes(live, live.len() as int);
        assert(diff(live, stored, cards) =~= Seq::<OperationStatusView>::empty());
    }
}

fn latest_stored_created(stored: &Vec<SourceStatus>) -> (r: i64)
    requires
        stored@.len() > 0,
    ensures
        r as int == latest_created(stored@),
{
    let mut latest: i64 = *stored[0].created_at();
    let mut i: usize = 1;
    assert(stored@.take(1).drop_last() =~= seq![]);
    assert(stored@.take(1).last() == stored@[0]);
    assert(latest_created(stored@.take(1).drop_last()) == i64::MIN as int - 1);
    while i < stored.len()
        invariant
            1 <= i <= stored@.len(),
            latest as int == latest_created(stored@.take(i as int)),
        decreases stored@.len() - i,
    {
        let c = *stored[i].created_at();
        assert(stored@.take(i + 1).drop_last() =~= stored@.take(i as int));
        if c > latest {
            latest = c;
        }
        i += 1;
    }
    assert(stored@.take(i as int) =~= stored@);
    latest
}

fn oldest_live_created(live: &Vec<LiveStatus>) -> (r: i64)
    requires
        live@.len() > 0,
    ensures
        r as int == oldest_created(live@),
{
    let mut oldest: i64 = *live[0].created_at();
    let mut i: usize = 1;
    assert(live@.take(1).drop_last() =~= seq![]);
    assert(live@.take(1).last() == live@[0]);
    assert(oldest_created(live@.take(1).drop_last()) == i64::MAX as int + 1);
    while i < live.len()
        invariant
            1 <= i <= live@.len(),
            oldest as int == oldest_created(live@.take(i as int)),
        decreases live@.len() - i,
    {
        let c = *live[i].created_at();
        assert(live@.take(i + 1).drop_last() =~= live@.take(i as int));
        if c < oldest {
            oldest = c;
        }
        i += 1;
    }
    assert(live@.take(i as int) =~= live@);
    oldest
}

/// The position of the first live post with this identifier.
fn find_live_post(live: &Vec<LiveStatus>, identifier: &String) -> (r: Option<usize>)
    ensures
        r matches Some(j) ==> is_first_index(live@, is_live_post_with(identifier@), j as int),
        r is None ==> forall|j: int|
            0 <= j < live@.len() ==> !is_live_post_with(identifier@)(live@[j]),
{
    let mut i: usize = 0;
    while i < live.len()
        invariant
            i <= live@.len(),
            forall|j: int| 0 <= j < i ==> !is_live_post_with(identifier@)(live@[j]),
        decreases live@.len() - i,
    {
        match &live[i] {
            LiveStatus::Post(p) => {
                if p.identifier == *identifier {
                    assert(is_first_index(live@, is_live_post_with(identifier@), i as int));
                    return Some(i);
                }
            },
            LiveStatus::Repost(_) => {},
        }
        i += 1;
    }
    None
}

fn has_live_repost(live: &Vec<LiveStatus>, identifier: &String) -> (r: bool)
    ensures
        r == has_live(live@, is_live_repost_with(identifier@)),
{
    let mut i: usize = 0;
    while i < live.len()
        invariant
            i <= live@.len(),
            forall|j: int| 0 <= j < i ==> !is_live_repost_with(identifier@)(live@[j]),
        decreases live@.len() - i,
    {
        match &live[i] {
            LiveStatus::Post(_) => {},
            LiveStatus::Repost(r) => {
                if r.src_identifier == *identifier {
                    assert(is_live_repost_with(identifier@)(live@[i as int]));
                    return true;
                }
            },
        }
        i += 1;
    }
    false
}

fn is_creation_at(live: &Vec<LiveStatus>, latest: i64, i: usize) -> (r: bool)
    requires
        i < live@.len(),
    ensures
        r == (live@[i as int].created() > latest && match live@[i as int] {
            LiveStatus::Post(p) => reply_in_batch(live@, p),
            LiveStatus::Repost(_) => true,
        }),
{
    if *live[i].created_at() <= latest {
        return false;
    }
    match &live[i] {
        LiveStatus::Post(p) => match &p.reply_src_identifier {
            Some(reply) => {
                let found = find_live_post(live, reply);
                found.is_some()
            },
            None => true,
        },
        LiveStatus::Repost(_) => true,
    }
}

/// The creation operation for a new live item, with the link card read for it.
pub fn into_operation(live: &LiveStatus, card: Option<External>) -> (r: Operation)
    ensures
        r@ == creation_of(*live, card),
{
    match live {
        LiveStatus::Post(p) => {
            let external = match &p.external {
                LiveExternal::Known(x) => Some(x.duplicate()),
                LiveExternal::Absent => None,
                LiveExternal::Unknown => card,
            };
            Operation::CreatePost(
                CreatePostOperationStatus {
                    src_identifier: p.identifier.clone(),
                    src_uri: p.uri.clone(),
                    content: p.content.clone(),
                    facets: copy_facets(&p.facets),
                    reply_src_identifier: copy_string_option(&p.reply_src_identifier),
                    media: copy_media(&p.media),
                    external,
                    created_at: p.created_at,
                },
            )
        },
        LiveStatus::Repost(r) => Operation::CreateRepost(r.duplicate()),
    }
}

fn change_for(live: &Vec<LiveStatus>, stored: &SourceStatus) -> (r: Option<Operation>)
    ensures
        match change_of(live@, *stored) {
            Some(o) => r matches Some(x) && x@ == o,
            None => r is None,
        },
{
    match stored {
        SourceStatus::Post(p) => {
            let found = find_live_post(live, &p.identifier);
            proof {
                match found {
                    Some(jj) => lemma_first_index_is(live@, is_live_post_with(p.identifier@), jj as int),
                    None => lemma_first_index_none(live@, is_live_post_with(p.identifier@)),
                }
            }
            match found {
                Some(j) => match &live[j] {
                    LiveStatus::Post(l) => {
                        if l.content == p.content {
                            None
                        } else {
                            Some(
                                Operation::UpdatePost(
                                    UpdatePostOperationStatus {
                                        src_identifier: l.identifier.clone(),
                                        content: l.content.clone(),
                                        facets: copy_facets(&l.facets),
                                    },
                                ),
                            )
                        }
                    },
                    LiveStatus::Repost(_) => None,
                },
                None => Some(
                    Operation::DeletePost(
                        DeletePostOperationStatus { src_identifier: p.identifier.clone() },
                    ),
                ),
            }
        },
        SourceStatus::Repost(r) => {
            if has_live_repost(live, &r.identifier) {
                None
            } else {
                Some(
                    Operation::DeleteRepost(
                        DeleteRepostOperationStatus { src_identifier: r.identifier.clone() },
                    ),
                )
            }
        },
    }
}

pub open spec fn link_uris_of(facets: Seq<Facet>) -> Seq<Seq<char>> {
    facets.map_values(|f: Facet| match f {
        Facet::Link { byte_slice: _, uri } => uri@,
    })
}

/// The URIs of the link facets, in order.
pub fn link_uris(facets: &Vec<Facet>) -> (r: Vec<String>)
    ensures
        strings_view(r@) == link_uris_of(facets@),
{
    let mut r: Vec<String> = Vec::new();
    let mut i: usize = 0;
    while i < facets.len()
        invariant
            i <= facets@.len(),
            strings_view(r@) == link_uris_of(facets@.take(i as int)),
        decreases facets@.len() - i,
    {
        match &facets[i] {
            Facet::Link { byte_slice: _, uri } => {
                let u = uri.clone();
                proof {
                    lemma_strings_view_push(r@, u);
                }
                r.push(u);
            },
        }
        i += 1;
        assert(strings_view(r@) =~= link_uris_of(facets@.take(i as int)));
    }
    assert(facets@.take(i as int) =~= facets@);
    r
}

/// The links to try, in order, for the card of `live[i]`: those of a new post whose card the
/// source does not expose, none for any other item.
pub open spec fn card_targets(live: Seq<LiveStatus>, stored: Seq<SourceStatus>, i: int) -> Seq<
    Seq<char>,
> {
    if stored.len() > 0 && is_creation(live, stored, i) {
        match live[i] {
            LiveStatus::Post(p) => match p.external {
                LiveExternal::Unknown => link_uris_of(p.facets@),
                _ => Seq::empty(),
            },
            LiveStatus::Repost(_) => Seq::empty(),
        }
    } else {
        Seq::empty()
    }
}

/// For each live item, the links whose pages may give its card; the caller fetches them in
/// order and keeps the first card read (see [`crate::page::create_external`]).
pub fn link_card_targets(live_statuses: &Vec<LiveStatus>, stored_statuses: &Vec<SourceStatus>) -> (r:
    Vec<Vec<String>>)
    ensures
        r@.len() == live_statuses@.len(),
        forall|i: int|
            0 <= i < r@.len() ==> strings_view((#[trigger] r@[i])@) == card_targets(
                live_statuses@,
                stored_statuses@,
                i,
            ),
{
    let mut r: Vec<Vec<String>> = Vec::new();
    let latest: i64 = if stored_statuses.len() > 0 {
        latest_stored_created(stored_statuses)
    } else {
        0
    };
    let mut i: usize = 0;
    while i < live_statuses.len()
        invariant
            i <= live_statuses@.len(),
            r@.len() == i,
            stored_statuses@.len() > 0 ==> latest as int == latest_created(stored_statuses@),
            forall|k: int|
                0 <= k < i ==> strings_view((#[trigger] r@[k])@) == card_targets(
                    live_statuses@,
                    stored_statuses@,
                    k,
                ),
        decreases live_statuses@.len() - i,
    {
        let mut uris: Vec<String> = Vec::new();
        if stored_statuses.len() > 0 && is_creation_at(live_statuses, latest, i) {
            match &live_statuses[i] {
                LiveStatus::Post(p) => match &p.external {
                    LiveExternal::Unknown => {
                        uris = link_uris(&p.facets);
                    },
                    _ => {},
                },
                LiveStatus::Repost(_) => {},
            }
        }
        assert(strings_view(uris@) =~= card_targets(live_statuses@, stored_statuses@, i as int));
        r.push(uris);
        i += 1;
    }
    r
}

/// Diffs a fetched timeline against its stored view. `cards[i]` is the link card read for
/// `live[i]`; it is used only for a new post whose card the source does not expose.
pub fn create_operations(
    live_statuses: &Vec<LiveStatus>,
    stored_statuses: &Vec<SourceStatus>,
    cards: &Vec<Option<External>>,
) -> (r: Vec<Operation>)
    ensures
        source_ops_view(r@) == diff(live_statuses@, stored_statuses@, cards@),
{
    let mut r: Vec<Operation> = Vec::new();
    if live_statuses.len() == 0 || stored_statuses.len() == 0 {
        assert(source_ops_view(r@) =~= seq![]);
        return r;
    }
    let latest = latest_stored_created(stored_statuses);
    let mut i: usize = 0;
    while i < live_statuses.len()
        invariant
            i <= live_statuses@.len(),
            latest as int == latest_created(stored_statuses@),
            source_ops_view(r@) == creations(live_statuses@, stored_statuses@, cards@, i as int),
        decreases live_statuses@.len() - i,
    {
        if is_creation_at(live_statuses, latest, i) {
            let card = if i < cards.len() {
                copy_external_option(&cards[i])
            } else {
                None
            };
            let o = into_operation(&live_statuses[i], card);
            proof {
                lemma_source_ops_view_push(r@, o);
            }
            r.push(o);
        }
        i += 1;
    }
    let oldest = oldest_live_created(live_statuses);
    let ghost made = source_ops_view(r@);
    let mut k: usize = 0;
    while k < stored_statuses.len()
        invariant
            k <= stored_statuses@.len(),
            oldest as int == oldest_created(live_statuses@),
            source_ops_view(r@) == made + changes(live_statuses@, stored_statuses@, k as int),
        decreases stored_statuses@.len() - k,
    {
        if *stored_statuses[k].created_at() >= oldest {
            match change_for(live_statuses, &stored_statuses[k]) {
                Some(o) => {
                    proof {
                        lemma_source_ops_view_push(r@, o);
                    }
                    r.push(o);
                    assert(source_ops_view(r@) =~= made + changes(
                        live_statuses@,
                        stored_statuses@,
                        k + 1,
                    ));
                },
                None => {},
            }
        }
        k += 1;
    }
    r
}

} // verus!
