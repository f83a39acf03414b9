use timelineecho::account::AccountKey;
use timelineecho::operations::destination::{complete_operation, next_step, resolve_operation, Resolution};
use timelineecho::operations::utils::{find_post_dst_identifier, find_repost_dst_identifier};
use timelineecho::sources::merge_operations::{merge_operations, sort_operations};
use timelineecho::sources::operation_factory::{create_operations, link_card_targets};
use timelineecho::sources::source::{
    has_users_operations, necessary_post_src_identifiers, necessary_repost_src_identifiers,
    record_fetch, retain_all_dst_statuses, to_source_statuses, LiveExternal, LivePost, LiveStatus,
    Operation as SourceOperation,
};
use timelineecho::store::operations::{
    AccountPair, CreatePostOperation, CreatePostOperationStatus, CreateRepostOperation,
    CreateRepostOperationStatus, DeletePostOperation, DeletePostOperationStatus,
    DeleteRepostOperation, DeleteRepostOperationStatus, External, Facet, Operation,
    UpdatePostOperation, UpdatePostOperationStatus,
};
use timelineecho::store::user::{
    Destination, DestinationStatus, IdentifierPair, Source, SourcePost, SourceRepost, SourceStatus,
    User,
};
use timelineecho::store::Store;

fn key(origin: &str, identifier: &str) -> AccountKey {
    AccountKey { origin: origin.to_string(), identifier: identifier.to_string() }
}

fn src_key() -> AccountKey {
    key("https://src.example", "alice")
}

fn dst_keys() -> Vec<AccountKey> {
    vec![key("https://bsky.social", "alice.bsky"), key("https://misskey.example", "alice-mk")]
}

fn post(id: &str, content: &str, t: i64) -> LiveStatus {
    LiveStatus::Post(LivePost {
        identifier: id.to_string(),
        uri: format!("https://src.example/@alice/{}", id),
        content: content.to_string(),
        facets: vec![],
        reply_src_identifier: None,
        media: vec![],
        external: LiveExternal::Absent,
        created_at: t,
    })
}

fn reply(id: &str, parent: &str, t: i64) -> LiveStatus {
    match post(id, "reply", t) {
        LiveStatus::Post(mut p) => {
            p.reply_src_identifier = Some(parent.to_string());
            LiveStatus::Post(p)
        }
        other => other,
    }
}

fn repost(id: &str, target: &str, t: i64) -> LiveStatus {
    LiveStatus::Repost(CreateRepostOperationStatus {
        src_identifier: id.to_string(),
        target_src_identifier: target.to_string(),
        target_src_uri: format!("https://src.example/{}", target),
        created_at: t,
    })
}

fn stored_post(id: &str, content: &str, t: i64) -> SourceStatus {
    SourceStatus::Post(SourcePost { identifier: id.to_string(), content: content.to_string(), created_at: t })
}

fn store_with(statuses: Vec<SourceStatus>) -> Store {
    let mut store = Store::new();
    let k = src_key();
    store.users.push(User {
        src: Source { origin: k.origin, identifier: k.identifier, statuses },
        dsts: vec![],
    });
    store
}

fn created_ids(ops: &[Operation]) -> Vec<String> {
    ops.iter()
        .filter_map(|o| match o {
            Operation::CreatePost(c) => Some(c.status.src_identifier.clone()),
            _ => None,
        })
        .collect()
}

fn sync(store: &mut Store, live: &Vec<LiveStatus>) -> Vec<SourceOperation> {
    let cards = vec![];
    let outcome = record_fetch(store, &src_key(), live, &cards);
    if !outcome.operations.is_empty() {
        merge_operations(store, &dst_keys(), &src_key(), &outcome.operations);
    }
    outcome.operations
}

#[test]
fn bootstrap_queues_nothing_and_records_baseline() {
    let mut store = Store::new();
    let live = vec![post("A", "a", 10), post("B", "b", 20), post("C", "c", 30)];
    let outcome = record_fetch(&mut store, &src_key(), &live, &vec![]);
    assert!(outcome.operations.is_empty());
    assert!(outcome.needs_commit);
    assert!(!outcome.needs_destinations);
    assert!(store.operations.is_empty());
    assert_eq!(store.users.len(), 1);
    assert_eq!(store.users[0].src.statuses.len(), 3);
}

#[test]
fn simple_create_queues_one_post_per_destination_and_records_mapping() {
    let mut store = store_with(vec![stored_post("A", "a", 10), stored_post("B", "b", 20)]);
    let live = vec![post("A", "a", 10), post("B", "b", 20), post("C", "c", 30)];
    let ops = sync(&mut store, &live);
    assert_eq!(ops.len(), 1);
    assert_eq!(store.operations.len(), 2);
    assert_eq!(created_ids(&store.operations), vec!["C".to_string(), "C".to_string()]);
    for n in 0..2 {
        match next_step(&store, false, n, None) {
            Some(Resolution::Post { reply_identifier: None }) => {}
            other => panic!("unexpected step {:?}", other),
        }
        complete_operation(&mut store, Some(format!("dst-C-{}", n)));
    }
    assert!(next_step(&store, false, 2, None).is_none());
    let user = &store.users[0];
    assert_eq!(user.dsts.len(), 2);
    for dst in &user.dsts {
        assert_eq!(dst.statuses.len(), 1);
        match &dst.statuses[0] {
            DestinationStatus::Post(p) => {
                assert_eq!(p.src_identifier, "C");
                assert!(p.identifier.starts_with("dst-C-"));
            }
            DestinationStatus::Repost(_) => panic!("expected a post row"),
        }
    }
}

#[test]
fn edit_in_window_queues_update_per_destination() {
    let mut store = store_with(vec![stored_post("A", "hi", 20)]);
    let live = vec![post("A", "hello", 20)];
    let ops = sync(&mut store, &live);
    assert_eq!(ops.len(), 1);
    assert_eq!(store.operations.len(), 2);
    for op in &store.operations {
        match op {
            Operation::UpdatePost(u) => {
                assert_eq!(u.status.src_identifier, "A");
                assert_eq!(u.status.content, "hello");
            }
            _ => panic!("expected an update"),
        }
    }
}

#[test]
fn delete_in_window_queues_delete_and_replaces_stored_view() {
    let mut store = store_with(vec![
        stored_post("O", "o", 10),
        stored_post("A", "a", 20),
        stored_post("B", "b", 30),
    ]);
    let live = vec![post("B", "b", 30), post("O", "o", 10)];
    sync(&mut store, &live);
    assert_eq!(store.operations.len(), 2);
    for op in &store.operations {
        match op {
            Operation::DeletePost(d) => assert_eq!(d.status.src_identifier, "A"),
            _ => panic!("expected a deletion"),
        }
    }
    let statuses = &store.users[0].src.statuses;
    assert_eq!(statuses.len(), 2);
    match &statuses[0] {
        SourceStatus::Post(p) => assert_eq!(p.identifier, "B"),
        SourceStatus::Repost(_) => panic!("expected a post"),
    }
}

#[test]
fn items_older_than_the_fetched_window_are_not_deleted() {
    let mut store = store_with(vec![stored_post("A", "a", 20), stored_post("B", "b", 30)]);
    let live = vec![post("B", "b", 30)];
    sync(&mut store, &live);
    assert!(store.operations.is_empty());
    let statuses = &store.users[0].src.statuses;
    assert_eq!(statuses.len(), 1);
    match &statuses[0] {
        SourceStatus::Post(p) => assert_eq!(p.identifier, "B"),
        SourceStatus::Repost(_) => panic!("expected a post"),
    }
}

#[test]
fn create_then_delete_before_dispatch_cancels_pending_create() {
    let mut store = store_with(vec![stored_post("Z", "z", 5)]);
    let first = vec![post("A", "a", 10), post("B", "b", 20), post("C", "c", 30), post("Z", "z", 5)];
    sync(&mut store, &first);
    assert_eq!(store.operations.len(), 6);
    let second = vec![post("A", "a", 10), post("C", "c", 30), post("Z", "z", 5)];
    sync(&mut store, &second);
    let mentions_b = store.operations.iter().any(|o| match o {
        Operation::CreatePost(c) => c.status.src_identifier == "B",
        Operation::DeletePost(d) => d.status.src_identifier == "B",
        Operation::UpdatePost(u) => u.status.src_identifier == "B",
        _ => false,
    });
    assert!(!mentions_b);
    assert_eq!(store.operations.len(), 4);
}

#[test]
fn reply_to_self_queues_both_and_pops_newest_first() {
    let mut store = store_with(vec![stored_post("Z", "z", 1)]);
    let live = vec![reply("R", "A", 11), post("A", "a", 10), post("Z", "z", 1)];
    sync(&mut store, &live);
    // one destination at a time: keep only the first destination's operations
    let first_dst = dst_keys()[0].clone();
    store.operations.retain(|o| o.account_pair().to_dst_key() == first_dst);
    assert_eq!(created_ids(&store.operations), vec!["A".to_string(), "R".to_string()]);
    // the newest creation, the reply, is popped first; its parent is not mapped yet
    match next_step(&store, false, 0, None) {
        Some(Resolution::Post { reply_identifier: None }) => {}
        other => panic!("unexpected step {:?}", other),
    }
    complete_operation(&mut store, Some("dst-R".to_string()));
    match next_step(&store, false, 1, None) {
        Some(Resolution::Post { reply_identifier: None }) => {}
        other => panic!("unexpected step {:?}", other),
    }
}

#[test]
fn reply_to_self_resolves_to_parent_destination_identifier() {
    let mut store = store_with(vec![stored_post("Z", "z", 1)]);
    sync(&mut store, &vec![post("A", "a", 10), post("Z", "z", 1)]);
    let first_dst = dst_keys()[0].clone();
    store.operations.retain(|o| o.account_pair().to_dst_key() == first_dst);
    assert!(next_step(&store, false, 0, None).is_some());
    complete_operation(&mut store, Some("dst-A".to_string()));
    assert!(store.operations.is_empty());
    sync(&mut store, &vec![reply("R", "A", 11), post("A", "a", 10), post("Z", "z", 1)]);
    store.operations.retain(|o| o.account_pair().to_dst_key() == first_dst);
    assert_eq!(created_ids(&store.operations), vec!["R".to_string()]);
    match next_step(&store, false, 0, None) {
        Some(Resolution::Post { reply_identifier: Some(r) }) => assert_eq!(r, "dst-A"),
        other => panic!("unexpected step {:?}", other),
    }
}

#[test]
fn reply_to_another_account_is_not_mirrored() {
    let stored = vec![stored_post("Z", "z", 1)];
    let live = vec![reply("R", "elsewhere", 11), post("Z", "z", 1)];
    let ops = create_operations(&live, &stored, &vec![]);
    assert!(ops.is_empty());
}

#[test]
fn queued_operations_address_configured_destinations() {
    let mut store = store_with(vec![stored_post("A", "a", 10)]);
    let live = vec![post("A", "changed", 10), post("B", "b", 20), repost("P", "X", 30)];
    sync(&mut store, &live);
    let dsts = dst_keys();
    assert_eq!(store.operations.len(), 6);
    for op in &store.operations {
        assert!(op.account_pair().to_src_key() == src_key());
        assert!(dsts.contains(&op.account_pair().to_dst_key()));
    }
}

#[test]
fn pruning_keeps_only_referenced_rows() {
    let mut store = store_with(vec![
        stored_post("A", "a", 10),
        SourceStatus::Repost(SourceRepost {
            identifier: "P".to_string(),
            target_identifier: "T".to_string(),
            created_at: 20,
        }),
    ]);
    let row = |id: &str, src: &str| IdentifierPair { identifier: id.to_string(), src_identifier: src.to_string() };
    store.users[0].dsts.push(Destination {
        origin: "https://bsky.social".to_string(),
        identifier: "alice.bsky".to_string(),
        statuses: vec![
            DestinationStatus::Post(row("d1", "A")),
            DestinationStatus::Post(row("d2", "gone")),
            DestinationStatus::Post(row("d3", "T")),
            DestinationStatus::Repost(row("d4", "P")),
            DestinationStatus::Repost(row("d5", "A")),
        ],
    });
    assert_eq!(necessary_post_src_identifiers(&store.users), vec!["A".to_string(), "T".to_string()]);
    assert_eq!(necessary_repost_src_identifiers(&store.users), vec!["P".to_string()]);
    assert!(retain_all_dst_statuses(&mut store));
    let kept: Vec<String> = store.users[0].dsts[0]
        .statuses
        .iter()
        .map(|s| match s {
            DestinationStatus::Post(p) | DestinationStatus::Repost(p) => p.identifier.clone(),
        })
        .collect();
    assert_eq!(kept, vec!["d1".to_string(), "d3".to_string(), "d4".to_string()]);
    assert!(!retain_all_dst_statuses(&mut store));
}

#[test]
fn refetch_of_same_timeline_is_quiet() {
    let mut store = store_with(vec![stored_post("A", "a", 10)]);
    let live = vec![post("A", "a2", 10), post("B", "b", 20), repost("P", "A", 30)];
    let first = record_fetch(&mut store, &src_key(), &live, &vec![]);
    assert_eq!(first.operations.len(), 3);
    let second = record_fetch(&mut store, &src_key(), &live, &vec![]);
    assert!(second.operations.is_empty());
    assert!(!second.needs_commit);
}

#[test]
fn diff_against_own_normalized_view_is_empty() {
    let live = vec![post("A", "a", 10), repost("P", "A", 12), post("B", "b", 20)];
    let stored = to_source_statuses(&live);
    assert!(create_operations(&live, &stored, &vec![]).is_empty());
}

#[test]
fn queue_order_is_creations_newest_first_then_edits_then_deletions() {
    let pair = AccountPair::from_keys(src_key(), dst_keys()[0].clone());
    let create = |id: &str, t: i64| {
        Operation::CreatePost(CreatePostOperation {
            account_pair: pair.clone(),
            status: CreatePostOperationStatus {
                src_identifier: id.to_string(),
                src_uri: String::new(),
                content: String::new(),
                facets: vec![],
                reply_src_identifier: None,
                media: vec![],
                external: None,
                created_at: t,
            },
        })
    };
    let mut ops = vec![
        Operation::DeletePost(DeletePostOperation {
            account_pair: pair.clone(),
            status: DeletePostOperationStatus { src_identifier: "D".to_string() },
        }),
        create("old", 10),
        Operation::UpdatePost(UpdatePostOperation {
            account_pair: pair.clone(),
            status: UpdatePostOperationStatus {
                src_identifier: "U".to_string(),
                content: String::new(),
                facets: vec![],
            },
        }),
        create("new", 30),
        Operation::DeleteRepost(DeleteRepostOperation {
            account_pair: pair.clone(),
            status: DeleteRepostOperationStatus { src_identifier: "R".to_string() },
        }),
        Operation::CreateRepost(CreateRepostOperation {
            account_pair: pair.clone(),
            status: CreateRepostOperationStatus {
                src_identifier: "mid".to_string(),
                target_src_identifier: "X".to_string(),
                target_src_uri: String::new(),
                created_at: 20,
            },
        }),
    ];
    sort_operations(&mut ops);
    let kinds: Vec<String> = ops
        .iter()
        .map(|o| match o {
            Operation::CreatePost(c) => c.status.src_identifier.clone(),
            Operation::CreateRepost(c) => c.status.src_identifier.clone(),
            Operation::UpdatePost(_) => "update".to_string(),
            Operation::DeleteRepost(_) => "delete-repost".to_string(),
            Operation::DeletePost(_) => "delete-post".to_string(),
        })
        .collect();
    // popped from the back: newest creation first, post deletions last
    assert_eq!(kinds, vec!["delete-post", "update", "delete-repost", "old", "mid", "new"]);
    assert_eq!(ops[0].sort_key(), i64::MIN as i128 - 2);
    assert_eq!(ops[5].sort_key(), 30);
    let mut extreme = vec![create("earliest", i64::MIN), ops.remove(0)];
    sort_operations(&mut extreme);
    assert!(matches!(extreme[1], Operation::CreatePost(_)));
}

#[test]
fn update_before_send_rewrites_pending_create() {
    let mut store = store_with(vec![stored_post("Z", "z", 5)]);
    sync(&mut store, &vec![post("A", "draft", 10), post("Z", "z", 5)]);
    assert_eq!(store.operations.len(), 2);
    sync(&mut store, &vec![post("A", "final", 10), post("Z", "z", 5)]);
    assert_eq!(store.operations.len(), 2);
    for op in &store.operations {
        match op {
            Operation::CreatePost(c) => assert_eq!(c.status.content, "final"),
            _ => panic!("no edit should be queued behind an unsent creation"),
        }
    }
}

#[test]
fn deleting_a_repost_cancels_its_pending_creation() {
    let mut store = store_with(vec![stored_post("Z", "z", 5)]);
    sync(&mut store, &vec![repost("P", "X", 10), post("Z", "z", 5)]);
    assert_eq!(store.operations.len(), 2);
    sync(&mut store, &vec![post("Z", "z", 5)]);
    assert!(store.operations.is_empty());
}

#[test]
fn users_operations_are_found_by_source() {
    let mut store = store_with(vec![stored_post("Z", "z", 5)]);
    assert!(!has_users_operations(&store.operations, &src_key()));
    sync(&mut store, &vec![post("A", "a", 10), post("Z", "z", 5)]);
    assert!(has_users_operations(&store.operations, &src_key()));
    assert!(!has_users_operations(&store.operations, &key("https://src.example", "bob")));
}

#[test]
fn lookups_scan_every_user_of_the_source_origin() {
    let mut store = Store::new();
    let pair_bob = AccountPair::from_keys(key("https://src.example", "bob"), dst_keys()[0].clone());
    store.add_destination_status(
        &pair_bob,
        DestinationStatus::Post(IdentifierPair { identifier: "dst-X".to_string(), src_identifier: "X".to_string() }),
    );
    store.add_destination_status(
        &pair_bob,
        DestinationStatus::Repost(IdentifierPair { identifier: "dst-P".to_string(), src_identifier: "P".to_string() }),
    );
    let users = &store.users;
    assert_eq!(find_post_dst_identifier(users, "https://src.example", "X", "https://bsky.social"), Some("dst-X"));
    assert_eq!(find_post_dst_identifier(users, "https://src.example", "P", "https://bsky.social"), None);
    assert_eq!(find_repost_dst_identifier(users, "https://src.example", "P", "https://bsky.social"), Some("dst-P"));
    assert_eq!(find_post_dst_identifier(users, "https://other.example", "X", "https://bsky.social"), None);
    assert_eq!(find_post_dst_identifier(users, "https://src.example", "X", "https://misskey.example"), None);
    // a repost by alice of bob's post resolves through bob's mapping
    let pair_alice = AccountPair::from_keys(src_key(), dst_keys()[0].clone());
    let op = Operation::CreateRepost(CreateRepostOperation {
        account_pair: pair_alice.clone(),
        status: CreateRepostOperationStatus {
            src_identifier: "Q".to_string(),
            target_src_identifier: "X".to_string(),
            target_src_uri: String::new(),
            created_at: 1,
        },
    });
    match resolve_operation(&store.users, &op) {
        Resolution::Repost { target_identifier } => assert_eq!(target_identifier, "dst-X"),
        other => panic!("unexpected {:?}", other),
    }
    let missing = Operation::DeletePost(DeletePostOperation {
        account_pair: pair_alice,
        status: DeletePostOperationStatus { src_identifier: "nope".to_string() },
    });
    assert!(matches!(resolve_operation(&store.users, &missing), Resolution::Skip));
}

#[test]
fn dispatch_stops_on_cancellation_budget_or_empty_queue() {
    let mut store = store_with(vec![stored_post("Z", "z", 5)]);
    sync(&mut store, &vec![post("A", "a", 10), post("Z", "z", 5)]);
    assert!(next_step(&store, true, 0, None).is_none());
    assert!(next_step(&store, false, 2, Some(2)).is_none());
    assert!(next_step(&store, false, 1, Some(2)).is_some());
    complete_operation(&mut store, None);
    complete_operation(&mut store, None);
    assert!(next_step(&store, false, 0, None).is_none());
    assert!(store.users[0].dsts.is_empty());
}

#[test]
fn link_cards_are_sought_only_for_new_posts_without_known_card() {
    let stored = vec![stored_post("Z", "z", 5)];
    let mut with_link = post("A", "see https://example.com", 10);
    if let LiveStatus::Post(p) = &mut with_link {
        p.external = LiveExternal::Unknown;
        p.facets = vec![Facet::Link { byte_slice: 4..23, uri: "https://example.com".to_string() }];
    }
    let mut known = post("B", "b", 11);
    if let LiveStatus::Post(p) = &mut known {
        p.external = LiveExternal::Known(External {
            uri: "https://k.example".to_string(),
            title: "K".to_string(),
            description: String::new(),
            thumb_url: None,
        });
    }
    let live = vec![with_link, known, post("Z", "z", 5)];
    let targets = link_card_targets(&live, &stored);
    assert_eq!(targets, vec![vec!["https://example.com".to_string()], vec![], vec![]]);
    let card = External {
        uri: "https://example.com".to_string(),
        title: "Example".to_string(),
        description: "d".to_string(),
        thumb_url: None,
    };
    let ops = create_operations(&live, &stored, &vec![Some(card), None, None]);
    assert_eq!(ops.len(), 2);
    match &ops[0] {
        SourceOperation::CreatePost(c) => assert_eq!(c.external.as_ref().unwrap().title, "Example"),
        _ => panic!("expected a post creation"),
    }
    match &ops[1] {
        SourceOperation::CreatePost(c) => assert_eq!(c.external.as_ref().unwrap().title, "K"),
        _ => panic!("expected a post creation"),
    }
}

#[test]
fn destinations_are_created_once_per_pair() {
    let mut store = Store::new();
    let pair = AccountPair::from_keys(src_key(), dst_keys()[0].clone());
    {
        let dst = store.get_or_create_dst(&pair);
        assert_eq!(dst.origin, "https://bsky.social");
        assert!(dst.statuses.is_empty());
        dst.statuses.push(DestinationStatus::Post(IdentifierPair {
            identifier: "d".to_string(),
            src_identifier: "s".to_string(),
        }));
    }
    let again = store.get_or_create_dst(&pair);
    assert_eq!(again.statuses.len(), 1);
    assert_eq!(store.users.len(), 1);
    assert_eq!(store.users[0].dsts.len(), 1);
    let other = AccountPair::from_keys(src_key(), dst_keys()[1].clone());
    store.get_or_create_dst(&other);
    assert_eq!(store.users[0].dsts.len(), 2);
}

#[test]
fn no_link_card_is_sought_on_the_first_fetch() {
    let mut with_link = post("A", "see https://example.com", 10);
    if let LiveStatus::Post(p) = &mut with_link {
        p.external = LiveExternal::Unknown;
        p.facets = vec![Facet::Link { byte_slice: 4..23, uri: "https://example.com".to_string() }];
    }
    let targets = link_card_targets(&vec![with_link], &vec![]);
    assert_eq!(targets, vec![Vec::<String>::new()]);
}

#[test]
fn account_pair_round_trips_keys() {
    let pair = AccountPair::from_keys(src_key(), dst_keys()[1].clone());
    assert_eq!(pair.src_origin, "https://src.example");
    assert_eq!(pair.dst_account_identifier, "alice-mk");
    assert!(pair.to_src_key() == src_key());
    assert!(pair.to_dst_key() == dst_keys()[1]);
}
