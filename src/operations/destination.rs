//! The dispatcher's decisions: what the operation at the tail of the queue resolves to, and
//! how the store records a completed write. The writes themselves are made by the caller.
use vstd::prelude::*;

use crate::store::operations::{Operation, OperationStatusView, OperationView};
use crate::store::user::{DestinationStatus, IdentifierPair, User};
use crate::store::{row_added, Store};
use super::utils::{find_post_dst_identifier, find_repost_dst_identifier, post_dst_identifier, repost_dst_identifier};

verus! {

/// The destination identifiers that the tail operation resolves to, and so the write to make.
#[derive(Clone, Debug)]
pub enum Resolution {
    /// Post, as a reply to `reply_identifier` when it is set.
    Post { reply_identifier: Option<String> },
    /// Repost the destination post `target_identifier`.
    Repost { target_identifier: String },
    /// Edit the destination post `identifier`.
    UpdatePost { identifier: String },
    /// Delete the destination post `identifier`.
    DeletePost { identifier: String },
    /// Delete the destination repost `identifier`.
    DeleteRepost { identifier: String },
    /// The item's destination identifier is unknown: the operation is consumed without a write.
    Skip,
}

pub enum ResolutionView {
    Post(Option<Seq<char>>),
    Repost(Seq<char>),
    UpdatePost(Seq<char>),
    DeletePost(Seq<char>),
    DeleteRepost(Seq<char>),
    Skip,
}

impl View for Resolution {
    type V = ResolutionView;

    open spec fn view(&self) -> ResolutionView {
        match self {
            Resolution::Post { reply_identifier } => ResolutionView::Post(
                match reply_identifier {
                    Some(r) => Some(r@),
                    None => None,
                },
            ),
            Resolution::Repost { target_identifier } => ResolutionView::Repost(target_identifier@),
            Resolution::UpdatePost { identifier } => ResolutionView::UpdatePost(identifier@),
            Resolution::DeletePost { identifier } => ResolutionView::DeletePost(identifier@),
            Resolution::DeleteRepost { identifier } => ResolutionView::DeleteRepost(identifier@),
            Resolution::Skip => ResolutionView::Skip,
        }
    }
}

/// What `op` resolves to against the identifier mapping of `users`. A reply whose parent is
/// unknown is still posted, as a root post.
pub open spec fn resolution_of(users: Seq<User>, op: OperationView) -> ResolutionView {
    let so = op.account_pair.src_origin@;
    match op.status {
        OperationStatusView::CreatePost(c) => ResolutionView::Post(
            match c.reply_src_identifier {
                Some(r) => post_dst_identifier(users, so, r@, op.account_pair.dst_origin@),
                None => None,
            },
        ),
        OperationStatusView::CreateRepost(c) => match post_dst_identifier(
            users,
            so,
            c.target_src_identifier@,
            op.account_pair.dst_origin@,
        ) {
            Some(t) => ResolutionView::Repost(t),
            None => ResolutionView::Skip,
        },
        OperationStatusView::UpdatePost(u) => match post_dst_identifier(
            users,
            so,
            u.src_identifier@,
            op.account_pair.dst_origin@,
        ) {
            Some(t) => ResolutionView::UpdatePost(t),
            None => ResolutionView::Skip,
        },
        OperationStatusView::DeletePost(d) => match post_dst_identifier(
            users,
            so,
            d.src_identifier@,
            op.account_pair.dst_origin@,
        ) {
            Some(t) => ResolutionView::DeletePost(t),
            None => ResolutionView::Skip,
        },
        OperationStatusView::DeleteRepost(d) => match repost_dst_identifier(
            users,
            so,
            d.src_identifier@,
            op.account_pair.dst_origin@,
        ) {
            Some(t) => ResolutionView::DeleteRepost(t),
            None => ResolutionView::Skip,
        },
    }
}

fn owned(s: Option<&str>) -> (r: Option<String>)
    ensures
        match s {
            Some(x) => r matches Some(y) && y@ == x@,
            None => r is None,
        },
{
    match s {
        Some(x) => Some(x.to_owned()),
        None => None,
    }
}

/// Resolves the destination identifiers `operation` needs against the mapping of `users`.
pub fn resolve_operation(users: &Vec<User>, operation: &Operation) -> (r: Resolution)
    ensures
        r@ == resolution_of(users@, operation@),
{
    let pair = operation.account_pair();
    let so = pair.src_origin.as_str();
    let dst_origin = pair.dst_origin.as_str();
    match operation {
        Operation::CreatePost(o) => {
            let reply_identifier = match &o.status.reply_src_identifier {
                Some(r) => owned(find_post_dst_identifier(users, so, r.as_str(), dst_origin)),
                None => None,
            };
            Resolution::Post { reply_identifier }
        },
        Operation::CreateRepost(o) => {
            match owned(
                find_post_dst_identifier(users, so, o.status.target_src_identifier.as_str(), dst_origin),
            ) {
                Some(t) => Resolution::Repost { target_identifier: t },
                None => Resolution::Skip,
            }
        },
        Operation::UpdatePost(o) => {
            match owned(
                find_post_dst_identifier(users, so, o.status.src_identifier.as_str(), dst_origin),
            ) {
                Some(t) => Resolution::UpdatePost { identifier: t },
                None => Resolution::Skip,
            }
        },
        Operation::DeletePost(o) => {
            match owned(
                find_post_dst_identifier(users, so, o.status.src_identifier.as_str(), dst_origin),
            ) {
                Some(t) => Resolution::DeletePost { identifier: t },
                None => Resolution::Skip,
            }
        },
        Operation::DeleteRepost(o) => {
            match owned(
                find_repost_dst_identifier(users, so, o.status.src_identifier.as_str(), dst_origin),
            ) {
                Some(t) => Resolution::DeleteRepost { identifier: t },
                None => Resolution::Skip,
            }
        },
    }
}

/// Whether the dispatcher stops before the next operation: on cancellation, when `limit`
/// operations were already performed in this run, or when the queue is empty.
pub open spec fn dispatch_stops(store: Store, cancelled: bool, performed: usize, limit: Option<usize>) -> bool {
    cancelled || (limit matches Some(l) && performed >= l) || store.operations@.len() == 0
}

/// One turn of the dispatch loop: `None` when the loop stops, else what the operation at
/// the tail of the queue (the next to pop) resolves to.
pub fn next_step(store: &Store, cancelled: bool, performed: usize, limit: Option<usize>) -> (r: Option<
    Resolution,
>)
    ensures
        r is None <==> dispatch_stops(*store, cancelled, performed, limit),
        r matches Some(x) ==> x@ == resolution_of(store.users@, store.operations@.last()@),
{
    if cancelled {
        return None;
    }
    if let Some(l) = limit {
        if performed >= l {
            return None;
        }
    }
    let n = store.operations.len();
    if n == 0 {
        return None;
    }
    Some(resolve_operation(&store.users, &store.operations[n - 1]))
}

/// The mapping row that a completed creation adds, if any.
pub open spec fn completed_row(op: OperationView, dst_identifier: Option<String>) -> Option<DestinationStatus> {
    match (op.status, dst_identifier) {
        (OperationStatusView::CreatePost(c), Some(id)) => Some(
            DestinationStatus::Post(IdentifierPair { identifier: id, src_identifier: c.src_identifier }),
        ),
        (OperationStatusView::CreateRepost(c), Some(id)) => Some(
            DestinationStatus::Repost(IdentifierPair { identifier: id, src_identifier: c.src_identifier }),
        ),
        _ => None,
    }
}

/// Consumes the operation at the tail of the queue once its write is done (or skipped).
/// `dst_identifier` is the identifier the destination returned for a creation; the mapping
/// row for it is prepended to the destination's rows.
pub fn complete_operation(store: &mut Store, dst_identifier: Option<String>)
    requires
        old(store).operations@.len() > 0,
    ensures
        final(store).operations@ == old(store).operations@.drop_last(),
        match completed_row(old(store).operations@.last()@, dst_identifier) {
            Some(row) => row_added(
                old(store).users@,
                final(store).users@,
                old(store).operations@.last()@.account_pair,
                row,
            ),
            None => final(store).users == old(store).users,
        },
{
    let operation = store.operations.pop().unwrap();
    match (operation, dst_identifier) {
        (Operation::CreatePost(o), Some(id)) => {
            let row = DestinationStatus::Post(
                IdentifierPair { identifier: id, src_identifier: o.status.src_identifier },
            );
            store.add_destination_status(&o.account_pair, row);
        },
        (Operation::CreateRepost(o), Some(id)) => {
            let row = DestinationStatus::Repost(
                IdentifierPair { identifier: id, src_identifier: o.status.src_identifier },
            );
            store.add_destination_status(&o.account_pair, row);
        },
        _ => {},
    }
}

} // verus!
