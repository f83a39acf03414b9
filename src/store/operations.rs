//! The pending destination writes and the values they carry.
use vstd::prelude::*;

use crate::account::AccountKey;

verus! {

/// A directed pair of accounts: the source observed and the destination written.
#[derive(Clone, Debug, PartialEq, Eq, Hash)]
pub struct AccountPair {
    pub src_origin: String,
    pub src_account_identifier: String,
    pub dst_origin: String,
    pub dst_account_identifier: String,
}

impl AccountPair {
    pub open spec fn src_key(self) -> AccountKey {
        AccountKey { origin: self.src_origin, identifier: self.src_account_identifier }
    }

    pub open spec fn dst_key(self) -> AccountKey {
        AccountKey { origin: self.dst_origin, identifier: self.dst_account_identifier }
    }

    pub open spec fn of_keys(src: AccountKey, dst: AccountKey) -> AccountPair {
        AccountPair {
            src_origin: src.origin,
            src_account_identifier: src.identifier,
            dst_origin: dst.origin,
            dst_account_identifier: dst.identifier,
        }
    }

    pub fn from_keys(src_account_key: AccountKey, dst_account_key: AccountKey) -> (r: Self)
        ensures
            r == Self::of_keys(src_account_key, dst_account_key),
    {
        AccountPair {
            src_origin: src_account_key.origin,
            src_account_identifier: src_account_key.identifier,
            dst_origin: dst_account_key.origin,
            dst_account_identifier: dst_account_key.identifier,
        }
    }

    pub fn to_src_key(&self) -> (r: AccountKey)
        ensures
            r == self.src_key(),
    {
        AccountKey { origin: self.src_origin.clone(), identifier: self.src_account_identifier.clone() }
    }

    pub fn to_dst_key(&self) -> (r: AccountKey)
        ensures
            r == self.dst_key(),
    {
        AccountKey { origin: self.dst_origin.clone(), identifier: self.dst_account_identifier.clone() }
    }

    pub fn duplicate(&self) -> (r: AccountPair)
        ensures
            r == *self,
    {
        AccountPair {
            src_origin: self.src_origin.clone(),
            src_account_identifier: self.src_account_identifier.clone(),
            dst_origin: self.dst_origin.clone(),
            dst_account_identifier: self.dst_account_identifier.clone(),
        }
    }
}

/// A byte-range annotation on post text.
#[derive(Debug)]
pub enum Facet {
    Link { byte_slice: std::ops::Range<u32>, uri: String },
}

impl Facet {
    pub fn duplicate(&self) -> (r: Facet)
        ensures
            r == *self,
    {
        match self {
            Facet::Link { byte_slice, uri } => Facet::Link {
                byte_slice: std::ops::Range { start: byte_slice.start, end: byte_slice.end },
                uri: uri.clone(),
            },
        }
    }
}

impl Clone for Facet {
    fn clone(&self) -> Facet {
        self.duplicate()
    }
}

/// An image attached to a post.
#[derive(Clone, Debug)]
pub struct Medium {
    pub url: String,
    pub alt: String,
}

impl Medium {
    pub fn duplicate(&self) -> (r: Medium)
        ensures
            r == *self,
    {
        Medium { url: self.url.clone(), alt: self.alt.clone() }
    }
}

/// A link card.
#[derive(Clone, Debug)]
pub struct External {
    pub uri: String,
    pub title: String,
    pub description: String,
    pub thumb_url: Option<String>,
}

pub fn copy_string_option(s: &Option<String>) -> (r: Option<String>)
    ensures
        r == *s,
{
    match s {
        Some(x) => Some(x.clone()),
        None => None,
    }
}

impl External {
    pub fn duplicate(&self) -> (r: External)
        ensures
            r == *self,
    {
        External {
            uri: self.uri.clone(),
            title: self.title.clone(),
            description: self.description.clone(),
            thumb_url: copy_string_option(&self.thumb_url),
        }
    }
}

pub fn copy_external_option(e: &Option<External>) -> (r: Option<External>)
    ensures
        r == *e,
{
    match e {
        Some(x) => Some(x.duplicate()),
        None => None,
    }
}

pub fn copy_facets(v: &Vec<Facet>) -> (r: Vec<Facet>)
    ensures
        r@ == v@,
{
    let mut r: Vec<Facet> = Vec::new();
    let mut i: usize = 0;
    while i < v.len()
        invariant
            i <= v@.len(),
            r@ == v@.take(i as int),
        decreases v@.len() - i,
    {
        r.push(v[i].duplicate());
        i += 1;
        assert(r@ =~= v@.take(i as int));
    }
    assert(v@.take(v@.len() as int) =~= v@);
    r
}

pub fn copy_media(v: &Vec<Medium>) -> (r: Vec<Medium>)
    ensures
        r@ == v@,
{
    let mut r: Vec<Medium> = Vec::new();
    let mut i: usize = 0;
    while i < v.len()
        invariant
            i <= v@.len(),
            r@ == v@.take(i as int),
        decreases v@.len() - i,
    {
        r.push(v[i].duplicate());
        i += 1;
        assert(r@ =~= v@.take(i as int));
    }
    assert(v@.take(v@.len() as int) =~= v@);
    r
}

/// The payload of a post creation. `created_at` is in microseconds since the Unix epoch.
#[derive(Clone, Debug)]
pub struct CreatePostOperationStatus {
    pub src_identifier: String,
    pub src_uri: String,
    pub content: String,
    pub facets: Vec<Facet>,
    pub reply_src_identifier: Option<String>,
    pub media: Vec<Medium>,
    pub external: Option<External>,
    pub created_at: i64,
}

/// The value of a [`CreatePostOperationStatus`], its lists seen as sequences.
pub struct CreatePostStatusView {
    pub src_identifier: String,
    pub src_uri: String,
    pub content: String,
    pub facets: Seq<Facet>,
    pub reply_src_identifier: Option<String>,
    pub media: Seq<Medium>,
    pub external: Option<External>,
    pub created_at: i64,
}

impl View for CreatePostOperationStatus {
    type V = CreatePostStatusView;

    open spec fn view(&self) -> CreatePostStatusView {
        CreatePostStatusView {
            src_identifier: self.src_identifier,
            src_uri: self.src_uri,
            content: self.content,
            facets: self.facets@,
            reply_src_identifier: self.reply_src_identifier,
            media: self.media@,
            external: self.external,
            created_at: self.created_at,
        }
    }
}

impl CreatePostOperationStatus {
    pub fn duplicate(&self) -> (r: Self)
        ensures
            r@ == self@,
    {
        CreatePostOperationStatus {
            src_identifier: self.src_identifier.clone(),
            src_uri: self.src_uri.clone(),
            content: self.content.clone(),
            facets: copy_facets(&self.facets),
            reply_src_identifier: copy_string_option(&self.reply_src_identifier),
            media: copy_media(&self.media),
            external: copy_external_option(&self.external),
            created_at: self.created_at,
        }
    }
}

#[derive(Clone, Debug)]
pub struct CreatePostOperation {
    pub account_pair: AccountPair,
    pub status: CreatePostOperationStatus,
}

/// The payload of a repost creation. `created_at` is in microseconds since the Unix epoch.
#[derive(Clone, Debug)]
pub struct CreateRepostOperationStatus {
    pub src_identifier: String,
    pub target_src_identifier: String,
    pub target_src_uri: String,
    pub created_at: i64,
}

impl CreateRepostOperationStatus {
    pub fn duplicate(&self) -> (r: Self)
        ensures
            r == *self,
    {
        CreateRepostOperationStatus {
            src_identifier: self.src_identifier.clone(),
            target_src_identifier: self.target_src_identifier.clone(),
            target_src_uri: self.target_src_uri.clone(),
            created_at: self.created_at,
        }
    }
}

#[derive(Clone, Debug)]
pub struct CreateRepostOperation {
    pub account_pair: AccountPair,
    pub status: CreateRepostOperationStatus,
}

#[derive(Clone, Debug)]
pub struct UpdatePostOperationStatus {
    pub src_identifier: String,
    pub content: String,
    pub facets: Vec<Facet>,
}

/// The value of an [`UpdatePostOperationStatus`], its facets seen as a sequence.
pub struct UpdatePostStatusView {
    pub src_identifier: String,
    pub content: String,
    pub facets: Seq<Facet>,
}

impl View for UpdatePostOperationStatus {
    type V = UpdatePostStatusView;

    open spec fn view(&self) -> UpdatePostStatusView {
        UpdatePostStatusView {
            src_identifier: self.src_identifier,
            content: self.content,
            facets: self.facets@,
        }
    }
}

impl UpdatePostOperationStatus {
    pub fn duplicate(&self) -> (r: Self)
        ensures
            r@ == self@,
    {
        UpdatePostOperationStatus {
            src_identifier: self.src_identifier.clone(),
            content: self.content.clone(),
            facets: copy_facets(&self.facets),
        }
    }
}

#[derive(Clone, Debug)]
pub struct UpdatePostOperation {
    pub account_pair: AccountPair,
    pub status: UpdatePostOperationStatus,
}

#[derive(Clone, Debug)]
pub struct DeletePostOperationStatus {
    pub src_identifier: String,
}

#[derive(Clone, Debug)]
pub struct DeletePostOperation {
    pub account_pair: AccountPair,
    pub status: DeletePostOperationStatus,
}

#[derive(Clone, Debug)]
pub struct DeleteRepostOperationStatus {
    pub src_identifier: String,
}

#[derive(Clone, Debug)]
pub struct DeleteRepostOperation {
    pub account_pair: AccountPair,
    pub status: DeleteRepostOperationStatus,
}

/// The value carried by one operation, without its account pair.
pub enum OperationStatusView {
    CreatePost(CreatePostStatusView),
    CreateRepost(CreateRepostOperationStatus),
    UpdatePost(UpdatePostStatusView),
    DeletePost(DeletePostOperationStatus),
    DeleteRepost(DeleteRepostOperationStatus),
}

/// The value of a queued [`Operation`].
pub struct OperationView {
    pub account_pair: AccountPair,
    pub status: OperationStatusView,
}

/// The smallest sort key, taken by post deletions: below every creation time.
pub const DELETE_POST_KEY: i128 = -9223372036854775810;

/// The sort key of edits and repost deletions: above post deletions, below every creation
/// time.
pub const UPDATE_KEY: i128 = -9223372036854775809;

impl OperationStatusView {
    /// Sort key of the queue, kept in ascending order and popped from the back: post
    /// deletions at the front, then edits and repost deletions, then creations by creation
    /// time, so that the newest creation is popped first.
    pub open spec fn sort_key(self) -> int {
        match self {
            OperationStatusView::CreatePost(s) => s.created_at as int,
            OperationStatusView::CreateRepost(s) => s.created_at as int,
            OperationStatusView::UpdatePost(_) => UPDATE_KEY as int,
            OperationStatusView::DeleteRepost(_) => UPDATE_KEY as int,
            OperationStatusView::DeletePost(_) => DELETE_POST_KEY as int,
        }
    }
}

impl OperationView {
    pub open spec fn sort_key(self) -> int {
        self.status.sort_key()
    }
}

/// A pending destination write.
#[derive(Clone, Debug)]
pub enum Operation {
    CreatePost(CreatePostOperation),
    CreateRepost(CreateRepostOperation),
    UpdatePost(UpdatePostOperation),
    DeletePost(DeletePostOperation),
    DeleteRepost(DeleteRepostOperation),
}

impl View for Operation {
    type V = OperationView;

    open spec fn view(&self) -> OperationView {
        match self {
            Operation::CreatePost(o) => OperationView {
                account_pair: o.account_pair,
                status: OperationStatusView::CreatePost(o.status@),
            },
            Operation::CreateRepost(o) => OperationView {
                account_pair: o.account_pair,
                status: OperationStatusView::CreateRepost(o.status),
            },
            Operation::UpdatePost(o) => OperationView {
                account_pair: o.account_pair,
                status: OperationStatusView::UpdatePost(o.status@),
            },
            Operation::DeletePost(o) => OperationView {
                account_pair: o.account_pair,
                status: OperationStatusView::DeletePost(o.status),
            },
            Operation::DeleteRepost(o) => OperationView {
                account_pair: o.account_pair,
                status: OperationStatusView::DeleteRepost(o.status),
            },
        }
    }
}

impl Operation {
    pub fn account_pair(&self) -> (r: &AccountPair)
        ensures
            *r == self@.account_pair,
    {
        match self {
            Operation::CreatePost(o) => &o.account_pair,
            Operation::CreateRepost(o) => &o.account_pair,
            Operation::UpdatePost(o) => &o.account_pair,
            Operation::DeletePost(o) => &o.account_pair,
            Operation::DeleteRepost(o) => &o.account_pair,
        }
    }

    /// The key by which the queue is kept in ascending order.
    pub fn sort_key(&self) -> (r: i128)
        ensures
            r == self@.sort_key(),
    {
        match self {
            Operation::CreatePost(o) => o.status.created_at as i128,
            Operation::CreateRepost(o) => o.status.created_at as i128,
            Operation::UpdatePost(_) => UPDATE_KEY,
            Operation::DeleteRepost(_) => UPDATE_KEY,
            Operation::DeletePost(_) => DELETE_POST_KEY,
        }
    }
}

} // verus!
