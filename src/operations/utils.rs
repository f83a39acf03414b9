//! Cross-user lookup of destination identifiers.
use vstd::prelude::*;

use crate::text::same_text;
use crate::search::{first_index, is_first_index, lemma_first_index_is, lemma_first_index_none};
use crate::store::user::{Destination, DestinationStatus, User};

verus! {

/// The mapping rows of the destinations on `dst_origin`, in order.
pub open spec fn rows_of_dsts(dsts: Seq<Destination>, dst_origin: Seq<char>) -> Seq<
    DestinationStatus,
>
    decreases dsts.len(),
{
    if dsts.len() == 0 {
        seq![]
    } else {
        rows_of_dsts(dsts.drop_last(), dst_origin) + if dsts.last().origin@ == dst_origin {
            dsts.last().statuses@
        } else {
            seq![]
        }
    }
}

/// The mapping rows of every destination on `dst_origin` of every user whose source is on
/// `src_origin`, users in stored order: one flat table across users.
pub open spec fn destination_rows(users: Seq<User>, src_origin: Seq<char>, dst_origin: Seq<char>) -> Seq<
    DestinationStatus,
>
    decreases users.len(),
{
    if users.len() == 0 {
        seq![]
    } else {
        destination_rows(users.drop_last(), src_origin, dst_origin) + if users.last().src.origin@
            == src_origin {
            rows_of_dsts(users.last().dsts@, dst_origin)
        } else {
            seq![]
        }
    }
}

pub open spec fn is_post_row_for(src_identifier: Seq<char>) -> spec_fn(DestinationStatus) -> bool {
    |row: DestinationStatus|
        match row {
            DestinationStatus::Post(p) => p.src_identifier@ == src_identifier,
            DestinationStatus::Repost(_) => false,
        }
}

pub open spec fn is_repost_row_for(src_identifier: Seq<char>) -> spec_fn(DestinationStatus) -> bool {
    |row: DestinationStatus|
        match row {
            DestinationStatus::Post(_) => false,
            DestinationStatus::Repost(p) => p.src_identifier@ == src_identifier,
        }
}

/// The destination identifier of the first row of `rows` that satisfies `p`.
pub open spec fn first_identifier(rows: Seq<DestinationStatus>, p: spec_fn(DestinationStatus) -> bool) -> Option<
    Seq<char>,
> {
    match first_index(rows, p) {
        Some(i) => Some(rows[i].ids().identifier@),
        None => None,
    }
}

/// The destination identifier mirroring the source post `src_identifier`.
pub open spec fn post_dst_identifier(
    users: Seq<User>,
    src_origin: Seq<char>,
    src_identifier: Seq<char>,
    dst_origin: Seq<char>,
) -> Option<Seq<char>> {
    first_identifier(destination_rows(users, src_origin, dst_origin), is_post_row_for(src_identifier))
}

/// The destination identifier mirroring the source repost `src_identifier`.
pub open spec fn repost_dst_identifier(
    users: Seq<User>,
    src_origin: Seq<char>,
    src_identifier: Seq<char>,
    dst_origin: Seq<char>,
) -> Option<Seq<char>> {
    first_identifier(
        destination_rows(users, src_origin, dst_origin),
        is_repost_row_for(src_identifier),
    )
}

pub open spec fn deref_rows(rows: Seq<&DestinationStatus>) -> Seq<DestinationStatus> {
    rows.map_values(|row: &DestinationStatus| *row)
}

proof fn lemma_deref_rows_push(s: Seq<&DestinationStatus>, x: &DestinationStatus)
    ensures
        deref_rows(s.push(x)) == deref_rows(s).push(*x),
{
    assert(deref_rows(s.push(x)) =~= deref_rows(s).push(*x));
}

pub open spec fn str_option_view(r: Option<&str>) -> Option<Seq<char>> {
    match r {
        Some(s) => Some(s@),
        None => None,
    }
}

pub fn destination_statuses<'a>(users: &'a Vec<User>, src_origin: &str, dst_origin: &str) -> (r: Vec<
    &'a DestinationStatus,
>)
    ensures
        deref_rows(r@) == destination_rows(users@, src_origin@, dst_origin@),
{
    let mut r: Vec<&'a DestinationStatus> = Vec::new();
    let mut i: usize = 0;
    while i < users.len()
        invariant
            i <= users@.len(),
            deref_rows(r@) == destination_rows(users@.take(i as int), src_origin@, dst_origin@),
        decreases users@.len() - i,
    {
        let user = &users[i];
        let ghost before = deref_rows(r@);
        if same_text(user.src.origin.as_str(), src_origin) {
            let mut j: usize = 0;
            while j < user.dsts.len()
                invariant
                    j <= user.dsts@.len(),
                    deref_rows(r@) == before + rows_of_dsts(user.dsts@.take(j as int), dst_origin@),
                decreases user.dsts@.len() - j,
            {
                let dst = &user.dsts[j];
                let ghost mid = deref_rows(r@);
                if same_text(dst.origin.as_str(), dst_origin) {
                    let mut k: usize = 0;
                    while k < dst.statuses.len()
                        invariant
                            k <= dst.statuses@.len(),
                            deref_rows(r@) == mid + dst.statuses@.take(k as int),
                        decreases dst.statuses@.len() - k,
                    {
                        let ghost prev = r@;
                        r.push(&dst.statuses[k]);
                        proof {
                            lemma_deref_rows_push(prev, &dst.statuses@[k as int]);
                        }
                        k += 1;
                        assert(deref_rows(r@) =~= mid + dst.statuses@.take(k as int));
                    }
                    assert(dst.statuses@.take(k as int) =~= dst.statuses@);
                } else {
                    assert(deref_rows(r@) =~= mid + seq![]);
                }
                assert(user.dsts@.take(j + 1).drop_last() =~= user.dsts@.take(j as int));
                assert(user.dsts@.take(j + 1).last() == *dst);
                assert(rows_of_dsts(user.dsts@.take(j + 1), dst_origin@) == rows_of_dsts(
                    user.dsts@.take(j as int),
                    dst_origin@,
                ) + if dst.origin@ == dst_origin@ {
                    dst.statuses@
                } else {
                    seq![]
                });
                j += 1;
                assert(deref_rows(r@) =~= before + rows_of_dsts(user.dsts@.take(j as int), dst_origin@));
            }
            assert(user.dsts@.take(j as int) =~= user.dsts@);
        } else {
            assert(deref_rows(r@) =~= before + seq![]);
        }
        assert(users@.take(i + 1).drop_last() =~= users@.take(i as int));
        assert(users@.take(i + 1).last() == *user);
        assert(destination_rows(users@.take(i + 1), src_origin@, dst_origin@) == destination_rows(
            users@.take(i as int),
            src_origin@,
            dst_origin@,
        ) + if user.src.origin@ == src_origin@ {
            rows_of_dsts(user.dsts@, dst_origin@)
        } else {
            seq![]
        });
        i += 1;
        assert(deref_rows(r@) =~= destination_rows(users@.take(i as int), src_origin@, dst_origin@));
    }
    assert(users@.take(i as int) =~= users@);
    r
}

pub fn find_post_dst_identifier<'a>(
    users: &'a Vec<User>,
    src_origin: &str,
    src_identifier: &str,
    dst_origin: &str,
) -> (r: Option<&'a str>)
    ensures
        str_option_view(r) == post_dst_identifier(users@, src_origin@, src_identifier@, dst_origin@),
{
    let rows = destination_statuses(users, src_origin, dst_origin);
    let mut i: usize = 0;
    while i < rows.len()
        invariant
            i <= rows@.len(),
            deref_rows(rows@) == destination_rows(users@, src_origin@, dst_origin@),
            forall|j: int| 0 <= j < i ==> !is_post_row_for(src_identifier@)(deref_rows(rows@)[j]),
        decreases rows@.len() - i,
    {
        let row: &'a DestinationStatus = rows[i];
        assert(deref_rows(rows@)[i as int] == *row);
        match row {
            DestinationStatus::Post(p) => {
                if same_text(p.src_identifier.as_str(), src_identifier) {
                    proof {
                        assert(is_first_index(deref_rows(rows@), is_post_row_for(src_identifier@), i as int));
                        lemma_first_index_is(deref_rows(rows@), is_post_row_for(src_identifier@), i as int);
                    }
                    return Some(p.identifier.as_str());
                }
            },
            DestinationStatus::Repost(_) => {},
        }
        i += 1;
    }
    proof {
        lemma_first_index_none(deref_rows(rows@), is_post_row_for(src_identifier@));
    }
    None
}

pub fn find_repost_dst_identifier<'a>(
    users: &'a Vec<User>,
    src_origin: &str,
    src_identifier: &str,
    dst_origin: &str,
) -> (r: Option<&'a str>)
    ensures
        str_option_view(r) == repost_dst_identifier(
            users@,
            src_origin@,
            src_identifier@,
            dst_origin@,
        ),
{
    let rows = destination_statuses(users, src_origin, dst_origin);
    let mut i: usize = 0;
    while i < rows.len()
        invariant
            i <= rows@.len(),
            deref_rows(rows@) == destination_rows(users@, src_origin@, dst_origin@),
            forall|j: int| 0 <= j < i ==> !is_repost_row_for(src_identifier@)(deref_rows(rows@)[j]),
        decreases rows@.len() - i,
    {
        let row: &'a DestinationStatus = rows[i];
        assert(deref_rows(rows@)[i as int] == *row);
        match row {
            DestinationStatus::Post(_) => {},
            DestinationStatus::Repost(p) => {
                if same_text(p.src_identifier.as_str(), src_identifier) {
                    proof {
                        assert(is_first_index(deref_rows(rows@), is_repost_row_for(src_identifier@), i as int));
                        lemma_first_index_is(deref_rows(rows@), is_repost_row_for(src_identifier@), i as int);
                    }
                    return Some(p.identifier.as_str());
                }
            },
        }
        i += 1;
    }
    proof {
        lemma_first_index_none(deref_rows(rows@), is_repost_row_for(src_identifier@));
    }
    None
}

} // verus!
