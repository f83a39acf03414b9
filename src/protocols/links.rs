//! Link facets of plain text.
use vstd::prelude::*;

use crate::store::operations::Facet;
use vstd::string::StringSliceAdditionalSpecFns;

verus! {

/// The links found in `text` by a default link finder (URLs with a scheme, and e-mail
/// addresses), in order: byte offset of the start and of the end, and the link's text.
pub uninterp spec fn links_of(text: Seq<char>) -> Seq<(usize, usize, Seq<char>)>;

pub open spec fn links_view(v: Seq<(usize, usize, String)>) -> Seq<(usize, usize, Seq<char>)> {
    v.map_values(|l: (usize, usize, String)| (l.0, l.1, l.2@))
}

/// Relies on linkify::LinkFinder::links with the finder's default options: the links of
/// `text` with their byte ranges.
#[verifier::external_body]
fn find_links(text: &str) -> (r: Vec<(usize, usize, String)>)
    ensures
        links_view(r@) == links_of(text@),
{
    linkify::LinkFinder::new().links(text).map(
        |link| (link.start(), link.end(), link.as_str().to_owned()),
    ).collect()
}

/// The link facet of `uri` written at byte `current_idx` of a text.
pub fn link(current_idx: usize, uri: &str) -> (r: Facet)
    requires
        current_idx + uri.spec_bytes().len() <= u32::MAX,
    ensures
        r matches Facet::Link { byte_slice, uri: u } && byte_slice.start == current_idx
            && byte_slice.end == current_idx + uri.spec_bytes().len() && u@ == uri@,
{
    let start = current_idx as u32;
    let end = (current_idx + uri.len()) as u32;
    Facet::Link { byte_slice: std::ops::Range { start, end }, uri: uri.to_owned() }
}

pub open spec fn fits_u32(l: (usize, usize, Seq<char>)) -> bool {
    l.0 <= u32::MAX && l.1 <= u32::MAX
}

/// The facets of the links in `links`; a link past the reach of a 32-bit offset is left out.
pub open spec fn facets_of(links: Seq<(usize, usize, Seq<char>)>) -> Seq<(u32, u32, Seq<char>)>
    decreases links.len(),
{
    if links.len() == 0 {
        seq![]
    } else {
        let rest = facets_of(links.drop_last());
        let l = links.last();
        if fits_u32(l) {
            rest.push((l.0 as u32, l.1 as u32, l.2))
        } else {
            rest
        }
    }
}

pub open spec fn facet_view(f: Facet) -> (u32, u32, Seq<char>) {
    match f {
        Facet::Link { byte_slice, uri } => (byte_slice.start, byte_slice.end, uri@),
    }
}

/// The link facets of a plain text, one for each link found in it.
pub fn create_facets(content: &str) -> (r: Vec<Facet>)
    ensures
        r@.map_values(|f: Facet| facet_view(f)) == facets_of(links_of(content@)),
{
    let found = find_links(content);
    let ghost ls = links_view(found@);
    let mut r: Vec<Facet> = Vec::new();
    let mut i: usize = 0;
    while i < found.len()
        invariant
            i <= found@.len(),
            ls == links_view(found@),
            r@.map_values(|f: Facet| facet_view(f)) == facets_of(ls.take(i as int)),
        decreases found@.len() - i,
    {
        let (start, end, text) = &found[i];
        assert(ls.take(i + 1).drop_last() =~= ls.take(i as int));
        assert(ls[i as int] == (*start, *end, text@));
        if *start <= 4294967295 && *end <= 4294967295 {
            let ghost before = r@;
            r.push(
                Facet::Link {
                    byte_slice: std::ops::Range { start: *start as u32, end: *end as u32 },
                    uri: text.clone(),
                },
            );
            assert(r@.map_values(|f: Facet| facet_view(f)) =~= before.map_values(
                |f: Facet| facet_view(f),
            ).push(facet_view(r@.last())));
        }
        i += 1;
    }
    assert(ls.take(i as int) =~= ls);
    r
}

} // verus!
