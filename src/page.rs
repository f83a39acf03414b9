//! Link cards read from a linked page's HTML.
use vstd::prelude::*;

use crate::store::operations::External;
use vstd::string::StringSliceAdditionalSpecFns;
use vstd::utf8::encode_utf8;

verus! {

/// The most `<` characters a page handed to the parser may hold.
pub const MAX_TAG_OPENINGS: usize = 4096;

/// Whether the UTF-8 bytes at `i` spell `og:image`, `og:video` or `og:audio`.
pub open spec fn og_media_name_at(b: Seq<u8>, i: int) -> bool {
    &&& 0 <= i && i + 8 <= b.len()
    &&& b[i] == 111 && b[i + 1] == 103 && b[i + 2] == 58
    &&& {
        ||| b[i + 3] == 105 && b[i + 4] == 109 && b[i + 5] == 97 && b[i + 6] == 103 && b[i + 7] == 101
        ||| b[i + 3] == 118 && b[i + 4] == 105 && b[i + 5] == 100 && b[i + 6] == 101 && b[i + 7] == 111
        ||| b[i + 3] == 97 && b[i + 4] == 117 && b[i + 5] == 100 && b[i + 6] == 105 && b[i + 7] == 111
    }
}

/// Whether an OpenGraph media name at `i` is directly followed by a non-ASCII character,
/// a character reference (`&`) or a NUL (read as U+FFFD).
pub open spec fn og_media_name_then_wide_at(b: Seq<u8>, i: int) -> bool {
    og_media_name_at(b, i) && i + 8 < b.len() && (b[i + 8] >= 128 || b[i + 8] == 38 || b[i + 8]
        == 0)
}

/// Whether a character reference at `i` could spell any character of a property name: a
/// numeric one (`&#`) or `&colon`.
pub open spec fn name_reference_at(b: Seq<u8>, i: int) -> bool {
    &&& 0 <= i && i + 1 < b.len() && b[i] == 38
    &&& {
        ||| b[i + 1] == 35
        ||| i + 5 < b.len() && b[i + 1] == 99 && b[i + 2] == 111 && b[i + 3] == 108 && b[i + 4]
            == 111 && b[i + 5] == 110
    }
}

/// How many of the first `n` bytes are `<`.
pub open spec fn tag_openings(b: Seq<u8>, n: int) -> int
    decreases n,
{
    if n <= 0 {
        0
    } else {
        tag_openings(b, n - 1) + if b[n - 1] == 60 {
            1int
        } else {
            0
        }
    }
}

/// A page that the parser reads without failing: no OpenGraph media property whose name
/// goes on with a non-ASCII character (the parser would cut that name inside the
/// character), no character reference that could build such a name, and a bounded number
/// of tags, which bounds the depth of the parsed document the parser recurses over.
pub open spec fn parseable(b: Seq<u8>) -> bool {
    &&& forall|i: int|
        0 <= i < b.len() ==> !og_media_name_then_wide_at(b, i) && !name_reference_at(b, i)
    &&& tag_openings(b, b.len() as int) <= MAX_TAG_OPENINGS
}

/// Whether `html` may be handed to [`create_external`].
pub fn page_is_parseable(html: &str) -> (r: bool)
    ensures
        r == parseable(encode_utf8(html@)),
{
    let b = html.as_bytes();
    let ghost bs = encode_utf8(html@);
    assert(b@ == bs);
    let n = b.len();
    let mut openings: usize = 0;
    let mut i: usize = 0;
    while i < n
        invariant
            b@ == bs,
            bs == encode_utf8(html@),
            n == bs.len(),
            i <= n,
            openings as int == tag_openings(bs, i as int),
            openings <= MAX_TAG_OPENINGS,
            forall|j: int|
                0 <= j < i ==> !og_media_name_then_wide_at(bs, j) && !name_reference_at(bs, j),
        decreases n - i,
    {
        if b[i] == 60 {
            if openings == MAX_TAG_OPENINGS {
                proof {
                    assert(tag_openings(bs, i as int + 1) == openings + 1);
                    lemma_tag_openings_monotone(bs, i as int + 1, n as int);
                }
                return false;
            }
            openings += 1;
        }
        if n - i > 1 && b[i] == 38 {
            if b[i + 1] == 35 {
                assert(name_reference_at(bs, i as int));
                return false;
            }
            if n - i > 5 && b[i + 1] == 99 && b[i + 2] == 111 && b[i + 3] == 108 && b[i + 4]
                == 111 && b[i + 5] == 110 {
                assert(name_reference_at(bs, i as int));
                return false;
            }
        }
        if n - i > 8 && b[i] == 111 && b[i + 1] == 103 && b[i + 2] == 58 {
            let image = b[i + 3] == 105 && b[i + 4] == 109 && b[i + 5] == 97 && b[i + 6] == 103
                && b[i + 7] == 101;
            let video = b[i + 3] == 118 && b[i + 4] == 105 && b[i + 5] == 100 && b[i + 6] == 101
                && b[i + 7] == 111;
            let audio = b[i + 3] == 97 && b[i + 4] == 117 && b[i + 5] == 100 && b[i + 6] == 105
                && b[i + 7] == 111;
            let next = b[i + 8];
            if (image || video || audio) && (next >= 128 || next == 38 || next == 0) {
                assert(og_media_name_then_wide_at(bs, i as int));
                return false;
            }
        }
        i += 1;
    }
    true
}

proof fn lemma_tag_openings_monotone(b: Seq<u8>, m: int, n: int)
    requires
        0 <= m <= n,
    ensures
        tag_openings(b, m) <= tag_openings(b, n),
    decreases n - m,
{
    if m < n {
        lemma_tag_openings_monotone(b, m, n - 1);
    }
}

/// What a page's HTML says of it: its `<title>`, its meta description and its OpenGraph
/// image URLs, in document order; `None` when the text cannot be read as a document.
pub uninterp spec fn html_page_of(html: Seq<char>, url: Seq<char>) -> Option<
    (Option<Seq<char>>, Option<Seq<char>>, Seq<Seq<char>>),
>;

/// The title, description and OpenGraph image URLs read from a page.
pub type PageFields = (Option<String>, Option<String>, Vec<String>);

pub open spec fn string_option_view(s: Option<String>) -> Option<Seq<char>> {
    match s {
        Some(x) => Some(x@),
        None => None,
    }
}

pub open spec fn page_view(p: Option<PageFields>) -> Option<
    (Option<Seq<char>>, Option<Seq<char>>, Seq<Seq<char>>),
> {
    match p {
        Some((t, d, images)) => Some(
            (
                string_option_view(t),
                string_option_view(d),
                images@.map_values(|s: String| s@),
            ),
        ),
        None => None,
    }
}

/// Relies on webpage::HTML::from_string: parses `html` as the page at `url` and gives its
/// title, meta description and OpenGraph image URLs; it fails only when the text cannot be
/// read. It may panic or exhaust the stack on other pages, which [`parseable`] leaves out.
#[verifier::external_body]
fn parse_page(html: String, url: &String) -> (r: Option<PageFields>)
    requires
        parseable(encode_utf8(html@)),
    ensures
        page_view(r) == html_page_of(html@, url@),
{
    match webpage::HTML::from_string(html, Some(url.clone())) {
        Ok(page) => Some(
            (
                page.title,
                page.description,
                page.opengraph.images.into_iter().map(|image| image.url).collect(),
            ),
        ),
        Err(_) => None,
    }
}

pub open spec fn text_or_empty(s: Option<Seq<char>>) -> Seq<char> {
    match s {
        Some(x) => x,
        None => Seq::empty(),
    }
}

/// The card for the page at `uri`: its title and description (empty when missing) and its
/// first OpenGraph image as thumbnail.
pub open spec fn card_matches(
    e: External,
    uri: Seq<char>,
    page: (Option<Seq<char>>, Option<Seq<char>>, Seq<Seq<char>>),
) -> bool {
    &&& e.uri@ == uri
    &&& e.title@ == text_or_empty(page.0)
    &&& e.description@ == text_or_empty(page.1)
    &&& if page.2.len() == 0 {
        e.thumb_url is None
    } else {
        e.thumb_url matches Some(t) && t@ == page.2[0]
    }
}

fn text_or_default(s: Option<String>) -> (r: String)
    ensures
        r@ == text_or_empty(string_option_view(s)),
{
    match s {
        Some(x) => x,
        None => String::new(),
    }
}

/// The link card made of what was read from the page at `uri`; `None` when nothing could be.
pub fn external_from_page(uri: &String, page: Option<PageFields>) -> (r: Option<External>)
    ensures
        match page_view(page) {
            Some(p) => r matches Some(e) && card_matches(e, uri@, p),
            None => r is None,
        },
{
    match page {
        Some((title, description, images)) => {
            let thumb_url = if images.len() > 0 {
                Some(images[0].clone())
            } else {
                None
            };
            Some(
                External {
                    uri: uri.clone(),
                    title: text_or_default(title),
                    description: text_or_default(description),
                    thumb_url,
                },
            )
        },
        None => None,
    }
}

/// The link card for the page at `uri` whose HTML is `html`; `None` when the page cannot be
/// read, and the next link should be tried. The page must pass [`page_is_parseable`].
pub fn create_external(uri: &String, html: String) -> (r: Option<External>)
    requires
        parseable(encode_utf8(html@)),
    ensures
        match html_page_of(html@, uri@) {
            Some(p) => r matches Some(e) && card_matches(e, uri@, p),
            None => r is None,
        },
{
    let page = parse_page(html, uri);
    external_from_page(uri, page)
}

} // verus!
