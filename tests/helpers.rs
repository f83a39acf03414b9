use timelineecho::page::{create_external, external_from_page, page_is_parseable};
use timelineecho::protocols::at_uri::{to_external_uri, uri_to_post_rkey, uri_to_repost_rkey};
use timelineecho::protocols::links::{create_facets, link};
use timelineecho::store::operations::Facet;

#[test]
fn link_card_is_read_from_page_html() {
    let html = "<html><head><title>Hello</title>\
        <meta name=\"description\" content=\"A page\">\
        <meta property=\"og:image\" content=\"https://example.com/a.png\">\
        </head><body>x</body></html>"
        .to_string();
    let card = create_external(&"https://example.com/".to_string(), html).unwrap();
    assert_eq!(card.uri, "https://example.com/");
    assert_eq!(card.title, "Hello");
    assert_eq!(card.description, "A page");
    assert_eq!(card.thumb_url.as_deref(), Some("https://example.com/a.png"));
}

#[test]
fn link_card_of_bare_page_has_empty_fields() {
    let card = create_external(&"https://example.com/".to_string(), "plain".to_string()).unwrap();
    assert_eq!(card.title, "");
    assert_eq!(card.description, "");
    assert_eq!(card.thumb_url, None);
}

#[test]
fn card_from_page_fields() {
    let uri = "https://e.example".to_string();
    let card = external_from_page(
        &uri,
        Some((Some("T".to_string()), None, vec!["i1".to_string(), "i2".to_string()])),
    )
    .unwrap();
    assert_eq!(card.title, "T");
    assert_eq!(card.description, "");
    assert_eq!(card.thumb_url.as_deref(), Some("i1"));
    assert!(external_from_page(&uri, None).is_none());
}

#[test]
fn at_uris_give_record_keys() {
    assert_eq!(
        uri_to_post_rkey("at://did:plc:abc123/app.bsky.feed.post/3kxyz"),
        Some("3kxyz".to_string())
    );
    assert_eq!(uri_to_post_rkey("at://did:plc:abc123/app.bsky.feed.repost/3kxyz"), None);
    assert_eq!(
        uri_to_repost_rkey("at://did:plc:abc123/app.bsky.feed.repost/3kr"),
        Some("3kr".to_string())
    );
    assert_eq!(uri_to_repost_rkey("https://example.com"), None);
}

#[test]
fn at_uri_gives_web_address() {
    assert_eq!(
        to_external_uri("at://did:plc:abc/app.bsky.feed.post/3kq"),
        Some("https://bsky.app/profile/did:plc:abc/post/3kq".to_string())
    );
    assert_eq!(to_external_uri("https://bsky.app/profile/x"), None);
}

#[test]
fn facets_mark_links_in_text() {
    let facets = create_facets("see https://example.com/a and mail me@example.org");
    assert_eq!(facets.len(), 2);
    match &facets[0] {
        Facet::Link { byte_slice, uri } => {
            assert_eq!(byte_slice.clone(), 4..25);
            assert_eq!(uri, "https://example.com/a");
        }
    }
    match &facets[1] {
        Facet::Link { byte_slice, uri } => {
            assert_eq!(byte_slice.clone(), 35..49);
            assert_eq!(uri, "me@example.org");
        }
    }
    assert!(create_facets("no links here").is_empty());
}

#[test]
fn link_facet_spans_uri_bytes() {
    match link(3, "https://é.example") {
        Facet::Link { byte_slice, uri } => {
            assert_eq!(byte_slice, 3..21);
            assert_eq!(uri, "https://é.example");
        }
    }
}

#[test]
fn pages_the_parser_would_fail_on_are_refused() {
    let ok = "<html><head><title>x</title><meta property=\"og:image\" content=\"a\"></head></html>";
    assert!(page_is_parseable(ok));
    assert!(!page_is_parseable(
        "<head><meta property=\"og:image\" content=\"a\"><meta property=\"og:image\u{e9}\" content=\"b\"></head>"
    ));
    assert!(!page_is_parseable("<meta property=\"og:video&eacute;\" content=\"b\">"));
    assert!(!page_is_parseable("<meta property=\"og&#58;audio\" content=\"b\">"));
    assert!(!page_is_parseable("<meta property=\"og&colon;image\" content=\"b\">"));
    assert!(page_is_parseable("<p>caf\u{e9} og:imagery &amp; more</p>"));
    assert!(page_is_parseable(&"<b>".repeat(4096)));
    assert!(!page_is_parseable(&"<b>".repeat(4097)));
}
