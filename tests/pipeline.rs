use lofi_lib::crawl::{
    seeds_from_args, Crawler, FetchOutcome, Notice, OutputRecord, MAX_ATTEMPTS,
    RETRY_DELAY_SECONDS, SEED_PREFIX,
};
use lofi_lib::extract::{album_links, album_url, track_texts, BASE_URL};
use lofi_lib::text::{join_tracks, normalize_track};
use lofi_lib::{Album, Track};

const LISTING: &str = "https://vinyl.lofirecords.com/collections/lofi";

fn listing_page() -> String {
    String::from(
        "<html><body>\
         <a class=\"album-title\" href=\"/a\">A</a>\
         <div><a class=\"album-title\" href=\"/b\">B</a></div>\
         </body></html>",
    )
}

fn album_a_page() -> String {
    String::from(
        "<html><body><span class=\"track-name\">T1\n</span>\
         <span class=\"track-name\"> T2 </span></body></html>",
    )
}

fn rows(records: &Vec<OutputRecord>) -> Vec<(String, String, String)> {
    records
        .iter()
        .map(|r| (r.album_name.clone(), r.album_url.clone(), r.tracks.clone()))
        .collect()
}

#[test]
fn track_and_album_new() {
    let t = Track::new(String::from("Intro"));
    assert_eq!(t.name, "Intro");
    let a = Album::new(String::from("A"), String::from("u"), vec![t]);
    assert_eq!(a.name, "A");
    assert_eq!(a.url, "u");
    assert_eq!(a.tracks.len(), 1);
    assert_eq!(a.tracks[0].name, "Intro");
}

#[test]
fn normalize_trims_and_drops_newlines() {
    assert_eq!(normalize_track("T1\n"), "T1");
    assert_eq!(normalize_track(" T2 "), "T2");
    assert_eq!(normalize_track("  \n Side\nA \t\n"), "SideA");
    assert_eq!(normalize_track("a \n b"), "a  b");
    assert_eq!(normalize_track(""), "");
    assert_eq!(normalize_track(" \n\t "), "");
}

#[test]
fn join_uses_comma_space() {
    let names = vec![String::from("T1\n"), String::from(" T2 "), String::from("T3")];
    assert_eq!(join_tracks(&names), "T1, T2, T3");
    assert_eq!(join_tracks(&vec![String::from(" solo ")]), "solo");
    assert_eq!(join_tracks(&Vec::new()), "");
}

#[test]
fn record_from_album() {
    let album = Album::new(
        String::from("A"),
        String::from("https://vinyl.lofirecords.com/a"),
        vec![Track::new(String::from("T1\n")), Track::new(String::from(" T2 "))],
    );
    let r = OutputRecord::from_album(&album);
    assert_eq!(r.album_name, "A");
    assert_eq!(r.album_url, "https://vinyl.lofirecords.com/a");
    assert_eq!(r.tracks, "T1, T2");
}

#[test]
fn album_url_without_href_is_base() {
    assert_eq!(album_url(&None), BASE_URL);
    assert_eq!(album_url(&Some(String::from("/a"))), "https://vinyl.lofirecords.com/a");
}

#[test]
fn album_links_in_document_order() {
    let page = "<a class=\"album-title\" href=\"/x\">X <b>One</b></a>\
                <a class=\"other\" href=\"/no\">No</a>\
                <a class=\"album-title\">Y</a>";
    let links = album_links(page).unwrap();
    assert_eq!(links.len(), 2);
    assert_eq!(links[0].name, "X One");
    assert_eq!(links[0].url, "https://vinyl.lofirecords.com/x");
    assert_eq!(links[1].name, "Y");
    assert_eq!(links[1].url, "https://vinyl.lofirecords.com");
}

#[test]
fn track_texts_as_written() {
    let tracks = track_texts(&album_a_page()).unwrap();
    assert_eq!(tracks, vec![String::from("T1\n"), String::from(" T2 ")]);
    assert_eq!(track_texts("<p>nothing</p>").unwrap().len(), 0);
}

#[test]
fn default_seed_without_arguments() {
    let seeds = seeds_from_args(&Vec::new()).unwrap();
    assert_eq!(seeds, vec![String::from(LISTING)]);
    assert_eq!(SEED_PREFIX, LISTING);
}

#[test]
fn arguments_filtered_by_prefix() {
    let args = vec![
        String::from("https://example.com"),
        String::from("https://vinyl.lofirecords.com/collections/lofi/x"),
    ];
    let seeds = seeds_from_args(&args).unwrap();
    assert_eq!(seeds, vec![String::from("https://vinyl.lofirecords.com/collections/lofi/x")]);
}

#[test]
fn no_matching_argument_aborts() {
    let args = vec![String::from("https://example.com"), String::from("https://vinyl.lofirecords.com")];
    assert!(seeds_from_args(&args).is_none());
    let crawler = Crawler::new(Vec::new());
    assert!(crawler.next_request().is_none());
    assert!(crawler.records().is_empty());
}

#[test]
fn end_to_end_two_albums() {
    let mut crawler = Crawler::new(vec![String::from(LISTING)]);
    assert_eq!(crawler.next_request(), Some(String::from(LISTING)));
    let reply = crawler.handle(FetchOutcome::Success(listing_page()));
    assert_eq!(reply.pause_seconds, 0);
    assert_eq!(reply.notice, None);
    assert_eq!(crawler.next_request(), Some(String::from("https://vinyl.lofirecords.com/a")));
    crawler.handle(FetchOutcome::Success(album_a_page()));
    assert_eq!(crawler.next_request(), Some(String::from("https://vinyl.lofirecords.com/b")));
    crawler.handle(FetchOutcome::Success(String::from("<html><body></body></html>")));
    assert_eq!(crawler.next_request(), None);
    assert_eq!(
        rows(crawler.records()),
        vec![
            (String::from("A"), String::from("https://vinyl.lofirecords.com/a"), String::from("T1, T2")),
            (String::from("B"), String::from("https://vinyl.lofirecords.com/b"), String::from("")),
        ]
    );
}

#[test]
fn retries_until_success() {
    let mut crawler = Crawler::new(vec![String::from(LISTING)]);
    let mut fetches = 0;
    let failures = 3;
    while let Some(url) = crawler.next_request() {
        fetches += 1;
        let outcome = if url == LISTING && fetches <= failures {
            FetchOutcome::TransportError(String::from("connection reset"))
        } else if url == LISTING {
            FetchOutcome::Success(String::from("<a class=\"album-title\" href=\"/a\">A</a>"))
        } else {
            FetchOutcome::Success(album_a_page())
        };
        let reply = crawler.handle(outcome);
        if fetches <= failures {
            assert_eq!(reply.notice, Some(Notice::Retrying));
            assert_eq!(reply.pause_seconds, RETRY_DELAY_SECONDS);
        }
    }
    assert_eq!(fetches, failures + 1 + 1);
    assert_eq!(
        rows(crawler.records()),
        vec![(String::from("A"), String::from("https://vinyl.lofirecords.com/a"), String::from("T1, T2"))]
    );
}

#[test]
fn always_failing_seed_is_given_up() {
    let other = "https://vinyl.lofirecords.com/collections/lofi-2";
    let mut crawler = Crawler::new(vec![String::from(LISTING), String::from(other)]);
    let mut first_fetches = 0;
    let mut last_notice = None;
    while crawler.next_request() == Some(String::from(LISTING)) {
        first_fetches += 1;
        let reply = crawler.handle(FetchOutcome::TransportError(String::from("timeout")));
        assert_eq!(reply.pause_seconds, 15);
        last_notice = reply.notice;
    }
    assert_eq!(first_fetches, MAX_ATTEMPTS);
    assert_eq!(first_fetches, 10);
    assert_eq!(last_notice, Some(Notice::Aborted));
    assert!(last_notice.unwrap().is_error());
    assert!(crawler.records().is_empty());
    assert_eq!(crawler.next_request(), Some(String::from(other)));
    let reply = crawler.handle(FetchOutcome::Success(String::from("<p>empty</p>")));
    assert_eq!(reply.notice, Some(Notice::NoAlbums));
    assert_eq!(crawler.next_request(), None);
    assert!(crawler.records().is_empty());
}

#[test]
fn album_service_unavailable_gives_empty_tracks() {
    let mut crawler = Crawler::new(vec![String::from(LISTING)]);
    crawler.handle(FetchOutcome::Success(listing_page()));
    let reply = crawler.handle(FetchOutcome::ServiceUnavailable);
    assert_eq!(reply.pause_seconds, 15);
    assert_eq!(reply.notice, Some(Notice::AlbumUnavailable));
    let reply = crawler.handle(FetchOutcome::TransportError(String::from("dns")));
    assert_eq!(reply.pause_seconds, 0);
    assert_eq!(reply.notice, Some(Notice::AlbumUnreachable));
    assert_eq!(crawler.next_request(), None);
    assert_eq!(
        rows(crawler.records()),
        vec![
            (String::from("A"), String::from("https://vinyl.lofirecords.com/a"), String::from("")),
            (String::from("B"), String::from("https://vinyl.lofirecords.com/b"), String::from("")),
        ]
    );
}

#[test]
fn listing_service_unavailable_costs_no_attempt() {
    let mut crawler = Crawler::new(vec![String::from(LISTING)]);
    let reply = crawler.handle(FetchOutcome::ServiceUnavailable);
    assert_eq!(reply.pause_seconds, RETRY_DELAY_SECONDS);
    assert_eq!(reply.notice, Some(Notice::ListingUnavailable));
    assert_eq!(crawler.next_request(), None);
    assert!(crawler.records().is_empty());
    assert!(!crawler.halted());
}

#[test]
fn empty_listing_is_information() {
    let mut crawler = Crawler::new(vec![String::from(LISTING)]);
    let reply = crawler.handle(FetchOutcome::Success(String::from("<html><body><p>none</p></body></html>")));
    assert_eq!(reply.pause_seconds, 0);
    assert_eq!(reply.notice, Some(Notice::NoAlbums));
    assert!(!Notice::NoAlbums.is_error());
    assert_eq!(crawler.next_request(), None);
    assert!(crawler.records().is_empty());
}
