//! Extraction of matched elements from fetched pages, and of album links and
//! track names from them.
use vstd::prelude::*;

verus! {

/// The origin that relative album links are resolved against.
pub const BASE_URL: &'static str = "https://vinyl.lofirecords.com";

/// The selector of album title links on a listing page.
pub const ALBUM_QUERY: &'static str = "a.album-title";

/// The selector of track names on an album page.
pub const TRACK_QUERY: &'static str = "span.track-name";

/// The attribute that holds an album link's target.
pub const LINK_ATTR: &'static str = "href";

/// An element that a selector matched: its text content, and the value of the
/// attribute asked for, if the element has it.
pub struct MatchedElement {
    pub text: String,
    pub attr: Option<String>,
}

/// The view of an optional string.
pub open spec fn opt_view(o: Option<String>) -> Option<Seq<char>> {
    match o {
        Some(s) => Some(s@),
        None => None,
    }
}

/// The views of matched elements: text and attribute value.
pub open spec fn matched_view(v: Seq<MatchedElement>) -> Seq<(Seq<char>, Option<Seq<char>>)> {
    v.map_values(|e: MatchedElement| (e.text@, opt_view(e.attr)))
}

/// What the HTML parser finds in `page` for the selector `query`: for each
/// matching element in document order, its concatenated text and the value of
/// its attribute `attr`; `None` where `query` is not a valid selector.
pub uninterp spec fn selected(page: Seq<char>, query: Seq<char>, attr: Seq<char>) -> Option<
    Seq<(Seq<char>, Option<Seq<char>>)>,
>;

/// Relies on scraper: `Selector::parse` (an error for a query that is not a
/// valid selector), `Html::parse_document`, `Html::select` (the matching
/// elements in document order), `ElementRef::text` (the element's text nodes,
/// concatenated here) and `Element::attr`.
#[verifier::external_body]
fn select_elements(page: &str, query: &str, attr: &str) -> (r: Option<Vec<MatchedElement>>)
    ensures
        selected(page@, query@, attr@) == match r {
            Some(v) => Some(matched_view(v@)),
            None => None::<Seq<(Seq<char>, Option<Seq<char>>)>>,
        },
{
    let selector = match scraper::Selector::parse(query) {
        Ok(s) => s,
        Err(_) => return None,
    };
    let document = scraper::Html::parse_document(page);
    let found = document.select(&selector).map(
        |e| MatchedElement { text: e.text().collect(), attr: e.value().attr(attr).map(String::from) },
    );
    Some(found.collect())
}

/// An album link of a listing page: the album's name and its absolute URL.
pub struct AlbumLink {
    pub name: String,
    pub url: String,
}

impl AlbumLink {
    pub open spec fn view(&self) -> (Seq<char>, Seq<char>) {
        (self.name@, self.url@)
    }
}

/// The absolute URL of an album: the base origin followed by the link's target,
/// or by nothing where the link has none.
pub open spec fn album_url_of(href: Option<Seq<char>>) -> Seq<char> {
    BASE_URL@ + match href {
        Some(h) => h,
        None => Seq::<char>::empty(),
    }
}

/// The album links that the matched elements of a listing page stand for.
pub open spec fn links_of(ms: Seq<(Seq<char>, Option<Seq<char>>)>) -> Seq<(Seq<char>, Seq<char>)> {
    ms.map_values(|m: (Seq<char>, Option<Seq<char>>)| (m.0, album_url_of(m.1)))
}

/// The album links that a listing page holds, in document order; `None` where
/// the album selector does not parse.
pub open spec fn listing_links(page: Seq<char>) -> Option<Seq<(Seq<char>, Seq<char>)>> {
    match selected(page, ALBUM_QUERY@, LINK_ATTR@) {
        Some(ms) => Some(links_of(ms)),
        None => None,
    }
}

/// The track names that an album page holds, in document order; `None` where
/// the track selector does not parse.
pub open spec fn page_tracks(page: Seq<char>) -> Option<Seq<Seq<char>>> {
    match selected(page, TRACK_QUERY@, LINK_ATTR@) {
        Some(ms) => Some(ms.map_values(|m: (Seq<char>, Option<Seq<char>>)| m.0)),
        None => None,
    }
}

/// The views of album links.
pub open spec fn links_view(v: Seq<AlbumLink>) -> Seq<(Seq<char>, Seq<char>)> {
    v.map_values(|l: AlbumLink| l@)
}

/// Resolves a link target against the base origin; no target gives the origin
/// itself.
pub fn album_url(href: &Option<String>) -> (r: String)
    ensures
        r@ == album_url_of(opt_view(*href)),
{
    let mut url = String::from_str(BASE_URL);
    match href {
        Some(h) => url.append(h.as_str()),
        None => {
            assert(url@ + Seq::<char>::empty() =~= url@);
        },
    }
    url
}

/// The album links of a listing page, in document order.
pub fn album_links(page: &str) -> (r: Option<Vec<AlbumLink>>)
    ensures
        listing_links(page@) == match r {
            Some(v) => Some(links_view(v@)),
            None => None::<Seq<(Seq<char>, Seq<char>)>>,
        },
{
    let found = match select_elements(page, ALBUM_QUERY, LINK_ATTR) {
        Some(v) => v,
        None => return None,
    };
    let ghost ms = matched_view(found@);
    let mut links: Vec<AlbumLink> = Vec::new();
    let mut i: usize = 0;
    while i < found.len()
        invariant
            i <= found@.len(),
            ms == matched_view(found@),
            links_view(links@) =~= links_of(ms).subrange(0, i as int),
        decreases found@.len() - i,
    {
        let name = found[i].text.clone();
        let url = album_url(&found[i].attr);
        let ghost prev = links@;
        links.push(AlbumLink { name, url });
        proof {
            assert(ms[i as int] == (found@[i as int].text@, opt_view(found@[i as int].attr)));
            assert(links@ == prev.push(links@.last()));
            assert(links_view(links@) =~= links_view(prev).push(links@.last()@));
        }
        i = i + 1;
    }
    assert(links_of(ms).subrange(0, ms.len() as int) =~= links_of(ms));
    Some(links)
}

/// The track names of an album page, in document order, as the page writes
/// them.
pub fn track_texts(page: &str) -> (r: Option<Vec<String>>)
    ensures
        page_tracks(page@) == match r {
            Some(v) => Some(v@.map_values(|t: String| t@)),
            None => None::<Seq<Seq<char>>>,
        },
{
    let found = match select_elements(page, TRACK_QUERY, LINK_ATTR) {
        Some(v) => v,
        None => return None,
    };
    let ghost ms = matched_view(found@);
    let mut names: Vec<String> = Vec::new();
    let mut i: usize = 0;
    while i < found.len()
        invariant
            i <= found@.len(),
            ms == matched_view(found@),
            names@.map_values(|t: String| t@) =~= ms.map_values(
                |m: (Seq<char>, Option<Seq<char>>)| m.0,
            ).subrange(0, i as int),
        decreases found@.len() - i,
    {
        let ghost prev = names@;
        names.push(found[i].text.clone());
        proof {
            assert(ms[i as int].0 == found@[i as int].text@);
            assert(names@ == prev.push(names@.last()));
            assert(names@.map_values(|t: String| t@) =~= prev.map_values(|t: String| t@).push(
                names@.last()@,
            ));
        }
        i = i + 1;
    }
    Some(names)
}

/// An album link whose element has no target resolves to the base origin
/// alone.
pub proof fn lemma_missing_href_is_base(page: Seq<char>, i: int)
    requires
        selected(page, ALBUM_QUERY@, LINK_ATTR@) is Some,
        0 <= i < selected(page, ALBUM_QUERY@, LINK_ATTR@)->0.len(),
        selected(page, ALBUM_QUERY@, LINK_ATTR@)->0[i].1 is None,
    ensures
        listing_links(page)->0[i].1 == BASE_URL@,
{
    assert(BASE_URL@ + Seq::<char>::empty() =~= BASE_URL@);
}

} // verus!
