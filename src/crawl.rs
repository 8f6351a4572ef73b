//! The crawl as a state machine: it names the next page to fetch, takes the
//! outcome of that fetch, and decides retries, pauses and records. The caller
//! performs the fetches and the pauses.
use crate::extract::{
    album_links, links_of, links_view, listing_links, page_tracks, selected, track_texts, AlbumLink,
    ALBUM_QUERY, LINK_ATTR,
};
use crate::text::{join_tracks, track_field, views};
use crate::{Album, Track};
use vstd::prelude::*;

verus! {

/// How often a seed's listing fetch is tried before the seed is given up.
pub const MAX_ATTEMPTS: u32 = 10;

/// The pause, in seconds, after a failed or refused fetch.
pub const RETRY_DELAY_SECONDS: u64 = 15;

/// The prefix that a seed URL given by the user must have; with no URL given it
/// is also the one seed.
pub const SEED_PREFIX: &'static str = "https://vinyl.lofirecords.com/collections/lofi";

/// The result of one HTTP GET.
pub enum FetchOutcome {
    /// A response other than 503, with its body.
    Success(String),
    /// The server answered 503.
    ServiceUnavailable,
    /// The request or the reading of the body failed.
    TransportError(String),
}

/// What the caller should report about the outcome it handed in.
#[derive(Clone, Copy, Debug, PartialEq, Eq, Structural)]
pub enum Notice {
    /// The listing page had no album links.
    NoAlbums,
    /// The listing page answered 503; the seed yields nothing.
    ListingUnavailable,
    /// The listing fetch failed; it will be tried again.
    Retrying,
    /// The listing fetch failed on its last attempt; the seed is given up.
    Aborted,
    /// An album page answered 503; the album has no tracks.
    AlbumUnavailable,
    /// An album page could not be fetched; the album has no tracks.
    AlbumUnreachable,
    /// A selector does not parse; the crawl stops.
    BadQuery,
}

impl Notice {
    /// Whether the notice reports an error rather than information.
    pub open spec fn spec_is_error(self) -> bool {
        !(self is NoAlbums)
    }

    pub fn is_error(&self) -> (r: bool)
        ensures
            r == self.spec_is_error(),
    {
        !matches!(self, Notice::NoAlbums)
    }
}

/// The caller's part after handing in an outcome: pause this long, and report
/// the notice if there is one.
#[derive(Clone, Copy, Debug, PartialEq, Eq, Structural)]
pub struct Reply {
    pub pause_seconds: u64,
    pub notice: Option<Notice>,
}

/// One output row: album name, album URL, and the joined track names.
#[derive(Debug)]
pub struct OutputRecord {
    pub album_name: String,
    pub album_url: String,
    pub tracks: String,
}

impl OutputRecord {
    pub open spec fn view(&self) -> (Seq<char>, Seq<char>, Seq<char>) {
        (self.album_name@, self.album_url@, self.tracks@)
    }

    /// Flattens an album into its row: the track names normalized and joined.
    pub fn from_album(album: &Album) -> (r: OutputRecord)
        ensures
            r@ == (album.name@, album.url@, track_field(album.track_names())),
    {
        let mut names: Vec<String> = Vec::new();
        let mut i: usize = 0;
        while i < album.tracks.len()
            invariant
                i <= album.tracks@.len(),
                views(names@) =~= album.track_names().subrange(0, i as int),
            decreases album.tracks@.len() - i,
        {
            let ghost prev = names@;
            names.push(album.tracks[i].name.clone());
            proof {
                assert(names@ == prev.push(names@.last()));
                assert(views(names@) =~= views(prev).push(names@.last()@));
            }
            i = i + 1;
        }
        assert(album.track_names().subrange(0, album.tracks@.len() as int) =~= album.track_names());
        OutputRecord {
            album_name: album.name.clone(),
            album_url: album.url.clone(),
            tracks: join_tracks(&names),
        }
    }
}

/// The views of output records.
pub open spec fn records_view(v: Seq<OutputRecord>) -> Seq<(Seq<char>, Seq<char>, Seq<char>)> {
    v.map_values(|r: OutputRecord| r@)
}

/// The abstract state of a crawl.
pub struct CrawlState {
    /// The seed URLs, in order.
    pub seeds: Seq<Seq<char>>,
    /// The index of the seed whose listing is fetched next.
    pub next_seed: nat,
    /// The failed listing fetches of that seed so far.
    pub attempts: nat,
    /// The listing fetches a seed gets before it is given up.
    pub max_attempts: nat,
    /// The pause after a failed or refused fetch.
    pub delay_seconds: nat,
    /// The album links (name, URL) of the last listing page.
    pub albums: Seq<(Seq<char>, Seq<char>)>,
    /// The index of the album whose page is fetched next.
    pub next_album: nat,
    /// The rows found so far, in order of discovery.
    pub records: Seq<(Seq<char>, Seq<char>, Seq<char>)>,
    /// Whether a selector failed to parse, which ends the crawl.
    pub halted: bool,
}

/// The track names that an album page outcome yields: those of the page on
/// success, none on a 503 or a transport error; `None` where the selector does
/// not parse.
pub open spec fn outcome_tracks(o: FetchOutcome) -> Option<Seq<Seq<char>>> {
    match o {
        FetchOutcome::Success(body) => page_tracks(body@),
        _ => Some(Seq::<Seq<char>>::empty()),
    }
}

impl CrawlState {
    pub open spec fn wf(self) -> bool {
        &&& self.next_seed <= self.seeds.len()
        &&& self.next_album <= self.albums.len()
        &&& self.attempts < self.max_attempts
    }

    /// Whether an album page is fetched next.
    pub open spec fn in_albums(self) -> bool {
        self.next_album < self.albums.len()
    }

    /// The URL that is fetched next; `None` once the crawl is over.
    pub open spec fn request(self) -> Option<Seq<char>> {
        if self.halted {
            None
        } else if self.in_albums() {
            Some(self.albums[self.next_album as int].1)
        } else if self.next_seed < self.seeds.len() {
            Some(self.seeds[self.next_seed as int])
        } else {
            None
        }
    }

    /// The state after the outcome of the fetch of `self.request()`.
    pub open spec fn step(self, o: FetchOutcome) -> CrawlState {
        if self.in_albums() {
            match outcome_tracks(o) {
                None => CrawlState { halted: true, ..self },
                Some(ts) => {
                    let link = self.albums[self.next_album as int];
                    CrawlState {
                        records: self.records.push((link.0, link.1, track_field(ts))),
                        next_album: self.next_album + 1,
                        ..self
                    }
                },
            }
        } else {
            match o {
                FetchOutcome::Success(body) => match listing_links(body@) {
                    None => CrawlState { halted: true, ..self },
                    Some(links) => CrawlState {
                        albums: links,
                        next_album: 0,
                        next_seed: self.next_seed + 1,
                        attempts: 0,
                        ..self
                    },
                },
                FetchOutcome::ServiceUnavailable => CrawlState {
                    next_seed: self.next_seed + 1,
                    attempts: 0,
                    ..self
                },
                FetchOutcome::TransportError(_) => if self.attempts + 1 >= self.max_attempts {
                    CrawlState { next_seed: self.next_seed + 1, attempts: 0, ..self }
                } else {
                    CrawlState { attempts: self.attempts + 1, ..self }
                },
            }
        }
    }

    /// What the caller is asked to do after the outcome of the fetch of
    /// `self.request()`: the pause in seconds and the notice.
    pub open spec fn reply(self, o: FetchOutcome) -> (nat, Option<Notice>) {
        if self.in_albums() {
            match o {
                FetchOutcome::Success(body) => if page_tracks(body@) is None {
                    (0, Some(Notice::BadQuery))
                } else {
                    (0, None)
                },
                FetchOutcome::ServiceUnavailable => (self.delay_seconds, Some(Notice::AlbumUnavailable)),
                FetchOutcome::TransportError(_) => (0, Some(Notice::AlbumUnreachable)),
            }
        } else {
            match o {
                FetchOutcome::Success(body) => match listing_links(body@) {
                    None => (0, Some(Notice::BadQuery)),
                    Some(links) => if links.len() == 0 {
                        (0, Some(Notice::NoAlbums))
                    } else {
                        (0, None)
                    },
                },
                FetchOutcome::ServiceUnavailable => (self.delay_seconds, Some(Notice::ListingUnavailable)),
                FetchOutcome::TransportError(_) => if self.attempts + 1 >= self.max_attempts {
                    (self.delay_seconds, Some(Notice::Aborted))
                } else {
                    (self.delay_seconds, Some(Notice::Retrying))
                },
            }
        }
    }
}

/// The crawl of a list of seed URLs: each seed's listing page, then the page of
/// each album on it, strictly one after the other.
pub struct Crawler {
    seeds: Vec<String>,
    next_seed: usize,
    attempts: u32,
    max_attempts: u32,
    delay_seconds: u64,
    albums: Vec<AlbumLink>,
    next_album: usize,
    records: Vec<OutputRecord>,
    halted: bool,
}

impl Crawler {
    pub closed spec fn view(&self) -> CrawlState {
        CrawlState {
            seeds: views(self.seeds@),
            next_seed: self.next_seed as nat,
            attempts: self.attempts as nat,
            max_attempts: self.max_attempts as nat,
            delay_seconds: self.delay_seconds as nat,
            albums: links_view(self.albums@),
            next_album: self.next_album as nat,
            records: records_view(self.records@),
            halted: self.halted,
        }
    }

    pub closed spec fn wf(&self) -> bool {
        self@.wf()
    }

    /// A crawl of `seeds` with ten attempts per listing and pauses of fifteen
    /// seconds. With no seeds it asks for no fetch at all.
    pub fn new(seeds: Vec<String>) -> (r: Crawler)
        ensures
            r.wf(),
            r@ == (CrawlState {
                seeds: views(seeds@),
                next_seed: 0,
                attempts: 0,
                max_attempts: MAX_ATTEMPTS as nat,
                delay_seconds: RETRY_DELAY_SECONDS as nat,
                albums: Seq::empty(),
                next_album: 0,
                records: Seq::empty(),
                halted: false,
            }),
            seeds@.len() == 0 ==> r@.request() is None,
    {
        let r = Crawler {
            seeds,
            next_seed: 0,
            attempts: 0,
            max_attempts: MAX_ATTEMPTS,
            delay_seconds: RETRY_DELAY_SECONDS,
            albums: Vec::new(),
            next_album: 0,
            records: Vec::new(),
            halted: false,
        };
        assert(links_view(r.albums@) =~= Seq::empty());
        assert(records_view(r.records@) =~= Seq::empty());
        r
    }

    /// The URL to fetch next, or `None` once the crawl is over.
    pub fn next_request(&self) -> (r: Option<String>)
        requires
            self.wf(),
        ensures
            opt_view_of(r) == self@.request(),
    {
        if self.halted {
            None
        } else if self.next_album < self.albums.len() {
            Some(self.albums[self.next_album].url.clone())
        } else if self.next_seed < self.seeds.len() {
            Some(self.seeds[self.next_seed].clone())
        } else {
            None
        }
    }

    /// Takes the outcome of the fetch of the URL that `next_request` named, and
    /// moves the crawl on. A failed listing fetch is tried again, after a
    /// pause, until the seed has had its attempts; a 503 on a listing yields
    /// nothing for that seed and costs no attempt. An album page that cannot
    /// be had gives the album an empty track list, with no retry.
    pub fn handle(&mut self, outcome: FetchOutcome) -> (r: Reply)
        requires
            old(self).wf(),
            old(self)@.request() is Some,
        ensures
            final(self).wf(),
            final(self)@ == old(self)@.step(outcome),
            (r.pause_seconds as nat, r.notice) == old(self)@.reply(outcome),
    {
        if self.next_album < self.albums.len() {
            let (names, reply) = match outcome {
                FetchOutcome::Success(body) => match track_texts(body.as_str()) {
                    None => {
                        self.halted = true;
                        return Reply { pause_seconds: 0, notice: Some(Notice::BadQuery) };
                    },
                    Some(ts) => (ts, Reply { pause_seconds: 0, notice: None }),
                },
                FetchOutcome::ServiceUnavailable => (
                    Vec::new(),
                    Reply { pause_seconds: self.delay_seconds, notice: Some(Notice::AlbumUnavailable) },
                ),
                FetchOutcome::TransportError(_) => (
                    Vec::new(),
                    Reply { pause_seconds: 0, notice: Some(Notice::AlbumUnreachable) },
                ),
            };
            proof {
                assert(outcome_tracks(outcome) == Some(views(names@)));
            }
            let link = &self.albums[self.next_album];
            let album = Album::new(link.name.clone(), link.url.clone(), tracks_of(&names));
            let record = OutputRecord::from_album(&album);
            let ghost prev = self.records@;
            self.records.push(record);
            self.next_album = self.next_album + 1;
            proof {
                assert(self.records@ == prev.push(record));
                assert(records_view(self.records@) =~= records_view(prev).push(record@));
            }
            reply
        } else {
            let seed_count = self.seeds.len();
            assert(self.next_seed < views(self.seeds@).len());
            assert(self.next_seed < seed_count);
            match outcome {
                FetchOutcome::Success(body) => match album_links(body.as_str()) {
                    None => {
                        self.halted = true;
                        Reply { pause_seconds: 0, notice: Some(Notice::BadQuery) }
                    },
                    Some(links) => {
                        let none_found = links.len() == 0;
                        self.albums = links;
                        self.next_album = 0;
                        self.next_seed = self.next_seed + 1;
                        self.attempts = 0;
                        if none_found {
                            Reply { pause_seconds: 0, notice: Some(Notice::NoAlbums) }
                        } else {
                            Reply { pause_seconds: 0, notice: None }
                        }
                    },
                },
                FetchOutcome::ServiceUnavailable => {
                    self.next_seed = self.next_seed + 1;
                    self.attempts = 0;
                    Reply { pause_seconds: self.delay_seconds, notice: Some(Notice::ListingUnavailable) }
                },
                FetchOutcome::TransportError(_) => {
                    if self.attempts + 1 >= self.max_attempts {
                        self.next_seed = self.next_seed + 1;
                        self.attempts = 0;
                        Reply { pause_seconds: self.delay_seconds, notice: Some(Notice::Aborted) }
                    } else {
                        self.attempts = self.attempts + 1;
                        Reply { pause_seconds: self.delay_seconds, notice: Some(Notice::Retrying) }
                    }
                },
            }
        }
    }

    /// The rows found so far, in order of discovery.
    pub fn records(&self) -> (r: &Vec<OutputRecord>)
        ensures
            records_view(r@) == self@.records,
    {
        &self.records
    }

    /// Whether a selector failed to parse, which ended the crawl.
    pub fn halted(&self) -> (r: bool)
        ensures
            r == self@.halted,
    {
        self.halted
    }
}

/// The tracks named by `names`, in order.
fn tracks_of(names: &Vec<String>) -> (r: Vec<Track>)
    ensures
        r@.map_values(|t: Track| t.name@) == views(names@),
{
    let mut tracks: Vec<Track> = Vec::new();
    let mut i: usize = 0;
    while i < names.len()
        invariant
            i <= names@.len(),
            tracks@.map_values(|t: Track| t.name@) =~= views(names@).subrange(0, i as int),
        decreases names@.len() - i,
    {
        let ghost prev = tracks@;
        let track = Track::new(names[i].clone());
        tracks.push(track);
        proof {
            assert(tracks@ == prev.push(track));
            assert(tracks@.map_values(|t: Track| t.name@) =~= prev.map_values(|t: Track| t.name@).push(
                track.name@,
            ));
        }
        i = i + 1;
    }
    assert(views(names@).subrange(0, names@.len() as int) =~= views(names@));
    tracks
}

/// Whether a command-line argument is accepted as a seed URL.
pub open spec fn is_seed(a: Seq<char>) -> bool {
    SEED_PREFIX@.is_prefix_of(a)
}

/// The arguments that are accepted as seed URLs, in order.
pub open spec fn seed_args(args: Seq<Seq<char>>) -> Seq<Seq<char>>
    decreases args.len(),
{
    if args.len() == 0 {
        Seq::empty()
    } else if is_seed(args.last()) {
        seed_args(args.drop_last()).push(args.last())
    } else {
        seed_args(args.drop_last())
    }
}

/// The seeds of a run: with no arguments the default seed alone; else the
/// accepted arguments, or `None` where no argument is accepted.
pub open spec fn seeds_of(args: Seq<Seq<char>>) -> Option<Seq<Seq<char>>> {
    if args.len() == 0 {
        Some(seq![SEED_PREFIX@])
    } else if seed_args(args).len() == 0 {
        None
    } else {
        Some(seed_args(args))
    }
}

/// Whether `a` starts with the seed prefix.
fn has_seed_prefix(a: &str) -> (r: bool)
    ensures
        r == is_seed(a@),
{
    let plen = SEED_PREFIX.unicode_len();
    let alen = a.unicode_len();
    if alen < plen {
        return false;
    }
    let mut i: usize = 0;
    while i < plen
        invariant
            plen == SEED_PREFIX@.len(),
            alen == a@.len(),
            plen <= alen,
            i <= plen,
            SEED_PREFIX@.subrange(0, i as int) =~= a@.subrange(0, i as int),
        decreases plen - i,
    {
        if a.get_char(i) != SEED_PREFIX.get_char(i) {
            assert(SEED_PREFIX@[i as int] != a@.subrange(0, plen as int)[i as int]);
            assert(!(SEED_PREFIX@ =~= a@.subrange(0, plen as int)));
            assert(!is_seed(a@));
            return false;
        }
        i = i + 1;
    }
    assert(SEED_PREFIX@ =~= SEED_PREFIX@.subrange(0, plen as int));
    true
}

/// The seed URLs that a run's command-line arguments give: with no arguments
/// the default seed; else those that start with the seed prefix, in order, or
/// `None` where none does.
pub fn seeds_from_args(args: &Vec<String>) -> (r: Option<Vec<String>>)
    ensures
        match r {
            Some(v) => seeds_of(views(args@)) == Some(views(v@)),
            None => seeds_of(views(args@)) is None,
        },
{
    if args.len() == 0 {
        let seeds = vec![String::from_str(SEED_PREFIX)];
        assert(views(seeds@) =~= seq![SEED_PREFIX@]);
        return Some(seeds);
    }
    let mut kept: Vec<String> = Vec::new();
    let mut i: usize = 0;
    while i < args.len()
        invariant
            i <= args@.len(),
            views(kept@) == seed_args(views(args@).subrange(0, i as int)),
        decreases args@.len() - i,
    {
        proof {
            assert(views(args@).subrange(0, i + 1).drop_last() =~= views(args@).subrange(0, i as int));
        }
        if has_seed_prefix(args[i].as_str()) {
            let ghost prev = kept@;
            kept.push(args[i].clone());
            proof {
                assert(kept@ == prev.push(kept@.last()));
                assert(views(kept@) =~= views(prev).push(kept@.last()@));
            }
        }
        i = i + 1;
    }
    assert(views(args@).subrange(0, args@.len() as int) =~= views(args@));
    if kept.len() == 0 {
        None
    } else {
        Some(kept)
    }
}

/// The state after the outcomes `os`, handed in one after the other.
pub open spec fn run(s: CrawlState, os: Seq<FetchOutcome>) -> CrawlState
    decreases os.len(),
{
    if os.len() == 0 {
        s
    } else {
        run(s, os.drop_last()).step(os.last())
    }
}

/// Whether `s` fetches a seed's listing next, with no attempt of it failed yet.
pub open spec fn fresh_listing(s: CrawlState) -> bool {
    &&& s.wf()
    &&& !s.halted
    &&& !s.in_albums()
    &&& s.next_seed < s.seeds.len()
    &&& s.attempts == 0
}

/// Whether every outcome of `os` is a transport error.
pub open spec fn all_failures(os: Seq<FetchOutcome>) -> bool {
    forall|i: int| 0 <= i < os.len() ==> #[trigger] os[i] is TransportError
}

proof fn lemma_failures(s: CrawlState, errs: Seq<FetchOutcome>, i: int)
    requires
        fresh_listing(s),
        all_failures(errs),
        0 <= i <= errs.len(),
        i < s.max_attempts,
    ensures
        run(s, errs.take(i)) == (CrawlState { attempts: i as nat, ..s }),
    decreases i,
{
    if i > 0 {
        lemma_failures(s, errs, i - 1);
        assert(errs.take(i).drop_last() =~= errs.take(i - 1));
        assert(errs.take(i).last() == errs[i - 1]);
    } else {
        assert(errs.take(0) =~= Seq::<FetchOutcome>::empty());
    }
}

/// A listing fetch that fails `k` times, `k` below the attempt limit, and then
/// succeeds: the same URL is asked for `k + 1` times, and the crawl then holds
/// the rows that a first-time success would have given (and stands where it
/// would have left it, unless the album selector fails to parse); the seed is
/// not asked for again.
pub proof fn lemma_retry_then_success(s: CrawlState, errs: Seq<FetchOutcome>, body: String)
    requires
        fresh_listing(s),
        all_failures(errs),
        errs.len() < s.max_attempts,
    ensures
        forall|i: int|
            0 <= i <= errs.len() ==> #[trigger] run(s, errs.take(i)).request() == s.request(),
        run(s, errs.push(FetchOutcome::Success(body))).records == s.step(
            FetchOutcome::Success(body),
        ).records,
        listing_links(body@) is Some ==> run(s, errs.push(FetchOutcome::Success(body))) == s.step(
            FetchOutcome::Success(body),
        ),
        !s.step(FetchOutcome::Success(body)).halted ==> s.step(FetchOutcome::Success(body)).next_seed
            == s.next_seed + 1,
{
    assert forall|i: int| 0 <= i <= errs.len() implies #[trigger] run(s, errs.take(i)).request()
        == s.request() by {
        lemma_failures(s, errs, i);
    }
    let k = errs.len() as int;
    lemma_failures(s, errs, k);
    let all = errs.push(FetchOutcome::Success(body));
    assert(all.drop_last() =~= errs.take(k));
    assert(all.last() == FetchOutcome::Success(body));
}

/// A listing fetch that always fails: the URL is asked for exactly as many
/// times as the attempt limit, the last failure reports the seed given up, and
/// the crawl moves to the next seed with no row added.
pub proof fn lemma_retries_exhausted(s: CrawlState, errs: Seq<FetchOutcome>)
    requires
        fresh_listing(s),
        all_failures(errs),
        errs.len() == s.max_attempts,
    ensures
        forall|i: int|
            0 <= i < errs.len() ==> #[trigger] run(s, errs.take(i)).request() == s.request(),
        run(s, errs.take(errs.len() - 1)).reply(errs.last()).1 == Some(Notice::Aborted),
        run(s, errs) == (CrawlState { next_seed: s.next_seed + 1, ..s }),
        run(s, errs).records == s.records,
{
    assert forall|i: int| 0 <= i < errs.len() implies #[trigger] run(s, errs.take(i)).request()
        == s.request() by {
        lemma_failures(s, errs, i);
    }
    let k = errs.len() as int;
    lemma_failures(s, errs, k - 1);
    assert(errs.drop_last() =~= errs.take(k - 1));
    assert(errs.last() == errs[k - 1]);
}

/// A 503 on an album page gives the album an empty track list and costs no
/// attempt, as a transport error there does; only the 503 asks for a pause.
pub proof fn lemma_album_unavailable(s: CrawlState, detail: String)
    requires
        s.wf(),
        !s.halted,
        s.in_albums(),
    ensures
        s.step(FetchOutcome::ServiceUnavailable) == s.step(FetchOutcome::TransportError(detail)),
        s.step(FetchOutcome::ServiceUnavailable).attempts == s.attempts,
        s.step(FetchOutcome::ServiceUnavailable).records == s.records.push(
            (s.albums[s.next_album as int].0, s.albums[s.next_album as int].1, Seq::empty()),
        ),
        s.reply(FetchOutcome::ServiceUnavailable) == (s.delay_seconds, Some(Notice::AlbumUnavailable)),
        s.reply(FetchOutcome::TransportError(detail)) == (0nat, Some(Notice::AlbumUnreachable)),
{
    let f = |n: Seq<char>| crate::text::normalized(n);
    assert(Seq::<Seq<char>>::empty().map_values(f) =~= Seq::<Seq<char>>::empty());
}

/// A listing page with no album links adds no row, fetches no album page, and
/// is reported as information, not as an error.
pub proof fn lemma_empty_listing(s: CrawlState, body: String)
    requires
        s.wf(),
        !s.halted,
        !s.in_albums(),
        s.next_seed < s.seeds.len(),
        selected(body@, ALBUM_QUERY@, LINK_ATTR@) == Some(Seq::<(Seq<char>, Option<Seq<char>>)>::empty()),
    ensures
        s.step(FetchOutcome::Success(body)).records == s.records,
        !s.step(FetchOutcome::Success(body)).in_albums(),
        s.step(FetchOutcome::Success(body)).next_seed == s.next_seed + 1,
        s.reply(FetchOutcome::Success(body)) == (0nat, Some(Notice::NoAlbums)),
        !Notice::NoAlbums.spec_is_error(),
{
    assert(links_of(Seq::<(Seq<char>, Option<Seq<char>>)>::empty()) =~= Seq::empty());
}

/// Rows are only ever added at the end: whatever outcomes come in, the rows
/// found so far stay, in their order of discovery.
pub proof fn lemma_records_kept(s: CrawlState, os: Seq<FetchOutcome>)
    ensures
        s.records.is_prefix_of(run(s, os).records),
    decreases os.len(),
{
    if os.len() > 0 {
        lemma_records_kept(s, os.drop_last());
        let before = run(s, os.drop_last()).records;
        let after = run(s, os).records;
        assert(after =~= before || (after.len() == before.len() + 1 && after.subrange(
            0,
            before.len() as int,
        ) =~= before));
        assert(after.subrange(0, s.records.len() as int) =~= before.subrange(
            0,
            s.records.len() as int,
        ));
    } else {
        assert(s.records.subrange(0, s.records.len() as int) =~= s.records);
    }
}

/// The view of an optional string.
pub open spec fn opt_view_of(o: Option<String>) -> Option<Seq<char>> {
    match o {
        Some(s) => Some(s@),
        None => None,
    }
}

} // verus!
