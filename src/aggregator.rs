use vstd::prelude::*;
use crate::json::JsonValue;
use crate::decode::{
    PassEntry, entry_views, entries_upto, ids_upto, catalog_upto, data_of, cursor_of, opt_chars,
    detail_price_of, detail_creator_of, decode_games_page, decode_pass_page, decode_detail,
    decode_catalog,
};
use crate::pass::{Gamepass, views, well_formed, offered, offer, sorted_by_price, sort_by_price, id_position};
use crate::catalog::{catalog_fold, offer_catalog};

verus! {

/// One strategy for discovering a user's passes.
#[derive(Clone, Copy, PartialEq, Eq, Structural)]
pub enum SourceKind {
    /// The global catalog search, by creator.
    Catalog,
    /// The user's public games, then each game's passes, then each pass's details.
    PublicGames,
    /// The user's own pass listing, then each pass's details.
    UserPasses,
}

/// An upstream call that the aggregation waits on.
pub enum Request {
    CatalogSearch { user_id: u64 },
    GamesPage { user_id: u64, cursor: Option<String> },
    GamePasses { universe_id: u64 },
    UserPassesPage { user_id: u64, cursor: Option<String> },
    AssetDetail { pass_id: u64 },
}

/// The mathematical view of a `Request`.
pub enum RequestView {
    CatalogSearch(u64),
    GamesPage(u64, Option<Seq<char>>),
    GamePasses(u64),
    UserPassesPage(u64, Option<Seq<char>>),
    AssetDetail(u64),
}

impl View for Request {
    type V = RequestView;

    open spec fn view(&self) -> RequestView {
        match *self {
            Request::CatalogSearch { user_id } => RequestView::CatalogSearch(user_id),
            Request::GamesPage { user_id, cursor } => RequestView::GamesPage(
                user_id,
                opt_chars(cursor),
            ),
            Request::GamePasses { universe_id } => RequestView::GamePasses(universe_id),
            Request::UserPassesPage { user_id, cursor } => RequestView::UserPassesPage(
                user_id,
                opt_chars(cursor),
            ),
            Request::AssetDetail { pass_id } => RequestView::AssetDetail(pass_id),
        }
    }
}

/// The response handed back to the caller of the service.
pub struct AggregationResult {
    pub ok: bool,
    pub user_id: u64,
    pub count: usize,
    pub passes: Vec<Gamepass>,
}

/// The first call of source number `i` of `order`; `None` past the last one.
pub open spec fn first_request(order: Seq<SourceKind>, i: int, user_id: u64) -> Option<RequestView> {
    if 0 <= i < order.len() {
        Some(
            match order[i] {
                SourceKind::Catalog => RequestView::CatalogSearch(user_id),
                SourceKind::PublicGames => RequestView::GamesPage(user_id, None),
                SourceKind::UserPasses => RequestView::UserPassesPage(user_id, None),
            },
        )
    } else {
        None
    }
}

/// The page elements of a response, if it is a listing.
pub open spec fn listing_of(body: Option<JsonValue>) -> Option<Seq<JsonValue>> {
    match body {
        Some(v) => data_of(v),
        None => None,
    }
}

/// The continuation cursor of a response, if it is a listing that has one.
pub open spec fn next_cursor_of(body: Option<JsonValue>) -> Option<Seq<char>> {
    match body {
        Some(v) => if data_of(v) is Some {
            cursor_of(v)
        } else {
            None
        },
        None => None,
    }
}

/// The game ids of a games-page response; none for a failed call.
pub open spec fn game_ids_in(body: Option<JsonValue>) -> Seq<u64> {
    match listing_of(body) {
        Some(d) => ids_upto(d, d.len() as int),
        None => Seq::empty(),
    }
}

/// The (id, name) entries of a pass-listing response; none for a failed call.
pub open spec fn entries_in(body: Option<JsonValue>) -> Seq<(u64, Seq<char>)> {
    match listing_of(body) {
        Some(d) => entries_upto(d, d.len() as int),
        None => Seq::empty(),
    }
}

/// The items of a catalog response; none for a failed call.
pub open spec fn catalog_in(body: Option<JsonValue>) -> Seq<(u64, Seq<char>, u64, Option<i64>)> {
    match listing_of(body) {
        Some(d) => catalog_upto(d, d.len() as int),
        None => Seq::empty(),
    }
}

/// `cs` lists a candidate with this id.
pub open spec fn has_entry(cs: Seq<(u64, Seq<char>)>, id: u64) -> bool {
    exists|i: int| 0 <= i < cs.len() && cs[i].0 == id
}

/// No two candidates share an id.
pub open spec fn distinct_entries(cs: Seq<(u64, Seq<char>)>) -> bool {
    forall|i: int, j: int| 0 <= i < j < cs.len() ==> cs[i].0 != cs[j].0
}

/// The candidates after the first `n` of `es` were added, each id once.
pub open spec fn merge_upto(cs: Seq<(u64, Seq<char>)>, es: Seq<(u64, Seq<char>)>, n: int) -> Seq<
    (u64, Seq<char>),
>
    decreases n,
{
    if n <= 0 {
        cs
    } else {
        let prev = merge_upto(cs, es, n - 1);
        if has_entry(prev, es[n - 1].0) {
            prev
        } else {
            prev.push(es[n - 1])
        }
    }
}

/// The passes after a detail response for candidate `c`; a failed call adds nothing.
pub open spec fn detail_offered(
    ps: Seq<(u64, Seq<char>, i64)>,
    user_id: u64,
    c: (u64, Seq<char>),
    body: Option<JsonValue>,
) -> Seq<(u64, Seq<char>, i64)> {
    match body {
        Some(v) => offered(ps, user_id, c.0, c.1, detail_price_of(v), detail_creator_of(v)),
        None => ps,
    }
}

/// How a source ends: with a pass found the aggregation is over; with none,
/// the next source starts with its first call.
pub open spec fn closes_source(before: Aggregator, after: Aggregator) -> bool {
    &&& after.games_listed().len() == 0
    &&& after.candidates_listed().len() == 0
    &&& after.position() == 0
    &&& if after.found().len() > 0 {
        after.pending() is None && after.current_source() == before.current_source()
    } else {
        &&& after.current_source() == before.current_source() + 1
        &&& after.pending() == first_request(
            after.source_order(),
            after.current_source(),
            after.user(),
        )
    }
}

/// One step of an aggregation: how `after` follows from `before` once the
/// response `body` to the pending call has been taken (`None` for a failed
/// call).
pub open spec fn steps_to(before: Aggregator, body: Option<JsonValue>, after: Aggregator) -> bool {
    &&& after.user() == before.user()
    &&& after.source_order() == before.source_order()
    &&& before.pending() is None ==> {
        &&& after.pending() is None
        &&& after.found() == before.found()
        &&& after.games_listed() == before.games_listed()
        &&& after.candidates_listed() == before.candidates_listed()
        &&& after.position() == before.position()
        &&& after.current_source() == before.current_source()
    }
    &&& before.pending() matches Some(RequestView::CatalogSearch(_)) ==> {
        &&& after.found() == catalog_fold(
            before.found(),
            before.user(),
            catalog_in(body),
            catalog_in(body).len() as int,
        )
        &&& closes_source(before, after)
    }
    &&& before.pending() matches Some(RequestView::GamesPage(_, _)) ==> {
        let all = before.games_listed() + game_ids_in(body);
        &&& after.found() == before.found()
        &&& match next_cursor_of(body) {
            Some(c) => {
                &&& after.games_listed() == all
                &&& after.pending() == Some(RequestView::GamesPage(before.user(), Some(c)))
                &&& after.position() == 0
                &&& after.current_source() == before.current_source()
                &&& after.candidates_listed() == before.candidates_listed()
            },
            None => if all.len() > 0 {
                &&& after.games_listed() == all
                &&& after.pending() == Some(RequestView::GamePasses(all[0]))
                &&& after.position() == 0
                &&& after.current_source() == before.current_source()
                &&& after.candidates_listed() == before.candidates_listed()
            } else {
                closes_source(before, after)
            },
        }
    }
    &&& before.pending() matches Some(RequestView::GamePasses(_)) ==> {
        let merged = merge_upto(
            before.candidates_listed(),
            entries_in(body),
            entries_in(body).len() as int,
        );
        let next = before.position() + 1;
        &&& after.found() == before.found()
        &&& if next < before.games_listed().len() {
            &&& after.games_listed() == before.games_listed()
            &&& after.candidates_listed() == merged
            &&& after.pending() == Some(
                RequestView::GamePasses(before.games_listed()[next]),
            )
            &&& after.position() == next
            &&& after.current_source() == before.current_source()
        } else if merged.len() > 0 {
            &&& after.games_listed() == before.games_listed()
            &&& after.candidates_listed() == merged
            &&& after.pending() == Some(RequestView::AssetDetail(merged[0].0))
            &&& after.position() == 0
            &&& after.current_source() == before.current_source()
        } else {
            closes_source(before, after)
        }
    }
    &&& before.pending() matches Some(RequestView::UserPassesPage(_, _)) ==> {
        let merged = merge_upto(
            before.candidates_listed(),
            entries_in(body),
            entries_in(body).len() as int,
        );
        &&& after.found() == before.found()
        &&& match next_cursor_of(body) {
            Some(c) => {
                &&& after.games_listed() == before.games_listed()
                &&& after.candidates_listed() == merged
                &&& after.pending() == Some(RequestView::UserPassesPage(before.user(), Some(c)))
                &&& after.position() == 0
                &&& after.current_source() == before.current_source()
            },
            None => if merged.len() > 0 {
                &&& after.games_listed() == before.games_listed()
                &&& after.candidates_listed() == merged
                &&& after.pending() == Some(RequestView::AssetDetail(merged[0].0))
                &&& after.position() == 0
                &&& after.current_source() == before.current_source()
            } else {
                closes_source(before, after)
            },
        }
    }
    &&& before.pending() matches Some(RequestView::AssetDetail(_)) ==> {
        let next = before.position() + 1;
        &&& after.found() == detail_offered(
            before.found(),
            before.user(),
            before.awaited_candidate(),
            body,
        )
        &&& if next < before.candidates_listed().len() {
            &&& after.games_listed() == before.games_listed()
            &&& after.candidates_listed() == before.candidates_listed()
            &&& after.pending() == Some(
                RequestView::AssetDetail(before.candidates_listed()[next].0),
            )
            &&& after.position() == next
            &&& after.current_source() == before.current_source()
        } else {
            closes_source(before, after)
        }
    }
}

/// Whether `cs` lists a candidate with id `id`.
fn has_candidate(cs: &Vec<PassEntry>, id: u64) -> (r: bool)
    ensures
        r == has_entry(entry_views(cs@), id),
{
    let mut i: usize = 0;
    while i < cs.len()
        invariant
            i <= cs@.len(),
            forall|j: int| 0 <= j < i ==> cs@[j].id != id,
        decreases cs@.len() - i,
    {
        if cs[i].id == id {
            assert(entry_views(cs@)[i as int].0 == id);
            return true;
        }
        i = i + 1;
    }
    assert(forall|j: int| 0 <= j < cs@.len() ==> entry_views(cs@)[j].0 == cs@[j].id);
    false
}

/// What an aggregation waits on; the index of `AwaitGamePasses` points into
/// the listed games, that of `AwaitDetail` into the candidates.
enum Phase {
    AwaitCatalog,
    AwaitGamesPage(Option<String>),
    AwaitGamePasses(usize),
    AwaitUserPassesPage(Option<String>),
    AwaitDetail(usize),
    Done,
}

/// One aggregation for one user: it names the upstream call to make next and
/// takes each response in turn, trying its sources in order until one yields
/// a pass.
pub struct Aggregator {
    user_id: u64,
    sources: Vec<SourceKind>,
    source: usize,
    phase: Phase,
    games: Vec<u64>,
    candidates: Vec<PassEntry>,
    passes: Vec<Gamepass>,
}

impl Aggregator {
    /// The user whose passes are gathered.
    pub closed spec fn user(&self) -> u64 {
        self.user_id
    }

    /// The sources, in the order in which they are tried.
    pub closed spec fn source_order(&self) -> Seq<SourceKind> {
        self.sources@
    }

    /// The position in `source_order` of the source at work.
    pub closed spec fn current_source(&self) -> int {
        self.source as int
    }

    /// The passes accepted so far.
    pub closed spec fn found(&self) -> Seq<(u64, Seq<char>, i64)> {
        views(self.passes@)
    }

    /// The game ids listed so far by the public-games source.
    pub closed spec fn games_listed(&self) -> Seq<u64> {
        self.games@
    }

    /// The passes listed so far by the source at work, awaiting their details.
    pub closed spec fn candidates_listed(&self) -> Seq<(u64, Seq<char>)> {
        entry_views(self.candidates@)
    }

    /// The position of the awaited game in `games_listed`, or of the awaited
    /// candidate in `candidates_listed`; zero in the other phases.
    pub closed spec fn position(&self) -> int {
        match self.phase {
            Phase::AwaitGamePasses(i) => i as int,
            Phase::AwaitDetail(k) => k as int,
            _ => 0,
        }
    }

    /// The candidate whose detail record is awaited.
    pub closed spec fn awaited_candidate(&self) -> (u64, Seq<char>) {
        match self.phase {
            Phase::AwaitDetail(k) => entry_views(self.candidates@)[k as int],
            _ => (0, Seq::empty()),
        }
    }

    /// The call that the aggregation waits on; `None` once it is over.
    pub closed spec fn pending(&self) -> Option<RequestView> {
        match self.phase {
            Phase::AwaitCatalog => Some(RequestView::CatalogSearch(self.user_id)),
            Phase::AwaitGamesPage(c) => Some(RequestView::GamesPage(self.user_id, opt_chars(c))),
            Phase::AwaitGamePasses(i) => Some(RequestView::GamePasses(self.games@[i as int])),
            Phase::AwaitUserPassesPage(c) => Some(
                RequestView::UserPassesPage(self.user_id, opt_chars(c)),
            ),
            Phase::AwaitDetail(k) => Some(RequestView::AssetDetail(self.candidates@[k as int].id)),
            Phase::Done => None,
        }
    }

    /// The internal consistency of an aggregation.
    pub closed spec fn wf(&self) -> bool {
        &&& well_formed(views(self.passes@))
        &&& distinct_entries(entry_views(self.candidates@))
        &&& self.source <= self.sources@.len()
        &&& match self.phase {
            Phase::Done => self.passes@.len() > 0 || self.source == self.sources@.len(),
            Phase::AwaitCatalog => {
                &&& self.source < self.sources@.len()
                &&& self.sources@[self.source as int] == SourceKind::Catalog
                &&& self.passes@.len() == 0
            },
            Phase::AwaitGamesPage(_) => {
                &&& self.source < self.sources@.len()
                &&& self.sources@[self.source as int] == SourceKind::PublicGames
                &&& self.passes@.len() == 0
            },
            Phase::AwaitGamePasses(i) => {
                &&& self.source < self.sources@.len()
                &&& self.sources@[self.source as int] == SourceKind::PublicGames
                &&& self.passes@.len() == 0
                &&& i < self.games@.len()
            },
            Phase::AwaitUserPassesPage(_) => {
                &&& self.source < self.sources@.len()
                &&& self.sources@[self.source as int] == SourceKind::UserPasses
                &&& self.passes@.len() == 0
            },
            Phase::AwaitDetail(k) => {
                &&& self.source < self.sources@.len()
                &&& self.sources@[self.source as int] != SourceKind::Catalog
                &&& k < self.candidates@.len()
            },
        }
    }

    /// Starts an aggregation for `user_id` that tries `sources` in order.
    pub fn new(user_id: u64, sources: Vec<SourceKind>) -> (r: Aggregator)
        ensures
            r.wf(),
            r.user() == user_id,
            r.source_order() == sources@,
            r.current_source() == 0,
            r.found().len() == 0,
            r.games_listed().len() == 0,
            r.candidates_listed().len() == 0,
            r.position() == 0,
            r.pending() == first_request(sources@, 0, user_id),
    {
        let mut r = Aggregator {
            user_id,
            sources,
            source: 0,
            phase: Phase::Done,
            games: Vec::new(),
            candidates: Vec::new(),
            passes: Vec::new(),
        };
        r.enter_source();
        r
    }

    /// Sets up the first call of the source at `self.source`, or ends the
    /// aggregation when no source is left.
    fn enter_source(&mut self)
        requires
            old(self).source <= old(self).sources@.len(),
            old(self).passes@.len() == 0,
        ensures
            final(self).wf(),
            final(self).user_id == old(self).user_id,
            final(self).sources@ == old(self).sources@,
            final(self).source == old(self).source,
            final(self).passes@ == old(self).passes@,
            final(self).games@.len() == 0,
            final(self).candidates@.len() == 0,
            final(self).pending() == first_request(
                old(self).sources@,
                old(self).source as int,
                old(self).user_id,
            ),
    {
        self.games = Vec::new();
        self.candidates = Vec::new();
        if self.source < self.sources.len() {
            self.phase = match self.sources[self.source] {
                SourceKind::Catalog => Phase::AwaitCatalog,
                SourceKind::PublicGames => Phase::AwaitGamesPage(None),
                SourceKind::UserPasses => Phase::AwaitUserPassesPage(None),
            };
        } else {
            self.phase = Phase::Done;
        }
        assert(views(self.passes@) =~= Seq::empty());
        assert(entry_views(self.candidates@) =~= Seq::empty());
    }

    /// Closes the source at work: the aggregation ends if it has found a
    /// pass, and moves to the next source otherwise.
    fn end_source(&mut self)
        requires
            old(self).source < old(self).sources@.len(),
            well_formed(views(old(self).passes@)),
            distinct_entries(entry_views(old(self).candidates@)),
        ensures
            final(self).wf(),
            final(self).user_id == old(self).user_id,
            final(self).sources@ == old(self).sources@,
            final(self).passes@ == old(self).passes@,
            closes_source(*old(self), *final(self)),
    {
        if self.passes.len() > 0 {
            self.phase = Phase::Done;
            self.games = Vec::new();
            self.candidates = Vec::new();
            assert(entry_views(self.candidates@) =~= Seq::empty());
        } else if self.source < self.sources.len() {
            self.source = self.source + 1;
            self.enter_source();
        }
    }

    /// Asks for the details of the candidates from position `from` on, or
    /// closes the source when none is left.
    fn start_details(&mut self, from: usize)
        requires
            old(self).source < old(self).sources@.len(),
            old(self).sources@[old(self).source as int] != SourceKind::Catalog,
            from <= old(self).candidates@.len(),
            well_formed(views(old(self).passes@)),
            distinct_entries(entry_views(old(self).candidates@)),
        ensures
            final(self).wf(),
            final(self).user_id == old(self).user_id,
            final(self).sources@ == old(self).sources@,
            final(self).passes@ == old(self).passes@,
            from < old(self).candidates@.len() ==> final(self).phase == Phase::AwaitDetail(from)
                && final(self).candidates@ == old(self).candidates@
                && final(self).games@ == old(self).games@
                && final(self).source == old(self).source,
            from == old(self).candidates@.len() ==> closes_source(*old(self), *final(self)),
    {
        if from < self.candidates.len() {
            self.phase = Phase::AwaitDetail(from);
        } else {
            self.end_source();
        }
    }

    /// Adds the listed entries to the candidates, skipping ids already there.
    fn add_entries(&mut self, entries: &Vec<PassEntry>)
        requires
            distinct_entries(entry_views(old(self).candidates@)),
        ensures
            distinct_entries(entry_views(final(self).candidates@)),
            entry_views(final(self).candidates@) == merge_upto(
                entry_views(old(self).candidates@),
                entry_views(entries@),
                entries@.len() as int,
            ),
            final(self).user_id == old(self).user_id,
            final(self).sources@ == old(self).sources@,
            final(self).source == old(self).source,
            final(self).passes@ == old(self).passes@,
            final(self).games@ == old(self).games@,
            final(self).phase == old(self).phase,
            final(self).candidates@.len() >= old(self).candidates@.len(),
            forall|k: int|
                0 <= k < old(self).candidates@.len()
                    ==> final(self).candidates@[k] == old(self).candidates@[k],
    {
        let ghost start = entry_views(self.candidates@);
        let ghost start_raw = self.candidates@;
        let mut i: usize = 0;
        while i < entries.len()
            invariant
                i <= entries@.len(),
                entry_views(self.candidates@) == merge_upto(start, entry_views(entries@), i as int),
                distinct_entries(entry_views(self.candidates@)),
                self.user_id == old(self).user_id,
                self.sources@ == old(self).sources@,
                self.source == old(self).source,
                self.passes@ == old(self).passes@,
                self.games@ == old(self).games@,
                self.phase == old(self).phase,
                self.candidates@.len() >= start_raw.len(),
                forall|k: int| 0 <= k < start_raw.len() ==> self.candidates@[k] == start_raw[k],
            decreases entries@.len() - i,
        {
            let e = &entries[i];
            let ghost prev = entry_views(self.candidates@);
            let seen = has_candidate(&self.candidates, e.id);
            if !seen {
                self.candidates.push(PassEntry { id: e.id, name: e.name.clone() });
                assert(entry_views(self.candidates@) =~= prev.push(entry_views(entries@)[i as int]));
            }
            i = i + 1;
        }
    }

    /// Takes the catalog response: its pass items are offered, then the
    /// source closes.
    fn take_catalog(&mut self, body: &Option<JsonValue>)
        requires
            old(self).wf(),
            old(self).phase == Phase::AwaitCatalog,
        ensures
            final(self).wf(),
            final(self).user_id == old(self).user_id,
            final(self).sources@ == old(self).sources@,
            final(self).found() == catalog_fold(
                old(self).found(),
                old(self).user_id,
                catalog_in(*body),
                catalog_in(*body).len() as int,
            ),
            closes_source(*old(self), *final(self)),
    {
        match body {
            Some(v) => match decode_catalog(v) {
                Some(items) => offer_catalog(&mut self.passes, self.user_id, &items),
                None => {},
            },
            None => {},
        }
        self.end_source();
    }

    /// Takes a page of the user's games: its ids are kept; the next page is
    /// asked for while a cursor comes back, and then the first game's passes.
    fn take_games_page(&mut self, body: &Option<JsonValue>)
        requires
            old(self).wf(),
            old(self).phase matches Phase::AwaitGamesPage(_),
        ensures
            final(self).wf(),
            final(self).user_id == old(self).user_id,
            final(self).sources@ == old(self).sources@,
            final(self).found() == old(self).found(),
            ({
                let all = old(self).games@ + game_ids_in(*body);
                match next_cursor_of(*body) {
                    Some(c) => final(self).games@ == all && final(self).pending() == Some(
                        RequestView::GamesPage(old(self).user_id, Some(c)),
                    ) && final(self).source == old(self).source && final(self).position() == 0
                        && final(self).candidates@ == old(self).candidates@,
                    None => if all.len() > 0 {
                        &&& final(self).games@ == all
                        &&& final(self).pending() == Some(RequestView::GamePasses(all[0]))
                        &&& final(self).position() == 0
                        &&& final(self).source == old(self).source
                        &&& final(self).candidates@ == old(self).candidates@
                    } else {
                        closes_source(*old(self), *final(self))
                    },
                }
            }),
    {
        let page = match body {
            Some(v) => decode_games_page(v),
            None => None,
        };
        match page {
            Some(page) => {
                let mut ids = page.game_ids;
                self.games.append(&mut ids);
                match page.next_cursor {
                    Some(c) => {
                        self.phase = Phase::AwaitGamesPage(Some(c));
                        return;
                    },
                    None => {},
                }
            },
            None => {},
        }
        if self.games.len() > 0 {
            self.phase = Phase::AwaitGamePasses(0);
        } else {
            self.end_source();
        }
    }

    /// Takes the pass listing of the awaited game: its entries join the
    /// candidates; then the next game, or the details of the candidates.
    fn take_game_passes(&mut self, body: &Option<JsonValue>)
        requires
            old(self).wf(),
            old(self).phase matches Phase::AwaitGamePasses(_),
        ensures
            final(self).wf(),
            final(self).user_id == old(self).user_id,
            final(self).sources@ == old(self).sources@,
            final(self).found() == old(self).found(),
            ({
                let merged = merge_upto(
                    old(self).candidates_listed(),
                    entries_in(*body),
                    entries_in(*body).len() as int,
                );
                let next = old(self).position() + 1;
                if next < old(self).games@.len() {
                    &&& final(self).games@ == old(self).games@
                    &&& final(self).candidates_listed() == merged
                    &&& final(self).pending() == Some(RequestView::GamePasses(old(self).games@[next]))
                    &&& final(self).position() == next
                    &&& final(self).source == old(self).source
                } else if merged.len() > 0 {
                    &&& final(self).games@ == old(self).games@
                    &&& final(self).candidates_listed() == merged
                    &&& final(self).pending() == Some(RequestView::AssetDetail(merged[0].0))
                    &&& final(self).position() == 0
                    &&& final(self).source == old(self).source
                } else {
                    closes_source(*old(self), *final(self))
                }
            }),
    {
        let i: usize = match &self.phase {
            Phase::AwaitGamePasses(i) => *i,
            _ => 0,
        };
        let page = match body {
            Some(v) => decode_pass_page(v),
            None => None,
        };
        match page {
            Some(page) => self.add_entries(&page.entries),
            None => {},
        }
        let n = self.games.len();
        if i + 1 < n {
            self.phase = Phase::AwaitGamePasses(i + 1);
        } else {
            self.start_details(0);
        }
    }

    /// Takes a page of the user's own pass listing: its entries join the
    /// candidates; the next page is asked for while a cursor comes back, and
    /// then the details of the candidates.
    fn take_user_passes_page(&mut self, body: &Option<JsonValue>)
        requires
            old(self).wf(),
            old(self).phase matches Phase::AwaitUserPassesPage(_),
        ensures
            final(self).wf(),
            final(self).user_id == old(self).user_id,
            final(self).sources@ == old(self).sources@,
            final(self).found() == old(self).found(),
            ({
                let merged = merge_upto(
                    old(self).candidates_listed(),
                    entries_in(*body),
                    entries_in(*body).len() as int,
                );
                match next_cursor_of(*body) {
                    Some(c) => final(self).candidates_listed() == merged && final(self).pending()
                        == Some(RequestView::UserPassesPage(old(self).user_id, Some(c)))
                        && final(self).source == old(self).source && final(self).position() == 0
                        && final(self).games@ == old(self).games@,
                    None => if merged.len() > 0 {
                        &&& final(self).games@ == old(self).games@
                        &&& final(self).candidates_listed() == merged
                        &&& final(self).pending() == Some(RequestView::AssetDetail(merged[0].0))
                        &&& final(self).position() == 0
                        &&& final(self).source == old(self).source
                    } else {
                        closes_source(*old(self), *final(self))
                    },
                }
            }),
    {
        let page = match body {
            Some(v) => decode_pass_page(v),
            None => None,
        };
        match page {
            Some(page) => {
                self.add_entries(&page.entries);
                match page.next_cursor {
                    Some(c) => {
                        self.phase = Phase::AwaitUserPassesPage(Some(c));
                        return;
                    },
                    None => {},
                }
            },
            None => {},
        }
        self.start_details(0);
    }

    /// Takes the detail record of the awaited candidate: the candidate is
    /// offered with the record's price and creator; then the next candidate.
    fn take_detail(&mut self, body: &Option<JsonValue>)
        requires
            old(self).wf(),
            old(self).phase matches Phase::AwaitDetail(_),
        ensures
            final(self).wf(),
            final(self).user_id == old(self).user_id,
            final(self).sources@ == old(self).sources@,
            final(self).found() == detail_offered(
                old(self).found(),
                old(self).user_id,
                old(self).awaited_candidate(),
                *body,
            ),
            ({
                let next = old(self).position() + 1;
                if next < old(self).candidates@.len() {
                    &&& final(self).games@ == old(self).games@
                    &&& final(self).candidates_listed() == old(self).candidates_listed()
                    &&& final(self).pending() == Some(
                        RequestView::AssetDetail(old(self).candidates_listed()[next].0),
                    )
                    &&& final(self).position() == next
                    &&& final(self).source == old(self).source
                } else {
                    closes_source(*old(self), *final(self))
                }
            }),
    {
        let k: usize = match &self.phase {
            Phase::AwaitDetail(k) => *k,
            _ => 0,
        };
        match body {
            Some(v) => {
                let d = decode_detail(v);
                let id = self.candidates[k].id;
                let name = self.candidates[k].name.clone();
                offer(&mut self.passes, self.user_id, id, name, d.price, d.creator_id);
            },
            None => {},
        }
        let n = self.candidates.len();
        assert(k < n);
        self.start_details(k + 1);
    }

    /// Takes the response to the pending call: `None` where the call failed
    /// (a transport error, a non-success status or an undecodable body), else
    /// the decoded body. A failed call only loses what it would have brought.
    pub fn on_response(&mut self, body: Option<JsonValue>)
        requires
            old(self).wf(),
        ensures
            final(self).wf(),
            steps_to(*old(self), body, *final(self)),
    {
        let step: u8 = match &self.phase {
            Phase::AwaitCatalog => 0,
            Phase::AwaitGamesPage(_) => 1,
            Phase::AwaitGamePasses(_) => 2,
            Phase::AwaitUserPassesPage(_) => 3,
            Phase::AwaitDetail(_) => 4,
            Phase::Done => 5,
        };
        if step == 0 {
            self.take_catalog(&body);
        } else if step == 1 {
            self.take_games_page(&body);
        } else if step == 2 {
            self.take_game_passes(&body);
        } else if step == 3 {
            self.take_user_passes_page(&body);
        } else if step == 4 {
            self.take_detail(&body);
        }
    }

    /// Ends the aggregation with the passes found: in the order found, or by
    /// ascending price where `sort` asks for it. The result is always `ok`:
    /// upstream failures only mean fewer passes.
    pub fn finish(self, sort: bool) -> (r: AggregationResult)
        requires
            self.wf(),
        ensures
            r.ok,
            r.user_id == self.user(),
            r.count == r.passes@.len(),
            !sort ==> views(r.passes@) == self.found(),
            sort ==> sorted_by_price(views(r.passes@)) && views(r.passes@).to_multiset()
                == self.found().to_multiset(),
            sort ==> forall|i: int, j: int|
                0 <= i < j < r.passes@.len() && views(r.passes@)[i].2 == views(r.passes@)[j].2
                    ==> id_position(self.found(), views(r.passes@)[i].0) < id_position(
                    self.found(),
                    views(r.passes@)[j].0,
                ),
            well_formed(views(r.passes@)),
    {
        let passes = if sort {
            sort_by_price(&self.passes)
        } else {
            self.passes
        };
        let count = passes.len();
        AggregationResult { ok: true, user_id: self.user_id, count, passes }
    }

    /// The call to make next; `None` once the aggregation is over.
    pub fn next_request(&self) -> (r: Option<Request>)
        requires
            self.wf(),
        ensures
            match r {
                Some(q) => self.pending() == Some(q@),
                None => self.pending() is None,
            },
    {
        match &self.phase {
            Phase::AwaitCatalog => Some(Request::CatalogSearch { user_id: self.user_id }),
            Phase::AwaitGamesPage(c) => Some(
                Request::GamesPage { user_id: self.user_id, cursor: c.clone() },
            ),
            Phase::AwaitGamePasses(i) => Some(Request::GamePasses { universe_id: self.games[*i] }),
            Phase::AwaitUserPassesPage(c) => Some(
                Request::UserPassesPage { user_id: self.user_id, cursor: c.clone() },
            ),
            Phase::AwaitDetail(k) => Some(Request::AssetDetail { pass_id: self.candidates[*k].id }),
            Phase::Done => None,
        }
    }
}


/// In every state of an aggregation the passes found carry a positive price
/// and distinct ids.
pub proof fn lemma_found_well_formed(a: Aggregator)
    requires
        a.wf(),
    ensures
        well_formed(a.found()),
        forall|i: int| 0 <= i < a.found().len() ==> a.found()[i].2 > 0,
        forall|i: int, j: int| 0 <= i < j < a.found().len() ==> a.found()[i].0 != a.found()[j].0,
{
}

/// An aggregation is over only once it has found a pass or has tried every
/// source: a source that fails or yields nothing hands over to the next one.
pub proof fn lemma_over_only_when_found_or_exhausted(a: Aggregator)
    requires
        a.wf(),
        a.pending() is None,
    ensures
        a.found().len() > 0 || a.current_source() == a.source_order().len(),
{
}

/// While an aggregation is not over, the source at work is one of its sources.
pub proof fn lemma_pending_within_sources(a: Aggregator)
    requires
        a.wf(),
        a.pending() is Some,
    ensures
        0 <= a.current_source() < a.source_order().len(),
{
}

/// What the pending call says of the state: while a source is still listing,
/// nothing is found yet; a game-passes call is for the listed game at
/// `position`, and a detail call for the listed candidate at `position`,
/// which is the candidate that its response is offered for.
pub proof fn lemma_pending_call(a: Aggregator)
    requires
        a.wf(),
    ensures
        distinct_entries(a.candidates_listed()),
        a.pending() matches Some(RequestView::CatalogSearch(u)) ==> u == a.user()
            && a.found().len() == 0,
        a.pending() matches Some(RequestView::GamesPage(u, _)) ==> u == a.user()
            && a.found().len() == 0,
        a.pending() matches Some(RequestView::UserPassesPage(u, _)) ==> u == a.user()
            && a.found().len() == 0,
        a.pending() matches Some(RequestView::GamePasses(_)) ==> {
            &&& a.found().len() == 0
            &&& 0 <= a.position() < a.games_listed().len()
            &&& a.pending() == Some(RequestView::GamePasses(a.games_listed()[a.position()]))
        },
        a.pending() matches Some(RequestView::AssetDetail(_)) ==> {
            &&& 0 <= a.position() < a.candidates_listed().len()
            &&& a.awaited_candidate() == a.candidates_listed()[a.position()]
            &&& a.pending() == Some(RequestView::AssetDetail(a.awaited_candidate().0))
        },
{
}

/// Two aggregations agree on everything that their contracts observe.
pub open spec fn same_state(a: Aggregator, b: Aggregator) -> bool {
    &&& a.user() == b.user()
    &&& a.source_order() == b.source_order()
    &&& a.current_source() == b.current_source()
    &&& a.pending() == b.pending()
    &&& a.found() == b.found()
    &&& a.games_listed() == b.games_listed()
    &&& a.candidates_listed() == b.candidates_listed()
    &&& a.position() == b.position()
}

/// Identical responses give identical aggregations: two aggregations in the
/// same state that take the same response reach the same state, so runs that
/// start alike and see the same responses make the same calls and find the
/// same passes.
pub proof fn lemma_step_deterministic(
    a1: Aggregator,
    a2: Aggregator,
    body: Option<JsonValue>,
    b1: Aggregator,
    b2: Aggregator,
)
    requires
        a1.wf(),
        a2.wf(),
        same_state(a1, a2),
        steps_to(a1, body, b1),
        steps_to(a2, body, b2),
    ensures
        same_state(b1, b2),
{
    lemma_pending_call(a1);
    lemma_pending_call(a2);
    if b1.games_listed().len() == 0 && b2.games_listed().len() == 0 {
        assert(b1.games_listed() =~= b2.games_listed());
    }
    if b1.candidates_listed().len() == 0 && b2.candidates_listed().len() == 0 {
        assert(b1.candidates_listed() =~= b2.candidates_listed());
    }
}

/// A detail record that names another creator adds nothing to the passes found.
pub proof fn lemma_detail_mismatch_adds_nothing(
    ps: Seq<(u64, Seq<char>, i64)>,
    user_id: u64,
    c: (u64, Seq<char>),
    v: JsonValue,
)
    requires
        detail_creator_of(v) is Some,
        detail_creator_of(v).unwrap() != user_id,
    ensures
        detail_offered(ps, user_id, c, Some(v)) == ps,
{
}

} // verus!
