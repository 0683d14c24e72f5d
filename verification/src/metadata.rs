//! The metadata resolver: enriches a built catalog from an external
//! catalog's records, found by progressive truncation of inferred titles.
//!
//! The external catalog is handed in as plain data: search results keyed by
//! query, show details keyed by show identifier, and season details keyed
//! by show identifier and season number. A key that is absent stands for a
//! lookup miss or a transport error; both leave the node unenriched.

use vstd::prelude::*;

use crate::catalog::BaseConfig;
use crate::catalog::Episode;
use crate::catalog::EpisodeV;
use crate::catalog::Season;
use crate::catalog::SeasonV;
use crate::catalog::Show;
use crate::catalog::ShowV;
use crate::catalog::opt_str_view;
use crate::text::join;
use crate::text::join_tokens;
use crate::text::tokenize;
use crate::text::tokens_of;

verus! {

// ---------------------------------------------------------------------------
// External records, as plain data
// ---------------------------------------------------------------------------

/// One show as the external catalog's search returns it.
#[derive(Debug, PartialEq)]
pub struct ShowRecord {
    pub id: Option<i32>,
    pub name: Option<String>,
    pub overview: Option<String>,
    pub original_name: Option<String>,
    pub first_air_date: Option<String>,
    pub rating: Option<i32>,
}

pub ghost struct ShowRecordV {
    pub id: Option<i32>,
    pub name: Option<Seq<char>>,
    pub overview: Option<Seq<char>>,
    pub original_name: Option<Seq<char>>,
    pub first_air_date: Option<Seq<char>>,
    pub rating: Option<i32>,
}

impl View for ShowRecord {
    type V = ShowRecordV;

    open spec fn view(&self) -> ShowRecordV {
        ShowRecordV {
            id: self.id,
            name: opt_str_view(self.name),
            overview: opt_str_view(self.overview),
            original_name: opt_str_view(self.original_name),
            first_air_date: opt_str_view(self.first_air_date),
            rating: self.rating,
        }
    }
}

impl DeepView for ShowRecord {
    type V = ShowRecordV;

    open spec fn deep_view(&self) -> ShowRecordV {
        self.view()
    }
}

/// One season as the external show details list it.
#[derive(Debug, PartialEq)]
pub struct SeasonRecord {
    pub season_number: Option<i32>,
}

impl View for SeasonRecord {
    type V = SeasonRecord;

    open spec fn view(&self) -> SeasonRecord {
        SeasonRecord { season_number: self.season_number }
    }
}

impl DeepView for SeasonRecord {
    type V = SeasonRecord;

    open spec fn deep_view(&self) -> SeasonRecord {
        self.view()
    }
}

/// The external details of one show: the seasons it lists.
#[derive(Debug, PartialEq)]
pub struct ShowDetails {
    pub seasons: Option<Vec<SeasonRecord>>,
}

pub ghost struct ShowDetailsV {
    pub seasons: Option<Seq<SeasonRecord>>,
}

impl View for ShowDetails {
    type V = ShowDetailsV;

    open spec fn view(&self) -> ShowDetailsV {
        ShowDetailsV {
            seasons: match self.seasons {
                Some(v) => Some(v.deep_view()),
                None => None,
            },
        }
    }
}

/// One episode as the external season details list it.
#[derive(Debug, PartialEq)]
pub struct EpisodeRecord {
    pub episode_number: Option<i32>,
    pub name: Option<String>,
}

pub ghost struct EpisodeRecordV {
    pub episode_number: Option<i32>,
    pub name: Option<Seq<char>>,
}

impl View for EpisodeRecord {
    type V = EpisodeRecordV;

    open spec fn view(&self) -> EpisodeRecordV {
        EpisodeRecordV { episode_number: self.episode_number, name: opt_str_view(self.name) }
    }
}

impl DeepView for EpisodeRecord {
    type V = EpisodeRecordV;

    open spec fn deep_view(&self) -> EpisodeRecordV {
        self.view()
    }
}

/// The external details of one season.
#[derive(Debug, PartialEq)]
pub struct SeasonDetailsRecord {
    pub name: Option<String>,
    pub air_date: Option<String>,
    pub episodes: Option<Vec<EpisodeRecord>>,
}

pub ghost struct SeasonDetailsV {
    pub name: Option<Seq<char>>,
    pub air_date: Option<Seq<char>>,
    pub episodes: Option<Seq<EpisodeRecordV>>,
}

impl View for SeasonDetailsRecord {
    type V = SeasonDetailsV;

    open spec fn view(&self) -> SeasonDetailsV {
        SeasonDetailsV {
            name: opt_str_view(self.name),
            air_date: opt_str_view(self.air_date),
            episodes: match self.episodes {
                Some(v) => Some(v.deep_view()),
                None => None,
            },
        }
    }
}

/// The external catalog as data: search results by query, show details by
/// show identifier, season details by show identifier and season number.
/// An absent key is a lookup miss or error.
pub struct CatalogApi {
    pub searches: Vec<(String, Vec<ShowRecord>)>,
    pub details: Vec<(i32, ShowDetails)>,
    pub seasons: Vec<(i32, i32, SeasonDetailsRecord)>,
}

pub ghost struct CatalogApiV {
    pub searches: Seq<(Seq<char>, Seq<ShowRecordV>)>,
    pub details: Seq<(i32, ShowDetailsV)>,
    pub seasons: Seq<(i32, i32, SeasonDetailsV)>,
}

impl View for CatalogApi {
    type V = CatalogApiV;

    open spec fn view(&self) -> CatalogApiV {
        CatalogApiV {
            searches: Seq::new(
                self.searches@.len(),
                |i: int| (self.searches@[i].0@, self.searches@[i].1.deep_view()),
            ),
            details: Seq::new(
                self.details@.len(),
                |i: int| (self.details@[i].0, self.details@[i].1@),
            ),
            seasons: Seq::new(
                self.seasons@.len(),
                |i: int| (self.seasons@[i].0, self.seasons@[i].1, self.seasons@[i].2@),
            ),
        }
    }
}

// ---------------------------------------------------------------------------
// Lookups
// ---------------------------------------------------------------------------

/// The first search entry for this query, if any.
pub open spec fn lookup_search(api: CatalogApiV, q: Seq<char>, i: int) -> Option<Seq<ShowRecordV>>
    decreases api.searches.len() - i,
    when 0 <= i
{
    if i >= api.searches.len() {
        None
    } else if api.searches[i].0 == q {
        Some(api.searches[i].1)
    } else {
        lookup_search(api, q, i + 1)
    }
}

/// The first details entry for this show identifier, if any.
pub open spec fn lookup_details(api: CatalogApiV, id: i32, i: int) -> Option<ShowDetailsV>
    decreases api.details.len() - i,
    when 0 <= i
{
    if i >= api.details.len() {
        None
    } else if api.details[i].0 == id {
        Some(api.details[i].1)
    } else {
        lookup_details(api, id, i + 1)
    }
}

/// The first season-details entry for this show and season number, if any.
pub open spec fn lookup_season(api: CatalogApiV, id: i32, num: i32, i: int) -> Option<SeasonDetailsV>
    decreases api.seasons.len() - i,
    when 0 <= i
{
    if i >= api.seasons.len() {
        None
    } else if api.seasons[i].0 == id && api.seasons[i].1 == num {
        Some(api.seasons[i].2)
    } else {
        lookup_season(api, id, num, i + 1)
    }
}

/// The first record a search for `q` returns: a miss, an error, and an
/// empty result list all count as no hit.
pub open spec fn first_hit(api: CatalogApiV, q: Seq<char>) -> Option<ShowRecordV> {
    match lookup_search(api, q, 0) {
        Some(rs) => if rs.len() > 0 {
            Some(rs[0])
        } else {
            None
        },
        None => None,
    }
}

// ---------------------------------------------------------------------------
// Progressive truncation
// ---------------------------------------------------------------------------

/// Resolves a token list: search the joined tokens, and on a miss drop the
/// last token and try again, until the tokens run out.
pub open spec fn resolve_tokens(api: CatalogApiV, ts: Seq<Seq<char>>) -> Option<ShowRecordV>
    decreases ts.len(),
{
    if ts.len() == 0 {
        None
    } else {
        match first_hit(api, join_tokens(ts)) {
            Some(r) => Some(r),
            None => resolve_tokens(api, ts.drop_last()),
        }
    }
}

/// Resolves a title: search it whole first, then by progressive truncation
/// of its tokens; an exhausted title is a miss.
pub open spec fn resolve_title(api: CatalogApiV, title: Seq<char>) -> Option<ShowRecordV> {
    match first_hit(api, title) {
        Some(r) => Some(r),
        None => if tokens_of(title).len() == 0 {
            None
        } else {
            resolve_tokens(api, tokens_of(title).drop_last())
        },
    }
}

// ---------------------------------------------------------------------------
// Applying records
// ---------------------------------------------------------------------------

/// Overwrites a show's descriptive fields from an external record: title
/// and identifier only when the record carries them, the rest always.
pub open spec fn apply_show_record(s: ShowV, tv: ShowRecordV) -> ShowV {
    ShowV {
        name: match tv.name {
            Some(n) => n,
            None => s.name,
        },
        id: match tv.id {
            Some(i) => i,
            None => s.id,
        },
        description: tv.overview,
        original_name: tv.original_name,
        air_date: tv.first_air_date,
        rating: tv.rating,
        seasons: s.seasons,
    }
}

/// The first external season whose number (0 when absent) matches.
pub open spec fn find_season_record(recs: Seq<SeasonRecord>, num: i32, i: int) -> Option<int>
    decreases recs.len() - i,
    when 0 <= i
{
    if i >= recs.len() {
        None
    } else if season_record_number(recs[i]) == num {
        Some(i)
    } else {
        find_season_record(recs, num, i + 1)
    }
}

/// An external season's number, with absent numbers read as 0.
pub open spec fn season_record_number(r: SeasonRecord) -> i32 {
    match r.season_number {
        Some(n) => n,
        None => 0i32,
    }
}

/// The first external episode whose number (0 when absent) matches.
pub open spec fn find_episode_record(recs: Seq<EpisodeRecordV>, num: i32, i: int) -> Option<int>
    decreases recs.len() - i,
    when 0 <= i
{
    if i >= recs.len() {
        None
    } else if episode_record_number(recs[i]) == num {
        Some(i)
    } else {
        find_episode_record(recs, num, i + 1)
    }
}

/// An external episode's number, with absent numbers read as 0.
pub open spec fn episode_record_number(r: EpisodeRecordV) -> i32 {
    match r.episode_number {
        Some(n) => n,
        None => 0i32,
    }
}

/// Overwrites one episode's display name from the matching external
/// episode, if there is one with a name; number and path never change.
pub open spec fn enrich_episode(e: EpisodeV, recs: Seq<EpisodeRecordV>) -> EpisodeV {
    match find_episode_record(recs, e.number, 0) {
        Some(i) => match recs[i].name {
            Some(n) => EpisodeV { name: n, ..e },
            None => e,
        },
        None => e,
    }
}

pub open spec fn enrich_episodes(eps: Seq<EpisodeV>, recs: Seq<EpisodeRecordV>) -> Seq<EpisodeV> {
    Seq::new(eps.len(), |i: int| enrich_episode(eps[i], recs))
}

/// Overwrites a season's name (when given) and air date from its external
/// details, then each episode's name from the listed episodes.
pub open spec fn apply_season_details(s: SeasonV, d: SeasonDetailsV) -> SeasonV {
    let s1 = SeasonV {
        name: match d.name {
            Some(n) => n,
            None => s.name,
        },
        air_date: d.air_date,
        ..s
    };
    match d.episodes {
        Some(recs) => SeasonV { episodes: enrich_episodes(s1.episodes, recs), ..s1 },
        None => s1,
    }
}

/// Enriches one season: the external season with the matching number is
/// looked up by its own number; any miss on the way leaves the season as
/// it is.
pub open spec fn enrich_season(
    api: CatalogApiV,
    ext_id: i32,
    ext_seasons: Seq<SeasonRecord>,
    s: SeasonV,
) -> SeasonV {
    match find_season_record(ext_seasons, s.number, 0) {
        None => s,
        Some(i) => match ext_seasons[i].season_number {
            None => s,
            Some(n) => match lookup_season(api, ext_id, n, 0) {
                None => s,
                Some(d) => apply_season_details(s, d),
            },
        },
    }
}

pub open spec fn enrich_seasons(
    api: CatalogApiV,
    ext_id: i32,
    ext_seasons: Seq<SeasonRecord>,
    seasons: Seq<SeasonV>,
) -> Seq<SeasonV> {
    Seq::new(seasons.len(), |i: int| enrich_season(api, ext_id, ext_seasons, seasons[i]))
}

/// Enriches one show: resolve its title by progressive truncation, fetch
/// the details of the match, overwrite the show's descriptive fields, and
/// enrich each season. Any miss on the way leaves the rest as it is.
pub open spec fn enrich_show(api: CatalogApiV, s: ShowV) -> ShowV {
    match resolve_title(api, s.name) {
        None => s,
        Some(tv) => match tv.id {
            None => s,
            Some(id) => match lookup_details(api, id, 0) {
                None => s,
                Some(det) => {
                    let s1 = apply_show_record(s, tv);
                    match det.seasons {
                        None => s1,
                        Some(ext_seasons) => ShowV {
                            seasons: enrich_seasons(api, id, ext_seasons, s1.seasons),
                            ..s1
                        },
                    }
                },
            },
        },
    }
}

pub open spec fn enrich_media(api: CatalogApiV, media: Seq<ShowV>) -> Seq<ShowV> {
    Seq::new(media.len(), |i: int| enrich_show(api, media[i]))
}

// ---------------------------------------------------------------------------
// Laws of the resolver
// ---------------------------------------------------------------------------

/// How many tokens the resolver drops from this token list before its
/// verdict, a hit or an exhausted list.
pub open spec fn removals_for(api: CatalogApiV, ts: Seq<Seq<char>>) -> int
    decreases ts.len(),
{
    if ts.len() == 0 {
        0
    } else if first_hit(api, join_tokens(ts)) is Some {
        0
    } else {
        1 + removals_for(api, ts.drop_last())
    }
}

/// How many tokens the resolver removes from a title before its verdict.
pub open spec fn title_removals(api: CatalogApiV, title: Seq<char>) -> int {
    if first_hit(api, title) is Some || tokens_of(title).len() == 0 {
        0
    } else {
        1 + removals_for(api, tokens_of(title).drop_last())
    }
}

/// A miss on the whole title followed by a hit on the title with its last
/// token removed resolves to that hit, after exactly one token removal.
pub proof fn lemma_single_truncation(api: CatalogApiV, title: Seq<char>, r: ShowRecordV)
    requires
        first_hit(api, title) is None,
        tokens_of(title).len() >= 2,
        first_hit(api, join_tokens(tokens_of(title).drop_last())) == Some(r),
    ensures
        resolve_title(api, title) == Some(r),
        title_removals(api, title) == 1,
{
}

proof fn lemma_resolve_tokens_miss(api: CatalogApiV, base: Seq<Seq<char>>, m: int)
    requires
        0 <= m <= base.len(),
        forall|j: int|
            1 <= j <= m ==> first_hit(api, join_tokens(#[trigger] base.take(j))) is None,
    ensures
        resolve_tokens(api, base.take(m)) is None,
    decreases m,
{
    if m > 0 {
        assert(base.take(m).drop_last() =~= base.take(m - 1));
        lemma_resolve_tokens_miss(api, base, m - 1);
    } else {
        assert(base.take(0) =~= Seq::<Seq<char>>::empty());
    }
}

/// When neither the whole title nor any truncation of it hits, the
/// resolver reports no match; it never fails otherwise.
pub proof fn lemma_no_hit_means_no_match(api: CatalogApiV, title: Seq<char>)
    requires
        first_hit(api, title) is None,
        forall|j: int|
            1 <= j < tokens_of(title).len() ==> first_hit(
                api,
                join_tokens(#[trigger] tokens_of(title).take(j)),
            ) is None,
    ensures
        resolve_title(api, title) is None,
{
    let ts = tokens_of(title);
    if ts.len() > 0 {
        assert(ts.drop_last() =~= ts.take(ts.len() - 1));
        lemma_resolve_tokens_miss(api, ts, ts.len() - 1);
    }
}

// ---------------------------------------------------------------------------
// Idempotence of enrichment
// ---------------------------------------------------------------------------

proof fn lemma_enrich_episode_idem(e: EpisodeV, recs: Seq<EpisodeRecordV>)
    ensures
        enrich_episode(enrich_episode(e, recs), recs) == enrich_episode(e, recs),
        enrich_episode(e, recs).number == e.number,
{
}

proof fn lemma_enrich_episodes_idem(eps: Seq<EpisodeV>, recs: Seq<EpisodeRecordV>)
    ensures
        enrich_episodes(enrich_episodes(eps, recs), recs) == enrich_episodes(eps, recs),
{
    let once = enrich_episodes(eps, recs);
    assert forall|i: int| 0 <= i < once.len() implies enrich_episode(once[i], recs)
        == once[i] by {
        lemma_enrich_episode_idem(eps[i], recs);
    }
    assert(enrich_episodes(once, recs) =~= once);
}

proof fn lemma_apply_season_details_idem(s: SeasonV, d: SeasonDetailsV)
    ensures
        apply_season_details(apply_season_details(s, d), d) == apply_season_details(s, d),
        apply_season_details(s, d).number == s.number,
{
    match d.episodes {
        Some(recs) => {
            lemma_enrich_episodes_idem(s.episodes, recs);
        },
        None => {},
    }
}

proof fn lemma_enrich_season_idem(
    api: CatalogApiV,
    ext_id: i32,
    ext_seasons: Seq<SeasonRecord>,
    s: SeasonV,
)
    ensures
        enrich_season(api, ext_id, ext_seasons, enrich_season(api, ext_id, ext_seasons, s))
            == enrich_season(api, ext_id, ext_seasons, s),
        enrich_season(api, ext_id, ext_seasons, s).number == s.number,
{
    match find_season_record(ext_seasons, s.number, 0) {
        None => {},
        Some(i) => match ext_seasons[i].season_number {
            None => {},
            Some(n) => match lookup_season(api, ext_id, n, 0) {
                None => {},
                Some(d) => {
                    lemma_apply_season_details_idem(s, d);
                },
            },
        },
    }
}

proof fn lemma_enrich_seasons_idem(
    api: CatalogApiV,
    ext_id: i32,
    ext_seasons: Seq<SeasonRecord>,
    seasons: Seq<SeasonV>,
)
    ensures
        enrich_seasons(api, ext_id, ext_seasons, enrich_seasons(api, ext_id, ext_seasons, seasons))
            == enrich_seasons(api, ext_id, ext_seasons, seasons),
{
    let once = enrich_seasons(api, ext_id, ext_seasons, seasons);
    assert forall|i: int| 0 <= i < once.len() implies enrich_season(
        api,
        ext_id,
        ext_seasons,
        once[i],
    ) == once[i] by {
        lemma_enrich_season_idem(api, ext_id, ext_seasons, seasons[i]);
    }
    assert(enrich_seasons(api, ext_id, ext_seasons, once) =~= once);
}

/// Enriching a show twice gives the once-enriched show, as long as its
/// canonical (enriched) title resolves to the same record its inferred
/// title did. Without that, a stub that answers the canonical title with a
/// different record re-enriches the show differently on the second run.
pub proof fn lemma_enrich_show_idempotent(api: CatalogApiV, s: ShowV)
    requires
        resolve_title(api, enrich_show(api, s).name) == resolve_title(api, s.name),
    ensures
        enrich_show(api, enrich_show(api, s)) == enrich_show(api, s),
{
    match resolve_title(api, s.name) {
        None => {},
        Some(tv) => match tv.id {
            None => {},
            Some(id) => match lookup_details(api, id, 0) {
                None => {},
                Some(det) => {
                    let s1 = enrich_show(api, s);
                    match det.seasons {
                        None => {},
                        Some(ext_seasons) => {
                            lemma_enrich_seasons_idem(api, id, ext_seasons, s.seasons);
                        },
                    }
                },
            },
        },
    }
}

/// Running the resolver twice against the same external records gives the
/// same catalog as running it once, as long as each show's canonical
/// (enriched) title resolves to the same record its inferred title did —
/// that is, the records the second run sees are identical to the first's.
pub proof fn lemma_enrichment_idempotent(api: CatalogApiV, media: Seq<ShowV>)
    requires
        forall|i: int|
            0 <= i < media.len() ==> resolve_title(
                api,
                enrich_show(api, #[trigger] media[i]).name,
            ) == resolve_title(api, media[i].name),
    ensures
        enrich_media(api, enrich_media(api, media)) == enrich_media(api, media),
{
    let once = enrich_media(api, media);
    assert forall|i: int| 0 <= i < once.len() implies enrich_show(api, once[i]) == once[i] by {
        lemma_enrich_show_idempotent(api, media[i]);
    }
    assert(enrich_media(api, once) =~= once);
}

// ---------------------------------------------------------------------------
// The resolver, executed
// ---------------------------------------------------------------------------

fn clone_opt_string(o: &Option<String>) -> (r: Option<String>)
    ensures
        opt_str_view(r) == opt_str_view(*o),
{
    match o {
        Some(s) => Some(s.clone()),
        None => None,
    }
}

fn clone_show_record(r: &ShowRecord) -> (c: ShowRecord)
    ensures
        c@ == r@,
{
    ShowRecord {
        id: r.id,
        name: clone_opt_string(&r.name),
        overview: clone_opt_string(&r.overview),
        original_name: clone_opt_string(&r.original_name),
        first_air_date: clone_opt_string(&r.first_air_date),
        rating: r.rating,
    }
}

/// Finds the search entry for a query.
fn search_index(api: &CatalogApi, q: &String) -> (r: Option<usize>)
    ensures
        match r {
            Some(i) => i < api.searches.len() && lookup_search(api@, q@, 0) == Some(
                api@.searches[i as int].1,
            ),
            None => lookup_search(api@, q@, 0) is None,
        },
{
    let mut i: usize = 0;
    while i < api.searches.len()
        invariant
            0 <= i <= api.searches.len(),
            api@.searches.len() == api.searches.len(),
            lookup_search(api@, q@, i as int) == lookup_search(api@, q@, 0),
        decreases api.searches.len() - i,
    {
        assert(api@.searches[i as int].0 == api.searches@[i as int].0@);
        if api.searches[i].0 == *q {
            return Some(i);
        }
        i = i + 1;
    }
    None
}

/// The first record a search for `q` returns, if any.
fn search_hit(api: &CatalogApi, q: &String) -> (r: Option<ShowRecord>)
    ensures
        opt_record_view(r) == first_hit(api@, q@),
{
    match search_index(api, q) {
        Some(i) => {
            let results = &api.searches[i].1;
            if results.len() > 0 {
                assert(api@.searches[i as int].1[0] == results@[0]@);
                Some(clone_show_record(&results[0]))
            } else {
                None
            }
        },
        None => None,
    }
}

/// The view of an optional external show record.
pub open spec fn opt_record_view(r: Option<ShowRecord>) -> Option<ShowRecordV> {
    match r {
        Some(rec) => Some(rec@),
        None => None,
    }
}

/// Resolves a title against the external catalog: one search on the whole
/// title, then one search per truncation, newest-dropped-token last, until
/// a hit or an exhausted title.
pub fn resolve_show_title(api: &CatalogApi, title: &String) -> (r: Option<ShowRecord>)
    ensures
        opt_record_view(r) == resolve_title(api@, title@),
{
    let direct = search_hit(api, title);
    if direct.is_some() {
        return direct;
    }
    let mut tokens = tokenize(title.as_str());
    if tokens.len() == 0 {
        return None;
    }
    tokens.pop();
    proof {
        assert(tokens.deep_view() =~= tokens_of(title@).drop_last());
    }
    let ghost target = resolve_tokens(api@, tokens_of(title@).drop_last());
    loop
        invariant
            resolve_tokens(api@, tokens.deep_view()) == target,
            first_hit(api@, title@) is None,
            tokens_of(title@).len() > 0,
            target == resolve_tokens(api@, tokens_of(title@).drop_last()),
            resolve_title(api@, title@) == target,
        decreases tokens.len(),
    {
        if tokens.len() == 0 {
            return None;
        }
        let q = join(&tokens);
        let hit = search_hit(api, &q);
        if hit.is_some() {
            return hit;
        }
        let ghost before = tokens.deep_view();
        tokens.pop();
        proof {
            assert(tokens.deep_view() =~= before.drop_last());
        }
    }
}

/// Finds the details entry for a show identifier.
fn details_index(api: &CatalogApi, id: i32) -> (r: Option<usize>)
    ensures
        match r {
            Some(i) => i < api.details.len() && lookup_details(api@, id, 0) == Some(
                api@.details[i as int].1,
            ),
            None => lookup_details(api@, id, 0) is None,
        },
{
    let mut i: usize = 0;
    while i < api.details.len()
        invariant
            0 <= i <= api.details.len(),
            api@.details.len() == api.details.len(),
            lookup_details(api@, id, i as int) == lookup_details(api@, id, 0),
        decreases api.details.len() - i,
    {
        if api.details[i].0 == id {
            return Some(i);
        }
        i = i + 1;
    }
    None
}

/// Finds the season-details entry for a show identifier and season number.
fn season_details_index(api: &CatalogApi, id: i32, num: i32) -> (r: Option<usize>)
    ensures
        match r {
            Some(i) => i < api.seasons.len() && lookup_season(api@, id, num, 0) == Some(
                api@.seasons[i as int].2,
            ),
            None => lookup_season(api@, id, num, 0) is None,
        },
{
    let mut i: usize = 0;
    while i < api.seasons.len()
        invariant
            0 <= i <= api.seasons.len(),
            api@.seasons.len() == api.seasons.len(),
            lookup_season(api@, id, num, i as int) == lookup_season(api@, id, num, 0),
        decreases api.seasons.len() - i,
    {
        if api.seasons[i].0 == id && api.seasons[i].1 == num {
            return Some(i);
        }
        i = i + 1;
    }
    None
}

/// Finds the first external season whose number (0 when absent) matches.
fn find_season_record_index(recs: &Vec<SeasonRecord>, num: i32) -> (r: Option<usize>)
    ensures
        match r {
            Some(i) => i < recs.len() && find_season_record(recs.deep_view(), num, 0) == Some(
                i as int,
            ),
            None => find_season_record(recs.deep_view(), num, 0) is None,
        },
{
    let ghost rv = recs.deep_view();
    let mut i: usize = 0;
    while i < recs.len()
        invariant
            0 <= i <= recs.len(),
            rv == recs.deep_view(),
            find_season_record(rv, num, i as int) == find_season_record(rv, num, 0),
        decreases recs.len() - i,
    {
        assert(rv[i as int] == recs@[i as int]@);
        let n = match recs[i].season_number {
            Some(n) => n,
            None => 0,
        };
        if n == num {
            return Some(i);
        }
        i = i + 1;
    }
    None
}

/// Finds the first external episode whose number (0 when absent) matches.
fn find_episode_record_index(recs: &Vec<EpisodeRecord>, num: i32) -> (r: Option<usize>)
    ensures
        match r {
            Some(i) => i < recs.len() && find_episode_record(recs.deep_view(), num, 0) == Some(
                i as int,
            ),
            None => find_episode_record(recs.deep_view(), num, 0) is None,
        },
{
    let ghost rv = recs.deep_view();
    let mut i: usize = 0;
    while i < recs.len()
        invariant
            0 <= i <= recs.len(),
            rv == recs.deep_view(),
            find_episode_record(rv, num, i as int) == find_episode_record(rv, num, 0),
        decreases recs.len() - i,
    {
        assert(rv[i as int] == recs@[i as int]@);
        let n = match recs[i].episode_number {
            Some(n) => n,
            None => 0,
        };
        if n == num {
            return Some(i);
        }
        i = i + 1;
    }
    None
}

/// Overwrites one episode's display name from the matching external
/// episode; its number and path never change.
fn enrich_episode_exec(e: &Episode, recs: &Vec<EpisodeRecord>) -> (r: Episode)
    ensures
        r@ == enrich_episode(e@, recs.deep_view()),
{
    let name: String = match find_episode_record_index(recs, e.number) {
        Some(i) => {
            assert(recs.deep_view()[i as int] == recs@[i as int]@);
            match &recs[i].name {
                Some(n) => n.clone(),
                None => e.name.clone(),
            }
        },
        None => e.name.clone(),
    };
    Episode { name, number: e.number, id: e.id, path: e.path.clone() }
}

fn enrich_episodes_exec(eps: &Vec<Episode>, recs: &Vec<EpisodeRecord>) -> (r: Vec<Episode>)
    ensures
        r.deep_view() == enrich_episodes(eps.deep_view(), recs.deep_view()),
{
    let mut out: Vec<Episode> = Vec::new();
    let mut i: usize = 0;
    while i < eps.len()
        invariant
            0 <= i <= eps.len(),
            out.deep_view() =~= enrich_episodes(eps.deep_view(), recs.deep_view()).take(i as int),
        decreases eps.len() - i,
    {
        assert(eps.deep_view()[i as int] == eps@[i as int]@);
        let e = enrich_episode_exec(&eps[i], recs);
        let ghost prev = out.deep_view();
        out.push(e);
        proof {
            assert(out.deep_view() =~= prev.push(e@));
            assert(out.deep_view() =~= enrich_episodes(eps.deep_view(), recs.deep_view()).take(
                i + 1,
            ));
        }
        i = i + 1;
    }
    proof {
        assert(enrich_episodes(eps.deep_view(), recs.deep_view()).take(eps@.len() as int)
            =~= enrich_episodes(eps.deep_view(), recs.deep_view()));
    }
    out
}

/// Overwrites a season's name and air date and its episodes' names from
/// its external details.
fn apply_season_details_exec(s: &Season, d: &SeasonDetailsRecord) -> (r: Season)
    ensures
        r@ == apply_season_details(s@, d@),
{
    let name: String = match &d.name {
        Some(n) => n.clone(),
        None => s.name.clone(),
    };
    let episodes: Vec<Episode> = match &d.episodes {
        Some(recs) => enrich_episodes_exec(&s.episodes, recs),
        None => clone_episodes(&s.episodes),
    };
    Season {
        name,
        number: s.number,
        id: s.id,
        episodes,
        air_date: clone_opt_string(&d.air_date),
    }
}

fn clone_episodes(eps: &Vec<Episode>) -> (r: Vec<Episode>)
    ensures
        r.deep_view() == eps.deep_view(),
{
    let mut out: Vec<Episode> = Vec::new();
    let mut i: usize = 0;
    while i < eps.len()
        invariant
            0 <= i <= eps.len(),
            out.deep_view() =~= eps.deep_view().take(i as int),
        decreases eps.len() - i,
    {
        let ghost prev = out.deep_view();
        let e = &eps[i];
        out.push(
            Episode {
                name: e.name.clone(),
                number: e.number,
                id: e.id,
                path: e.path.clone(),
            },
        );
        proof {
            assert(eps.deep_view()[i as int] == eps@[i as int]@);
            assert(out.deep_view() =~= prev.push(eps.deep_view()[i as int]));
            assert(out.deep_view() =~= eps.deep_view().take(i + 1));
        }
        i = i + 1;
    }
    proof {
        assert(eps.deep_view().take(eps@.len() as int) =~= eps.deep_view());
    }
    out
}

fn clone_season(s: &Season) -> (r: Season)
    ensures
        r@ == s@,
{
    Season {
        name: s.name.clone(),
        number: s.number,
        id: s.id,
        episodes: clone_episodes(&s.episodes),
        air_date: clone_opt_string(&s.air_date),
    }
}

/// Enriches one season from the external season list of its show.
fn enrich_season_exec(
    api: &CatalogApi,
    ext_id: i32,
    ext_seasons: &Vec<SeasonRecord>,
    s: &Season,
) -> (r: Season)
    ensures
        r@ == enrich_season(api@, ext_id, ext_seasons.deep_view(), s@),
{
    match find_season_record_index(ext_seasons, s.number) {
        None => clone_season(s),
        Some(i) => {
            assert(ext_seasons.deep_view()[i as int] == ext_seasons@[i as int]@);
            match ext_seasons[i].season_number {
                None => clone_season(s),
                Some(n) => match season_details_index(api, ext_id, n) {
                    None => clone_season(s),
                    Some(d) => apply_season_details_exec(s, &api.seasons[d].2),
                },
            }
        },
    }
}

/// Enriches one show against the external catalog.
fn enrich_show_exec(api: &CatalogApi, s: &Show) -> (r: Show)
    ensures
        r@ == enrich_show(api@, s@),
{
    let tv = match resolve_show_title(api, &s.name) {
        Some(tv) => tv,
        None => {
            return clone_show(s);
        },
    };
    let id = match tv.id {
        Some(id) => id,
        None => {
            return clone_show(s);
        },
    };
    let di = match details_index(api, id) {
        Some(di) => di,
        None => {
            return clone_show(s);
        },
    };
    let name: String = match &tv.name {
        Some(n) => n.clone(),
        None => s.name.clone(),
    };
    let new_id: i32 = match tv.id {
        Some(i) => i,
        None => s.id,
    };
    let seasons: Vec<Season> = match &api.details[di].1.seasons {
        None => clone_seasons(&s.seasons),
        Some(ext_seasons) => {
            let mut out: Vec<Season> = Vec::new();
            let mut k: usize = 0;
            while k < s.seasons.len()
                invariant
                    0 <= k <= s.seasons.len(),
                    out.deep_view() =~= enrich_seasons(
                        api@,
                        id,
                        ext_seasons.deep_view(),
                        s.seasons.deep_view(),
                    ).take(k as int),
                decreases s.seasons.len() - k,
            {
                assert(s.seasons.deep_view()[k as int] == s.seasons@[k as int]@);
                let se = enrich_season_exec(api, id, ext_seasons, &s.seasons[k]);
                let ghost prev = out.deep_view();
                out.push(se);
                proof {
                    assert(out.deep_view() =~= prev.push(se@));
                    assert(out.deep_view() =~= enrich_seasons(
                        api@,
                        id,
                        ext_seasons.deep_view(),
                        s.seasons.deep_view(),
                    ).take(k + 1));
                }
                k = k + 1;
            }
            proof {
                let full = enrich_seasons(api@, id, ext_seasons.deep_view(), s.seasons.deep_view());
                assert(full.take(s.seasons@.len() as int) =~= full);
            }
            out
        },
    };
    proof {
        assert(api@.details[di as int].1 == api.details@[di as int].1@);
    }
    Show {
        name,
        seasons,
        id: new_id,
        description: clone_opt_string(&tv.overview),
        original_name: clone_opt_string(&tv.original_name),
        air_date: clone_opt_string(&tv.first_air_date),
        rating: tv.rating,
    }
}

fn clone_seasons(seasons: &Vec<Season>) -> (r: Vec<Season>)
    ensures
        r.deep_view() == seasons.deep_view(),
{
    let mut out: Vec<Season> = Vec::new();
    let mut i: usize = 0;
    while i < seasons.len()
        invariant
            0 <= i <= seasons.len(),
            out.deep_view() =~= seasons.deep_view().take(i as int),
        decreases seasons.len() - i,
    {
        let ghost prev = out.deep_view();
        let s = clone_season(&seasons[i]);
        out.push(s);
        proof {
            assert(seasons.deep_view()[i as int] == seasons@[i as int]@);
            assert(out.deep_view() =~= prev.push(seasons.deep_view()[i as int]));
            assert(out.deep_view() =~= seasons.deep_view().take(i + 1));
        }
        i = i + 1;
    }
    proof {
        assert(seasons.deep_view().take(seasons@.len() as int) =~= seasons.deep_view());
    }
    out
}

fn clone_show(s: &Show) -> (r: Show)
    ensures
        r@ == s@,
{
    Show {
        name: s.name.clone(),
        seasons: clone_seasons(&s.seasons),
        id: s.id,
        description: clone_opt_string(&s.description),
        original_name: clone_opt_string(&s.original_name),
        air_date: clone_opt_string(&s.air_date),
        rating: s.rating,
    }
}

/// Enriches a built catalog in place against an external catalog's data:
/// per show one resolving search, one details lookup, and one season
/// details lookup per matched season. Structure never changes: no show,
/// season or episode is created or removed, and episode numbers and paths
/// stay as built. Any miss leaves its node unenriched.
pub fn set_metadata(config: &mut BaseConfig, api: &CatalogApi)
    ensures
        final(config)@.media == enrich_media(api@, old(config)@.media),
        final(config)@.base_url == old(config)@.base_url,
{
    let mut out: Vec<Show> = Vec::new();
    let mut i: usize = 0;
    while i < config.media.len()
        invariant
            0 <= i <= config.media.len(),
            config == old(config),
            out.deep_view() =~= enrich_media(api@, config.media.deep_view()).take(i as int),
        decreases config.media.len() - i,
    {
        assert(config.media.deep_view()[i as int] == config.media@[i as int]@);
        let s = enrich_show_exec(api, &config.media[i]);
        let ghost prev = out.deep_view();
        out.push(s);
        proof {
            assert(out.deep_view() =~= prev.push(s@));
            assert(out.deep_view() =~= enrich_media(api@, config.media.deep_view()).take(i + 1));
        }
        i = i + 1;
    }
    proof {
        let full = enrich_media(api@, config.media.deep_view());
        assert(full.take(config.media@.len() as int) =~= full);
    }
    config.media = out;
}

} // verus!
