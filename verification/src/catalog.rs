//! The catalog: Show, Season and Episode records, and the builder that folds
//! a tree of raw names into them.

use vstd::prelude::*;
use vstd::string::StrSliceExecFns;
use vstd::string::StringExecFns;

use crate::parser::episode_of;
use crate::parser::is_season_kw;
use crate::parser::parse_episode_number;
use crate::parser::parse_i32_spec;
use crate::parser::parse_season_number;
use crate::parser::s_token_value;
use crate::parser::season_of;
use crate::parser::specials_at;
use crate::structure::Node;
use crate::structure::NodeV;
use crate::structure::node_view;
use crate::text::check_digit_runs;
use crate::text::dec_str;
use crate::text::digit_runs_bounded;
use crate::text::i32_to_string;
use crate::text::join;
use crate::text::join_tokens;
use crate::text::tokenize;
use crate::text::tokens_of;

verus! {

// ---------------------------------------------------------------------------
// The data model
// ---------------------------------------------------------------------------

#[derive(Debug, PartialEq)]
pub struct Episode {
    pub name: String,
    pub number: i32,
    pub id: i32,
    pub path: String,
}

pub ghost struct EpisodeV {
    pub name: Seq<char>,
    pub number: i32,
    pub id: i32,
    pub path: Seq<char>,
}

impl View for Episode {
    type V = EpisodeV;

    open spec fn view(&self) -> EpisodeV {
        EpisodeV { name: self.name@, number: self.number, id: self.id, path: self.path@ }
    }
}

impl DeepView for Episode {
    type V = EpisodeV;

    open spec fn deep_view(&self) -> EpisodeV {
        self.view()
    }
}

#[derive(Debug, PartialEq)]
pub struct Season {
    pub name: String,
    pub number: i32,
    pub id: i32,
    pub episodes: Vec<Episode>,
    pub air_date: Option<String>,
}

pub ghost struct SeasonV {
    pub name: Seq<char>,
    pub number: i32,
    pub id: i32,
    pub episodes: Seq<EpisodeV>,
    pub air_date: Option<Seq<char>>,
}

/// The view of an optional string.
pub open spec fn opt_str_view(o: Option<String>) -> Option<Seq<char>> {
    match o {
        Some(s) => Some(s@),
        None => None,
    }
}

impl View for Season {
    type V = SeasonV;

    open spec fn view(&self) -> SeasonV {
        SeasonV {
            name: self.name@,
            number: self.number,
            id: self.id,
            episodes: self.episodes.deep_view(),
            air_date: opt_str_view(self.air_date),
        }
    }
}

impl DeepView for Season {
    type V = SeasonV;

    open spec fn deep_view(&self) -> SeasonV {
        self.view()
    }
}

#[derive(Debug, PartialEq)]
pub struct Show {
    pub name: String,
    pub seasons: Vec<Season>,
    pub id: i32,
    pub description: Option<String>,
    pub original_name: Option<String>,
    pub air_date: Option<String>,
    pub rating: Option<i32>,
}

pub ghost struct ShowV {
    pub name: Seq<char>,
    pub seasons: Seq<SeasonV>,
    pub id: i32,
    pub description: Option<Seq<char>>,
    pub original_name: Option<Seq<char>>,
    pub air_date: Option<Seq<char>>,
    pub rating: Option<i32>,
}

impl View for Show {
    type V = ShowV;

    open spec fn view(&self) -> ShowV {
        ShowV {
            name: self.name@,
            seasons: self.seasons.deep_view(),
            id: self.id,
            description: opt_str_view(self.description),
            original_name: opt_str_view(self.original_name),
            air_date: opt_str_view(self.air_date),
            rating: self.rating,
        }
    }
}

impl DeepView for Show {
    type V = ShowV;

    open spec fn deep_view(&self) -> ShowV {
        self.view()
    }
}

/// The root of the catalog: where the media lives and the shows found in it.
#[derive(Debug, PartialEq)]
pub struct BaseConfig {
    pub base_url: String,
    pub media: Vec<Show>,
}

pub ghost struct BaseConfigV {
    pub base_url: Seq<char>,
    pub media: Seq<ShowV>,
}

impl View for BaseConfig {
    type V = BaseConfigV;

    open spec fn view(&self) -> BaseConfigV {
        BaseConfigV { base_url: self.base_url@, media: self.media.deep_view() }
    }
}

// ---------------------------------------------------------------------------
// Constructors
// ---------------------------------------------------------------------------

/// An empty show with the given title and identifier.
pub open spec fn new_show_spec(name: Seq<char>, id: i32) -> ShowV {
    ShowV {
        name,
        seasons: Seq::empty(),
        id,
        description: None,
        original_name: None,
        air_date: None,
        rating: None,
    }
}

/// An empty season numbered `number`, named "Season <number>".
pub open spec fn new_season_spec(number: i32, id: i32) -> SeasonV {
    SeasonV {
        name: "Season "@ + dec_str(number as int),
        number,
        id,
        episodes: Seq::empty(),
        air_date: None,
    }
}

impl Show {
    /// Creates an empty show with the given title and identifier.
    pub fn create(name: &str, id: i32) -> (s: Show)
        ensures
            s@ == new_show_spec(name@, id),
    {
        let s = Show {
            name: name.to_owned(),
            seasons: Vec::new(),
            id,
            description: None,
            original_name: None,
            air_date: None,
            rating: None,
        };
        proof {
            assert(s.seasons.deep_view() =~= Seq::<SeasonV>::empty());
        }
        s
    }
}

impl Season {
    /// Creates an empty season numbered `number`, named "Season <number>".
    pub fn create(number: i32, id: i32) -> (s: Season)
        ensures
            s@ == new_season_spec(number, id),
    {
        let mut name = String::from_str("Season ");
        let digits = i32_to_string(number);
        name.append(digits.as_str());
        let s = Season { name, number, id, episodes: Vec::new(), air_date: None };
        proof {
            assert(s.episodes.deep_view() =~= Seq::<EpisodeV>::empty());
        }
        s
    }
}

impl Episode {
    /// Creates an episode record for a source path.
    pub fn create(name: &str, number: i32, path: &str, id: i32) -> (e: Episode)
        ensures
            e@ == (EpisodeV { name: name@, number, id, path: path@ }),
    {
        Episode { name: name.to_owned(), number, id, path: path.to_owned() }
    }
}

/// The next run-unique identifier; the counter stops at `i32::MAX`.
pub open spec fn next_id(c: i32) -> i32 {
    if c == i32::MAX {
        c
    } else {
        (c + 1) as i32
    }
}

fn bump_id(c: i32) -> (r: i32)
    ensures
        r == next_id(c),
{
    if c == i32::MAX {
        c
    } else {
        c + 1
    }
}

// ---------------------------------------------------------------------------
// The release-name extractor
// ---------------------------------------------------------------------------

/// Whether the release-name extractor parses the name.
pub uninterp spec fn release_parses(s: Seq<char>) -> bool;

/// The title the release-name extractor reads out of the name.
pub uninterp spec fn release_title(s: Seq<char>) -> Seq<char>;

/// The episode guess the release-name extractor reads out of the name.
pub uninterp spec fn release_episode(s: Seq<char>) -> Option<i32>;

/// Relies on `torrent_name_parser::Metadata::from` and its accessors
/// `title` and `episode`: the parse of a release name is a pure function of
/// its characters, `Ok` exactly when a title can be found. The extractor
/// aborts on digit runs that overflow a 32-bit number, so callers keep
/// those out.
#[verifier::external_body]
fn extract_release(name: &str) -> (r: Option<(String, Option<i32>)>)
    requires
        digit_runs_bounded(name@),
    ensures
        r is Some <==> release_parses(name@),
        match r {
            Some(p) => p.0@ == release_title(name@) && p.1 == release_episode(name@),
            None => true,
        },
{
    match torrent_name_parser::Metadata::from(name) {
        Ok(m) => {
            let episode = m.episode();
            Some((m.title().to_string(), episode))
        },
        Err(_) => None,
    }
}

/// Whether the release-name heuristics accept the name: its digit runs are
/// small enough for the extractor, and the extractor finds a title.
pub open spec fn name_parses(s: Seq<char>) -> bool {
    digit_runs_bounded(s) && release_parses(s)
}

/// Runs the release-name extractor on one name: its title and its episode
/// guess. A name whose digit runs the extractor cannot take is treated as
/// unparseable.
pub fn parse_release_name(name: &str) -> (r: Option<(String, Option<i32>)>)
    ensures
        r is Some <==> name_parses(name@),
        match r {
            Some(p) => p.0@ == release_title(name@) && p.1 == release_episode(name@),
            None => true,
        },
{
    if !check_digit_runs(name) {
        return None;
    }
    extract_release(name)
}

// ---------------------------------------------------------------------------
// Show titles
// ---------------------------------------------------------------------------

/// The token spells "specials", up to case.
pub open spec fn is_specials_token(t: Seq<char>) -> bool {
    t.len() == 8 && specials_at(t, 0)
}

/// Drops season markers off the end of a token list: a trailing
/// "season <integer>" pair, a trailing `s<digits>` token, or a trailing
/// "specials" token.
pub open spec fn strip_markers(ts: Seq<Seq<char>>) -> Seq<Seq<char>>
    decreases ts.len(),
{
    if ts.len() == 0 {
        ts
    } else if ts.len() >= 2 && is_season_kw(ts[ts.len() - 2]) && parse_i32_spec(ts.last())
        is Some {
        strip_markers(ts.take(ts.len() - 2))
    } else if s_token_value(ts.last()) is Some || is_specials_token(ts.last()) {
        strip_markers(ts.drop_last())
    } else {
        ts
    }
}

/// The show title a name yields: the extractor's title, with trailing
/// season markers removed and the rest joined with single spaces.
pub open spec fn show_title_of(s: Seq<char>) -> Seq<char> {
    join_tokens(strip_markers(tokens_of(release_title(s))))
}

/// Whether the token spells "specials", up to case.
fn token_is_specials(t: &str) -> (r: bool)
    ensures
        r == is_specials_token(t@),
{
    if t.unicode_len() != 8 {
        return false;
    }
    crate::text::chars_eq_ci(t.get_char(0), 's') && crate::text::chars_eq_ci(t.get_char(1), 'p')
        && crate::text::chars_eq_ci(t.get_char(2), 'e') && crate::text::chars_eq_ci(
        t.get_char(3),
        'c',
    ) && crate::text::chars_eq_ci(t.get_char(4), 'i') && crate::text::chars_eq_ci(
        t.get_char(5),
        'a',
    ) && crate::text::chars_eq_ci(t.get_char(6), 'l') && crate::text::chars_eq_ci(
        t.get_char(7),
        's',
    )
}

/// Derives the show title of a parsed name: strips trailing season markers
/// from the extracted title. An empty result means the name carries no
/// usable title text.
pub fn derive_show_title(extracted: &str) -> (r: String)
    ensures
        r@ == join_tokens(strip_markers(tokens_of(extracted@))),
{
    let mut tokens = tokenize(extracted);
    loop
        invariant
            strip_markers(tokens.deep_view()) == strip_markers(tokens_of(extracted@)),
        decreases tokens.len(),
    {
        let n = tokens.len();
        let ghost ts = tokens.deep_view();
        if n == 0 {
            return join(&tokens);
        }
        assert(ts.last() == tokens@[n - 1]@);
        if n >= 2 {
            assert(ts[n - 2] == tokens@[n - 2]@);
        }
        let pair = n >= 2 && crate::parser::token_is_season_kw(tokens[n - 2].as_str())
            && crate::parser::parse_i32_token(tokens[n - 1].as_str()).is_some();
        if pair {
            tokens.pop();
            tokens.pop();
            proof {
                assert(tokens.deep_view() =~= ts.take(ts.len() - 2));
            }
        } else {
            let single = crate::parser::s_token_season(tokens[n - 1].as_str()).is_some()
                || token_is_specials(tokens[n - 1].as_str());
            if single {
                tokens.pop();
                proof {
                    assert(tokens.deep_view() =~= ts.drop_last());
                }
            } else {
                proof {
                    assert(strip_markers(ts) == ts);
                }
                return join(&tokens);
            }
        }
    }
}

// ---------------------------------------------------------------------------
// The builder
// ---------------------------------------------------------------------------

/// The episode number a leaf name yields, with the default of 0.
pub open spec fn default_episode_number(s: Seq<char>) -> i32 {
    match episode_of(s) {
        Some(e) => e,
        None => 0i32,
    }
}

/// The season number a name yields, with the default of 1.
pub open spec fn season_num_of(s: Seq<char>) -> i32 {
    match season_of(s) {
        Some(n) => n,
        None => 1i32,
    }
}

/// The episode a leaf node yields: the extracted title as its name (empty
/// when the name does not parse), the inferred episode number, and the
/// leaf's source path.
pub open spec fn episode_spec(n: NodeV, id: i32) -> EpisodeV {
    EpisodeV {
        name: if name_parses(n.name) {
            release_title(n.name)
        } else {
            Seq::empty()
        },
        number: default_episode_number(n.name),
        id,
        path: n.path,
    }
}

/// The index of the first show with this exact title, if any.
pub open spec fn find_show(media: Seq<ShowV>, title: Seq<char>, i: int) -> Option<int>
    decreases media.len() - i,
    when 0 <= i
{
    if i >= media.len() {
        None
    } else if media[i].name == title {
        Some(i)
    } else {
        find_show(media, title, i + 1)
    }
}

/// The index of the first season with this number, if any.
pub open spec fn find_season(seasons: Seq<SeasonV>, number: i32, i: int) -> Option<int>
    decreases seasons.len() - i,
    when 0 <= i
{
    if i >= seasons.len() {
        None
    } else if seasons[i].number == number {
        Some(i)
    } else {
        find_season(seasons, number, i + 1)
    }
}

/// Appends one episode per leaf to the season, handing out identifiers.
pub open spec fn add_episodes(season: SeasonV, leaves: Seq<NodeV>, k: int, c: i32) -> (SeasonV, i32)
    decreases leaves.len() - k,
    when 0 <= k
{
    if k >= leaves.len() {
        (season, c)
    } else {
        let s1 = SeasonV { episodes: season.episodes.push(episode_spec(leaves[k], c)), ..season };
        add_episodes(s1, leaves, k + 1, next_id(c))
    }
}

/// Folds one child of a show node into its seasons: the child's name picks
/// the season (created on first encounter); a child with children is a
/// season folder whose leaves all become episodes, a child without is
/// itself a leaf episode.
pub open spec fn add_season_node(seasons: Seq<SeasonV>, c: i32, sn: NodeV) -> (Seq<SeasonV>, i32) {
    let num = season_num_of(sn.name);
    let found = find_season(seasons, num, 0);
    let idx = match found {
        Some(i) => i,
        None => seasons.len() as int,
    };
    let seasons1 = match found {
        Some(i) => seasons,
        None => seasons.push(new_season_spec(num, c)),
    };
    let c1 = match found {
        Some(i) => c,
        None => next_id(c),
    };
    match sn.children {
        None => {
            let s2 = SeasonV {
                episodes: seasons1[idx].episodes.push(episode_spec(sn, c1)),
                ..seasons1[idx]
            };
            (seasons1.update(idx, s2), next_id(c1))
        },
        Some(leaves) => {
            let r = add_episodes(seasons1[idx], leaves, 0, c1);
            (seasons1.update(idx, r.0), r.1)
        },
    }
}

pub open spec fn add_season_nodes(
    seasons: Seq<SeasonV>,
    snodes: Seq<NodeV>,
    k: int,
    c: i32,
) -> (Seq<SeasonV>, i32)
    decreases snodes.len() - k,
    when 0 <= k
{
    if k >= snodes.len() {
        (seasons, c)
    } else {
        let r = add_season_node(seasons, c, snodes[k]);
        add_season_nodes(r.0, snodes, k + 1, r.1)
    }
}

/// Folds one show node into the catalog: an unparseable or empty title
/// skips the node, otherwise the title finds or creates the show and the
/// node's children become its seasons and episodes.
pub open spec fn add_show_node(media: Seq<ShowV>, c: i32, node: NodeV) -> (Seq<ShowV>, i32) {
    if !name_parses(node.name) || show_title_of(node.name).len() == 0 {
        (media, c)
    } else {
        let title = show_title_of(node.name);
        let found = find_show(media, title, 0);
        let idx = match found {
            Some(i) => i,
            None => media.len() as int,
        };
        let media1 = match found {
            Some(i) => media,
            None => media.push(new_show_spec(title, c)),
        };
        let c1 = match found {
            Some(i) => c,
            None => next_id(c),
        };
        let children = match node.children {
            Some(cs) => cs,
            None => Seq::<NodeV>::empty(),
        };
        let r = add_season_nodes(media1[idx].seasons, children, 0, c1);
        (media1.update(idx, ShowV { seasons: r.0, ..media1[idx] }), r.1)
    }
}

pub open spec fn build_media(
    media: Seq<ShowV>,
    c: i32,
    snodes: Seq<NodeV>,
    k: int,
) -> (Seq<ShowV>, i32)
    decreases snodes.len() - k,
    when 0 <= k
{
    if k >= snodes.len() {
        (media, c)
    } else {
        let r = add_show_node(media, c, snodes[k]);
        build_media(r.0, r.1, snodes, k + 1)
    }
}

/// The catalog a tree of names folds into: the root's children are show
/// nodes, processed in order with identifiers handed out from `start_id`.
pub open spec fn catalog_of(root: NodeV, base_url: Seq<char>, start_id: i32) -> BaseConfigV {
    let shows = match root.children {
        Some(cs) => cs,
        None => Seq::<NodeV>::empty(),
    };
    BaseConfigV { base_url, media: build_media(Seq::empty(), start_id, shows, 0).0 }
}

/// No two shows share a title.
pub open spec fn unique_show_titles(media: Seq<ShowV>) -> bool {
    forall|i: int, j: int| 0 <= i < j < media.len() ==> media[i].name != media[j].name
}

/// No two seasons of one show share a number.
pub open spec fn unique_season_numbers(seasons: Seq<SeasonV>) -> bool {
    forall|i: int, j: int| 0 <= i < j < seasons.len() ==> seasons[i].number != seasons[j].number
}

/// Reads one leaf into an episode: the extracted title as its name, the
/// inferred episode number (default 0), and the leaf's path.
pub fn parse_episode(node: &Node, id: i32) -> (e: Episode)
    ensures
        e@ == episode_spec(crate::structure::node_view(*node), id),
{
    let number = match parse_episode_number(node.name.as_str()) {
        Some(e) => e,
        None => 0,
    };
    match parse_release_name(node.name.as_str()) {
        Some(p) => Episode::create(p.0.as_str(), number, node.path.as_str(), id),
        None => {
            proof {
                reveal_strlit("");
                assert(""@ =~= Seq::<char>::empty());
            }
            Episode::create("", number, node.path.as_str(), id)
        },
    }
}

/// Finds the first show with this exact title.
fn find_show_index(media: &Vec<Show>, title: &String) -> (r: Option<usize>)
    ensures
        match r {
            Some(i) => i < media.len() && find_show(media.deep_view(), title@, 0) == Some(i as int),
            None => find_show(media.deep_view(), title@, 0) is None && (forall|t: int|
                0 <= t < media.len() ==> media.deep_view()[t].name != title@),
        },
{
    let ghost mv = media.deep_view();
    let mut i: usize = 0;
    while i < media.len()
        invariant
            0 <= i <= media.len(),
            mv == media.deep_view(),
            find_show(mv, title@, i as int) == find_show(mv, title@, 0),
            forall|t: int| 0 <= t < i ==> mv[t].name != title@,
        decreases media.len() - i,
    {
        assert(mv[i as int] == media@[i as int]@);
        if media[i].name == *title {
            return Some(i);
        }
        i = i + 1;
    }
    None
}

/// Finds the first season with this number.
fn find_season_index(seasons: &Vec<Season>, number: i32) -> (r: Option<usize>)
    ensures
        match r {
            Some(i) => i < seasons.len() && find_season(seasons.deep_view(), number, 0) == Some(
                i as int,
            ),
            None => find_season(seasons.deep_view(), number, 0) is None && (forall|t: int|
                0 <= t < seasons.len() ==> seasons.deep_view()[t].number != number),
        },
{
    let ghost sv = seasons.deep_view();
    let mut i: usize = 0;
    while i < seasons.len()
        invariant
            0 <= i <= seasons.len(),
            sv == seasons.deep_view(),
            find_season(sv, number, i as int) == find_season(sv, number, 0),
            forall|t: int| 0 <= t < i ==> sv[t].number != number,
        decreases seasons.len() - i,
    {
        assert(sv[i as int] == seasons@[i as int]@);
        if seasons[i].number == number {
            return Some(i);
        }
        i = i + 1;
    }
    None
}

/// Folding episodes into a season touches nothing but its episode list.
proof fn lemma_add_episodes_fields(season: SeasonV, leaves: Seq<NodeV>, k: int, c: i32)
    requires
        0 <= k,
    ensures
        ({
            let r = add_episodes(season, leaves, k, c);
            r.0.number == season.number && r.0.name == season.name && r.0.id == season.id
                && r.0.air_date == season.air_date
        }),
    decreases leaves.len() - k,
{
    if k < leaves.len() {
        let s1 = SeasonV { episodes: season.episodes.push(episode_spec(leaves[k], c)), ..season };
        lemma_add_episodes_fields(s1, leaves, k + 1, next_id(c));
    }
}

/// Appends one episode per leaf to the season, handing out identifiers.
fn add_leaf_episodes(season: &mut Season, leaves: &Vec<Node>, c0: i32) -> (c: i32)
    ensures
        ({
            let r = add_episodes(old(season)@, crate::structure::nodes_view(leaves@), 0, c0);
            final(season)@ == r.0 && c == r.1
        }),
{
    let ghost lv = crate::structure::nodes_view(leaves@);
    proof {
        crate::structure::lemma_nodes_view(leaves@);
    }
    let mut c = c0;
    let mut m: usize = 0;
    while m < leaves.len()
        invariant
            0 <= m <= leaves.len(),
            lv == crate::structure::nodes_view(leaves@),
            lv.len() == leaves@.len(),
            add_episodes(season@, lv, m as int, c) == add_episodes(old(season)@, lv, 0, c0),
        decreases leaves.len() - m,
    {
        proof {
            crate::structure::lemma_nodes_view(leaves@);
        }
        let ghost prev = season@;
        let e = parse_episode(&leaves[m], c);
        season.episodes.push(e);
        proof {
            assert(season.episodes.deep_view() =~= prev.episodes.push(
                episode_spec(lv[m as int], c),
            ));
            assert(season@ == (SeasonV {
                episodes: prev.episodes.push(episode_spec(lv[m as int], c)),
                ..prev
            }));
        }
        c = bump_id(c);
        m = m + 1;
    }
    c
}

/// Folds one child of a show node into the show's seasons.
fn add_season_entry(show: &mut Show, sn: &Node, c0: i32) -> (c: i32)
    ensures
        ({
            let r = add_season_node(old(show)@.seasons, c0, node_view(*sn));
            final(show)@ == (ShowV { seasons: r.0, ..old(show)@ }) && c == r.1
        }),
        unique_season_numbers(old(show)@.seasons) ==> unique_season_numbers(
            final(show)@.seasons,
        ),
{
    let ghost sv0 = show@.seasons;
    let ghost snv = node_view(*sn);
    let num = match parse_season_number(sn.name.as_str()) {
        Some(n) => n,
        None => 1,
    };
    assert(num == season_num_of(snv.name));
    let found = find_season_index(&show.seasons, num);
    let ghost spec_found = find_season(sv0, num, 0);
    let mut c1 = c0;
    let idx: usize = match found {
        Some(i) => i,
        None => {
            let ghost before = show.seasons.deep_view();
            let s = Season::create(num, c0);
            show.seasons.push(s);
            c1 = bump_id(c0);
            proof {
                assert(show.seasons.deep_view() =~= before.push(new_season_spec(num, c0)));
            }
            show.seasons.len() - 1
        },
    };
    let ghost seasons1 = match spec_found {
        Some(i) => sv0,
        None => sv0.push(new_season_spec(num, c0)),
    };
    proof {
        assert(show.seasons.deep_view() =~= seasons1);
        assert(seasons1[idx as int] == show.seasons.deep_view()[idx as int]);
    }
    let ghost before_remove = show.seasons.deep_view();
    let mut season = show.seasons.remove(idx);
    proof {
        assert(show.seasons.deep_view() =~= before_remove.remove(idx as int));
        assert(season@ == seasons1[idx as int]);
    }
    let c2 = match &sn.children {
        None => {
            let ghost prev = season@;
            let e = parse_episode(sn, c1);
            season.episodes.push(e);
            proof {
                assert(season.episodes.deep_view() =~= prev.episodes.push(episode_spec(snv, c1)));
                assert(season@ == (SeasonV {
                    episodes: prev.episodes.push(episode_spec(snv, c1)),
                    ..prev
                }));
            }
            bump_id(c1)
        },
        Some(leaves) => {
            proof {
                lemma_add_episodes_fields(
                    season@,
                    crate::structure::nodes_view(leaves@),
                    0,
                    c1,
                );
            }
            add_leaf_episodes(&mut season, leaves, c1)
        },
    };
    proof {
        lemma_add_episodes_fields(seasons1[idx as int], snv.children.unwrap_or(Seq::empty()), 0, c1);
    }
    let ghost after_body = show.seasons.deep_view();
    show.seasons.insert(idx, season);
    proof {
        assert(show.seasons.deep_view() =~= after_body.insert(idx as int, season@));
        assert(show.seasons.deep_view() =~= seasons1.update(idx as int, season@));
        let r = add_season_node(sv0, c0, snv);
        assert(show.seasons.deep_view() =~= r.0);
        assert(show@ == (ShowV { seasons: r.0, ..old(show)@ }));
        if unique_season_numbers(sv0) {
            assert(season@.number == seasons1[idx as int].number);
            assert forall|i: int, j: int|
                0 <= i < j < show.seasons.deep_view().len() implies show.seasons.deep_view()[i].number
                != show.seasons.deep_view()[j].number by {
                let cur = show.seasons.deep_view();
                if spec_found is None {
                    assert(forall|t: int| 0 <= t < sv0.len() ==> sv0[t].number != num);
                }
                assert(cur[i] == seasons1.update(idx as int, season@)[i]);
                assert(cur[j] == seasons1.update(idx as int, season@)[j]);
            }
        }
    }
    c2
}

/// Every invariant the builder maintains over the catalog: titles unique,
/// and each show's season numbers unique.
pub open spec fn builder_invariant(media: Seq<ShowV>) -> bool {
    unique_show_titles(media) && forall|i: int|
        0 <= i < media.len() ==> unique_season_numbers(#[trigger] media[i].seasons)
}

/// Folding season nodes into a show's seasons keeps their numbers unique.
proof fn lemma_add_season_nodes_unique(
    seasons: Seq<SeasonV>,
    snodes: Seq<NodeV>,
    k: int,
    c: i32,
)
    requires
        0 <= k,
        unique_season_numbers(seasons),
    ensures
        unique_season_numbers(add_season_nodes(seasons, snodes, k, c).0),
    decreases snodes.len() - k,
{
    if k < snodes.len() {
        let r = add_season_node(seasons, c, snodes[k]);
        lemma_add_season_node_unique(seasons, c, snodes[k]);
        lemma_add_season_nodes_unique(r.0, snodes, k + 1, r.1);
    }
}

proof fn lemma_add_season_node_unique(seasons: Seq<SeasonV>, c: i32, sn: NodeV)
    requires
        unique_season_numbers(seasons),
    ensures
        unique_season_numbers(add_season_node(seasons, c, sn).0),
{
    let num = season_num_of(sn.name);
    let found = find_season(seasons, num, 0);
    match found {
        None => lemma_find_season_none(seasons, num, 0),
        Some(i) => lemma_find_season_some(seasons, num, 0, i),
    }
    let idx = match found {
        Some(i) => i,
        None => seasons.len() as int,
    };
    let seasons1 = match found {
        Some(i) => seasons,
        None => seasons.push(new_season_spec(num, c)),
    };
    let c1 = match found {
        Some(i) => c,
        None => next_id(c),
    };
    assert(unique_season_numbers(seasons1));
    match sn.children {
        None => {
            let s2 = SeasonV {
                episodes: seasons1[idx].episodes.push(episode_spec(sn, c1)),
                ..seasons1[idx]
            };
            lemma_update_same_number(seasons1, idx, s2);
        },
        Some(leaves) => {
            lemma_add_episodes_fields(seasons1[idx], leaves, 0, c1);
            lemma_update_same_number(seasons1, idx, add_episodes(seasons1[idx], leaves, 0, c1).0);
        },
    }
}

/// Replacing a season with one of the same number keeps the numbers unique.
proof fn lemma_update_same_number(seasons: Seq<SeasonV>, idx: int, s: SeasonV)
    requires
        0 <= idx < seasons.len(),
        unique_season_numbers(seasons),
        s.number == seasons[idx].number,
    ensures
        unique_season_numbers(seasons.update(idx, s)),
{
    assert forall|i: int, j: int|
        0 <= i < j < seasons.update(idx, s).len() implies seasons.update(idx, s)[i].number
        != seasons.update(idx, s)[j].number by {
        assert(seasons[i].number != seasons[j].number);
    }
}

/// A found season index is in range and carries the number.
proof fn lemma_find_season_some(seasons: Seq<SeasonV>, number: i32, i: int, j: int)
    requires
        0 <= i,
        find_season(seasons, number, i) == Some(j),
    ensures
        i <= j < seasons.len(),
        seasons[j].number == number,
    decreases seasons.len() - i,
{
    if i < seasons.len() && seasons[i].number != number {
        lemma_find_season_some(seasons, number, i + 1, j);
    }
}

/// A failed season search means no season carries the number.
proof fn lemma_find_season_none(seasons: Seq<SeasonV>, number: i32, i: int)
    requires
        0 <= i,
        find_season(seasons, number, i) is None,
    ensures
        forall|t: int| i <= t < seasons.len() ==> seasons[t].number != number,
    decreases seasons.len() - i,
{
    if i < seasons.len() {
        lemma_find_season_none(seasons, number, i + 1);
    }
}

/// Folds one show node into the catalog.
fn add_show_entry(media: &mut Vec<Show>, node: &Node, c0: i32) -> (c: i32)
    ensures
        ({
            let r = add_show_node(old(media).deep_view(), c0, node_view(*node));
            final(media).deep_view() == r.0 && c == r.1
        }),
        builder_invariant(old(media).deep_view()) ==> builder_invariant(
            final(media).deep_view(),
        ),
{
    let ghost mv0 = media.deep_view();
    let ghost nv = node_view(*node);
    let parsed = match parse_release_name(node.name.as_str()) {
        Some(p) => p,
        None => {
            return c0;
        },
    };
    let title = derive_show_title(parsed.0.as_str());
    assert(title@ == show_title_of(nv.name));
    if title.unicode_len() == 0 {
        return c0;
    }
    let found = find_show_index(media, &title);
    let ghost spec_found = find_show(mv0, title@, 0);
    let mut c1 = c0;
    let idx: usize = match found {
        Some(i) => i,
        None => {
            let ghost before = media.deep_view();
            let s = Show::create(title.as_str(), c0);
            media.push(s);
            c1 = bump_id(c0);
            proof {
                assert(media.deep_view() =~= before.push(new_show_spec(title@, c0)));
            }
            media.len() - 1
        },
    };
    let ghost media1 = match spec_found {
        Some(i) => mv0,
        None => mv0.push(new_show_spec(title@, c0)),
    };
    proof {
        assert(media.deep_view() =~= media1);
        assert(media1[idx as int] == media.deep_view()[idx as int]);
    }
    let ghost before_remove = media.deep_view();
    let mut show = media.remove(idx);
    proof {
        assert(media.deep_view() =~= before_remove.remove(idx as int));
        assert(show@ == media1[idx as int]);
    }
    let ghost show_entry = show@;
    let ghost children = match nv.children {
        Some(cs) => cs,
        None => Seq::<NodeV>::empty(),
    };
    let mut c2 = c1;
    match &node.children {
        None => {},
        Some(kids) => {
            proof {
                crate::structure::lemma_nodes_view(kids@);
            }
            let mut k: usize = 0;
            while k < kids.len()
                invariant
                    0 <= k <= kids.len(),
                    children == crate::structure::nodes_view(kids@),
                    children.len() == kids@.len(),
                    show@.name == show_entry.name,
                    show@.id == show_entry.id,
                    show@.description == show_entry.description,
                    show@.original_name == show_entry.original_name,
                    show@.air_date == show_entry.air_date,
                    show@.rating == show_entry.rating,
                    add_season_nodes(show@.seasons, children, k as int, c2)
                        == add_season_nodes(show_entry.seasons, children, 0, c1),
                    unique_season_numbers(show_entry.seasons) ==> unique_season_numbers(
                        show@.seasons,
                    ),
                decreases kids.len() - k,
            {
                proof {
                    crate::structure::lemma_nodes_view(kids@);
                }
                c2 = add_season_entry(&mut show, &kids[k], c2);
                k = k + 1;
            }
        },
    }
    let ghost after_body = media.deep_view();
    media.insert(idx, show);
    proof {
        assert(media.deep_view() =~= after_body.insert(idx as int, show@));
        assert(media.deep_view() =~= media1.update(idx as int, show@));
        let r = add_show_node(mv0, c0, nv);
        assert(show@.seasons == add_season_nodes(media1[idx as int].seasons, children, 0, c1).0);
        assert(show@ == (ShowV {
            seasons: add_season_nodes(media1[idx as int].seasons, children, 0, c1).0,
            ..media1[idx as int]
        }));
        assert(media.deep_view() =~= r.0);
        if builder_invariant(mv0) {
            if spec_found is None {
                lemma_find_show_none(mv0, title@, 0);
            }
            lemma_add_season_nodes_unique(media1[idx as int].seasons, children, 0, c1);
            assert forall|i: int, j: int|
                0 <= i < j < media.deep_view().len() implies media.deep_view()[i].name
                != media.deep_view()[j].name by {
                let cur = media.deep_view();
                assert(cur[i] == media1.update(idx as int, show@)[i]);
                assert(cur[j] == media1.update(idx as int, show@)[j]);
            }
            assert forall|i: int|
                0 <= i < media.deep_view().len() implies unique_season_numbers(
                #[trigger] media.deep_view()[i].seasons,
            ) by {
                let cur = media.deep_view();
                assert(cur[i] == media1.update(idx as int, show@)[i]);
            }
        }
    }
    c2
}

/// A failed show search means no show carries the title.
proof fn lemma_find_show_none(media: Seq<ShowV>, title: Seq<char>, i: int)
    requires
        0 <= i,
        find_show(media, title, i) is None,
    ensures
        forall|t: int| i <= t < media.len() ==> media[t].name != title,
    decreases media.len() - i,
{
    if i < media.len() {
        lemma_find_show_none(media, title, i + 1);
    }
}

/// Folds a tree of raw names into a catalog: each child of the root is a
/// show node, its title deduplicates shows, its children pick seasons by
/// their inferred numbers, and every leaf appends one episode. Identifiers
/// count up from 1. In the result no two shows share a title and no two
/// seasons of one show share a number; episodes are kept in encounter
/// order, duplicate numbers included.
pub fn parse_show_tree(node: &Node, base_url: &str) -> (r: BaseConfig)
    ensures
        r@ == catalog_of(node_view(*node), base_url@, 1),
        unique_show_titles(r@.media),
        forall|i: int|
            0 <= i < r@.media.len() ==> unique_season_numbers(#[trigger] r@.media[i].seasons),
{
    let ghost nv = node_view(*node);
    let ghost shows = match nv.children {
        Some(cs) => cs,
        None => Seq::<NodeV>::empty(),
    };
    let mut media: Vec<Show> = Vec::new();
    let mut c: i32 = 1;
    proof {
        assert(media.deep_view() =~= Seq::<ShowV>::empty());
    }
    match &node.children {
        None => {},
        Some(kids) => {
            proof {
                crate::structure::lemma_nodes_view(kids@);
            }
            let mut k: usize = 0;
            while k < kids.len()
                invariant
                    0 <= k <= kids.len(),
                    shows == crate::structure::nodes_view(kids@),
                    shows.len() == kids@.len(),
                    build_media(media.deep_view(), c, shows, k as int) == build_media(
                        Seq::empty(),
                        1,
                        shows,
                        0,
                    ),
                    builder_invariant(media.deep_view()),
                decreases kids.len() - k,
            {
                proof {
                    crate::structure::lemma_nodes_view(kids@);
                }
                c = add_show_entry(&mut media, &kids[k], c);
                k = k + 1;
            }
        },
    }
    BaseConfig { base_url: base_url.to_owned(), media }
}

} // verus!
