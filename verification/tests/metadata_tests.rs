use media_catalog::catalog::parse_show_tree;
use media_catalog::metadata::resolve_show_title;
use media_catalog::metadata::set_metadata;
use media_catalog::metadata::CatalogApi;
use media_catalog::metadata::EpisodeRecord;
use media_catalog::metadata::SeasonDetailsRecord;
use media_catalog::metadata::SeasonRecord;
use media_catalog::metadata::ShowDetails;
use media_catalog::metadata::ShowRecord;
use media_catalog::structure::paths_to_structure;

fn record(id: i32, name: &str) -> ShowRecord {
    ShowRecord {
        id: Some(id),
        name: Some(name.to_string()),
        overview: Some(format!("about {}", name)),
        original_name: Some(name.to_string()),
        first_air_date: Some("2003-03-15".to_string()),
        rating: Some(8),
    }
}

fn empty_api() -> CatalogApi {
    CatalogApi { searches: vec![], details: vec![], seasons: vec![] }
}

#[test]
fn truncation_stops_at_first_hit() {
    // Only the once-truncated title is known to the catalog: the resolver
    // must find it after removing exactly one token.
    let api = CatalogApi {
        searches: vec![("Foo Bar S02 1080p".to_string(), vec![record(9, "Foo Bar")])],
        details: vec![],
        seasons: vec![],
    };
    let hit = resolve_show_title(&api, &"Foo Bar S02 1080p BDRip".to_string()).unwrap();
    assert_eq!(hit.id, Some(9));
    assert_eq!(hit.name, Some("Foo Bar".to_string()));
}

#[test]
fn truncation_goes_all_the_way_down() {
    let api = CatalogApi {
        searches: vec![("Foo".to_string(), vec![record(4, "Foo")])],
        details: vec![],
        seasons: vec![],
    };
    let hit = resolve_show_title(&api, &"Foo Bar S02 1080p".to_string()).unwrap();
    assert_eq!(hit.id, Some(4));
}

#[test]
fn exhausted_truncation_is_a_miss_not_an_error() {
    let api = empty_api();
    assert!(resolve_show_title(&api, &"Foo Bar S02 1080p BDRip".to_string()).is_none());
    assert!(resolve_show_title(&api, &"".to_string()).is_none());
}

#[test]
fn whole_title_is_tried_first() {
    let api = CatalogApi {
        searches: vec![
            ("Foo Bar".to_string(), vec![record(1, "Wrong")]),
            ("Foo Bar Baz".to_string(), vec![record(2, "Right")]),
        ],
        details: vec![],
        seasons: vec![],
    };
    let hit = resolve_show_title(&api, &"Foo Bar Baz".to_string()).unwrap();
    assert_eq!(hit.id, Some(2));
}

#[test]
fn empty_result_lists_count_as_misses() {
    let api = CatalogApi {
        searches: vec![
            ("Foo Bar".to_string(), vec![]),
            ("Foo".to_string(), vec![record(3, "Foo")]),
        ],
        details: vec![],
        seasons: vec![],
    };
    let hit = resolve_show_title(&api, &"Foo Bar".to_string()).unwrap();
    assert_eq!(hit.id, Some(3));
}

fn built_catalog() -> media_catalog::catalog::BaseConfig {
    let paths = vec![
        String::from("ShowA S01/ShowA S01E01.mkv"),
        String::from("ShowA S01/ShowA S01E02.mkv"),
    ];
    let root = paths_to_structure(&paths);
    parse_show_tree(&root, "base")
}

fn showa_api() -> CatalogApi {
    CatalogApi {
        searches: vec![
            ("ShowA".to_string(), vec![record(7, "Alpha")]),
            // The canonical title resolves to the same record, so a second
            // run sees identical records.
            ("Alpha".to_string(), vec![record(7, "Alpha")]),
        ],
        details: vec![(
            7,
            ShowDetails { seasons: Some(vec![SeasonRecord { season_number: Some(1) }]) },
        )],
        seasons: vec![(
            7,
            1,
            SeasonDetailsRecord {
                name: Some("First".to_string()),
                air_date: Some("2003-04-01".to_string()),
                episodes: Some(vec![
                    EpisodeRecord { episode_number: Some(1), name: Some("Pilot".to_string()) },
                    EpisodeRecord { episode_number: Some(2), name: Some("Second".to_string()) },
                ]),
            },
        )],
    }
}

#[test]
fn enrichment_overwrites_descriptive_fields() {
    let mut config = built_catalog();
    set_metadata(&mut config, &showa_api());
    assert_eq!(config.media.len(), 1);
    let show = &config.media[0];
    assert_eq!(show.name, "Alpha");
    assert_eq!(show.id, 7);
    assert_eq!(show.description, Some("about Alpha".to_string()));
    assert_eq!(show.original_name, Some("Alpha".to_string()));
    assert_eq!(show.air_date, Some("2003-03-15".to_string()));
    assert_eq!(show.rating, Some(8));
    let season = &show.seasons[0];
    assert_eq!(season.name, "First");
    assert_eq!(season.number, 1);
    assert_eq!(season.air_date, Some("2003-04-01".to_string()));
    assert_eq!(season.episodes[0].name, "Pilot");
    assert_eq!(season.episodes[0].number, 1);
    assert_eq!(season.episodes[0].path, "/ShowA S01/ShowA S01E01.mkv");
    assert_eq!(season.episodes[1].name, "Second");
}

#[test]
fn enrichment_twice_equals_once() {
    let mut once = built_catalog();
    set_metadata(&mut once, &showa_api());
    let mut twice = built_catalog();
    set_metadata(&mut twice, &showa_api());
    set_metadata(&mut twice, &showa_api());
    assert_eq!(once, twice);
}

#[test]
fn misses_leave_nodes_unenriched() {
    let mut config = built_catalog();
    let unenriched = built_catalog();
    set_metadata(&mut config, &empty_api());
    assert_eq!(config, unenriched);
}

#[test]
fn unmatched_season_numbers_stay_as_built() {
    let mut api = showa_api();
    api.details = vec![(
        7,
        ShowDetails { seasons: Some(vec![SeasonRecord { season_number: Some(4) }]) },
    )];
    let mut config = built_catalog();
    set_metadata(&mut config, &api);
    let show = &config.media[0];
    // The show itself is enriched, its only season is not.
    assert_eq!(show.name, "Alpha");
    assert_eq!(show.seasons[0].name, "Season 1");
    assert_eq!(show.seasons[0].air_date, None);
}

#[test]
fn season_matched_by_default_zero_without_number_stays() {
    // An external season lacking a number matches local season 0 but gives
    // nothing to fetch details with: the season stays as built.
    let paths = vec![String::from("ShowE/Specials/ShowE E01.mkv")];
    let root = paths_to_structure(&paths);
    let mut config = parse_show_tree(&root, "base");
    let api = CatalogApi {
        searches: vec![("ShowE".to_string(), vec![record(11, "Eleven")])],
        details: vec![(
            11,
            ShowDetails { seasons: Some(vec![SeasonRecord { season_number: None }]) },
        )],
        seasons: vec![],
    };
    set_metadata(&mut config, &api);
    let show = &config.media[0];
    assert_eq!(show.name, "Eleven");
    assert_eq!(show.seasons[0].number, 0);
    assert_eq!(show.seasons[0].name, "Season 0");
}
