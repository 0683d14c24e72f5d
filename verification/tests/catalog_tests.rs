use media_catalog::catalog::derive_show_title;
use media_catalog::catalog::parse_release_name;
use media_catalog::catalog::parse_show_tree;
use media_catalog::catalog::Season;
use media_catalog::structure::paths_to_structure;

#[test]
fn season_create_names_itself() {
    let s = Season::create(5, 42);
    assert_eq!(s.name, "Season 5");
    assert_eq!(s.number, 5);
    assert_eq!(s.id, 42);
    assert!(s.episodes.is_empty());
    assert!(s.air_date.is_none());
}

#[test]
fn release_names_are_cleaned() {
    let p = parse_release_name("The.Walking.Dead.S05E03.720p.HDTV.x264-ASAP[ettv]").unwrap();
    assert_eq!(p.0, "The Walking Dead");
    assert_eq!(p.1, Some(3));
}

#[test]
fn huge_digit_runs_are_unparseable() {
    // The extractor would abort on these digits; the library reports a
    // parse failure instead.
    assert!(parse_release_name("show 1x99999999999999999999").is_none());
}

#[test]
fn one_show_two_seasons() {
    // Three leaves under two season-marked folders of the same show fold
    // into one show with seasons 1 and 2.
    let paths = vec![
        String::from("ShowA S01/ShowA S01E01.mkv"),
        String::from("ShowA S01/ShowA S01E02.mkv"),
        String::from("ShowA S02/ShowA S02E01.mkv"),
    ];
    let root = paths_to_structure(&paths);
    let config = parse_show_tree(&root, "base");
    assert_eq!(config.base_url, "base");
    assert_eq!(config.media.len(), 1);
    let show = &config.media[0];
    assert_eq!(show.name, "ShowA");
    assert_eq!(show.seasons.len(), 2);
    let s1 = &show.seasons[0];
    assert_eq!(s1.number, 1);
    assert_eq!(s1.name, "Season 1");
    assert_eq!(s1.episodes.len(), 2);
    assert_eq!(s1.episodes[0].number, 1);
    assert_eq!(s1.episodes[0].path, "/ShowA S01/ShowA S01E01.mkv");
    assert_eq!(s1.episodes[1].number, 2);
    let s2 = &show.seasons[1];
    assert_eq!(s2.number, 2);
    assert_eq!(s2.episodes.len(), 1);
    assert_eq!(s2.episodes[0].number, 1);
}

#[test]
fn show_without_season_folder_gets_season_one() {
    let paths = vec![String::from("ShowB/ShowB E01.mkv")];
    let root = paths_to_structure(&paths);
    let config = parse_show_tree(&root, "base");
    assert_eq!(config.media.len(), 1);
    let show = &config.media[0];
    assert_eq!(show.name, "ShowB");
    assert_eq!(show.seasons.len(), 1);
    assert_eq!(show.seasons[0].number, 1);
    assert_eq!(show.seasons[0].episodes.len(), 1);
    assert_eq!(show.seasons[0].episodes[0].number, 1);
}

#[test]
fn duplicate_episode_numbers_are_kept_in_order() {
    let paths = vec![
        String::from("ShowC/ShowC E01.mkv"),
        String::from("ShowC/ShowC E01 repack.mkv"),
    ];
    let root = paths_to_structure(&paths);
    let config = parse_show_tree(&root, "base");
    let eps = &config.media[0].seasons[0].episodes;
    assert_eq!(eps.len(), 2);
    assert_eq!(eps[0].number, 1);
    assert_eq!(eps[1].number, 1);
    assert_eq!(eps[0].path, "/ShowC/ShowC E01.mkv");
    assert_eq!(eps[1].path, "/ShowC/ShowC E01 repack.mkv");
}

#[test]
fn specials_folder_is_season_zero() {
    let paths = vec![String::from("ShowD/Specials/ShowD E02.mkv")];
    let root = paths_to_structure(&paths);
    let config = parse_show_tree(&root, "base");
    let show = &config.media[0];
    assert_eq!(show.name, "ShowD");
    assert_eq!(show.seasons[0].number, 0);
    assert_eq!(show.seasons[0].name, "Season 0");
}

#[test]
fn identifiers_count_up_deterministically() {
    let paths = vec![String::from("ShowB/ShowB E01.mkv")];
    let root = paths_to_structure(&paths);
    let config = parse_show_tree(&root, "base");
    let show = &config.media[0];
    assert_eq!(show.id, 1);
    assert_eq!(show.seasons[0].id, 2);
    assert_eq!(show.seasons[0].episodes[0].id, 3);
}

#[test]
fn unparseable_show_names_are_skipped() {
    // The extractor finds no title text in "1080p": the leaf under it is
    // skipped and no show is created for it.
    let paths = vec![
        String::from("1080p/x.mkv"),
        String::from("ShowB/ShowB E01.mkv"),
    ];
    let root = paths_to_structure(&paths);
    let config = parse_show_tree(&root, "base");
    assert_eq!(config.media.len(), 1);
    assert_eq!(config.media[0].name, "ShowB");
}

#[test]
fn trailing_season_markers_leave_the_title() {
    assert_eq!(derive_show_title("ShowA S01"), "ShowA");
    assert_eq!(derive_show_title("Foo Season 2"), "Foo");
    assert_eq!(derive_show_title("Foo Specials"), "Foo");
    assert_eq!(derive_show_title("Foo Bar"), "Foo Bar");
    assert_eq!(derive_show_title("S01"), "");
}
