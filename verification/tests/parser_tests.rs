use media_catalog::parser::parse_episode_number;
use media_catalog::parser::parse_season_number;

#[test]
fn specials_means_season_zero() {
    assert_eq!(parse_season_number("My Show Specials"), Some(0));
    assert_eq!(parse_season_number("my show SPECIALS pack"), Some(0));
    assert_eq!(parse_season_number("myspecialsbox"), Some(0));
}

#[test]
fn season_keyword_parses() {
    assert_eq!(parse_season_number("Foo Season 3 x264"), Some(3));
    assert_eq!(parse_season_number("Foo season 12"), Some(12));
    assert_eq!(parse_season_number("Foo SEASON 2"), Some(2));
}

#[test]
fn season_keyword_takes_precedence_over_s_token() {
    assert_eq!(parse_season_number("Foo S05 Season 3"), Some(3));
    assert_eq!(parse_season_number("Foo Season 3 S05"), Some(3));
}

#[test]
fn s_token_parses() {
    assert_eq!(parse_season_number("Foo S04"), Some(4));
    assert_eq!(parse_season_number("ShowA S02E01.mkv"), Some(2));
    assert_eq!(parse_season_number("Foo s10 1080p"), Some(10));
}

#[test]
fn season_keyword_without_integer_falls_through() {
    // "Season" itself has no digits after its s; the s-token rule then
    // finds "S02".
    assert_eq!(parse_season_number("Season finale S02"), Some(2));
}

#[test]
fn no_season_marker_means_none() {
    assert_eq!(parse_season_number("ShowB"), None);
    assert_eq!(parse_season_number("ShowB E01.mkv"), None);
    assert_eq!(parse_season_number(""), None);
}

#[test]
fn episode_short_pattern() {
    assert_eq!(parse_episode_number("ShowA S01E01.mkv"), Some(1));
    assert_eq!(parse_episode_number("ShowB E01.mkv"), Some(1));
    assert_eq!(parse_episode_number("foo episode7"), Some(7));
    assert_eq!(parse_episode_number("E1234"), Some(123));
}

#[test]
fn episode_cross_pattern() {
    assert_eq!(parse_episode_number("show 3x07"), Some(7));
    assert_eq!(parse_episode_number("12x345 rip"), Some(345));
}

#[test]
fn episode_dash_pattern() {
    assert_eq!(parse_episode_number("S01 - 12"), Some(12));
}

#[test]
fn episode_pattern_priority() {
    // The E pattern wins over the cross pattern wherever both appear.
    assert_eq!(parse_episode_number("2x05 E09"), Some(9));
}

#[test]
fn episode_no_match() {
    assert_eq!(parse_episode_number("plain name"), None);
    assert_eq!(parse_episode_number(""), None);
}

#[test]
fn episode_overflowing_digits_fall_to_zero() {
    // The digits after the x are worth more than an i32.
    assert_eq!(parse_episode_number("1x99999999999"), Some(0));
}
