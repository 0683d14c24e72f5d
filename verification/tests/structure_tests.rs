use media_catalog::structure::is_video_path;
use media_catalog::structure::parse_node;
use media_catalog::structure::parse_structure;
use media_catalog::structure::paths_to_structure;

#[test]
fn paths_fold_into_a_tree() {
    let paths = vec![
        String::from("anime/ShowA S01/ShowA S01E01.mkv"),
        String::from("anime/ShowA S01/ShowA S01E02.mkv"),
        String::from("anime/ShowB/ShowB E01.mkv"),
    ];
    let root = paths_to_structure(&paths);
    assert_eq!(root.name, "");
    assert_eq!(root.path, "");
    let children = root.children.as_ref().unwrap();
    assert_eq!(children.len(), 1);
    let anime = &children[0];
    assert_eq!(anime.name, "anime");
    assert_eq!(anime.path, "/anime");
    let shows = anime.children.as_ref().unwrap();
    assert_eq!(shows.len(), 2);
    assert_eq!(shows[0].name, "ShowA S01");
    assert_eq!(shows[0].path, "/anime/ShowA S01");
    let eps = shows[0].children.as_ref().unwrap();
    assert_eq!(eps.len(), 2);
    assert_eq!(eps[0].name, "ShowA S01E01.mkv");
    assert_eq!(eps[0].path, "/anime/ShowA S01/ShowA S01E01.mkv");
    assert!(eps[0].children.is_none());
    assert_eq!(shows[1].name, "ShowB");
}

#[test]
fn parse_node_extends_a_tree() {
    let mut root = paths_to_structure(&vec![String::from("a/b.mkv")]);
    parse_node(&mut root, "a/c.mkv");
    let a = &root.children.as_ref().unwrap()[0];
    let leaves = a.children.as_ref().unwrap();
    assert_eq!(leaves.len(), 2);
    assert_eq!(leaves[0].name, "b.mkv");
    assert_eq!(leaves[1].name, "c.mkv");
}

#[test]
fn parse_structure_roots_a_listing() {
    let paths = vec![String::from("x/y.mp4")];
    let root = parse_structure("media", "media", &paths);
    assert_eq!(root.name, "media");
    assert_eq!(root.path, "media");
    let x = &root.children.as_ref().unwrap()[0];
    assert_eq!(x.name, "x");
    assert_eq!(x.path, "media/x");
    let y = &x.children.as_ref().unwrap()[0];
    assert_eq!(y.path, "media/x/y.mp4");
}

#[test]
fn parse_structure_keeps_empty_children() {
    let root = parse_structure("media", "media", &vec![]);
    assert_eq!(root.children.as_ref().unwrap().len(), 0);
}

#[test]
fn video_extensions_are_recognized() {
    for ext in ["swf", "avi", "flv", "mpg", "rm", "mov", "wav", "asf", "3gp", "mkv", "rmvb", "mp4"]
    {
        let name = format!("dir/file.{}", ext);
        assert!(is_video_path(&name), "{}", name);
    }
    assert!(!is_video_path("dir/file.txt"));
    assert!(!is_video_path("dir/file.mkv.txt"));
    assert!(!is_video_path("mkv"));
    assert!(!is_video_path(""));
}
