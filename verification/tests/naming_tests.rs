use buncher::naming::{
    bunched_name, candidate_path, ignored_copy_candidate, image_output_candidate, is_ignored,
    join, library_candidate, library_directory, library_group, media_kind, output_directory,
    route_video, separate_filename, video_copy_candidate, video_library_root, MediaKind,
    PathError, VideoRoute,
};
use buncher::paths::file_name;

#[test]
fn candidates_in_order() {
    assert_eq!(image_output_candidate("out/a", "cat", "jpg", 0), "out/a/cat.jpg");
    assert_eq!(image_output_candidate("out/a", "cat", "jpg", 1), "out/a/cat-1.jpg");
    assert_eq!(image_output_candidate("out/a", "cat", "png", 12), "out/a/cat-12.png");
    assert_eq!(ignored_copy_candidate("out", "my.jpg", "png", 0), "out/my.jpg");
    assert_eq!(ignored_copy_candidate("out", "my.jpg", "png", 2), "out/my.jpg-2.png");
    assert_eq!(video_copy_candidate("out", "v.mp4", 0), "out/v.mp4");
    assert_eq!(video_copy_candidate("out", "v.mp4", 3), "out/v.mp4-3");
    assert_eq!(candidate_path("d", "f", "s", ".t", 10), "d/s-10.t");
}

#[test]
fn candidates_never_repeat() {
    let mut seen = std::collections::HashSet::new();
    for attempt in 0..200u64 {
        assert!(seen.insert(image_output_candidate("dir", "a", "jpg", attempt)));
    }
    assert!(!seen.contains(&image_output_candidate("dir", "a", "png", 0)));
}

#[test]
fn bunched_names() {
    assert_eq!(bunched_name("cat", "jpg"), "cat-bunched.jpg");
    assert_eq!(bunched_name("", "png"), "-bunched.png");
}

#[test]
fn output_directory_replaces_input() {
    let d = output_directory("input/sub", "input", "output");
    assert_eq!(d.path, "output/sub");
    assert!(d.create_if_missing);
    let top = output_directory("input", "input", "output");
    assert_eq!(top.path, "output");
    assert!(!top.create_if_missing);
    let twice = output_directory("input/input", "input", "o");
    assert_eq!(twice.path, "o/o");
}

#[test]
fn ignore_mask() {
    assert!(is_ignored("my-photo", Some("my")));
    assert!(!is_ignored("photo", Some("my")));
    assert!(!is_ignored("my-photo", None));
    assert!(is_ignored("photo", Some("")));
}

#[test]
fn media_kinds() {
    assert_eq!(media_kind("mp4"), MediaKind::Video);
    assert_eq!(media_kind("MP4"), MediaKind::Image);
    assert_eq!(media_kind("jpg"), MediaKind::Image);
}

#[test]
fn video_routes() {
    match route_video("in", Some("in/a"), Some("out"), false) {
        Ok(VideoRoute::CopyTo(d)) => {
            assert_eq!(d.path, "out/a");
            assert!(d.create_if_missing);
        },
        other => panic!("{:?}", other),
    }
    match route_video("in", None, Some("out"), true) {
        Ok(VideoRoute::CopyTo(d)) => {
            assert_eq!(d.path, "out/../video");
            assert!(d.create_if_missing);
        },
        other => panic!("{:?}", other),
    }
    match route_video("in", Some("in/x"), None, true) {
        Ok(VideoRoute::MoveTo(d)) => assert_eq!(d, "in/../video"),
        other => panic!("{:?}", other),
    }
    assert!(matches!(route_video("in", Some("in/../video"), None, true), Ok(VideoRoute::Stay)));
    assert!(matches!(route_video("in", Some("in/a"), None, false), Ok(VideoRoute::Stay)));
    assert!(matches!(route_video("in", None, Some("out"), false), Err(PathError::NoParent)));
    assert!(matches!(route_video("in", None, None, true), Err(PathError::NoParent)));
}

#[test]
fn separate_filenames() {
    assert_eq!(separate_filename("clip.mov", true), ("clip".to_string(), "mov".to_string()));
    assert_eq!(separate_filename("clip", true), ("clip".to_string(), "mp4".to_string()));
    assert_eq!(separate_filename("pic", false), ("pic".to_string(), "png".to_string()));
    assert_eq!(separate_filename("", false), ("noname".to_string(), "png".to_string()));
    assert_eq!(separate_filename(".bashrc", false), (".bashrc".to_string(), "png".to_string()));
    assert_eq!(separate_filename("a.tar.gz", false), ("a.tar".to_string(), "gz".to_string()));
}

#[test]
fn library_layout() {
    assert_eq!(library_group("cat-01.jpg"), "cat");
    assert_eq!(library_group("dog.png"), "dog");
    assert_eq!(library_group("plain"), "plain");
    assert_eq!(library_group("-x"), "");
    assert_eq!(video_library_root("in"), "in/video");
    assert_eq!(library_directory("in", "cat-01.mp4", true), "in/video/cat");
    assert_eq!(library_directory("in", "cat-01.jpg", false), "in/cat");
    assert_eq!(library_candidate("in/cat", "cat-01.jpg", false, 0), "in/cat/cat-01.jpg");
    assert_eq!(library_candidate("in/cat", "cat-01.jpg", false, 1), "in/cat/cat-01-1.jpg");
    assert_eq!(library_candidate("in/v", "clip", true, 2), "in/v/clip-2.mp4");
}

#[test]
fn file_name_of_join() {
    assert_eq!(file_name(&join("a/b", "c.jpg")), Some("c.jpg".to_string()));
    assert_eq!(file_name(&join("", "c")), Some("c".to_string()));
    assert_eq!(file_name(&join(".", "...")), Some("...".to_string()));
}
