use video_pipeline_editor::paths::{
    derive_converted_location, derive_frames_pattern, find_name_end, find_name_start,
    has_file_name, parent_directory, split_location, without_end, FileUtils,
};

fn parts(path: &str) -> (String, String, Option<String>) {
    split_location(path)
}

#[test]
fn location_is_split_into_directory_stem_and_extension() {
    assert_eq!(parts("/videos/clip.mp4"), ("/videos/".into(), "clip".into(), Some("mp4".into())));
    assert_eq!(parts("clip.mp4"), ("".into(), "clip".into(), Some("mp4".into())));
    assert_eq!(parts("/a/b.tar.gz"), ("/a/".into(), "b.tar".into(), Some("gz".into())));
    assert_eq!(parts("/a/noext"), ("/a/".into(), "noext".into(), None));
    assert_eq!(parts("/a/.hidden"), ("/a/".into(), ".hidden".into(), None));
    assert_eq!(parts("/a/.hidden.mp4"), ("/a/".into(), ".hidden".into(), Some("mp4".into())));
    assert_eq!(parts("/a/trailing."), ("/a/".into(), "trailing".into(), Some("".into())));
    assert_eq!(parts("/a.b/c"), ("/a.b/".into(), "c".into(), None));
    assert_eq!(parts("/a/"), ("/".into(), "a".into(), None));
    assert_eq!(parts("/videos/clip.mp4//"), ("/videos/".into(), "clip".into(), Some("mp4".into())));
    assert_eq!(parts("C:\\videos\\"), ("C:\\".into(), "videos".into(), None));
    assert_eq!(parts("/"), ("".into(), "".into(), None));
    assert_eq!(parts("//"), ("".into(), "".into(), None));
    assert_eq!(parts(""), ("".into(), "".into(), None));
    assert_eq!(parts("C:\\videos\\clip.mov"), ("C:\\videos\\".into(), "clip".into(), Some("mov".into())));
    assert_eq!(parts("/x/ünï.cödé.mp4"), ("/x/".into(), "ünï.cödé".into(), Some("mp4".into())));
}

#[test]
fn file_name_starts_behind_the_last_separator() {
    assert_eq!(find_name_start("/a/b/c.mp4"), 5);
    assert_eq!(find_name_start("c.mp4"), 0);
    assert_eq!(find_name_start("a\\b"), 2);
    assert_eq!(find_name_start("a/"), 2);
    assert_eq!(find_name_start(""), 0);
}

#[test]
fn separators_at_the_end_count_for_nothing() {
    assert_eq!(find_name_end("/a/b"), 4);
    assert_eq!(find_name_end("/a/b/"), 4);
    assert_eq!(find_name_end("/a/b//\\"), 4);
    assert_eq!(find_name_end("/"), 0);
    assert_eq!(find_name_end(""), 0);
    assert_eq!(without_end("/a/b/"), "/a/b");
    assert_eq!(without_end("/a/b"), "/a/b");
    assert_eq!(without_end("///"), "");
}

#[test]
fn dot_names_are_no_file_names() {
    assert!(has_file_name("/a/b.mp4"));
    assert!(has_file_name("b"));
    assert!(has_file_name("/a/..."));
    assert!(has_file_name("/a/.b"));
    assert!(has_file_name("/a/x."));
    assert!(!has_file_name(""));
    assert!(!has_file_name("/"));
    assert!(has_file_name("/a/"));
    assert!(has_file_name("/a/b.mp4/"));
    assert!(!has_file_name("//"));
    assert!(!has_file_name("/a/../"));
    assert!(!has_file_name("/a/."));
    assert!(!has_file_name("/a/.."));
    assert!(!has_file_name(".."));
    assert!(!has_file_name("."));
}

#[test]
fn converted_copy_lies_beside_the_input() {
    assert_eq!(
        derive_converted_location("/videos/clip.mp4", "webm").unwrap(),
        "/videos/clip_converted.webm"
    );
    assert_eq!(derive_converted_location("clip.mov", "mp4").unwrap(), "clip_converted.mp4");
    assert_eq!(derive_converted_location("/v/clip", "mp4").unwrap(), "/v/clip_converted.mp4");
    assert_eq!(
        derive_converted_location("C:\\v\\clip.avi", "mkv").unwrap(),
        "C:\\v\\clip_converted.mkv"
    );
    assert_eq!(
        derive_converted_location("/videos/clip.mov/", "mp4").unwrap(),
        "/videos/clip_converted.mp4"
    );
    assert_eq!(derive_converted_location("/videos/", "mp4").unwrap(), "/videos_converted.mp4");
    assert_eq!(derive_converted_location("/", "mp4"), None);
    assert_eq!(derive_converted_location("", "mp4"), None);
    assert_eq!(derive_converted_location("/videos/..", "mp4"), None);
}

#[test]
fn frames_go_into_a_directory_beside_the_input() {
    assert_eq!(
        derive_frames_pattern("/videos/clip.mp4", "png").unwrap(),
        "/videos/clip_frames/clip_%04d.png"
    );
    assert_eq!(derive_frames_pattern("clip.mp4", "jpg").unwrap(), "clip_frames/clip_%04d.jpg");
    assert_eq!(
        derive_frames_pattern("/videos/clip.mp4/", "png").unwrap(),
        "/videos/clip_frames/clip_%04d.png"
    );
    assert_eq!(derive_frames_pattern("/", "png"), None);
}

#[test]
fn parent_is_what_stands_before_the_last_separator() {
    assert_eq!(parent_directory("/videos/clip_frames/clip_%04d.png"), "/videos/clip_frames");
    assert_eq!(parent_directory("clip_%04d.png"), "");
    assert_eq!(parent_directory("/clip.png"), "/");
    assert_eq!(parent_directory("a/b"), "a");
    assert_eq!(parent_directory("a/b/"), "a");
    assert_eq!(parent_directory("/a/"), "/");
    assert_eq!(parent_directory("/"), "");
    assert_eq!(parent_directory(""), "");
}

#[test]
fn extension_is_given_in_lowercase() {
    assert_eq!(FileUtils::get_file_extension("/videos/CLIP.MP4"), "mp4");
    assert_eq!(FileUtils::get_file_extension("clip.WebM"), "webm");
    assert_eq!(FileUtils::get_file_extension("/videos/clip"), "unknown");
    assert_eq!(FileUtils::get_file_extension("/videos/.hidden"), "unknown");
    assert_eq!(FileUtils::get_file_extension(""), "unknown");
    assert_eq!(FileUtils::get_file_extension("/videos/CLIP.MP4/"), "mp4");
    assert_eq!(FileUtils::get_file_extension("/videos/"), "unknown");
    assert_eq!(FileUtils::get_file_extension("a.ÄÖ"), "äö");
    assert_eq!(FileUtils::get_file_extension("a.b.C"), "c");
}
