use media_share::listing::{describe, list_media, EntryInfo, FileInfo};
use media_share::media::{classify, MediaKind};

fn file(name: &str) -> EntryInfo {
    EntryInfo { name: name.to_string(), is_file: true }
}

fn dir(name: &str) -> EntryInfo {
    EntryInfo { name: name.to_string(), is_file: false }
}

fn names(files: &[FileInfo]) -> Vec<String> {
    files.iter().map(|f| f.name.clone()).collect()
}

#[test]
fn classify_ignores_case() {
    assert_eq!(classify("A.JPG"), Some(MediaKind::Image));
    assert_eq!(classify("clip.MKV"), Some(MediaKind::Video));
    assert_eq!(classify("notes.txt"), None);
    assert_eq!(classify("photo.jpg"), Some(MediaKind::Image));
    assert_eq!(classify("Photo.JpEg"), Some(MediaKind::Image));
}

#[test]
fn classify_every_extension() {
    for e in ["jpg", "jpeg", "png", "gif", "webp", "PNG", "Gif", "WEBP"] {
        assert_eq!(classify(&format!("x.{}", e)), Some(MediaKind::Image), "{}", e);
    }
    for e in ["mp4", "webm", "mov", "mkv", "MP4", "WebM", "MOV"] {
        assert_eq!(classify(&format!("x.{}", e)), Some(MediaKind::Video), "{}", e);
    }
}

#[test]
fn classify_edge_names() {
    assert_eq!(classify(""), None);
    assert_eq!(classify("png"), None);
    assert_eq!(classify(".png"), None);
    assert_eq!(classify(".."), None);
    assert_eq!(classify("a."), None);
    assert_eq!(classify("..png"), Some(MediaKind::Image));
    assert_eq!(classify("archive.png.zip"), None);
    assert_eq!(classify("archive.zip.mp4"), Some(MediaKind::Video));
    assert_eq!(classify("x.jpgg"), None);
    assert_eq!(classify("x.jp"), None);
    assert_eq!(classify("été.mov"), Some(MediaKind::Video));
}

#[test]
fn classify_lowers_kelvin_sign() {
    assert_eq!(classify("a.m\u{212A}v"), Some(MediaKind::Video));
    assert_eq!(classify("a.M\u{212A}V"), Some(MediaKind::Video));
    assert_eq!(classify("a.\u{130}mg"), None);
    let files = list_media(Some(vec![file("a.m\u{212A}v"), file("a.mkv")]));
    assert_eq!(files.len(), 2);
    assert!(files.iter().all(|f| f.mime_type == "video"));
}

#[test]
fn describe_builds_record() {
    let f = describe("clip.MKV").unwrap();
    assert_eq!(f.name, "clip.MKV");
    assert_eq!(f.path, "/content/clip.MKV");
    assert!(!f.is_dir);
    assert_eq!(f.mime_type, "video");
    assert!(describe("notes.txt").is_none());
}

#[test]
fn manifest_scenario() {
    let entries = vec![file("a.png"), file("B.JPG"), file("video.mp4"), file("readme.txt"), dir("sub")];
    let files = list_media(Some(entries));
    assert_eq!(names(&files), vec!["B.JPG", "a.png", "video.mp4"]);
    let kinds: Vec<&str> = files.iter().map(|f| f.mime_type.as_str()).collect();
    assert_eq!(kinds, vec!["image", "image", "video"]);
    let paths: Vec<&str> = files.iter().map(|f| f.path.as_str()).collect();
    assert_eq!(paths, vec!["/content/B.JPG", "/content/a.png", "/content/video.mp4"]);
    assert!(files.iter().all(|f| !f.is_dir));
}

#[test]
fn manifest_of_unreadable_directory_is_empty() {
    assert!(list_media(None).is_empty());
    assert!(list_media(Some(Vec::new())).is_empty());
}

#[test]
fn manifest_skips_directories_and_other_files() {
    let entries = vec![dir("holiday.jpg"), file("notes.txt"), file("noext"), dir("sub"), file("z.gif")];
    let files = list_media(Some(entries));
    assert_eq!(names(&files), vec!["z.gif"]);
}

#[test]
fn manifest_order_does_not_depend_on_input_order() {
    let list = ["m.mov", "b.png", "A.gif", "a.gif", "aa.webp", "Z.mp4", "é.png", "a"];
    let forward = list_media(Some(list.iter().map(|n| file(n)).collect()));
    let backward = list_media(Some(list.iter().rev().map(|n| file(n)).collect()));
    let expected = vec!["A.gif", "Z.mp4", "a.gif", "aa.webp", "b.png", "m.mov", "é.png"];
    assert_eq!(names(&forward), expected);
    assert_eq!(names(&backward), expected);
}

#[test]
fn manifest_keeps_equal_names() {
    let files = list_media(Some(vec![file("x.png"), file("x.png"), file("a.mp4")]));
    assert_eq!(names(&files), vec!["a.mp4", "x.png", "x.png"]);
}
