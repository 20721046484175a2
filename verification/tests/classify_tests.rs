use herman::get_media_type;
use herman::FileType;

const MEDIA: [&str; 21] = [
    "mp3", "mp4", "avi", "mkv", "mov", "wmv", "flv", "webm", "wav", "ogg", "aac", "jpg", "jpeg",
    "png", "gif", "bmp", "tif", "tiff", "webp", "svg", "ico",
];

const PROGRAMMING: [&str; 27] = [
    "c", "cpp", "cc", "java", "py", "js", "php", "rb", "swift", "go", "cs", "html", "css", "xml",
    "json", "yaml", "yml", "sh", "bat", "sql", "ini", "cfg", "conf", "txt", "csv", "tsv", "rs",
];

const DOCS: [&str; 7] = ["pdf", "doc", "docx", "xls", "xlsx", "ppt", "pptx"];

#[test]
fn every_media_extension_is_media() {
    for ext in MEDIA {
        let path = format!("root/file.{ext}");
        assert_eq!(get_media_type(&path), FileType::Media);
    }
}

#[test]
fn every_programming_extension_is_programming() {
    for ext in PROGRAMMING {
        let path = format!("root/file.{ext}");
        assert_eq!(get_media_type(&path), FileType::Programming);
    }
}

#[test]
fn every_docs_extension_is_docs() {
    for ext in DOCS {
        let path = format!("root/file.{ext}");
        assert_eq!(get_media_type(&path), FileType::Docs);
    }
}

#[test]
fn unknown_extension_is_others() {
    assert_eq!(get_media_type("root/file.zzz"), FileType::Others);
    assert_eq!(get_media_type("root/file.jpg.bak"), FileType::Others);
}

#[test]
fn no_extension_is_others() {
    assert_eq!(get_media_type("root/file"), FileType::Others);
    assert_eq!(get_media_type("file"), FileType::Others);
    assert_eq!(get_media_type(""), FileType::Others);
}

#[test]
fn hidden_file_has_no_extension() {
    assert_eq!(get_media_type("root/.gitignore"), FileType::Others);
    assert_eq!(get_media_type(".jpg"), FileType::Others);
}

#[test]
fn trailing_dot_is_others() {
    assert_eq!(get_media_type("root/file."), FileType::Others);
}

#[test]
fn matching_is_case_sensitive() {
    assert_eq!(get_media_type("root/file.JPG"), FileType::Others);
    assert_eq!(get_media_type("root/file.Rs"), FileType::Others);
}

#[test]
fn only_the_file_name_is_inspected() {
    assert_eq!(get_media_type("my.jpg/file"), FileType::Others);
    assert_eq!(get_media_type("a.d/b.e/c.png"), FileType::Media);
}

#[test]
fn nested_paths_classify_by_extension() {
    assert_eq!(get_media_type("./watched/song.mp3"), FileType::Media);
    assert_eq!(get_media_type("/abs/path/main.rs"), FileType::Programming);
    assert_eq!(get_media_type("deck.pptx"), FileType::Docs);
}
