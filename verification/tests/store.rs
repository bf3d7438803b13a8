use image_tags::error::TagError;
use image_tags::service::{
    finish_load, load_tags_in_dir, next_load_step, save_tags, store_and_plan, LoadStep,
};
use image_tags::store::TagStore;
use image_tags::string_map::StringMap;
use image_tags::tag_map::DirectoryTagMap;
use std::io::Write;
use tempfile::TempDir;

fn setup_store_dir() -> TempDir {
    TempDir::new().expect("Failed to create temp dir")
}

fn write_file(dir: &TempDir, name: &str, content: &str) -> tempfile::NamedTempFile {
    let mut file = tempfile::Builder::new()
        .prefix(name)
        .suffix("")
        .rand_bytes(0)
        .tempfile_in(dir.path())
        .expect("Failed to create test file");
    file.write_all(content.as_bytes()).expect("Failed to write test file");
    file.flush().expect("Failed to write test file");
    file
}

fn tags(items: &[&str]) -> Vec<String> {
    items.iter().map(|s| s.to_string()).collect()
}

fn ready(step: Result<LoadStep, TagError>) -> DirectoryTagMap {
    match step {
        Ok(LoadStep::Ready(map)) => map,
        other => panic!("{:?}", other),
    }
}

/// Runs the whole request as a caller would, with `content` as the text
/// of the tag file.
fn load_with(store: &mut TagStore, dir_path: &str, content: &str) -> Result<DirectoryTagMap, TagError> {
    match load_tags_in_dir(store, dir_path)? {
        LoadStep::Ready(map) => Ok(map),
        LoadStep::ReadFile { dir_key, .. } => Ok(finish_load(store, dir_key, content)),
    }
}

#[test]
fn test_parse_tags_file_empty_dir() {
    let temp_dir = setup_store_dir();
    let dir_path = temp_dir.path().to_str().unwrap();
    let mut store = TagStore::new();

    let result = load_tags_in_dir(&mut store, dir_path);

    assert!(result.is_ok());
    assert_eq!(ready(result).len(), 0);
}

#[test]
fn test_parse_tags_file_with_content() {
    let content = "image1.jpg\ttag1,tag2\nimage2.png\ttag3,tag4,tag5\n";

    let tags_map = DirectoryTagMap::from_text(content);

    assert_eq!(tags_map.len(), 2);
    assert_eq!(tags_map.get("image1.jpg").unwrap(), vec!["tag1", "tag2"]);
    assert_eq!(tags_map.get("image2.png").unwrap(), vec!["tag3", "tag4", "tag5"]);
}

#[test]
fn test_load_tags_in_dir_command() {
    let temp_dir = setup_store_dir();
    let dir_path = temp_dir.path().to_str().unwrap().to_string();
    let content = "photo.jpg\tnature,landscape\nvideo.mp4\ttime,family\n";
    let _tag_file = write_file(&temp_dir, "IMAGE_TAG", content);
    let mut store = TagStore::new();

    let step = load_tags_in_dir(&mut store, &dir_path).unwrap();
    let result = match step {
        LoadStep::ReadFile { dir_key, tag_file } => {
            assert_eq!(std::path::Path::new(&tag_file), temp_dir.path().canonicalize().unwrap().join("IMAGE_TAG"));
            finish_load(&mut store, dir_key, content)
        }
        other => panic!("{:?}", other),
    };

    assert_eq!(result.len(), 2);
    assert_eq!(result.get("photo.jpg").unwrap(), vec!["nature", "landscape"]);
    assert_eq!(result.get("video.mp4").unwrap(), vec!["time", "family"]);
}

#[test]
fn test_save_tags_command() {
    let temp_dir = setup_store_dir();
    let test_file = write_file(&temp_dir, "test.jpg", "fake image content");
    let img_path = test_file.path().to_str().unwrap().to_string();
    let mut store = TagStore::new();

    let result = save_tags(&mut store, &img_path, tags(&["nature", "sunset"]));

    assert!(result.is_ok());
    let plan = result.unwrap();
    let dir = temp_dir.path().canonicalize().unwrap();
    assert_eq!(std::path::Path::new(&plan.tag_file), dir.join("IMAGE_TAG"));
    assert_eq!(std::path::Path::new(&plan.temp_file), dir.join("IMAGE_TAG_TEMP"));
    assert!(plan.content.contains("test.jpg"));
    assert!(plan.content.contains("nature,sunset"));
    assert_eq!(plan.content, "test.jpg\tnature,sunset\n");
}

#[test]
fn test_save_tags_nonexistent_file() {
    let img_path = "/nonexistent/path/test.jpg".to_string();
    let mut store = TagStore::new();

    let result = save_tags(&mut store, &img_path, tags(&["tag1"]));

    assert!(result.is_err());
    assert!(result.unwrap_err().message().contains("does not exist"));
}

#[test]
fn a_failed_save_leaves_the_store_as_it_was() {
    let temp_dir = setup_store_dir();
    let test_file = write_file(&temp_dir, "kept.png", "x");
    let dir_key = temp_dir.path().canonicalize().unwrap().to_str().unwrap().to_string();
    let mut store = TagStore::new();
    save_tags(&mut store, test_file.path().to_str().unwrap(), tags(&["old"])).unwrap();

    let missing = temp_dir.path().join("missing.png");
    let result = save_tags(&mut store, missing.to_str().unwrap(), tags(&["new"]));
    assert!(matches!(result, Err(TagError::NotFound(_))));
    let result = save_tags(&mut store, test_file.path().to_str().unwrap(), tags(&["bad\ttag"]));
    assert!(matches!(result, Err(TagError::TagInvalidCharacters)));
    let result = save_tags(&mut store, "/nonexistent/path/test.jpg", tags(&["new"]));
    assert!(matches!(result, Err(TagError::NotFound(_))));

    assert!(!store.is_cached("/nonexistent/path"));
    let held = store.get(&dir_key).unwrap();
    assert_eq!(held.len(), 1);
    assert_eq!(held.get("kept.png").unwrap(), vec!["old"]);
    assert!(held.get("missing.png").is_none());
}

#[test]
fn test_tags_cache_behavior() {
    let temp_dir = setup_store_dir();
    let dir_path = temp_dir.path().to_str().unwrap().to_string();
    let content = "image1.jpg\ttag1\n";
    let _tag_file = write_file(&temp_dir, "IMAGE_TAG", content);
    let mut store = TagStore::new();

    let result1 = load_with(&mut store, &dir_path, content);
    assert!(result1.is_ok());
    assert_eq!(result1.unwrap().get("image1.jpg").unwrap(), vec!["tag1"]);

    let new_content = "image1.jpg\ttag1,tag2\n";

    let result2 = load_with(&mut store, &dir_path, new_content);
    assert!(result2.is_ok());
    assert_eq!(result2.unwrap().get("image1.jpg").unwrap(), vec!["tag1"]);
}

#[test]
fn test_save_tags_validation_security() {
    let temp_dir = setup_store_dir();
    let test_file = write_file(&temp_dir, "test.jpg", "fake image content");
    let img_path = test_file.path().to_str().unwrap().to_string();
    let mut store = TagStore::new();

    let long_tag = "a".repeat(101);
    let result = save_tags(&mut store, &img_path, vec![long_tag]);
    assert!(result.is_err());
    assert!(result.unwrap_err().message().contains("Tag too long"));

    let result = save_tags(&mut store, &img_path, vec!["tag\twith\ttab".to_string()]);
    assert!(result.is_err());
    assert!(result.unwrap_err().message().contains("invalid characters"));

    let result = save_tags(&mut store, &img_path, vec!["tag\x00control".to_string()]);
    assert!(result.is_err());
    assert!(result.unwrap_err().message().contains("control characters"));
}

#[test]
fn test_multiple_files_in_directory() {
    let temp_dir = setup_store_dir();
    let test_file1 = write_file(&temp_dir, "photo1.jpg", "fake content");
    let test_file2 = write_file(&temp_dir, "photo2.png", "fake content");
    let mut store = TagStore::new();

    let _ = save_tags(&mut store, test_file1.path().to_str().unwrap(), vec!["nature".to_string()]);
    let plan = save_tags(&mut store, test_file2.path().to_str().unwrap(), vec!["portrait".to_string()]);

    let result = load_tags_in_dir(&mut store, temp_dir.path().to_str().unwrap());

    assert!(result.is_ok());
    let tags_map = ready(result);
    assert_eq!(tags_map.len(), 2);
    assert_eq!(tags_map.get("photo1.jpg").unwrap(), vec!["nature"]);
    assert_eq!(tags_map.get("photo2.png").unwrap(), vec!["portrait"]);
    assert_eq!(plan.unwrap().content, "photo1.jpg\tnature\nphoto2.png\tportrait\n");
}

#[test]
fn tags_are_validated_before_the_path() {
    let mut store = TagStore::new();

    let result = save_tags(&mut store, "/nonexistent/path/test.jpg", tags(&["ok", "bad\n"]));

    assert!(matches!(result, Err(TagError::TagInvalidCharacters)));
}

#[test]
fn a_write_enters_a_directory_without_reading_its_tag_file() {
    let temp_dir = setup_store_dir();
    let _tag_file = write_file(&temp_dir, "IMAGE_TAG", "old.png\tkept\n");
    let image = write_file(&temp_dir, "new.png", "x");
    let mut store = TagStore::new();

    let plan = save_tags(&mut store, image.path().to_str().unwrap(), tags(&["fresh"])).unwrap();

    assert_eq!(plan.content, "new.png\tfresh\n");
    let held = ready(load_tags_in_dir(&mut store, temp_dir.path().to_str().unwrap()));
    assert_eq!(held.len(), 1);
    assert!(held.get("old.png").is_none());
}

#[test]
fn a_write_after_a_read_keeps_what_was_read() {
    let temp_dir = setup_store_dir();
    let content = "old.png\tkept\nnew.png\treplaced\n";
    let _tag_file = write_file(&temp_dir, "IMAGE_TAG", content);
    let image = write_file(&temp_dir, "new.png", "x");
    let mut store = TagStore::new();
    load_with(&mut store, temp_dir.path().to_str().unwrap(), content).unwrap();

    let plan = save_tags(&mut store, image.path().to_str().unwrap(), tags(&["a", "b"])).unwrap();

    assert_eq!(plan.content, "old.png\tkept\nnew.png\ta,b\n");
}

#[test]
fn two_spellings_of_a_directory_share_one_entry() {
    let temp_dir = setup_store_dir();
    let image = write_file(&temp_dir, "a.png", "x");
    let spelled = temp_dir.path().join(".").join("a.png");
    let mut store = TagStore::new();

    save_tags(&mut store, image.path().to_str().unwrap(), tags(&["one"])).unwrap();
    let plan = save_tags(&mut store, spelled.to_str().unwrap(), tags(&["two"])).unwrap();

    assert_eq!(plan.content, "a.png\ttwo\n");
    let roundabout = temp_dir.path().join(".");
    let held = ready(load_tags_in_dir(&mut store, roundabout.to_str().unwrap()));
    assert_eq!(held.get("a.png").unwrap(), vec!["two"]);
}

#[test]
fn store_and_plan_stores_only_with_the_paths_of_the_tag_files() {
    let mut store = TagStore::new();

    let result = store_and_plan(
        &mut store,
        "/d".to_string(),
        "a.png".to_string(),
        tags(&["t"]),
        Err(TagError::MissingDirectory("/d".to_string())),
    );
    assert!(matches!(result, Err(TagError::MissingDirectory(p)) if p == "/d"));
    assert!(!store.is_cached("/d"));

    let plan = store_and_plan(
        &mut store,
        "/d".to_string(),
        "a.png".to_string(),
        tags(&["t", "u"]),
        Ok(("/d/IMAGE_TAG".to_string(), "/d/IMAGE_TAG_TEMP".to_string())),
    )
    .unwrap();
    assert_eq!(plan.tag_file, "/d/IMAGE_TAG");
    assert_eq!(plan.temp_file, "/d/IMAGE_TAG_TEMP");
    assert_eq!(plan.content, "a.png\tt,u\n");
    assert!(store.is_cached("/d"));
}

#[test]
fn the_store_reads_a_directory_once() {
    let mut store = TagStore::new();
    assert!(!store.is_cached("/d"));
    assert!(store.get("/d").is_none());

    let first = store.load("/d".to_string(), Some("a.png\tone\n"));
    let second = store.load("/d".to_string(), Some("a.png\ttwo\nb.png\tthree\n"));
    let third = store.load("/d".to_string(), None);

    assert!(store.is_cached("/d"));
    for map in [first, second, third, store.get("/d").unwrap()] {
        assert_eq!(map.len(), 1);
        assert_eq!(map.get("a.png").unwrap(), vec!["one"]);
    }
}

#[test]
fn a_directory_without_a_tag_file_enters_the_store_empty() {
    let mut store = TagStore::new();

    let map = store.load("/d".to_string(), None);

    assert_eq!(map.len(), 0);
    assert!(store.is_cached("/d"));
    assert_eq!(store.load("/d".to_string(), Some("a.png\tlate\n")).len(), 0);
}

#[test]
fn directories_are_kept_apart() {
    let mut store = TagStore::new();

    store.set_tags("/a".to_string(), "x.png".to_string(), tags(&["in a"]));
    let text = store.set_tags("/b".to_string(), "x.png".to_string(), tags(&["in b"]));

    assert_eq!(text, "x.png\tin b\n");
    assert_eq!(store.get("/a").unwrap().get("x.png").unwrap(), vec!["in a"]);
    assert_eq!(store.get("/b").unwrap().get("x.png").unwrap(), vec!["in b"]);
    assert!(store.get("/c").is_none());
}

#[test]
fn set_tags_returns_the_whole_tag_file() {
    let mut store = TagStore::new();

    let one = store.set_tags("/d".to_string(), "f1.jpg".to_string(), tags(&["nature"]));
    let two = store.set_tags("/d".to_string(), "f2.jpg".to_string(), tags(&["portrait"]));
    let three = store.set_tags("/d".to_string(), "f1.jpg".to_string(), tags(&["sea", "sky"]));

    assert_eq!(one, "f1.jpg\tnature\n");
    assert_eq!(two, "f1.jpg\tnature\nf2.jpg\tportrait\n");
    assert_eq!(three, "f1.jpg\tsea,sky\nf2.jpg\tportrait\n");
    let held = store.get("/d").unwrap();
    assert_eq!(held.len(), 2);
    assert_eq!(held.get("f1.jpg").unwrap(), vec!["sea", "sky"]);
    assert_eq!(held.get("f2.jpg").unwrap(), vec!["portrait"]);
}

#[test]
fn the_last_line_for_a_name_wins() {
    let map = DirectoryTagMap::from_text("a.png\tfirst\nb.png\tother\na.png\tlast,one\n");

    assert_eq!(map.len(), 2);
    assert_eq!(map.get("a.png").unwrap(), vec!["last", "one"]);
    assert_eq!(map.get("b.png").unwrap(), vec!["other"]);
    assert_eq!(map.file_name_at(0), "a.png");
    assert_eq!(map.file_name_at(1), "b.png");
    assert_eq!(map.tags_at(1), &vec!["other".to_string()]);
}

#[test]
fn every_line_is_a_record() {
    let map = DirectoryTagMap::from_text("plain\n\nx.png\t\n");

    assert_eq!(map.len(), 3);
    assert_eq!(map.get("plain").unwrap(), vec![""]);
    assert_eq!(map.get("").unwrap(), vec![""]);
    assert_eq!(map.get("x.png").unwrap(), vec![""]);
    assert_eq!(DirectoryTagMap::from_text("").len(), 0);
}

#[test]
fn the_text_of_a_map_reads_back_as_the_map() {
    let mut map = DirectoryTagMap::new();
    map.set("b.png".to_string(), tags(&["x", "y z"]));
    map.set("a.jpg".to_string(), tags(&[""]));
    map.set("写真.webp".to_string(), tags(&["日本語"]));

    let text = map.to_text();
    let back = DirectoryTagMap::from_text(&text);

    assert_eq!(text, "b.png\tx,y z\na.jpg\t\n写真.webp\t日本語\n");
    assert_eq!(back.len(), 3);
    assert_eq!(back.to_text(), text);
    assert_eq!(back.get("b.png").unwrap(), vec!["x", "y z"]);
    assert_eq!(back.get("a.jpg").unwrap(), vec![""]);
    assert_eq!(back.get("写真.webp").unwrap(), vec!["日本語"]);
}

#[test]
fn a_copy_of_a_map_holds_the_same_records() {
    let mut map = DirectoryTagMap::new();
    map.set("a".to_string(), tags(&["1"]));
    map.set("b".to_string(), tags(&["2", "3"]));

    let copy = map.copy();
    map.set("a".to_string(), tags(&["changed"]));

    assert_eq!(copy.to_text(), "a\t1\nb\t2,3\n");
    assert_eq!(map.to_text(), "a\tchanged\nb\t2,3\n");
}

#[test]
fn a_string_map_keeps_the_place_of_a_key() {
    let mut map: StringMap<u32> = StringMap::new();
    assert_eq!(map.len(), 0);
    assert!(map.get(&"a".to_string()).is_none());

    map.insert("a".to_string(), 1);
    map.insert("b".to_string(), 2);
    map.insert("a".to_string(), 3);

    assert_eq!(map.len(), 2);
    assert_eq!(map.find(&"a".to_string()), 0);
    assert_eq!(map.find(&"b".to_string()), 1);
    assert_eq!(map.find(&"c".to_string()), 2);
    assert_eq!(map.get(&"a".to_string()), Some(&3));
    assert_eq!(map.key_at(1), "b");
    assert_eq!(*map.value_at(1), 2);
    assert!(map.contains_key(&"b".to_string()));
    assert!(!map.contains_key(&"".to_string()));
}

fn tag_files(dir: &str) -> Result<(String, String), TagError> {
    Ok((format!("{}/IMAGE_TAG", dir), format!("{}/IMAGE_TAG_TEMP", dir)))
}

#[test]
fn a_directory_with_a_tag_file_is_to_be_read() {
    let mut store = TagStore::new();

    let step = next_load_step(&mut store, "/d".to_string(), tag_files("/d"), true);

    match step {
        Ok(LoadStep::ReadFile { dir_key, tag_file }) => {
            assert_eq!(dir_key, "/d");
            assert_eq!(tag_file, "/d/IMAGE_TAG");
        }
        other => panic!("{:?}", other),
    }
    assert!(!store.is_cached("/d"));
}

#[test]
fn a_directory_without_a_tag_file_is_answered_empty() {
    let mut store = TagStore::new();

    let step = next_load_step(&mut store, "/d".to_string(), tag_files("/d"), false);

    assert_eq!(ready(step).len(), 0);
    assert!(store.is_cached("/d"));
    assert_eq!(store.get("/d").unwrap().len(), 0);
}

#[test]
fn a_directory_without_the_paths_of_its_tag_files_fails() {
    let mut store = TagStore::new();

    for tag_file_exists in [false, true] {
        let step = next_load_step(
            &mut store,
            "/d".to_string(),
            Err(TagError::MissingDirectory("/d".to_string())),
            tag_file_exists,
        );
        assert!(matches!(step, Err(TagError::MissingDirectory(p)) if p == "/d"));
        assert!(!store.is_cached("/d"));
    }
}

#[test]
fn a_held_directory_without_a_tag_file_is_answered_from_the_store() {
    let mut store = TagStore::new();
    store.set_tags("/d".to_string(), "a.png".to_string(), tags(&["kept"]));

    let step = next_load_step(&mut store, "/d".to_string(), tag_files("/d"), false);

    let held = ready(step);
    assert_eq!(held.len(), 1);
    assert_eq!(held.get("a.png").unwrap(), vec!["kept"]);
}

#[test]
fn an_unknown_directory_with_a_tag_file_is_answered_with_its_records() {
    let temp_dir = setup_store_dir();
    let content = "photo.jpg\tnature\nnotes.txt\tkept too\n";
    let _tag_file = write_file(&temp_dir, "IMAGE_TAG", content);
    let mut store = TagStore::new();
    let dir = temp_dir.path().canonicalize().unwrap();

    let step = load_tags_in_dir(&mut store, temp_dir.path().to_str().unwrap()).unwrap();

    let (dir_key, tag_file) = match step {
        LoadStep::ReadFile { dir_key, tag_file } => (dir_key, tag_file),
        other => panic!("{:?}", other),
    };
    assert_eq!(dir_key, dir.to_str().unwrap());
    assert_eq!(std::path::Path::new(&tag_file), dir.join("IMAGE_TAG"));
    assert!(!store.is_cached(&dir_key));
    let map = finish_load(&mut store, dir_key.clone(), content);
    assert_eq!(map.len(), 2);
    assert_eq!(map.get("photo.jpg").unwrap(), vec!["nature"]);
    assert_eq!(map.get("notes.txt").unwrap(), vec!["kept too"]);
    assert!(store.is_cached(&dir_key));
}

#[test]
fn the_plan_names_the_two_files_of_the_directory() {
    let temp_dir = setup_store_dir();
    let image = write_file(&temp_dir, "a.png", "x");
    let dir = temp_dir.path().canonicalize().unwrap().to_str().unwrap().to_string();
    let mut store = TagStore::new();

    let plan = save_tags(&mut store, image.path().to_str().unwrap(), tags(&["t"])).unwrap();

    for (path, name) in [(&plan.tag_file, "IMAGE_TAG"), (&plan.temp_file, "IMAGE_TAG_TEMP")] {
        assert!(path.starts_with(&dir), "{}", path);
        assert!(path.ends_with(name), "{}", path);
        assert!(path.len() >= dir.len() + name.len());
    }
    assert_ne!(plan.tag_file, plan.temp_file);
}
