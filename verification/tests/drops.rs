use image_tags::drop_state::ImagePaths;
use image_tags::image::{DroppedPath, ListedEntry};

#[test]
fn before_any_drop_the_record_is_empty() {
    let state = ImagePaths::new();

    let record = state.get_prev_image_paths();

    assert_eq!(record.id, 0);
    assert_eq!(record.paths.len(), 0);
}

#[test]
fn each_drop_adds_one_to_the_number() {
    let mut state = ImagePaths::new();

    for n in 1..=5 {
        let record = state.record_drop(vec![format!("{}.png", n)]);
        assert_eq!(record.id, n);
        assert_eq!(record.paths, vec![format!("{}.png", n)]);
        assert_eq!(state.id, n);
        assert_eq!(state.get_prev_image_paths().id, n);
    }
}

#[test]
fn a_drop_replaces_the_paths() {
    let mut state = ImagePaths::new();
    state.record_drop(vec!["a.png".to_string(), "b.png".to_string()]);

    let record = state.record_drop(vec![]);

    assert_eq!(record.id, 2);
    assert_eq!(record.paths.len(), 0);
    assert_eq!(state.get_prev_image_paths().paths.len(), 0);
}

#[test]
fn asking_for_the_record_does_not_change_it() {
    let mut state = ImagePaths::new();
    state.record_drop(vec!["a.png".to_string()]);

    let first = state.get_prev_image_paths();
    let second = state.get_prev_image_paths();

    assert_eq!((first.id, first.paths), (1, vec!["a.png".to_string()]));
    assert_eq!((second.id, second.paths), (1, vec!["a.png".to_string()]));
}

#[test]
fn the_number_can_reach_the_largest_value() {
    let mut state = ImagePaths { id: i32::MAX - 1, paths: vec![] };

    let record = state.record_drop(vec![]);

    assert_eq!(record.id, i32::MAX);
}

#[test]
fn a_drop_is_resolved_and_recorded() {
    let mut state = ImagePaths::new();
    let dropped = vec![
        DroppedPath { path: "nonexistent_dir".to_string(), listing: None },
        DroppedPath { path: "image.jpg".to_string(), listing: None },
        DroppedPath {
            path: "album".to_string(),
            listing: Some(vec![
                ListedEntry { path: "album/x.gif".to_string(), is_file: true },
                ListedEntry { path: "album/y.txt".to_string(), is_file: true },
            ]),
        },
    ];

    let record = state.handle_drop(dropped);

    assert_eq!(record.id, 1);
    assert_eq!(record.paths, vec!["image.jpg", "album/x.gif"]);
    assert_eq!(state.get_prev_image_paths().paths, vec!["image.jpg", "album/x.gif"]);
}
