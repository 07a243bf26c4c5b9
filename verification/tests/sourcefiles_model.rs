use cantara::sourcefiles::find_files_with_ending;
use cantara::sourcefiles::get_source_files;
use cantara::sourcefiles::FileTree;
use cantara::sourcefiles::ImageSourceFile;
use cantara::sourcefiles::SourceFile;
use cantara::sourcefiles::SourceFileType;

fn file(name: &str) -> FileTree {
    FileTree::File { name: name.to_string() }
}

fn dir(name: &str, entries: Vec<FileTree>) -> FileTree {
    FileTree::Dir { name: name.to_string(), entries }
}

/// The listing of the repository's test directory: two song files and one
/// file of another kind.
fn test_dir() -> FileTree {
    dir(
        "testfiles",
        vec![
            file("Amazing Grace.song"),
            file("What a friend we have in Jesus.song"),
            file("notes.txt"),
        ],
    )
}

#[test]
fn traverse_test_dir() {
    let dir = test_dir();
    assert_eq!(find_files_with_ending(&dir, vec!["song".to_string()]).len(), 2);
    assert_eq!(
        find_files_with_ending(&dir, vec!["non_existing_ending".to_string()]).len(),
        0
    );
}

#[test]
fn found_paths_are_joined_in_listing_order() {
    let tree = dir(
        "root",
        vec![
            file("one.song"),
            dir("sub", vec![file("two.song")]),
            file("three.song"),
        ],
    );
    let found = find_files_with_ending(&tree, vec!["song".to_string()]);
    assert_eq!(
        found,
        vec![
            "root/one.song".to_string(),
            "root/sub/two.song".to_string(),
            "root/three.song".to_string(),
        ]
    );
}

#[test]
fn depth_limit_cuts_deep_files() {
    // A file seven directories below the scanned root is beyond the
    // walk's reach.
    let mut tree = file("deep.song");
    for level in 0..8 {
        tree = dir(&format!("d{}", level), vec![tree]);
    }
    assert_eq!(find_files_with_ending(&tree, vec!["song".to_string()]).len(), 0);

    // Six directories below the root it is still found.
    let mut tree = file("deep.song");
    for level in 0..7 {
        tree = dir(&format!("d{}", level), vec![tree]);
    }
    assert_eq!(find_files_with_ending(&tree, vec!["song".to_string()]).len(), 1);
}

#[test]
fn source_files_classified_by_extension() {
    let tree = dir(
        "media",
        vec![
            file("Amazing Grace.song"),
            file("Sunrise.PNG"),
            file("beach.jpg"),
            file("plain.song.txt"),
        ],
    );
    let files = get_source_files(&tree);
    // `Sunrise.PNG` is skipped: the endings are matched case-sensitively.
    // `plain.song.txt` ends with `txt`, not `song`, and is never found.
    assert_eq!(files.len(), 2);
    assert_eq!(
        files[0],
        SourceFile {
            name: "Amazing Grace".to_string(),
            path: "media/Amazing Grace.song".to_string(),
            file_type: SourceFileType::Song,
        }
    );
    assert_eq!(files[1].name, "beach");
    assert_eq!(files[1].file_type, SourceFileType::Image);
}

#[test]
fn image_source_file_wraps_images_only() {
    let image = SourceFile {
        name: "Sunrise".to_string(),
        path: "pics/Sunrise.png".to_string(),
        file_type: SourceFileType::Image,
    };
    let song = SourceFile {
        name: "Amazing Grace".to_string(),
        path: "songs/Amazing Grace.song".to_string(),
        file_type: SourceFileType::Song,
    };

    assert!(ImageSourceFile::new(song).is_none());
    let wrapped = ImageSourceFile::new(image.clone()).unwrap();
    assert_eq!(wrapped.as_source(), &image);
    assert_eq!(wrapped.into_inner(), image);
}
