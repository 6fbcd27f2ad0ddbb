use image_viewer::paths::{has_supported_extension, image_listing, is_supported_image, parent_of, DirEntry};

fn entry(path: &str, is_file: bool) -> DirEntry {
    DirEntry { path: path.to_string(), is_file }
}

#[test]
fn supported_extensions_ignore_case() {
    assert!(is_supported_image("/pics/a.png", true));
    assert!(is_supported_image("/pics/a.JPG", true));
    assert!(is_supported_image("/pics/a.JpEg", true));
    assert!(is_supported_image("/pics/a.gif", true));
    assert!(is_supported_image("/pics/a.bmp", true));
    assert!(is_supported_image("/pics/a.WEBP", true));
    assert!(is_supported_image("/pics/archive.tar.png", true));
}

#[test]
fn unsupported_paths_are_rejected() {
    assert!(!is_supported_image("/pics/a.png", false));
    assert!(!is_supported_image("/pics/a.txt", true));
    assert!(!is_supported_image("/pics/png", true));
    assert!(!is_supported_image("/pics/.png", true));
    assert!(!is_supported_image("/pics.png/readme", true));
    assert!(!is_supported_image("/pics/a.png.bak", true));
    assert!(!is_supported_image("", true));
}

#[test]
fn hidden_file_with_second_dot_has_extension() {
    assert!(has_supported_extension("/pics/.hidden.png"));
    assert!(has_supported_extension("x.jpg"));
    assert!(!has_supported_extension("x.jp"));
}

#[test]
fn listing_is_filtered_and_sorted() {
    let entries = vec![
        entry("/d/c.png", true),
        entry("/d/notes.txt", true),
        entry("/d/a.jpg", true),
        entry("/d/sub.png", false),
        entry("/d/B.gif", true),
        entry("/d/a.jpg", true),
    ];
    let listed = image_listing(&entries);
    assert_eq!(listed, vec!["/d/B.gif".to_string(), "/d/a.jpg".to_string(), "/d/c.png".to_string()]);
}

#[test]
fn listing_orders_by_bytes() {
    let entries = vec![entry("/d/é.png", true), entry("/d/z.png", true), entry("/d/img10.png", true), entry("/d/img2.png", true)];
    let listed = image_listing(&entries);
    assert_eq!(
        listed,
        vec!["/d/img10.png".to_string(), "/d/img2.png".to_string(), "/d/z.png".to_string(), "/d/é.png".to_string()]
    );
}

#[test]
fn empty_listing_gives_no_images() {
    let listed = image_listing(&Vec::new());
    assert!(listed.is_empty());
}

#[test]
fn parent_of_file_paths() {
    assert_eq!(parent_of("/pics/a.png"), Some("/pics".to_string()));
    assert_eq!(parent_of("/a.png"), Some("/".to_string()));
    assert_eq!(parent_of("a.png"), Some(String::new()));
    assert_eq!(parent_of("/x/é/a.png"), Some("/x/é".to_string()));
    assert_eq!(parent_of(""), None);
    assert_eq!(parent_of("/pics/"), None);
    assert_eq!(parent_of("/"), None);
}
