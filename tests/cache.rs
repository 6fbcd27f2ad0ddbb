use image_viewer::cache::{ImageCache, LoadedImageData};

fn image(width: u32, rating: Option<u8>) -> LoadedImageData {
    LoadedImageData {
        data: vec![1, 2, 3],
        width,
        height: 1,
        rating,
        sd_parameters: Some("steps".to_string()),
        file_name: "a.png".to_string(),
        file_size_formatted: "3 bytes".to_string(),
        created_date: "N/A".to_string(),
        modified_date: "N/A".to_string(),
    }
}

fn key(s: &str) -> String {
    s.to_string()
}

#[test]
fn capacity_two_evicts_least_recent() {
    let mut c = ImageCache::new(2);
    c.put(key("/c/one.png"), image(1, None));
    c.put(key("/c/two.png"), image(2, None));
    c.put(key("/c/three.png"), image(3, None));
    assert!(c.get(&key("/c/one.png")).is_none());
    assert_eq!(c.get(&key("/c/two.png")).unwrap().width, 2);
    assert_eq!(c.get(&key("/c/three.png")).unwrap().width, 3);
}

#[test]
fn update_rating_does_not_promote() {
    let mut c = ImageCache::new(2);
    c.put(key("/c/one.png"), image(1, None));
    c.put(key("/c/two.png"), image(2, None));
    c.update_rating(&key("/c/one.png"), Some(3));
    c.put(key("/c/three.png"), image(3, None));
    assert!(c.get(&key("/c/one.png")).is_none());
    assert!(c.get(&key("/c/two.png")).is_some());
    assert!(c.get(&key("/c/three.png")).is_some());
}

#[test]
fn update_rating_changes_only_the_rating() {
    let mut c = ImageCache::new(2);
    c.put(key("/c/one.png"), image(7, Some(1)));
    c.update_rating(&key("/c/one.png"), Some(3));
    let d = c.get(&key("/c/one.png")).unwrap();
    assert_eq!(d.rating, Some(3));
    assert_eq!(d.width, 7);
    assert_eq!(d.data, vec![1, 2, 3]);
    assert_eq!(d.sd_parameters, Some("steps".to_string()));
}

#[test]
fn update_rating_of_missing_path_is_a_no_op() {
    let mut c = ImageCache::new(2);
    c.put(key("/c/one.png"), image(1, None));
    c.update_rating(&key("/c/none.png"), Some(3));
    assert!(!c.contains(&key("/c/none.png")));
    assert_eq!(c.get(&key("/c/one.png")).unwrap().rating, None);
}

#[test]
fn get_promotes_entry() {
    let mut c = ImageCache::new(2);
    c.put(key("/c/one.png"), image(1, None));
    c.put(key("/c/two.png"), image(2, None));
    assert!(c.get(&key("/c/one.png")).is_some());
    c.put(key("/c/three.png"), image(3, None));
    assert!(c.get(&key("/c/two.png")).is_none());
    assert!(c.get(&key("/c/one.png")).is_some());
}

#[test]
fn contains_counts_as_use() {
    let mut c = ImageCache::new(2);
    c.put(key("/c/one.png"), image(1, None));
    c.put(key("/c/two.png"), image(2, None));
    assert!(c.contains(&key("/c/one.png")));
    c.put(key("/c/three.png"), image(3, None));
    assert!(!c.contains(&key("/c/two.png")));
    assert!(c.contains(&key("/c/one.png")));
}

#[test]
fn put_replaces_existing_value() {
    let mut c = ImageCache::new(2);
    c.put(key("/c/one.png"), image(1, None));
    c.put(key("/c/two.png"), image(2, None));
    c.put(key("/c/one.png"), image(10, None));
    c.put(key("/c/three.png"), image(3, None));
    assert!(c.get(&key("/c/two.png")).is_none());
    assert_eq!(c.get(&key("/c/one.png")).unwrap().width, 10);
}

#[test]
fn get_returns_a_copy() {
    let mut c = ImageCache::new(1);
    c.put(key("/c/one.png"), image(1, None));
    let mut d = c.get(&key("/c/one.png")).unwrap();
    d.data[0] = 99;
    assert_eq!(c.get(&key("/c/one.png")).unwrap().data, vec![1, 2, 3]);
}
