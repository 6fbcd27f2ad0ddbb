use image_viewer::cache::{ImageCache, LoadedImageData};
use image_viewer::loading::{prefetch_targets, store_decoded};
use image_viewer::metadata::{format_file_size, parse_xmp_rating_from_rdf};
use image_viewer::navigation::NavigationState;
use image_viewer::paths::DirEntry;
use image_viewer::services::navigation_service::NavigationService;

fn listing(paths: &[&str]) -> Result<Vec<DirEntry>, String> {
    Ok(paths.iter().map(|p| DirEntry { path: p.to_string(), is_file: true }).collect())
}

fn image(width: u32) -> LoadedImageData {
    LoadedImageData {
        data: vec![9; 3],
        width,
        height: 1,
        rating: Some(1),
        sd_parameters: None,
        file_name: "x.png".to_string(),
        file_size_formatted: "3 bytes".to_string(),
        created_date: "N/A".to_string(),
        modified_date: "N/A".to_string(),
    }
}

fn rdf(rating: &str) -> String {
    format!(
        "<x:xmpmeta xmlns:x=\"adobe:ns:meta/\"><rdf:RDF xmlns:rdf=\"http://www.w3.org/1999/02/22-rdf-syntax-ns#\"><rdf:Description rdf:about=\"\" xmlns:xmp=\"http://ns.adobe.com/xap/1.0/\" xmp:Rating=\"{}\"/></rdf:RDF></x:xmpmeta>",
        rating
    )
}

#[test]
fn file_sizes_have_thousands_separators() {
    assert_eq!(format_file_size(0), "0 bytes");
    assert_eq!(format_file_size(999), "999 bytes");
    assert_eq!(format_file_size(1000), "1,000 bytes");
    assert_eq!(format_file_size(1234567), "1,234,567 bytes");
    assert_eq!(format_file_size(100000), "100,000 bytes");
    assert_eq!(format_file_size(u64::MAX), "18,446,744,073,709,551,615 bytes");
}

#[test]
fn xmp_packet_rating_is_read() {
    assert_eq!(parse_xmp_rating_from_rdf(&rdf("3")), Some(3));
    assert_eq!(parse_xmp_rating_from_rdf(&rdf("0")), Some(0));
}

#[test]
fn xmp_packet_without_valid_rating() {
    assert_eq!(parse_xmp_rating_from_rdf(&rdf("7")), None);
    assert_eq!(parse_xmp_rating_from_rdf(&rdf("x")), None);
    assert_eq!(parse_xmp_rating_from_rdf("not xmp at all"), None);
    assert_eq!(parse_xmp_rating_from_rdf(""), None);
}

#[test]
fn prefetch_skips_cached_neighbours() {
    let mut nav = NavigationService::new(NavigationState::new());
    nav.select_image("/d/b.png".to_string(), listing(&["/d/a.png", "/d/b.png", "/d/c.png"])).unwrap();
    let mut cache = ImageCache::new(4);
    assert_eq!(prefetch_targets(&nav, &mut cache), vec!["/d/c.png".to_string(), "/d/a.png".to_string()]);
    cache.put("/d/c.png".to_string(), image(1));
    assert_eq!(prefetch_targets(&nav, &mut cache), vec!["/d/a.png".to_string()]);
}

#[test]
fn prefetch_does_not_wrap() {
    let mut nav = NavigationService::new(NavigationState::new());
    nav.select_image("/d/a.png".to_string(), listing(&["/d/a.png", "/d/b.png"])).unwrap();
    let mut cache = ImageCache::new(4);
    assert_eq!(prefetch_targets(&nav, &mut cache), vec!["/d/b.png".to_string()]);
    let empty = NavigationService::new(NavigationState::new());
    assert!(prefetch_targets(&empty, &mut cache).is_empty());
}

#[test]
fn prefetch_lookup_counts_as_use() {
    let mut nav = NavigationService::new(NavigationState::new());
    nav.select_image("/d/a.png".to_string(), listing(&["/d/a.png", "/d/b.png"])).unwrap();
    let mut cache = ImageCache::new(2);
    cache.put("/d/b.png".to_string(), image(1));
    cache.put("/d/z.png".to_string(), image(2));
    assert!(prefetch_targets(&nav, &mut cache).is_empty());
    cache.put("/d/y.png".to_string(), image(3));
    assert!(cache.contains(&"/d/b.png".to_string()));
    assert!(!cache.contains(&"/d/z.png".to_string()));
}

#[test]
fn store_decoded_returns_cached_copy() {
    let mut cache = ImageCache::new(1);
    let stored = store_decoded(&mut cache, "/d/a.png".to_string(), image(5));
    assert_eq!(stored.width, 5);
    assert_eq!(stored.data, vec![9, 9, 9]);
    let again = store_decoded(&mut cache, "/d/b.png".to_string(), image(6));
    assert_eq!(again.width, 6);
    assert!(!cache.contains(&"/d/a.png".to_string()));
}
