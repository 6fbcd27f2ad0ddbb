use image_viewer::cache::{ImageCache, LoadedImageData};
use image_viewer::error::{AppError, NavigationError};
use image_viewer::navigation::NavigationState;
use image_viewer::paths::DirEntry;
use image_viewer::services::auto_reload_service::{AutoReloadService, ManualStep};
use image_viewer::services::navigation_service::NavigationService;
use image_viewer::services::rating_service::RatingService;

fn listing(paths: &[&str]) -> Result<Vec<DirEntry>, String> {
    Ok(paths.iter().map(|p| DirEntry { path: p.to_string(), is_file: true }).collect())
}

fn image(rating: Option<u8>) -> LoadedImageData {
    LoadedImageData {
        data: vec![0; 12],
        width: 2,
        height: 2,
        rating,
        sd_parameters: None,
        file_name: "img1.png".to_string(),
        file_size_formatted: "12 bytes".to_string(),
        created_date: "N/A".to_string(),
        modified_date: "N/A".to_string(),
    }
}

fn service(paths: &[&str], current: &str) -> NavigationService {
    let mut s = NavigationService::new(NavigationState::new());
    s.select_image(current.to_string(), listing(paths)).unwrap();
    s
}

#[test]
fn end_to_end_select_previous_rate() {
    let dir = ["/d/img1.png", "/d/img2.jpg", "/d/img3.png"];
    let mut nav = NavigationService::new(NavigationState::new());
    let mut cache = ImageCache::new(10);
    let mut rating = RatingService::new();

    assert_eq!(nav.select_image("/d/img2.jpg".to_string(), listing(&dir)).unwrap(), "/d/img2.jpg");
    assert_eq!(nav.image_files(), vec!["/d/img1.png".to_string(), "/d/img2.jpg".to_string(), "/d/img3.png".to_string()]);
    assert_eq!(nav.current_path(), Some("/d/img2.jpg".to_string()));

    assert_eq!(nav.previous().unwrap(), "/d/img1.png");
    assert_eq!(nav.current_rating(), None);
    cache.put("/d/img1.png".to_string(), image(Some(2)));
    nav.set_current_rating(Some(2));
    assert_eq!(nav.current_rating(), Some(2));

    let path = rating.begin_write(&nav).unwrap();
    assert_eq!(path, "/d/img1.png");
    let done = rating.finish_write(&mut nav, &mut cache, &path, 4, Ok(())).unwrap();
    assert_eq!(done.rating, 4);
    assert_eq!(nav.current_rating(), Some(4));
    assert_eq!(cache.get(&"/d/img1.png".to_string()).unwrap().rating, Some(4));
    assert!(!rating.is_write_in_progress(&path));
}

#[test]
fn second_write_while_first_in_flight_is_refused() {
    let nav = service(&["/d/a.png"], "/d/a.png");
    let mut rating = RatingService::new();
    let first = rating.begin_write(&nav).unwrap();
    match rating.begin_write(&nav) {
        Err(AppError::XmpWrite(m)) => assert_eq!(m, "Write already in progress for this file"),
        _ => panic!("expected the in-progress error"),
    }
    assert!(rating.is_write_in_progress(&first));
}

#[test]
fn write_after_release_is_allowed() {
    let mut nav = service(&["/d/a.png"], "/d/a.png");
    let mut cache = ImageCache::new(2);
    let mut rating = RatingService::new();
    let path = rating.begin_write(&nav).unwrap();
    let _ = rating.finish_write(&mut nav, &mut cache, &path, 1, Ok(()));
    assert!(rating.begin_write(&nav).is_ok());
}

#[test]
fn rating_without_current_file_is_refused() {
    let nav = NavigationService::new(NavigationState::new());
    let mut rating = RatingService::new();
    match rating.begin_write(&nav) {
        Err(AppError::XmpWrite(m)) => assert_eq!(m, "No image file selected"),
        _ => panic!("expected a write error"),
    }
}

#[test]
fn failed_write_changes_nothing_and_releases_slot() {
    let mut nav = service(&["/d/a.png"], "/d/a.png");
    let mut cache = ImageCache::new(2);
    cache.put("/d/a.png".to_string(), image(Some(1)));
    nav.set_current_rating(Some(1));
    let mut rating = RatingService::new();
    let path = rating.begin_write(&nav).unwrap();
    let r = rating.finish_write(&mut nav, &mut cache, &path, 5, Err(AppError::XmpWrite("disk full".to_string())));
    match r {
        Err(AppError::XmpWrite(m)) => assert_eq!(m, "XMP書き込みエラー: disk full"),
        _ => panic!("expected a write error"),
    }
    assert_eq!(nav.current_rating(), Some(1));
    assert_eq!(cache.get(&"/d/a.png".to_string()).unwrap().rating, Some(1));
    assert!(!rating.is_write_in_progress(&path));
}

#[test]
fn app_error_messages() {
    assert_eq!(AppError::ImageLoad("x".to_string()).message(), "画像読み込みエラー: x");
    assert_eq!(AppError::DirectoryScan("x".to_string()).message(), "ディレクトリスキャンエラー: x");
    assert_eq!(AppError::XmpRead("x".to_string()).message(), "XMP読み取りエラー: x");
    assert_eq!(AppError::XmpWrite("x".to_string()).message(), "XMP書き込みエラー: x");
    assert_eq!(AppError::MetadataRead("x".to_string()).message(), "メタデータ読み取りエラー: x");
}

#[test]
fn service_wraps_and_reports_paths() {
    let mut nav = service(&["/d/a.png", "/d/b.png", "/d/c.png"], "/d/c.png");
    assert_eq!(nav.next().unwrap(), "/d/a.png");
    assert_eq!(nav.previous().unwrap(), "/d/c.png");
    assert_eq!(nav.navigate_to_last().unwrap(), "/d/c.png");
    assert_eq!(nav.get_adjacent_paths(), (None, Some("/d/b.png".to_string())));
    assert_eq!(nav.position_info(), (3, 3));
    assert_eq!(nav.rescan_directory(listing(&["/d/a.png", "/d/c.png", "/d/d.png", "/d/e.png"])).unwrap(), 4);
    assert_eq!(nav.image_count(), 4);
    assert_eq!(nav.current_directory(), Some("/d".to_string()));
}

#[test]
fn service_without_current_file() {
    let mut nav = NavigationService::new(NavigationState::new());
    assert!(matches!(nav.next(), Err(NavigationError::NoImages)));
    assert_eq!(nav.position_info(), (-1, 0));
    assert_eq!(nav.get_adjacent_paths(), (None, None));
}

#[test]
fn rescan_tolerates_deleted_current_file() {
    let mut nav = service(&["/d/a.png", "/d/b.png"], "/d/a.png");
    assert_eq!(nav.rescan_directory(listing(&["/d/b.png"])).unwrap(), 1);
    assert_eq!(nav.next().unwrap(), "/d/b.png");
}

#[test]
fn auto_reload_moves_to_newest_image() {
    let mut nav = service(&["/d/a.png", "/d/b.png"], "/d/a.png");
    let mut reload = AutoReloadService::new();
    assert!(!reload.is_watching());
    assert_eq!(reload.start_watching(&mut nav).unwrap(), "/d/b.png");
    assert!(reload.is_watching());

    let changed = vec!["/d/c.PNG".to_string()];
    let r = reload.handle_debounced_events(&mut nav, &changed, listing(&["/d/a.png", "/d/b.png", "/d/c.PNG"]));
    assert_eq!(r.unwrap().unwrap(), "/d/c.PNG");
    assert_eq!(nav.image_count(), 3);
}

#[test]
fn auto_reload_ignores_other_files_and_stops() {
    let mut nav = service(&["/d/a.png", "/d/b.png"], "/d/a.png");
    let mut reload = AutoReloadService::new();
    reload.start_watching(&mut nav).unwrap();
    let changed = vec!["/d/out.tmp".to_string(), "/d/notes.txt".to_string()];
    assert!(!AutoReloadService::is_relevant_change(&changed));
    assert!(reload.handle_debounced_events(&mut nav, &changed, listing(&["/d/z.png"])).is_none());
    assert_eq!(nav.image_count(), 2);

    reload.stop_watching();
    let changed = vec!["/d/z.png".to_string()];
    assert!(AutoReloadService::is_relevant_change(&changed));
    assert!(reload.handle_debounced_events(&mut nav, &changed, listing(&["/d/z.png"])).is_none());
    assert_eq!(nav.current_path(), Some("/d/b.png".to_string()));
}

#[test]
fn auto_reload_cannot_start_without_images() {
    let mut nav = service(&[], "/d/a.png");
    let mut reload = AutoReloadService::new();
    assert!(matches!(reload.start_watching(&mut nav), Err(NavigationError::NoImages)));
    assert!(!reload.is_watching());
}

#[test]
fn auto_reload_with_emptied_directory_reports_no_images() {
    let mut nav = service(&["/d/a.png"], "/d/a.png");
    let mut reload = AutoReloadService::new();
    reload.start_watching(&mut nav).unwrap();
    let changed = vec!["/d/a.png".to_string()];
    let r = reload.handle_debounced_events(&mut nav, &changed, listing(&[]));
    assert!(matches!(r, Some(Err(NavigationError::NoImages))));
}

#[test]
fn auto_reload_cannot_start_without_directory() {
    let mut nav = NavigationService::new(NavigationState::new());
    let mut reload = AutoReloadService::new();
    match reload.start_watching(&mut nav) {
        Err(NavigationError::DirectoryScanFailed(m)) => assert_eq!(m, "No directory selected"),
        _ => panic!("expected a scan failure"),
    }
    assert!(!reload.is_watching());
    assert_eq!(nav.current_path(), None);
}

#[test]
fn manual_navigation_ends_auto_reload() {
    let mut nav = service(&["/d/a.png", "/d/b.png", "/d/c.png"], "/d/a.png");
    let mut reload = AutoReloadService::new();
    reload.start_watching(&mut nav).unwrap();
    assert_eq!(reload.navigate_manually(&mut nav, ManualStep::Previous).unwrap(), "/d/b.png");
    assert!(!reload.is_watching());
    let changed = vec!["/d/z.png".to_string()];
    assert!(reload.handle_debounced_events(&mut nav, &changed, listing(&["/d/z.png"])).is_none());

    reload.start_watching(&mut nav).unwrap();
    assert_eq!(reload.navigate_manually(&mut nav, ManualStep::Next).unwrap(), "/d/a.png");
    assert!(!reload.is_watching());

    reload.start_watching(&mut nav).unwrap();
    assert_eq!(reload.select_manually(&mut nav, "/e/x.png".to_string(), listing(&["/e/x.png"])).unwrap(), "/e/x.png");
    assert!(!reload.is_watching());
    assert_eq!(nav.current_directory(), Some("/e".to_string()));
}

#[test]
fn failed_manual_step_still_ends_auto_reload() {
    let mut nav = NavigationService::new(NavigationState::new());
    let mut reload = AutoReloadService::new();
    assert!(matches!(reload.navigate_manually(&mut nav, ManualStep::Next), Err(NavigationError::NoImages)));
    assert!(!reload.is_watching());
}
