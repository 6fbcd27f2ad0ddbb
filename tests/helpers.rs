use image_viewer::clipboard::{ClipboardError, ClipboardService};
use image_viewer::color::{default_color_management_service, ColorManagementService};
use image_viewer::display::DisplayTracker;
use image_viewer::error::AppError;
use image_viewer::metadata::{decimal_text, rating_from_text, validate_rating};
use image_viewer::paths::{format_path_for_log, PathExt};

#[test]
fn ratings_in_range_are_valid() {
    for r in 0..=5u8 {
        assert!(validate_rating(r).is_ok());
    }
}

#[test]
fn rating_out_of_range_is_a_write_error() {
    match validate_rating(6) {
        Err(AppError::XmpWrite(m)) => assert_eq!(m, "Rating must be 0-5, got 6"),
        _ => panic!("expected a write error"),
    }
    match validate_rating(255) {
        Err(AppError::XmpWrite(m)) => assert_eq!(m, "Rating must be 0-5, got 255"),
        _ => panic!("expected a write error"),
    }
}

#[test]
fn rating_text_is_read_as_unsigned_number() {
    assert_eq!(rating_from_text("0"), Some(0));
    assert_eq!(rating_from_text("5"), Some(5));
    assert_eq!(rating_from_text("+3"), Some(3));
    assert_eq!(rating_from_text("0004"), Some(4));
    assert_eq!(rating_from_text("6"), None);
    assert_eq!(rating_from_text("300"), None);
    assert_eq!(rating_from_text("-1"), None);
    assert_eq!(rating_from_text("+"), None);
    assert_eq!(rating_from_text(""), None);
    assert_eq!(rating_from_text(" 3"), None);
    assert_eq!(rating_from_text("3.0"), None);
    assert_eq!(rating_from_text("99999999999999999999"), None);
}

#[test]
fn decimal_text_of_numbers() {
    assert_eq!(decimal_text(0), "0");
    assert_eq!(decimal_text(1234567), "1234567");
    assert_eq!(decimal_text(u64::MAX), "18446744073709551615");
}

#[test]
fn log_form_of_paths() {
    assert_eq!(format_path_for_log("/pics/short.png"), "short.png");
    assert_eq!(format_path_for_log("/pics/abcdefghijklmnopqrstuvw"), "abcdefghijklmnopqrstuvw");
    assert_eq!(
        format_path_for_log("/pics/0123456789_middle_part_9876543210.png"),
        "0123456789...543210.png"
    );
    assert_eq!(format_path_for_log("plain.png"), "plain.png");
    assert_eq!("/x/ééééééééééééé.png".format_for_log(), "éééééééééé...éééééé.png");
}

#[test]
fn display_tracker_records_id() {
    let mut t = DisplayTracker::new();
    assert_eq!(t.current_display_id(), None);
    t.update_display_id(Some(2));
    assert_eq!(t.current_display_id(), Some(2));
    t.update_display_id(None);
    assert_eq!(t.current_display_id(), None);
}

#[test]
fn clipboard_validation() {
    let none: Vec<String> = Vec::new();
    assert!(matches!(ClipboardService::validate_paths(&none, &Vec::new()), Err(ClipboardError::EmptyPaths)));
    let paths = vec!["/a.png".to_string(), "/b.png".to_string(), "/c.png".to_string()];
    assert!(ClipboardService::validate_paths(&paths, &vec![true, true, true]).is_ok());
    match ClipboardService::validate_paths(&paths, &vec![true, false, false]) {
        Err(ClipboardError::FileNotFound(p)) => assert_eq!(p, "/b.png"),
        _ => panic!("expected a missing file"),
    }
}

#[test]
fn clipboard_text_of_paths() {
    let texts = ClipboardService::paths_to_strings(&vec![None, Some("/a.png".to_string()), Some("/b.png".to_string())]).unwrap();
    assert_eq!(texts, vec!["/a.png".to_string(), "/b.png".to_string()]);
    assert!(matches!(ClipboardService::paths_to_strings(&vec![None]), Err(ClipboardError::InvalidPaths)));
    assert_eq!(ClipboardService::text_for(&texts), "/a.png\n/b.png");
    assert_eq!(ClipboardService::text_for(&Vec::new()), "");
    let _service = ClipboardService::new();
}

#[test]
fn default_color_management_leaves_pixels() {
    let service = default_color_management_service();
    let mut data = vec![1u8, 2, 3];
    assert!(service.apply_to_rgb8(&mut data, None, None).is_ok());
    assert_eq!(data, vec![1, 2, 3]);
}

#[test]
fn rating_text_reads_back() {
    for r in 0..=5u8 {
        assert_eq!(rating_from_text(&decimal_text(r as u64)), Some(r));
        assert_eq!(rating_from_text(&r.to_string()), Some(r));
    }
}
