use gallerust::nav::{Action, LoadError, NavEvent, Session};

fn names(list: &[&str]) -> Vec<String> {
    list.iter().map(|s| String::from(*s)).collect()
}

fn loaded(list: &[&str], selected: &str) -> Session {
    let mut s = Session::new();
    let sel = String::from(selected);
    s.load_collection(names(list), &sel).expect("non-empty list must load");
    s
}

#[test]
fn new_session_is_inactive_at_exact_fit() {
    let s = Session::new();
    assert_eq!(s.images.len(), 0);
    assert_eq!(s.position, 0);
    assert_eq!(s.zoom_milli, 1000);
    assert_eq!(s.image_width, 0);
    assert_eq!(s.image_height, 0);
    assert_eq!(s.image_data.len(), 0);
}

#[test]
fn load_empty_collection_fails_and_changes_nothing() {
    let mut s = loaded(&["a.png", "b.png"], "b.png");
    s.set_zoom_absolute(2000);
    let sel = String::from("c.png");
    let r = s.load_collection(Vec::new(), &sel);
    assert_eq!(r, Err(LoadError::EmptyCollection));
    assert_eq!(s.images.len(), 2);
    assert_eq!(s.position, 1);
    assert_eq!(s.zoom_milli, 2000);
}

#[test]
fn load_selects_the_chosen_identifier() {
    let s = loaded(&["a.png", "b.png", "c.png"], "b.png");
    assert_eq!(s.position, 1);
    assert_eq!(s.zoom_milli, 1000);
}

#[test]
fn load_falls_back_to_first_when_selection_absent() {
    let s = loaded(&["a.png", "b.png", "c.png"], "zzz.png");
    assert_eq!(s.position, 0);
}

#[test]
fn load_resets_zoom_to_exact_fit() {
    let mut s = loaded(&["a.png", "b.png"], "a.png");
    s.set_zoom_absolute(3500);
    let sel = String::from("d.png");
    s.load_collection(names(&["d.png", "e.png"]), &sel).unwrap();
    assert_eq!(s.zoom_milli, 1000);
    assert_eq!(s.position, 0);
}

#[test]
fn advance_wraps_from_last_to_first() {
    let mut s = loaded(&["a", "b", "c", "d", "e"], "e");
    assert_eq!(s.position, 4);
    s.advance();
    assert_eq!(s.position, 0);
}

#[test]
fn retreat_wraps_from_first_to_last() {
    let mut s = loaded(&["a", "b", "c", "d", "e"], "a");
    s.retreat();
    assert_eq!(s.position, 4);
}

#[test]
fn advance_and_retreat_on_single_image_stay_at_zero() {
    let mut s = loaded(&["only.png"], "only.png");
    s.advance();
    assert_eq!(s.position, 0);
    s.retreat();
    assert_eq!(s.position, 0);
}

#[test]
fn advance_then_retreat_returns_to_start() {
    for start in ["a", "c", "e"] {
        let mut s = loaded(&["a", "b", "c", "d", "e"], start);
        let p = s.position;
        s.advance();
        s.retreat();
        assert_eq!(s.position, p);
        s.retreat();
        s.advance();
        assert_eq!(s.position, p);
    }
}

#[test]
fn navigation_on_empty_collection_is_a_no_op() {
    let mut s = Session::new();
    s.advance();
    assert_eq!(s.position, 0);
    s.retreat();
    assert_eq!(s.position, 0);
}

#[test]
fn advance_and_retreat_reset_zoom_to_exact_fit() {
    let mut s = loaded(&["a", "b"], "a");
    s.set_zoom_absolute(4000);
    s.advance();
    assert_eq!(s.zoom_milli, 1000);
    s.set_zoom_absolute(300);
    s.retreat();
    assert_eq!(s.zoom_milli, 1000);
}

#[test]
fn zoom_delta_is_proportional_and_truncating() {
    let mut s = Session::new();
    s.apply_zoom_delta(1100);
    assert_eq!(s.zoom_milli, 1100);
    s.apply_zoom_delta(900);
    assert_eq!(s.zoom_milli, 990);
}

#[test]
fn zoom_delta_clamps_at_both_ends() {
    let mut s = Session::new();
    s.set_zoom_absolute(5000);
    s.apply_zoom_delta(100_000);
    assert_eq!(s.zoom_milli, 5000);
    s.set_zoom_absolute(100);
    s.apply_zoom_delta(0);
    assert_eq!(s.zoom_milli, 100);
}

#[test]
fn zoom_absolute_clamps_into_range() {
    let mut s = Session::new();
    s.set_zoom_absolute(0);
    assert_eq!(s.zoom_milli, 100);
    s.set_zoom_absolute(4_000_000_000);
    assert_eq!(s.zoom_milli, 5000);
    s.set_zoom_absolute(2500);
    assert_eq!(s.zoom_milli, 2500);
    s.reset_zoom();
    assert_eq!(s.zoom_milli, 1000);
}

#[test]
fn install_decoded_accepts_a_matching_buffer() {
    let mut s = Session::new();
    let data = vec![7u8; 4 * 3 * 2];
    assert!(s.install_decoded(data, 3, 2));
    assert_eq!(s.image_width, 3);
    assert_eq!(s.image_height, 2);
    assert_eq!(s.image_data.len(), 24);
}

#[test]
fn install_decoded_rejects_a_mismatched_buffer() {
    let mut s = Session::new();
    assert!(s.install_decoded(vec![7u8; 8], 2, 2) == false);
    assert_eq!(s.image_width, 0);
    assert_eq!(s.image_height, 0);
    assert_eq!(s.image_data.len(), 0);
}

#[test]
fn current_title_info_reports_name_and_one_based_position() {
    let s = loaded(&["a.png", "b.png", "c.png"], "c.png");
    let (name, pos, total) = s.current_title_info();
    assert_eq!(name, "c.png");
    assert_eq!(pos, 3);
    assert_eq!(total, 3);
    assert_eq!(s.current_zoom(), 1000);
}

#[test]
fn events_drive_navigation_and_repainting() {
    let mut s = Session::new();
    assert_eq!(s.handle_event(NavEvent::Next), None);
    assert_eq!(s.handle_event(NavEvent::Previous), None);
    assert_eq!(s.handle_event(NavEvent::OpenRequested), Some(Action::OpenDialog));

    let mut s = loaded(&["a", "b", "c"], "a");
    assert_eq!(s.handle_event(NavEvent::Next), Some(Action::DecodeThenRepaint));
    assert_eq!(s.position, 1);
    assert_eq!(s.handle_event(NavEvent::Previous), Some(Action::DecodeThenRepaint));
    assert_eq!(s.position, 0);
    assert_eq!(s.handle_event(NavEvent::ZoomDelta(1100)), Some(Action::Repaint));
    assert_eq!(s.zoom_milli, 1100);
    assert_eq!(s.handle_event(NavEvent::ZoomAbsolute(2000)), Some(Action::Repaint));
    assert_eq!(s.zoom_milli, 2000);
    assert_eq!(s.handle_event(NavEvent::ResetZoom), Some(Action::Repaint));
    assert_eq!(s.zoom_milli, 1000);
    assert_eq!(s.handle_event(NavEvent::Resize(640, 480)), Some(Action::Repaint));
    assert_eq!(s.position, 0);
    assert_eq!(s.zoom_milli, 1000);
}
