use holodeck::geometry::{Vector2, AABB2, AABB3};
use holodeck::ui::{InfoPaneApp, InfoPaneMode, MinimapApp, MinimapMode};
use holodeck::viewer::{Client, Kind, RunMode};

#[test]
fn vector2_construction_and_array_form() {
    let v = Vector2::new(3i64, -4i64);
    assert_eq!(v.x, 3);
    assert_eq!(v.y, -4);
    assert_eq!(v.to_array(), [3, -4]);
}

#[test]
fn aabb2_contains_is_min_inclusive_max_exclusive() {
    let b = AABB2::with_min_max(-10i64, -10, 10, 10);
    assert!(b.contains(Vector2::new(0, 0)));
    assert!(b.contains(Vector2::new(-10, -10)));
    assert!(!b.contains(Vector2::new(10, 0)));
    assert!(!b.contains(Vector2::new(0, 10)));
    assert!(!b.contains(Vector2::new(-11, 0)));
}

#[test]
fn aabb2_intersections() {
    let a = AABB2::with_min_max(0i64, 0, 10, 10);
    let b = AABB2::with_min_max(5i64, 5, 15, 15);
    let c = AABB2::with_min_max(11i64, 11, 20, 20);
    assert!(a.intersects(&b));
    assert!(b.intersects(&a));
    assert!(!a.intersects(&c));
    // Touching borders count as intersecting.
    let d = AABB2::with_min_max(10i64, 0, 20, 10);
    assert!(a.intersects(&d));
}

#[test]
fn aabb3_extents() {
    let b = AABB3::from_origin(4i64, 5, 6);
    assert_eq!(b.width(), 4);
    assert_eq!(b.height(), 5);
    assert_eq!(b.depth(), 6);
    let m = AABB3::with_min_max((-1i64, 1), (-2, 2), (-3, 3));
    assert_eq!(m.width(), 2);
    assert_eq!(m.height(), 4);
    assert_eq!(m.depth(), 6);
}

#[test]
fn info_pane_mode_toggles() {
    assert!(matches!(InfoPaneMode::toggle_hidden(InfoPaneMode::Normal), InfoPaneMode::Hidden));
    assert!(matches!(InfoPaneMode::toggle_hidden(InfoPaneMode::Large), InfoPaneMode::Hidden));
    assert!(matches!(InfoPaneMode::toggle_hidden(InfoPaneMode::Hidden), InfoPaneMode::Normal));
    assert!(matches!(InfoPaneMode::toggle_large(InfoPaneMode::Large), InfoPaneMode::Normal));
    assert!(matches!(InfoPaneMode::toggle_large(InfoPaneMode::Normal), InfoPaneMode::Large));
    assert!(matches!(InfoPaneMode::toggle_large(InfoPaneMode::Hidden), InfoPaneMode::Large));
    assert!(matches!(InfoPaneApp::new().mode, InfoPaneMode::Normal));
}

#[test]
fn minimap_mode_toggles() {
    assert!(matches!(MinimapMode::toggle_hidden(MinimapMode::Normal), MinimapMode::Hidden));
    assert!(matches!(MinimapMode::toggle_hidden(MinimapMode::Large), MinimapMode::Hidden));
    assert!(matches!(MinimapMode::toggle_hidden(MinimapMode::Hidden), MinimapMode::Normal));
    assert!(matches!(MinimapMode::toggle_large(MinimapMode::Large), MinimapMode::Normal));
    assert!(matches!(MinimapMode::toggle_large(MinimapMode::Normal), MinimapMode::Large));
    assert!(matches!(MinimapMode::toggle_large(MinimapMode::Hidden), MinimapMode::Large));
    assert!(matches!(MinimapApp::new().mode, MinimapMode::Normal));
}

#[test]
fn viewer_client_defaults_to_running() {
    let c = Client::default();
    assert!(matches!(c.run_mode, RunMode::Running));
    assert_ne!(Kind::Block, Kind::Player);
}
