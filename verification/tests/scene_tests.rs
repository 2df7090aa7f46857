use moonshine_core::geometry::{Point, Rect};
use moonshine_core::placement::{unconstrain_target, WindowFrame};
use moonshine_core::refresh::{dismissal_order, pointer_needs_update, popup_refresh_action, PopupRefresh, PopupRole};
use moonshine_core::render::{popup_surfaces_for_render, PopupPlacement, WindowPopups};

fn popup(name: &'static str, x: i32, mapped: bool) -> PopupPlacement<&'static str> {
    PopupPlacement { surface: name, offset: Point::new(x, 5), geometry_loc: Point::new(1, 1), mapped }
}

#[test]
fn scene_is_front_to_back_and_mapped_only() {
    let windows = vec![
        WindowPopups { focused: false, location: Some(Point::new(100, 100)), popups: vec![popup("back", 0, true)] },
        WindowPopups {
            focused: true,
            location: Some(Point::new(10, 20)),
            popups: vec![popup("child", 3, true), popup("hidden", 4, false), popup("parent", 2, true)],
        },
    ];
    let scene = popup_surfaces_for_render(windows, false);
    assert_eq!(
        scene,
        vec![("child", Point::new(12, 24)), ("parent", Point::new(11, 24)), ("back", Point::new(99, 104))]
    );
}

#[test]
fn override_shows_only_focused_window() {
    let windows = vec![
        WindowPopups { focused: true, location: None, popups: vec![popup("mine", 0, true)] },
        WindowPopups { focused: false, location: Some(Point::new(5, 5)), popups: vec![popup("other", 0, true)] },
    ];
    let scene = popup_surfaces_for_render(windows, true);
    assert_eq!(scene, vec![("mine", Point::new(-1, 4))]);
}

#[test]
fn empty_scene() {
    let windows: Vec<WindowPopups<&str>> = vec![WindowPopups { focused: false, location: None, popups: vec![] }];
    assert!(popup_surfaces_for_render(windows, true).is_empty());
}

#[test]
fn constraint_target_moves_output_into_toplevel_frame() {
    let windows = vec![
        WindowFrame { hosts_root: false, geometry: Some(Rect::new(Point::new(0, 0), Point::new(5, 5))) },
        WindowFrame { hosts_root: true, geometry: Some(Rect::new(Point::new(100, 50), Point::new(800, 600))) },
        WindowFrame { hosts_root: true, geometry: None },
    ];
    let output = Some(Rect::new(Point::new(0, 0), Point::new(1920, 1080)));
    let r = unconstrain_target(&windows, output, Point::new(10, 20));
    assert_eq!(r, Some(Rect::new(Point::new(-110, -70), Point::new(1920, 1080))));
}

#[test]
fn constraint_target_missing_pieces() {
    let unmapped = vec![
        WindowFrame { hosts_root: true, geometry: None },
        WindowFrame { hosts_root: true, geometry: Some(Rect::new(Point::new(1, 1), Point::new(1, 1))) },
    ];
    let output = Some(Rect::new(Point::new(0, 0), Point::new(10, 10)));
    assert_eq!(unconstrain_target(&unmapped, output, Point::new(0, 0)), None);
    let none_hosts = vec![WindowFrame { hosts_root: false, geometry: Some(Rect::new(Point::new(1, 1), Point::new(1, 1))) }];
    assert_eq!(unconstrain_target(&none_hosts, output, Point::new(0, 0)), None);
    let hosts = vec![WindowFrame { hosts_root: true, geometry: Some(Rect::new(Point::new(1, 1), Point::new(1, 1))) }];
    assert_eq!(unconstrain_target(&hosts, None, Point::new(0, 0)), None);
}

#[test]
fn refresh_actions() {
    assert_eq!(popup_refresh_action(PopupRole::Xdg { has_parent: false, reactive: true }), PopupRefresh::Dismiss);
    assert_eq!(popup_refresh_action(PopupRole::Xdg { has_parent: true, reactive: true }), PopupRefresh::Reconfigure);
    assert_eq!(popup_refresh_action(PopupRole::Xdg { has_parent: true, reactive: false }), PopupRefresh::Keep);
    assert_eq!(popup_refresh_action(PopupRole::InputMethod), PopupRefresh::Keep);
}

#[test]
fn dismissal_is_last_to_first() {
    assert_eq!(dismissal_order(vec![1, 2, 3]), vec![3, 2, 1]);
    assert_eq!(dismissal_order(Vec::<u8>::new()), Vec::<u8>::new());
}

#[test]
fn pointer_update_rule() {
    assert!(pointer_needs_update(true, true));
    assert!(pointer_needs_update(false, false));
    assert!(!pointer_needs_update(false, true));
}
