use unread_core::surface::{
    badge_label, surface_text, surface_update_result, tray_click_toggles_window, tray_title,
    tray_tooltip, window_title, window_toggle_action, SurfaceOutcome, TrayButton,
    TrayButtonState, WindowAction,
};
use unread_core::text::decimal_string;

#[test]
fn zero_count_gives_the_no_unread_variants() {
    let t = surface_text(0);
    assert_eq!(t.tray_title, "Demo");
    assert_eq!(t.tray_tooltip, "\u{2705} Demo - 没有未读消息");
    assert_eq!(t.window_title, "Demo");
    assert_eq!(t.badge_label, "");
}

#[test]
fn five_unread_shows_the_count_on_every_surface() {
    let t = surface_text(5);
    assert_eq!(t.tray_title, "Demo 5");
    assert_eq!(t.tray_tooltip, "\u{1f534} Demo - 5 条未读消息");
    assert_eq!(t.window_title, "\u{1f534} Demo (5 条未读)");
    assert_eq!(t.badge_label, "5");
    assert!(t.tray_title.contains('5'));
    assert!(t.tray_tooltip.contains('5'));
    assert!(t.window_title.contains('5'));
}

#[test]
fn multi_digit_counts_render_in_full() {
    assert_eq!(tray_title(321), "Demo 321");
    assert_eq!(tray_tooltip(10), "\u{1f534} Demo - 10 条未读消息");
    assert_eq!(window_title(100), "\u{1f534} Demo (100 条未读)");
    assert_eq!(badge_label(4294967295), "4294967295");
}

#[test]
fn decimal_rendering_is_exact() {
    assert_eq!(decimal_string(0), "0");
    assert_eq!(decimal_string(7), "7");
    assert_eq!(decimal_string(12345), "12345");
    assert_eq!(decimal_string(u32::MAX as u64), "4294967295");
    assert_eq!(decimal_string(u64::MAX), "18446744073709551615");
}

#[test]
fn surface_failures_follow_the_propagation_policy() {
    // absent surfaces are skipped without error
    assert_eq!(
        surface_update_result(
            SurfaceOutcome::Absent,
            SurfaceOutcome::Absent,
            SurfaceOutcome::Absent,
            SurfaceOutcome::Absent,
        ),
        Ok(())
    );
    // the first title or tooltip failure is the one propagated
    assert_eq!(
        surface_update_result(
            SurfaceOutcome::Failed(String::from("tray gone")),
            SurfaceOutcome::Failed(String::from("later")),
            SurfaceOutcome::Updated,
            SurfaceOutcome::Updated,
        ),
        Err(String::from("tray gone"))
    );
    assert_eq!(
        surface_update_result(
            SurfaceOutcome::Updated,
            SurfaceOutcome::Updated,
            SurfaceOutcome::Failed(String::from("window gone")),
            SurfaceOutcome::Updated,
        ),
        Err(String::from("window gone"))
    );
    // a badge failure is swallowed as an expected platform limitation
    assert_eq!(
        surface_update_result(
            SurfaceOutcome::Updated,
            SurfaceOutcome::Updated,
            SurfaceOutcome::Updated,
            SurfaceOutcome::Failed(String::from("no badge here")),
        ),
        Ok(())
    );
}

#[test]
fn toggle_hides_a_visible_window_and_shows_a_hidden_one() {
    assert_eq!(window_toggle_action(true), WindowAction::Hide);
    assert_eq!(window_toggle_action(false), WindowAction::Show);
}

#[test]
fn only_a_left_button_release_toggles_the_window() {
    assert!(tray_click_toggles_window(TrayButton::Left, TrayButtonState::Up));
    assert!(!tray_click_toggles_window(TrayButton::Left, TrayButtonState::Down));
    assert!(!tray_click_toggles_window(TrayButton::Right, TrayButtonState::Up));
    assert!(!tray_click_toggles_window(TrayButton::Middle, TrayButtonState::Up));
}
