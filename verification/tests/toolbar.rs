use rustconn::embedded_toolbar_overflow::{
    contains_active_menu, ensure_touch_targets, expanded_natural_px, floating_overlays_suppressed,
    set_floating_overlays_suppressed, Align, RevealHandle, TimerAction, ToolbarAutoHide,
    ToolbarEvent, ToolbarOverflow, WidgetKind, WidgetNode, WidthWatch, OVERFLOW_HYSTERESIS_PX,
};

#[test]
fn expanding_restores_the_layout() {
    let mut toolbar = ToolbarOverflow::new(vec![1, 2, 3, 4, 5], 9, vec![2, 3, 5]);
    assert_eq!(toolbar.children(), &vec![1, 2, 3, 4, 5, 9]);
    assert!(!toolbar.overflow_visible());
    toolbar.update(320, 20, 301);
    assert_eq!(toolbar.children(), &vec![1, 4, 9]);
    assert_eq!(toolbar.popover(), &vec![2, 3, 5]);
    assert!(toolbar.overflow_visible());
    // It fits again, but not by enough.
    toolbar.update(320 + OVERFLOW_HYSTERESIS_PX, 20, 301);
    assert!(toolbar.overflow_visible());
    toolbar.update(321 + OVERFLOW_HYSTERESIS_PX, 20, 301);
    assert_eq!(toolbar.children(), &vec![1, 2, 3, 4, 5, 9]);
    assert!(toolbar.popover().is_empty());
    assert!(!toolbar.overflow_visible());
}

#[test]
fn a_toolbar_without_secondary_actions_never_folds() {
    let mut toolbar = ToolbarOverflow::new(vec![1], 9, vec![]);
    toolbar.update(10, 0, 1_000);
    assert!(!toolbar.overflow_visible());
    assert_eq!(toolbar.children(), &vec![1, 9]);
}

#[test]
fn the_width_of_the_full_toolbar_counts_what_is_folded_away() {
    assert_eq!(expanded_natural_px(200, false, 6, 40, &vec![50, 60]), 200);
    assert_eq!(expanded_natural_px(200, true, 6, 40, &vec![50, 60]), 200 - 46 + 122);
}

#[test]
fn only_a_new_width_is_looked_at() {
    let mut watch = WidthWatch::new();
    assert!(!watch.changed(0));
    assert!(watch.changed(100));
    assert!(!watch.changed(100));
    assert!(!watch.changed(-5));
    assert!(watch.changed(101));
}

#[test]
fn a_toolbar_in_use_stays() {
    let mut bar = ToolbarAutoHide::attach();
    assert!(!bar.revealed && !bar.handle_visible);
    assert_eq!(bar.handle(ToolbarEvent::HandleClicked), TimerAction::Cancel);
    assert!(!bar.revealed);
    assert_eq!(bar.show_briefly(), TimerAction::Restart);
    assert!(bar.revealed && bar.can_target && !bar.handle_visible);
    assert_eq!(bar.handle(ToolbarEvent::ToolbarEntered), TimerAction::Cancel);
    assert!(bar.interaction_active(false));
    assert_eq!(bar.handle(ToolbarEvent::TimerFired { menu_active: false }), TimerAction::Restart);
    assert!(bar.revealed);
    assert_eq!(bar.handle(ToolbarEvent::ToolbarLeft), TimerAction::Restart);
    assert_eq!(bar.handle(ToolbarEvent::TimerFired { menu_active: true }), TimerAction::Restart);
    assert_eq!(bar.handle(ToolbarEvent::TimerFired { menu_active: false }), TimerAction::Keep);
    assert!(!bar.revealed && !bar.can_target && bar.handle_visible);
    assert_eq!(bar.handle(ToolbarEvent::HandleEntered), TimerAction::Cancel);
    assert!(bar.revealed);
    assert_eq!(bar.put_away(), TimerAction::Cancel);
    assert!(!bar.revealed && !bar.handle_visible);
}

#[test]
fn a_connection_that_wants_no_toolbar_has_none() {
    let mut bar = ToolbarAutoHide::attach();
    bar.show_briefly();
    assert_eq!(bar.set_enabled(false), TimerAction::Cancel);
    assert!(!bar.revealed && !bar.handle_visible && !bar.available);
    assert_eq!(bar.show_briefly(), TimerAction::Keep);
    assert!(!bar.revealed);
    assert_eq!(bar.set_enabled(true), TimerAction::Keep);
    assert_eq!(bar.handle(ToolbarEvent::FocusEntered), TimerAction::Cancel);
    assert!(!bar.revealed);
    assert_eq!(bar.handle(ToolbarEvent::FocusLeft), TimerAction::Restart);
}

fn node(id: u32, kind: WidgetKind, children: Vec<WidgetNode>) -> WidgetNode {
    WidgetNode { id, kind, children }
}

#[test]
fn widgets_are_found_at_any_depth() {
    let tree = |active| {
        node(
            1,
            WidgetKind::Other,
            vec![
                node(2, WidgetKind::Button, vec![]),
                node(
                    3,
                    WidgetKind::Other,
                    vec![node(4, WidgetKind::MenuButton { active }, vec![])],
                ),
            ],
        )
    };
    assert!(contains_active_menu(&tree(true)));
    assert!(!contains_active_menu(&tree(false)));
    assert_eq!(ensure_touch_targets(&tree(false)), vec![2, 4]);
}

#[test]
fn the_mark_is_put_on_once_and_taken_off() {
    let mut classes = vec!["card".to_string()];
    assert!(!floating_overlays_suppressed(&classes));
    set_floating_overlays_suppressed(&mut classes, true);
    set_floating_overlays_suppressed(&mut classes, true);
    assert_eq!(classes, vec!["card", "no-floating-overlays"]);
    assert!(floating_overlays_suppressed(&classes));
    set_floating_overlays_suppressed(&mut classes, false);
    assert_eq!(classes, vec!["card"]);
    assert_eq!(RevealHandle::TopCentre.halign(), Align::Center);
    assert_eq!(RevealHandle::TopTrailing.halign(), Align::End);
}
