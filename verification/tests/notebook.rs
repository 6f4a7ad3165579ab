use rustconn::automation::{ExpectRule, PollStart, RuleCheck};
use rustconn::clock::Timestamp;
use rustconn::i18n::Message;
use rustconn::terminal::commands::{
    EraseBinding, KeyElement, Keys, SpawnPath, SshCommand, TelnetKeySends,
};
use rustconn::terminal::environment::{Sandbox, SpawnContext};
use rustconn::terminal::notebook::marks::{
    reconnect_separator, OverlayStep, ReconnectBanner, TerminalReset,
};
use rustconn::terminal::notebook::opening::{OpenKind, Opening};
use rustconn::terminal::notebook::placement::PageClosed;
use rustconn::terminal::notebook::running::{cursor_line_text, screen_start, TextRoute};
use rustconn::terminal::notebook::sessions::{
    eligibility_from, ContentBox, DisplayWidget, FocusTarget, Page, SessionWidget, SplitEligibility,
};
use rustconn::terminal::notebook::TerminalNotebook;
use rustconn::terminal::tabs::{tab_tooltip, Indicator, TabIcon};
use rustconn::terminal::types::SessionWidgetStorage;

const AT: Timestamp = Timestamp { secs: 1_700_000_000, nanos: 0 };

fn open(notebook: &mut TerminalNotebook, session_id: u128, kind: OpenKind) {
    let opening = Opening {
        session_id,
        connection_id: 100 + session_id,
        title: "web1",
        protocol: "ssh",
        host: "",
        kind,
    };
    notebook.open_session(&opening, AT);
}

fn terminals(ids: &[u128]) -> TerminalNotebook {
    let mut notebook = TerminalNotebook::new(true);
    for id in ids {
        open(&mut notebook, *id, OpenKind::Terminal);
    }
    notebook
}

#[test]
fn counts_cover_every_live_session() {
    let (a, b, c) = (1, 2, 3);
    let mut notebook = terminals(&[a, b, c]);
    assert_eq!(notebook.session_count() + notebook.detached_count(), 3);

    assert!(notebook.take_session_content(b, true));
    assert_eq!(notebook.session_count(), 2);
    assert_eq!(notebook.detached_count(), 1);
    assert_eq!(notebook.session_count() + notebook.detached_count(), 3);

    assert!(notebook.restore_session_tab(b));
    assert_eq!(notebook.detached_count(), 0);
    assert_eq!(notebook.session_count(), 3);
}

#[test]
fn a_split_guest_is_the_only_live_session_outside_the_counts() {
    let (owner, guest) = (1, 2);
    let mut notebook = terminals(&[owner, guest]);
    notebook.park_session_tab(guest);

    // The guest's widget lives in the owner's tab, so one tab covers both.
    assert_eq!(notebook.session_count() + notebook.detached_count(), 1);

    assert!(notebook.take_session_content(owner, true));
    assert_eq!(notebook.session_count(), 0);
    assert_eq!(notebook.detached_count(), 1);
    assert_eq!(notebook.get_all_sessions().len(), 2);
}

#[test]
fn the_split_picker_refuses_a_detached_session() {
    let id = 1;
    let mut notebook = terminals(&[id]);
    assert!(notebook.take_session_content(id, true));

    notebook.park_session_tab(id);

    assert!(notebook.is_detached(id), "the session must stay in its window");
    assert!(
        !notebook.detach_context(id).is_split_guest,
        "a detached session must never gain a split mark"
    );
    assert_eq!(notebook.detached_count(), 1);

    // Attaching it first makes the same move legal again.
    assert!(notebook.restore_session_tab(id));
    notebook.park_session_tab(id);
    assert!(notebook.detach_context(id).is_split_guest);
    assert!(!notebook.is_detached(id));
}

/// Both park sets are cleared by the restore of the session that was in them.
#[test]
fn restore_session_tab_clears_the_park_set_the_session_was_in() {
    let (detached_id, split_id) = (1, 2);
    let mut notebook = terminals(&[detached_id, split_id]);
    assert!(notebook.take_session_content(detached_id, true));
    notebook.park_session_tab(split_id);

    // Neither parked session has a tab; only the detached one is covered by `detached_count`.
    assert_eq!(notebook.session_count(), 0);
    assert_eq!(notebook.detached_count(), 1);

    notebook.restore_session_tab(detached_id);

    assert!(!notebook.is_detached(detached_id), "the detach mark must be cleared");
    assert!(
        notebook.detach_context(split_id).is_split_guest,
        "the other session's split mark must be untouched"
    );
    assert_eq!(notebook.detached_count(), 0);
    assert_eq!(notebook.session_count(), 1, "the tab is back");
    assert_eq!(
        notebook.session_count() + notebook.detached_count(),
        1,
        "the restored session is counted exactly once"
    );

    notebook.restore_session_tab(split_id);

    assert!(!notebook.detach_context(split_id).is_split_guest, "the split mark must be cleared");
    assert!(
        !notebook.is_detached(split_id),
        "un-parking a split guest must not mark it detached"
    );
    assert_eq!(notebook.session_count(), 2);
    assert_eq!(notebook.detached_count(), 0);
    assert_eq!(
        notebook.session_count() + notebook.detached_count(),
        2,
        "both live sessions are counted exactly once"
    );
}

/// Every sequence of moves leaves each session in one place.
#[test]
fn moves_in_any_order_keep_every_session_in_one_place() {
    let mut seed: u64 = 12345;
    let mut notebook = TerminalNotebook::new(true);
    let mut live: Vec<u128> = Vec::new();
    for _ in 0..2000 {
        seed = seed.wrapping_mul(6364136223846793005).wrapping_add(1442695040888963407);
        let id = 1 + ((seed >> 33) % 4) as u128;
        match (seed >> 40) % 6 {
            0 => {
                if !live.contains(&id) {
                    open(&mut notebook, id, OpenKind::Terminal);
                    live.push(id);
                }
            }
            1 => {
                let allowed = !notebook.detach_context(id).is_detached;
                notebook.take_session_content(id, allowed);
            }
            2 => notebook.park_session_tab(id),
            3 => {
                notebook.restore_session_tab(id);
            }
            4 => {
                notebook.attach_session(id);
            }
            _ => {
                let outcome = notebook.close_session(id);
                assert_eq!(matches!(outcome, PageClosed::Ended(_)), live.contains(&id));
                live.retain(|l| *l != id);
            }
        }
        let tabbed = notebook.session_ids();
        let mut parked = 0;
        for l in &live {
            let guest = notebook.detach_context(*l).is_split_guest;
            let places = [tabbed.contains(l), guest, notebook.is_detached(*l)];
            assert_eq!(places.iter().filter(|p| **p).count(), 1);
            if guest {
                parked += 1;
            }
        }
        assert_eq!(notebook.get_all_sessions().len(), live.len());
        assert_eq!(
            notebook.session_count() + notebook.detached_count(),
            live.len() - parked
        );
    }
}

#[test]
fn separator_opens_and_closes_its_own_line() {
    let separator = reconnect_separator("Reconnected at 2026-08-02 14:33:07");
    // A fresh line on both sides: the dead session's output may end mid-line, and the new session
    // must not start on the rule itself.
    assert!(separator.starts_with("\r\n"));
    assert!(separator.ends_with("\r\n"));
}

#[test]
fn separator_carries_the_label_and_resets_the_attributes() {
    let separator = reconnect_separator("Reconnected at 2026-08-02 14:33:07");
    assert!(separator.contains("Reconnected at 2026-08-02 14:33:07"));
    // Dim only the rule: leaving the attribute set would tint the new session.
    assert!(separator.contains("\x1b[2m"));
    assert!(separator.contains("\x1b[0m"));
    assert!(
        separator.rfind("\x1b[0m") > separator.rfind("\x1b[2m"),
        "the reset has to come after the dim attribute"
    );
}

#[test]
fn title_only_tooltip_is_just_the_title() {
    assert_eq!(tab_tooltip("prod-db", None, None), "prod-db");
    // An empty host must not add a blank second line.
    assert_eq!(tab_tooltip("prod-db", Some(""), None), "prod-db");
}

#[test]
fn host_and_group_each_get_their_own_line() {
    assert_eq!(tab_tooltip("prod-db", Some("10.0.0.5"), None), "prod-db\n10.0.0.5");
    assert_eq!(tab_tooltip("prod-db", None, Some("Production")), "prod-db\n[Production]");
    // The group line stays last, so that a change of the group keeps finding it and leaves the host
    // line alone.
    assert_eq!(
        tab_tooltip("prod-db", Some("10.0.0.5"), Some("Production")),
        "prod-db\n10.0.0.5\n[Production]"
    );
}

#[test]
fn external_process_is_external_viewer() {
    assert_eq!(
        eligibility_from(false, Some(SessionWidgetStorage::ExternalProcess)),
        SplitEligibility::ExternalViewer
    );
}

#[test]
fn stored_widget_wins_over_terminal_flag() {
    // Even if a stray terminal flag is set, an external viewer stays declined.
    assert_eq!(
        eligibility_from(true, Some(SessionWidgetStorage::ExternalProcess)),
        SplitEligibility::ExternalViewer
    );
}

#[test]
fn terminal_only_session_is_embeddable() {
    assert_eq!(eligibility_from(true, None), SplitEligibility::Embeddable);
}

#[test]
fn unknown_session_is_none() {
    assert_eq!(eligibility_from(false, None), SplitEligibility::Unknown);
}

#[test]
fn embedded_widget_variants_are_embeddable() {
    for storage in [
        SessionWidgetStorage::Vnc,
        SessionWidgetStorage::EmbeddedRdp,
        SessionWidgetStorage::EmbeddedWeb,
    ] {
        assert_eq!(eligibility_from(false, Some(storage)), SplitEligibility::Embeddable);
    }
}

#[test]
fn a_new_terminal_has_a_random_id_of_its_own() {
    let mut notebook = TerminalNotebook::default();
    assert_eq!(notebook.tab_count(), 1);
    let a = notebook.create_terminal_tab(1, "a", "ssh");
    let b = notebook.create_terminal_tab(1, "b", "ssh");
    assert_ne!(a, b);
    assert_ne!(a, 0);
    // The bits that tell a random UUID.
    assert_eq!((a >> 76) & 0xf, 4);
    assert_eq!((a >> 62) & 3, 2);
    assert_eq!(notebook.tab_count(), 2, "the Welcome tab has made room");
    let info = notebook.get_session_info(a).unwrap();
    assert_eq!(info.name, "a");
    assert_eq!(info.protocol, "ssh");
    assert!(info.is_embedded);
    assert_eq!(info.connection_id, 1);
    let now = chrono::Utc::now().timestamp();
    assert!((now - info.connected_at.secs).abs() < 100);
    assert_eq!(info.format_duration(), "0s");
    assert!(notebook.get_session_info(77).is_none());
}

#[test]
fn rules_start_with_the_terminal_they_are_for() {
    let mut notebook = TerminalNotebook::new(false);
    let rule = ExpectRule {
        id: 1,
        pattern: "x".to_string(),
        response: "y".to_string(),
        priority: 0,
        timeout_ms: None,
        enabled: true,
        one_shot: false,
    };
    let check = RuleCheck { pattern_valid: true, substituted: Some("y".to_string()) };
    let id =
        notebook.create_terminal_tab_with_settings(5, "t", "ssh", &vec![rule], vec![check], true, 9);
    assert!(notebook.get_terminal(id));
    assert_eq!(notebook.automation_session(id).unwrap().remaining_triggers(), 1);
    notebook.clear_automation_session(id);
    assert!(notebook.automation_session(id).is_none());
    assert_eq!(notebook.begin_automation_poll(id), None);
    assert_eq!(notebook.tab_count(), 1);
}

#[test]
fn a_vnc_tab_names_its_host_only_where_there_is_one() {
    let mut notebook = TerminalNotebook::new(true);
    let bare = notebook.create_vnc_session_tab(1, "desk");
    let named = notebook.create_vnc_session_tab_with_host(1, "desk", "10.0.0.9");
    assert_eq!(notebook.get_session_info(bare).unwrap().host, None);
    assert_eq!(notebook.get_session_info(named).unwrap().host.as_deref(), Some("10.0.0.9"));
    assert!(notebook.get_vnc_widget(named));
    assert!(!notebook.get_rdp_widget(named));
    assert_eq!(notebook.get_session_widget(named), Some(SessionWidget::Vnc));
    assert_eq!(
        notebook.get_session_display_widget(named),
        Some(DisplayWidget::Viewer(SessionWidgetStorage::Vnc))
    );
    assert!(!notebook.get_terminal(named));
    assert_eq!(TabIcon::Displays.theme_name(), Some("video-joined-displays-symbolic"));
    assert_eq!(TabIcon::OfProtocol.theme_name(), None);
}

#[test]
fn viewers_are_remembered_by_kind() {
    let mut notebook = TerminalNotebook::new(true);
    notebook.add_embedded_rdp_tab(1, 11, "rdp");
    notebook.add_embedded_web_tab(2, 12, "web");
    notebook.add_embedded_session_tab(3, 13, "ext", "spice", true);
    notebook.add_embedded_session_tab(4, 14, "ext", "spice", false);
    assert!(notebook.get_rdp_widget(1));
    assert_eq!(notebook.split_eligibility(1), SplitEligibility::Embeddable);
    assert_eq!(notebook.split_eligibility(2), SplitEligibility::Embeddable);
    assert_eq!(notebook.split_eligibility(3), SplitEligibility::ExternalViewer);
    assert_eq!(notebook.split_eligibility(4), SplitEligibility::Unknown);
    assert_eq!(notebook.get_session_display_widget(3), None);
    assert!(!notebook.get_session_info(3).unwrap().is_embedded);
    assert_eq!(notebook.get_session_info(1).unwrap().protocol, "rdp");
    assert_eq!(notebook.get_session_info(2).unwrap().protocol, "web");
    // A viewer in a process of its own cannot be shown elsewhere, even where it was allowed.
    assert!(!notebook.take_session_content(3, true));
    assert!(!notebook.is_detached(3));
    assert_eq!(notebook.session_count(), 4);
}

#[test]
fn closing_the_last_tab_brings_the_welcome_tab() {
    let mut notebook = terminals(&[1]);
    assert_eq!(notebook.tab_count(), 1);
    notebook.command_started(1, 4242);
    notebook.store_ssh_tunnel(1);
    notebook.set_tab_split_color(1, 3, true);
    let PageClosed::Ended(teardown) = notebook.close_page(1) else {
        panic!("the session ends");
    };
    assert_eq!(teardown.session_id, 1);
    assert_eq!(teardown.connection_id, Some(101));
    assert_eq!(teardown.child_pid, Some(4242));
    assert!(teardown.had_tunnel);
    assert!(teardown.was_in_split);
    assert_eq!(teardown.widget, None);
    assert_eq!(notebook.session_count(), 0);
    assert_eq!(notebook.tab_count(), 1, "the Welcome tab is back");
    assert_eq!(notebook.close_page(1), PageClosed::NoTab);

    let mut without = TerminalNotebook::new(false);
    open(&mut without, 1, OpenKind::Terminal);
    without.close_page(1);
    assert_eq!(without.tab_count(), 0);
    without.set_show_welcome(true);
    without.ensure_welcome_page();
    assert_eq!(without.tab_count(), 1);
}

#[test]
fn detaching_the_last_tab_brings_the_welcome_tab_and_attaching_takes_it() {
    let mut notebook = terminals(&[1]);
    assert!(notebook.take_session_content(1, true));
    assert_eq!(notebook.tab_count(), 1);
    assert_eq!(notebook.session_count(), 0);
    assert_eq!(notebook.switch_to_tab(1), FocusTarget::Window);
    assert!(notebook.attach_session(1));
    assert_eq!(notebook.tab_count(), 1);
    assert_eq!(notebook.session_count(), 1);
    assert_eq!(notebook.switch_to_tab(1), FocusTarget::Tab);
    assert_eq!(notebook.switch_to_tab(2), FocusTarget::Nowhere);
    assert!(!notebook.attach_session(1), "it is not detached any more");
    assert!(!notebook.take_session_content(1, false), "only where it is allowed");
}

#[test]
fn closing_a_detached_session_ends_it() {
    let mut notebook = terminals(&[1, 2]);
    notebook.take_session_content(1, true);
    assert!(matches!(notebook.close_tab(1), PageClosed::Ended(_)));
    assert_eq!(notebook.detached_count(), 0);
    assert!(notebook.get_session_info(1).is_none());
    assert!(notebook.get_session_info(2).is_some());
    // A split guest has no tab that could be closed.
    notebook.park_session_tab(2);
    assert_eq!(notebook.close_tab(2), PageClosed::NoTab);
    assert!(matches!(notebook.close_session(2), PageClosed::Ended(_)));
}

#[test]
fn detached_sessions_are_listed_by_id() {
    let mut notebook = terminals(&[9, 3, 7]);
    for id in [9, 3, 7] {
        assert!(notebook.take_session_content(id, true));
    }
    assert_eq!(notebook.detached_session_ids(), vec![3, 7, 9]);
}

#[test]
fn tabs_are_listed_in_the_order_of_the_tab_bar() {
    let notebook = terminals(&[1, 2, 3]);
    let pages = vec![Page::Session(3), Page::Welcome, Page::Session(9), Page::Session(1)];
    assert_eq!(notebook.ordered_session_ids(&pages), vec![3, 1]);
    assert_eq!(notebook.get_session_id_for_page(&pages, 0), Some(3));
    assert_eq!(notebook.get_session_id_for_page(&pages, 1), None);
    assert_eq!(notebook.get_session_id_for_page(&pages, 2), None);
    assert_eq!(notebook.get_session_id_for_page(&pages, 9), None);
    assert_eq!(notebook.get_active_session_id(Some(Page::Session(2))), Some(2));
    assert_eq!(notebook.get_active_session_id(Some(Page::Welcome)), None);
    assert_eq!(notebook.get_active_session_id(None), None);
    assert!(notebook.open_tab_overview());
    assert!(!TerminalNotebook::new(true).open_tab_overview());
}

#[test]
fn groups_and_names_are_kept_apart() {
    let mut notebook = terminals(&[1, 2]);
    notebook.set_tab_group(1, "dc1", 4);
    assert_eq!(notebook.get_tab_group(1).as_deref(), Some("dc1"));
    assert_eq!(notebook.get_tab_group(2), None);
    let info = notebook.get_session_info(1).unwrap();
    assert_eq!(info.tab_color_index, Some(4));
    assert_eq!(info.name, "web1");
    assert_eq!(notebook.rename_connection_sessions(101, "web2"), vec![1]);
    let renamed = notebook.get_session_info(1).unwrap();
    assert_eq!(renamed.name, "web2");
    assert_eq!(renamed.tab_group.as_deref(), Some("dc1"));
    assert_eq!(notebook.get_session_info(2).unwrap().name, "web1");
    assert!(notebook.rename_connection_sessions(999, "x").is_empty());
    notebook.set_log_file(1, "/tmp/log");
    notebook.set_history_entry_id(1, 55);
    let noted = notebook.get_session_info(1).unwrap();
    assert_eq!(noted.log_file.as_deref(), Some("/tmp/log"));
    assert_eq!(noted.history_entry_id, Some(55));
}

#[test]
fn a_disconnected_session_is_not_live_until_it_is_prepared() {
    let mut notebook = terminals(&[1, 2]);
    let effects = notebook.mark_tab_disconnected(1);
    assert!(!effects.window);
    assert!(effects.terminal);
    assert!(notebook.is_session_disconnected(1));
    let live = notebook.live_sessions();
    assert_eq!(live.len(), 1);
    assert_eq!(live[0].id, 2);
    let plan = notebook.prepare_for_reconnect(1, 5000, "12:00").unwrap();
    assert_eq!(plan.terminal, Some(TerminalReset::KeepHistory { trim_to: None }));
    assert_eq!(plan.separator.unwrap().render(), "Reconnected at 12:00");
    assert!(!notebook.is_session_disconnected(1));
    assert_eq!(notebook.live_sessions().len(), 2);
    notebook.set_max_scrollback_on_reconnect(Some(1000));
    assert_eq!(
        notebook.prepare_for_reconnect(1, 5000, "12:00").unwrap().terminal,
        Some(TerminalReset::KeepHistory { trim_to: Some(1000) })
    );
    assert_eq!(
        notebook.prepare_for_reconnect(1, 1000, "12:00").unwrap().terminal,
        Some(TerminalReset::KeepHistory { trim_to: None })
    );
    notebook.set_keep_history_on_reconnect(false);
    assert_eq!(
        notebook.prepare_for_reconnect(1, 5000, "12:00").unwrap().terminal,
        Some(TerminalReset::Clear)
    );
    assert!(notebook.prepare_for_reconnect(1, 5000, "12:00").unwrap().separator.is_none());
    assert!(notebook.prepare_for_reconnect(42, 0, "12:00").is_none());
    notebook.take_session_content(2, true);
    assert!(notebook.mark_tab_disconnected(2).window);
    assert!(notebook.mark_tab_connected(2, true));
    assert!(!notebook.mark_tab_connected(1, true));
}

#[test]
fn rows_are_counted_from_the_last_reconnect() {
    let mut notebook = terminals(&[1]);
    assert_eq!(notebook.get_terminal_cursor_row(1, 40), Some(40));
    notebook.prepare_for_reconnect(1, 0, "12:00");
    assert_eq!(notebook.get_terminal_cursor_row(1, 41), Some(0));
    assert_eq!(notebook.get_terminal_cursor_row(1, 45), Some(4));
    assert_eq!(notebook.get_terminal_cursor_row(1, 30), Some(0));
    assert_eq!(notebook.get_terminal_cursor_row(2, 30), None);
}

#[test]
fn a_banner_is_shown_once_and_says_what_is_tried() {
    let mut notebook = terminals(&[1]);
    // Without a place for it the banner can still appear later.
    assert!(matches!(notebook.show_reconnect_overlay(1, false), OverlayStep::Nothing));
    assert!(!notebook.is_reconnect_shown(1));
    let OverlayStep::Show { mut banner, connection_id } = notebook.show_reconnect_overlay(1, true)
    else {
        panic!("the banner appears");
    };
    assert_eq!(connection_id, 101);
    assert_eq!(banner.label.msgid, "Session disconnected");
    assert!(banner.status.is_none());
    assert!(notebook.is_reconnect_shown(1));
    assert!(matches!(notebook.show_reconnect_overlay(1, true), OverlayStep::Nothing));
    assert!(matches!(
        notebook.show_reconnect_overlay_with_status(1, true, true),
        OverlayStep::UpdateStatus
    ));
    banner.set_active(true);
    assert_eq!(banner.status.as_ref().unwrap().msgid, "Auto-reconnecting…");
    banner.set_attempt(2, 5);
    assert_eq!(banner.status.as_ref().unwrap().render(), "Auto-reconnecting (attempt 2/5)");
    banner.set_active(true);
    assert_eq!(banner.status.as_ref().unwrap().args, vec!["2".to_string(), "5".to_string()]);
    banner.set_active(false);
    assert!(banner.status.is_none());

    let mut viewers = TerminalNotebook::new(true);
    viewers.add_embedded_rdp_tab(1, 2, "rdp");
    assert!(matches!(viewers.show_reconnect_overlay(1, true), OverlayStep::Nothing));
    assert!(matches!(viewers.show_reconnect_overlay(9, true), OverlayStep::Nothing));
    let fresh = ReconnectBanner { label: Message::plain("x"), status: None };
    assert!(fresh.status.is_none());
}

#[test]
fn polls_are_cancelled_once() {
    let mut notebook = terminals(&[1]);
    notebook.register_poll_cancel(1);
    assert!(notebook.cancel_poll(1));
    assert!(!notebook.cancel_poll(1));
    notebook.register_poll_cancel(1);
    notebook.close_tab(1);
    assert!(!notebook.cancel_poll(1));
}

#[test]
fn text_takes_the_relay_where_there_is_one() {
    let mut notebook = terminals(&[1]);
    assert_eq!(notebook.send_text_to_session(1), TextRoute::Terminal);
    notebook.register_relay(1);
    assert!(notebook.has_relay(1));
    assert_eq!(notebook.send_text_to_session(1), TextRoute::Relay { or_terminal: true });
    notebook.remove_relay(1);
    assert_eq!(notebook.send_text_to_session(1), TextRoute::Terminal);
    assert_eq!(notebook.send_text_to_session(2), TextRoute::Nowhere);
    notebook.register_relay(2);
    assert!(!notebook.has_relay(2), "a session without a terminal has no relay");
}

fn context() -> SpawnContext {
    SpawnContext {
        parent: vec![("HOME".to_string(), "/home/me".to_string())],
        extended_path: "/x/bin".to_string(),
        agent: None,
        sandbox: Sandbox::Unsandboxed,
    }
}

#[test]
fn commands_are_started_for_sessions_with_a_terminal() {
    let notebook = terminals(&[1]);
    let argv = vec!["bash".to_string()];
    let none: Vec<String> = vec![];
    let plan = notebook
        .spawn_command(1, argv.clone(), &none, Some("/tmp"), None, &context(), true)
        .unwrap();
    assert_eq!(plan.argv, argv);
    assert_eq!(plan.working_directory.as_deref(), Some("/tmp"));
    assert_eq!(
        plan.env,
        vec![
            "HOME=/home/me",
            "PATH=/x/bin",
            "SSH_ASKPASS_REQUIRE=never",
            "TERM=xterm-256color"
        ]
    );
    assert!(notebook.spawn_serial(2, argv.clone(), &context()).is_none());
    let serial = notebook.spawn_serial(1, vec!["picocom".to_string()], &context()).unwrap();
    assert_eq!(serial.argv, vec!["picocom".to_string()]);
    assert!(!serial.env.contains(&"SSH_ASKPASS_REQUIRE=never".to_string()));
    let (telnet, backspace, delete) = notebook
        .spawn_telnet(
            1,
            "host",
            2323,
            &none,
            TelnetKeySends::Backspace,
            TelnetKeySends::Automatic,
            &context(),
        )
        .unwrap();
    assert_eq!(telnet.argv, vec!["telnet", "host", "2323"]);
    assert_eq!(backspace, EraseBinding::AsciiBackspace);
    assert_eq!(delete, EraseBinding::Auto);
    let ssh = SshCommand {
        host: "h".to_string(),
        port: 22,
        username: None,
        identity_file: None,
        extra_args: vec![],
        use_waypipe: false,
        use_mptcp: false,
        startup_command: None,
        control_path: "/c".to_string(),
        known_hosts_path: None,
    };
    let plan = notebook.spawn_ssh(1, &ssh, &none, Some("/agent"), &context()).unwrap();
    assert_eq!(plan.argv.last().map(String::as_str), Some("h"));
    assert!(plan.env.contains(&"SSH_AUTH_SOCK=/agent".to_string()));
}

#[test]
fn a_failed_command_is_reported_in_its_tab() {
    let mut notebook = terminals(&[1]);
    let argv = vec!["nosuch".to_string()];
    let failed = notebook.command_failed(1, SpawnPath::Terminal, &argv, "whatever");
    let (message, connection) = failed.banner.unwrap();
    assert_eq!(message.render(), "Command not found: nosuch");
    assert_eq!(connection, 101);
    assert_eq!(failed.toast.render(), "'nosuch' is not installed");
    let relay = notebook.command_failed(1, SpawnPath::Relay, &argv, "no pty");
    assert!(relay.banner.is_none());
    assert_eq!(relay.toast.render(), "Failed to start 'nosuch': no pty");
    let away = notebook.command_failed(2, SpawnPath::NativePty, &argv, "no pty");
    assert!(away.banner.is_none());
}

#[test]
fn keys_wait_for_the_pauses_before_them() {
    let notebook = terminals(&[1]);
    let elements = vec![
        KeyElement::Text("ls".to_string()),
        KeyElement::Wait(200),
        KeyElement::SpecialKey(vec![13]),
        KeyElement::Variable("x".to_string()),
        KeyElement::Wait(50),
        KeyElement::Text("q".to_string()),
    ];
    let schedule = notebook.execute_key_sequence(1, elements).unwrap();
    let seen: Vec<(u64, Vec<u8>)> = schedule
        .iter()
        .map(|t| {
            let bytes = match &t.keys {
                Keys::Text(s) => s.as_bytes().to_vec(),
                Keys::Bytes(b) => b.clone(),
            };
            (t.after_ms, bytes)
        })
        .collect();
    assert_eq!(
        seen,
        vec![(0, b"ls".to_vec()), (200, vec![13]), (250, b"q".to_vec())]
    );
    assert!(notebook.execute_key_sequence(2, vec![]).is_none());
}

#[test]
fn clusters_collect_their_sessions() {
    let mut notebook = TerminalNotebook::new(true);
    notebook.mark_cluster_pending(7, 101);
    open(&mut notebook, 1, OpenKind::Terminal);
    open(&mut notebook, 2, OpenKind::Terminal);
    assert_eq!(notebook.get_cluster_sessions(7), vec![1]);
    notebook.register_cluster_terminal(7, 2);
    assert_eq!(notebook.get_cluster_sessions(7), vec![1, 2]);
    notebook.mark_cluster_pending(7, 103);
    notebook.unregister_cluster(7);
    assert!(notebook.get_cluster_sessions(7).is_empty());
    open(&mut notebook, 3, OpenKind::Terminal);
    assert!(notebook.get_cluster_sessions(7).is_empty());
}

#[test]
fn split_colors_outlast_protocol_colors() {
    let mut notebook = terminals(&[1, 2]);
    notebook.set_tab_split_color(1, 5, true);
    assert!(notebook.detach_context(1).is_split_owner);
    notebook.set_color_tabs_by_protocol(true);
    notebook.set_color_tabs_by_protocol(false);
    assert!(notebook.detach_context(1).is_split_owner);
    notebook.clear_tab_split_color(1);
    assert!(!notebook.detach_context(1).is_split_owner);
    notebook.switch_tab_to_split(1);
    notebook.switch_tab_to_single(1);
    assert!(notebook.reparent_terminal_to_tab(1));
    assert!(!notebook.reparent_terminal_to_tab(9));
    notebook.set_highlight_rules(1);
    notebook.child_exited(1);
}

#[test]
fn the_text_at_the_cursor_falls_back_to_the_screen() {
    assert_eq!(cursor_line_text(Some("$ ls"), None).as_deref(), Some("$ ls"));
    assert_eq!(cursor_line_text(Some("  "), Some("a\nb\n \n")).as_deref(), Some("b"));
    assert_eq!(cursor_line_text(None, Some("\n\n")), None);
    assert_eq!(cursor_line_text(None, None), None);
    assert_eq!(screen_start(100, 24), 77);
    assert_eq!(screen_start(10, 24), 0);
}

#[test]
fn a_session_in_a_split_has_no_box_of_its_own() {
    let mut notebook = terminals(&[1, 2, 3]);
    assert_eq!(notebook.session_content_box(1), Some(ContentBox::Tab));
    assert!(notebook.get_session_container(1));
    notebook.park_session_tab(2);
    assert_eq!(notebook.session_content_box(2), None);
    assert!(matches!(notebook.show_reconnect_overlay(2, true), OverlayStep::Nothing));
    assert!(!notebook.is_reconnect_shown(2));
    assert!(notebook.take_session_content(3, true));
    assert_eq!(notebook.session_content_box(3), Some(ContentBox::Window));
    assert!(!notebook.get_session_container(3));
    assert!(matches!(notebook.show_reconnect_overlay(3, true), OverlayStep::Show { .. }));
    assert_eq!(notebook.session_content_box(9), None);
}

#[test]
fn a_banner_is_updated_where_its_session_is_shown() {
    let mut notebook = terminals(&[1]);
    let banner = || Some(ReconnectBanner { label: Message::plain("x"), status: None });
    let said = |b: Option<ReconnectBanner>| match b {
        Some(b) => b.status.map(|m| m.render()),
        None => None,
    };
    let active = notebook.update_reconnect_banner_status(1, true, banner());
    assert_eq!(said(active).as_deref(), Some("Auto-reconnecting…"));
    let attempt = notebook.update_reconnect_banner_attempt(1, 2, 5, banner());
    assert_eq!(said(attempt).as_deref(), Some("Auto-reconnecting (attempt 2/5)"));
    assert!(notebook.update_reconnect_banner_status(1, true, None).is_none());
    notebook.park_session_tab(1);
    assert_eq!(said(notebook.update_reconnect_banner_status(1, true, banner())), None);
    assert_eq!(said(notebook.update_reconnect_banner_attempt(1, 2, 5, banner())), None);
}

#[test]
fn text_goes_to_the_session_whose_page_is_selected() {
    let mut notebook = terminals(&[1]);
    open(&mut notebook, 2, OpenKind::Vnc);
    assert_eq!(notebook.get_active_terminal(Some(Page::Session(1))), Some(1));
    assert_eq!(notebook.get_active_terminal(Some(Page::Session(2))), None);
    assert_eq!(notebook.get_active_terminal(Some(Page::Welcome)), None);
    assert_eq!(notebook.get_active_terminal(None), None);
    assert_eq!(notebook.send_text(Some(Page::Session(1))), Some((1, TextRoute::Terminal)));
    notebook.register_relay(1);
    assert_eq!(
        notebook.send_text(Some(Page::Session(1))),
        Some((1, TextRoute::Relay { or_terminal: true }))
    );
    assert_eq!(notebook.send_text(Some(Page::Session(2))), Some((2, TextRoute::Nowhere)));
    assert_eq!(notebook.send_text(None), None);
    assert_eq!(
        notebook.get_cursor_line_text(1, Some("Password:"), None).as_deref(),
        Some("Password:")
    );
    assert_eq!(notebook.get_cursor_line_text(2, Some("Password:"), None), None);
    assert_eq!(notebook.get_cursor_line_text(1, Some("  "), Some("\n \n")).as_deref(), Some("  "));
    assert_eq!(notebook.get_cursor_line_text(1, None, None).as_deref(), Some(""));
    notebook.set_tab_split_color(1, 4, true);
    assert_eq!(notebook.split_colors().get(&1), Some(&4));
}

#[test]
fn a_new_session_is_named_by_a_random_uuid() {
    let mut notebook = TerminalNotebook::new(true);
    for _ in 0..16 {
        let id = notebook.create_terminal_tab(7, "web1", "ssh");
        assert_eq!((id >> 76) & 0xF, 4);
        assert_eq!((id >> 62) & 0x3, 2);
    }
    assert_eq!(notebook.session_count(), 16);
}

#[test]
fn a_tab_that_is_made_anew_is_titled_as_before() {
    let mut notebook = terminals(&[1, 2]);
    notebook.set_tab_group(1, "dc1", 4);
    let before = notebook.session_tab(1).unwrap();
    assert_eq!(before.title, "[dc1] web1");
    assert_eq!(before.tooltip, "web1\n[dc1]");
    assert_eq!(before.indicator, Indicator::GroupColor(4));

    notebook.park_session_tab(1);
    assert!(notebook.session_tab(1).is_none());
    assert!(notebook.restore_session_tab(1));
    assert_eq!(notebook.session_tab(1).unwrap().title, "[dc1] web1");
    assert_eq!(notebook.session_tab(1).unwrap().tooltip, "web1\n[dc1]");

    assert!(notebook.take_session_content(1, true));
    assert!(!notebook.take_session_content(1, true), "it is in its window already");
    assert!(notebook.is_detached(1));
    assert!(notebook.attach_session(1));
    let back = notebook.session_tab(1).unwrap();
    assert_eq!(back.title, "[dc1] web1");
    assert_eq!(back.indicator, Indicator::GroupColor(4));
    assert_eq!(notebook.session_tab(2).unwrap().title, "web1");
}

#[test]
fn a_split_color_is_not_replaced_by_a_group() {
    let mut notebook = terminals(&[1]);
    notebook.set_tab_split_color(1, 2, true);
    notebook.set_tab_group(1, "dc1", 4);
    assert_eq!(notebook.session_tab(1).unwrap().indicator, Indicator::SplitColor(2));
}

#[test]
fn a_rule_of_a_session_answers_its_prompt() {
    let mut notebook = TerminalNotebook::new(false);
    let rule = |id: u128, one_shot: bool| ExpectRule {
        id,
        pattern: "x".to_string(),
        response: String::new(),
        priority: 0,
        timeout_ms: None,
        enabled: true,
        one_shot,
    };
    let check = |s: &str| RuleCheck { pattern_valid: true, substituted: Some(s.to_string()) };
    let id = notebook.create_terminal_tab_with_settings(
        5,
        "t",
        "ssh",
        &vec![rule(1, true), rule(2, false), rule(3, false)],
        vec![check("yes\n"), check("no\n"), check("late\n")],
        true,
        0,
    );
    assert_eq!(notebook.begin_automation_poll(id), Some(PollStart::Read));
    assert_eq!(notebook.remove_expired_automation(id, &vec![3]), Some(true));
    let lines = notebook.automation_lines(id, "a\n\nb\n").unwrap();
    assert_eq!(lines, vec!["a", "b"]);
    let sent = notebook.take_automation_matches(id, "a\n\nb\n", &vec![Some(0), Some(1)]).unwrap();
    let sent: Vec<&[u8]> = sent.iter().map(|s| s.as_slice()).collect();
    assert_eq!(sent, vec![b"yes\n".as_slice(), b"no\n".as_slice()]);
    assert_eq!(notebook.automation_lines(id, "a\n\nb\n"), None);
    assert_eq!(notebook.automation_session(id).unwrap().remaining_triggers(), 1);
    assert!(matches!(notebook.close_tab(id), PageClosed::Ended(_)));
    assert!(notebook.automation_session(id).is_none());
    assert_eq!(notebook.remove_expired_automation(id, &vec![]), None);
    assert_eq!(notebook.automation_lines(id, "c"), None);
    assert!(notebook.take_automation_matches(id, "c", &vec![]).is_none());
}
