//! The Actions Ring overlay: stacking, sessions, and the delivery of commands.

use std::time::{Duration, Instant};

use openlogi::ring::{
    click_away_targets, session_targets, ActionRingInvocation, ActionRingSlot, ClickAwaySession,
    OverlayCommand, RingLabel, RingView, SlotPresentation, WindowFate,
};
use openlogi::ring_commands::{
    coalesce_all, coalesce_command, finish_cold, finish_warm, handle_cold_invocation,
    handle_warm_invocation, parse_run_token, retry_before, Allegiance, ColdStep, CommandWorker,
    Delivery, DeliveryEvent, ShowOutcome, Standing, WarmStep,
};
use openlogi::stacking::{
    centered_origin, choose_windows_stack_target, configure_application, configure_windows,
    select_frontmost_macos_window, select_x11_active_sibling, MacWindowCandidate,
    RelativeStackTarget, RootChildWalk, RootWalkStep, ROOT_WALK_LIMIT,
};

const TOP: ActionRingSlot = ActionRingSlot { index: 0 };
const RIGHT: ActionRingSlot = ActionRingSlot { index: 2 };

#[test]
fn windows_relative_stack_uses_predecessor() {
    assert_eq!(
        choose_windows_stack_target(99_u32, Some(10), Some(20), false, false, false),
        RelativeStackTarget::After(20),
    );
}

#[test]
fn windows_relative_stack_does_not_cross_into_topmost_band() {
    assert_eq!(
        choose_windows_stack_target(99_u32, Some(10), Some(20), false, false, true),
        RelativeStackTarget::Top,
    );
}

#[test]
fn windows_relative_stack_keeps_existing_immediate_position() {
    assert_eq!(
        choose_windows_stack_target(99_u32, Some(10), Some(99), false, false, false),
        RelativeStackTarget::Keep,
    );
}

#[test]
fn windows_relative_stack_demotes_stale_topmost_overlay() {
    assert_eq!(
        choose_windows_stack_target(99_u32, Some(10), Some(99), true, false, true),
        RelativeStackTarget::Top,
    );
}

#[test]
fn windows_relative_stack_falls_back_to_normal_top() {
    assert_eq!(
        choose_windows_stack_target(99_u32, None, None, false, false, false),
        RelativeStackTarget::Top,
    );
    assert_eq!(
        choose_windows_stack_target(99_u32, Some(99), None, false, false, false),
        RelativeStackTarget::Top,
    );
}

#[test]
fn windows_relative_stack_preserves_topmost_band_only_when_required() {
    assert_eq!(
        choose_windows_stack_target(99_u32, Some(10), None, true, true, false),
        RelativeStackTarget::Topmost,
    );
}

#[test]
fn x11_relative_stack_uses_active_window_on_same_root() {
    assert_eq!(select_x11_active_sibling(99, Some(10)), Some(10),);
}

#[test]
fn x11_relative_stack_rejects_missing_self_and_other_root_targets() {
    assert_eq!(select_x11_active_sibling(99, None), None);
    assert_eq!(select_x11_active_sibling(99, Some(99)), None);
    assert_eq!(select_x11_active_sibling(99, Some(0)), None);
}

/// A window of 100 by 100 at `x`, with the pointer at `cursor`.
fn candidate(number: i64, owner_pid: i32, x: f64, cursor: Option<(f64, f64)>) -> MacWindowCandidate {
    MacWindowCandidate {
        number,
        owner_pid,
        layer: 0,
        under_cursor: cursor
            .is_some_and(|(cx, cy)| cx >= x && cx < x + 100.0 && cy >= 0.0 && cy < 100.0),
    }
}

#[test]
fn macos_relative_stack_prefers_frontmost_app_window_under_cursor() {
    let cursor = Some((250.0, 50.0));
    let candidates = vec![candidate(10, 7, 0.0, cursor), candidate(11, 7, 200.0, cursor)];
    assert_eq!(select_frontmost_macos_window(7, 99, &candidates), Some(11));
}

#[test]
fn macos_relative_stack_falls_back_to_frontmost_normal_window() {
    let candidates = vec![candidate(10, 7, 0.0, None), candidate(11, 8, 200.0, None)];
    assert_eq!(select_frontmost_macos_window(7, 99, &candidates), Some(10));
}

#[test]
fn no_window_of_the_frontmost_application_is_no_target() {
    let candidates = vec![candidate(99, 7, 0.0, None), candidate(11, 8, 200.0, None)];
    assert_eq!(select_frontmost_macos_window(7, 99, &candidates), None);
}

#[test]
fn a_walk_to_the_root_ends_at_its_child() {
    assert_eq!(RootChildWalk::start(1, 0), None);
    assert_eq!(RootChildWalk::start(1, 1), None);
    let walk = RootChildWalk::start(1, 30).expect("a window below the root");
    assert_eq!(walk.left, ROOT_WALK_LIMIT);
    let up = match walk.advance(Some((1, 20))) {
        RootWalkStep::Query(next) => next,
        RootWalkStep::Done(done) => panic!("ended early with {done:?}"),
    };
    assert_eq!(up.current, 20);
    assert_eq!(up.advance(Some((1, 1))), RootWalkStep::Done(Some(20)));
    assert_eq!(up.advance(Some((2, 1))), RootWalkStep::Done(None));
    assert_eq!(up.advance(None), RootWalkStep::Done(None));
}

#[test]
fn a_walk_gives_up_at_last() {
    let mut walk = RootChildWalk::start(1, 1000).expect("a window below the root");
    let mut asked = 1;
    while let RootWalkStep::Query(next) = walk.advance(Some((1, walk.current + 1))) {
        walk = next;
        asked += 1;
    }
    assert_eq!(asked, ROOT_WALK_LIMIT);
}

#[test]
fn a_ring_is_centred_and_stays_on_the_screen() {
    assert_eq!(centered_origin(800, 400, 0, 1600), 600);
    assert_eq!(centered_origin(10, 400, 0, 1600), 0);
    assert_eq!(centered_origin(1590, 400, 0, 1600), 1200);
    assert_eq!(centered_origin(10, 400, 100, 300), 100);
}

#[test]
fn other_window_systems_need_no_configuration() {
    configure_application();
    configure_windows();
}

#[test]
fn activation_takes_priority_over_queued_hover_updates() {
    let hover = OverlayCommand::Hover { session_id: 1, slot: TOP };
    let activation = OverlayCommand::Activate { session_id: 1, slot: RIGHT };
    assert!(matches!(
        coalesce_command(hover, activation),
        OverlayCommand::Activate { slot: RIGHT, .. }
    ));
    assert!(matches!(coalesce_command(activation, hover), OverlayCommand::Activate { .. }));
}

#[test]
fn a_new_sessions_hover_survives_the_previous_sessions_dismissal() {
    let closing = OverlayCommand::Cancel { session_id: 1 };
    let hover = OverlayCommand::Hover { session_id: 2, slot: TOP };

    assert!(matches!(
        coalesce_command(closing, hover),
        OverlayCommand::Hover { session_id: 2, .. }
    ));
}

#[test]
fn a_queue_of_hovers_keeps_the_end_of_the_session() {
    let closing = OverlayCommand::Cancel { session_id: 1 };
    let hovers = vec![
        OverlayCommand::Hover { session_id: 1, slot: TOP },
        OverlayCommand::Hover { session_id: 1, slot: RIGHT },
    ];
    assert_eq!(coalesce_all(closing, &hovers), closing);
    assert_eq!(coalesce_all(hovers[0], &vec![hovers[1], closing]), closing);
}

#[test]
fn newer_activation_supersedes_a_stale_retry_immediately() {
    let stale = OverlayCommand::Cancel { session_id: 1 };
    let replacement = OverlayCommand::Activate { session_id: 2, slot: RIGHT };
    let worker = CommandWorker::new(1_000)
        .step(DeliveryEvent::Command(stale), 0)
        .step(DeliveryEvent::Connected(false), 5);
    assert_eq!(worker.state, Delivery::Pausing { command: stale, deadline: Some(1_000) });

    let worker = worker.step(DeliveryEvent::Command(replacement), 10);
    assert_eq!(worker.state, Delivery::Connecting { command: replacement, deadline: Some(1_010) });
}

#[test]
fn newer_activation_supersedes_a_stalled_terminal_request() {
    let stale = OverlayCommand::Cancel { session_id: 1 };
    let replacement = OverlayCommand::Activate { session_id: 2, slot: RIGHT };
    let worker = CommandWorker::new(1_000)
        .step(DeliveryEvent::Command(stale), 0)
        .step(DeliveryEvent::Connected(true), 1);
    assert_eq!(worker.state, Delivery::Sending { command: stale, deadline: Some(1_000) });

    let worker = worker.step(DeliveryEvent::Command(replacement), 10);
    assert_eq!(worker.state, Delivery::Sending { command: replacement, deadline: Some(1_010) });
    let worker = worker.step(DeliveryEvent::Answered(true), 11);
    assert_eq!(worker.state, Delivery::Idle);
    assert!(worker.connected);
}

#[test]
fn stalled_hover_stops_when_the_command_channel_closes() {
    let hover = OverlayCommand::Hover { session_id: 1, slot: TOP };
    let worker = CommandWorker::new(1_000)
        .step(DeliveryEvent::Command(hover), 0)
        .step(DeliveryEvent::Connected(true), 1)
        .step(DeliveryEvent::Closed, 2);
    assert_eq!(worker.state, Delivery::Stopped);
    assert_eq!(worker.step(DeliveryEvent::Command(hover), 3).state, Delivery::Stopped);
}

#[test]
fn a_hover_that_fails_is_not_retried() {
    let hover = OverlayCommand::Hover { session_id: 1, slot: TOP };
    let worker = CommandWorker::new(1_000)
        .step(DeliveryEvent::Command(hover), 0)
        .step(DeliveryEvent::Connected(true), 1)
        .step(DeliveryEvent::Answered(false), 2);
    assert_eq!(worker.state, Delivery::Idle);
    assert!(!worker.connected);
}

#[test]
fn the_end_of_a_session_is_retried_until_its_deadline() {
    let closing = OverlayCommand::Cancel { session_id: 1 };
    let pausing = CommandWorker::new(1_000)
        .step(DeliveryEvent::Command(closing), 0)
        .step(DeliveryEvent::Connected(true), 1)
        .step(DeliveryEvent::Answered(false), 999);
    assert_eq!(pausing.state, Delivery::Pausing { command: closing, deadline: Some(1_000) });
    let again = pausing.step(DeliveryEvent::PauseOver, 999);
    assert_eq!(again.state, Delivery::Connecting { command: closing, deadline: Some(1_000) });
    assert_eq!(again.step(DeliveryEvent::Connected(false), 1_000).state, Delivery::Idle);
    assert_eq!(again.step(DeliveryEvent::Expired, 1_000).state, Delivery::Idle);
}

#[test]
fn only_terminal_commands_are_retryable() {
    let hover = OverlayCommand::Hover { session_id: 1, slot: TOP };
    let activation = OverlayCommand::Activate { session_id: 1, slot: TOP };
    let cancellation = OverlayCommand::Cancel { session_id: 1 };
    assert!(!hover.is_terminal());
    assert!(activation.is_terminal());
    assert!(cancellation.is_terminal());
}

#[test]
fn terminal_retries_last_only_until_the_session_deadline() {
    let started = Instant::now();
    let at = |instant: Instant| instant.duration_since(started).as_millis() as u64;
    let now = started + Duration::from_secs(5);
    assert!(retry_before(at(now), Some(at(now + Duration::from_secs(1)))));
    let past = now.checked_sub(Duration::from_secs(1)).unwrap_or(now);
    assert!(!retry_before(at(now), Some(at(past))));
    assert!(!retry_before(at(now), Some(at(now))), "a deadline is over once it is reached");
    assert!(!retry_before(at(now), None));
}

#[test]
fn stale_session_cannot_dismiss_reused_window() {
    assert!(session_targets(12, Some(12)));
    assert!(!session_targets(11, Some(12)));
    assert!(!session_targets(12, None));
}

#[test]
fn no_click_is_observed_when_no_ring_is_showing() {
    let mut live = ClickAwaySession::new();
    assert_eq!(live.observe(), None);
    live.set(11);
    live.clear();
    assert_eq!(live.observe(), None);
}

#[test]
fn a_click_queued_before_a_new_ring_does_not_target_it() {
    let mut live = ClickAwaySession::new();
    live.set(11);
    let queued = live.observe().expect("a showing ring is observable");
    live.set(12);
    assert!(
        !click_away_targets(queued, live.observe().expect("replacement is showing")),
        "a click snapshotted against the previous session must not close the new ring"
    );
}

#[test]
fn a_click_against_the_showing_ring_targets_it() {
    let mut live = ClickAwaySession::new();
    live.set(7);
    let queued = live.observe().expect("a showing ring is observable");
    assert!(click_away_targets(queued, 7));
}

fn invocation(session_id: u64) -> ActionRingInvocation {
    ActionRingInvocation {
        session_id,
        slots: vec![
            (TOP, SlotPresentation { label: "Copy".into(), literal: false, icon: 3 }),
            (RIGHT, SlotPresentation { label: "My script".into(), literal: true, icon: 8 }),
        ],
        language: None,
    }
}

#[test]
fn a_ring_reports_each_hover_once() {
    let mut view = RingView::new(Some(invocation(4)), true);
    assert_eq!(
        view.hover(4, TOP, true),
        (Some(OverlayCommand::Hover { session_id: 4, slot: TOP }), true)
    );
    assert_eq!(view.hover(4, TOP, true), (None, false));
    assert_eq!(view.slot_element(TOP), Some((3, true)));
    assert_eq!(view.slot_element(RIGHT), Some((8, false)));
    assert_eq!(view.slot_element(ActionRingSlot { index: 5 }), None);
    assert_eq!(view.hovered_label(), Some(RingLabel::Translate("Copy".into())));
    assert_eq!(view.hover(4, TOP, false), (None, true));
    assert_eq!(view.hovered_label(), None);
    view.hover(4, RIGHT, true);
    assert_eq!(view.hovered_label(), Some(RingLabel::Verbatim("My script".into())));
}

#[test]
fn activating_a_slot_closes_its_ring() {
    let mut live = ClickAwaySession::new();
    live.set(4);
    let mut view = RingView::new(Some(invocation(4)), false);
    let (report, fate) = view.activate(4, RIGHT, &mut live);
    assert_eq!(report, OverlayCommand::Activate { session_id: 4, slot: RIGHT });
    assert_eq!(fate, Some(WindowFate::Remove));
    assert_eq!(view.current_session(), None);
    assert_eq!(live.observe(), None);
    assert_eq!(view.expire(4, &mut live), None);
}

#[test]
fn a_ring_expires_only_while_it_is_open() {
    let mut live = ClickAwaySession::new();
    let mut view = RingView::new(None, true);
    view.install(invocation(9));
    live.set(9);
    assert_eq!(view.expire(8, &mut live), None);
    assert_eq!(
        view.expire(9, &mut live),
        Some((OverlayCommand::Cancel { session_id: 9 }, WindowFate::Hide))
    );
}

#[test]
fn a_click_outside_cancels_the_ring_it_was_aimed_at() {
    let mut live = ClickAwaySession::new();
    let mut view = RingView::new(Some(invocation(9)), true);
    live.set(9);
    assert_eq!(view.dismiss_click_away(8, &mut live), None);
    assert_eq!(view.current_session(), Some(9));
    assert_eq!(
        view.dismiss_click_away(9, &mut live),
        Some((OverlayCommand::Cancel { session_id: 9 }, WindowFate::Hide))
    );
    assert_eq!(view.dismiss_click_away(9, &mut live), None);
}

#[test]
fn a_second_press_closes_the_ring() {
    let mut live = ClickAwaySession::new();
    let mut view = RingView::new(None, true);
    assert_eq!(
        handle_warm_invocation(&mut view, invocation(3), &mut live),
        WarmStep::Show { session_id: 3 }
    );
    assert_eq!(finish_warm(&mut view, 3, true, &mut live), ShowOutcome::Shown);
    assert_eq!(live.observe(), Some(3));
    let close = ActionRingInvocation { session_id: 4, slots: vec![], language: None };
    assert_eq!(
        handle_warm_invocation(&mut view, close, &mut live),
        WarmStep::Dismissed {
            report: OverlayCommand::Cancel { session_id: 4 },
            fate: WindowFate::Hide,
        }
    );
    assert_eq!(view.current_session(), None);
    assert_eq!(live.observe(), None);
}

#[test]
fn a_ring_that_cannot_be_shown_is_cancelled() {
    let mut live = ClickAwaySession::new();
    let mut view = RingView::new(None, true);
    handle_warm_invocation(&mut view, invocation(3), &mut live);
    assert_eq!(
        finish_warm(&mut view, 3, false, &mut live),
        ShowOutcome::Failed {
            report: OverlayCommand::Cancel { session_id: 3 },
            fate: Some(WindowFate::Hide),
        }
    );
    assert_eq!(view.current_session(), None);
}

#[test]
fn a_ring_with_a_window_of_its_own_opens_and_closes() {
    let mut live = ClickAwaySession::new();
    assert_eq!(handle_cold_invocation(&invocation(5), &mut live), ColdStep::Open { session_id: 5 });
    assert!(!finish_cold(5, false, &mut live));
    assert_eq!(live.observe(), None);
    assert!(finish_cold(5, true, &mut live));
    assert_eq!(live.observe(), Some(5));
    let close = ActionRingInvocation { session_id: 6, slots: vec![], language: None };
    assert_eq!(
        handle_cold_invocation(&close, &mut live),
        ColdStep::CloseAll { report: OverlayCommand::Cancel { session_id: 6 } }
    );
    assert_eq!(live.observe(), None);
}

#[test]
fn an_overlay_serves_the_run_that_answered_first() {
    let mut allegiance = Allegiance::new(3, None);
    assert_eq!(allegiance.observe(2, 10), Standing::Incompatible { ours: 3, owner: 2 });
    assert_eq!(allegiance.observe(3, 10), Standing::Current);
    assert_eq!(allegiance.observe(3, 10), Standing::Current);
    assert_eq!(allegiance.observe(3, 11), Standing::NewRun { sworn: 10, owner: 11 });
}

#[test]
fn a_spawned_overlay_knows_its_run_from_the_start() {
    let mut allegiance = Allegiance::new(3, parse_run_token("10"));
    assert_eq!(allegiance.observe(3, 11), Standing::NewRun { sworn: 10, owner: 11 });
}

#[test]
fn run_tokens_are_decimal() {
    assert_eq!(parse_run_token("0"), Some(0));
    assert_eq!(parse_run_token("+42"), Some(42));
    assert_eq!(parse_run_token("18446744073709551615"), Some(u64::MAX));
    assert_eq!(parse_run_token("18446744073709551616"), None);
    assert_eq!(parse_run_token(""), None);
    assert_eq!(parse_run_token("+"), None);
    assert_eq!(parse_run_token("-1"), None);
    assert_eq!(parse_run_token("12a"), None);
}
