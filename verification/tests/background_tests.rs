use quickmd::background::{
    dispatch, filter_on_event, filter_on_tick, is_relevant, message_of_render, FilterState,
    FsEventKind, LoopAction, LoopEvent, OutboundMessage, RawFsEvent, UpdateLoop, WatchTarget,
    DEBOUNCE_WINDOW_MS,
};
use quickmd::markdown::{MarkdownRenderer, Renderer};

fn write_event(path: &str) -> RawFsEvent {
    RawFsEvent { kind: FsEventKind::Write, affected_paths: vec![path.to_owned()] }
}

#[test]
fn test_filter_opens_window_and_fires_at_deadline() {
    let pending = filter_on_event(FilterState::Idle, FsEventKind::Write, 10);
    assert_eq!(pending, FilterState::Pending { deadline: 10 + DEBOUNCE_WINDOW_MS, will_fire: true });
    assert_eq!(filter_on_tick(pending, 10 + DEBOUNCE_WINDOW_MS - 1), (pending, false));
    assert_eq!(filter_on_tick(pending, 10 + DEBOUNCE_WINDOW_MS), (FilterState::Idle, true));
}

#[test]
fn test_filter_coalesces_burst_into_one_signal() {
    let first = filter_on_event(FilterState::Idle, FsEventKind::Write, 10);
    let second = filter_on_event(first, FsEventKind::Write, 20);
    // The window is anchored at the first event; the burst fires once.
    assert_eq!(second, FilterState::Pending { deadline: 10 + DEBOUNCE_WINDOW_MS, will_fire: true });
    let (after, fired) = filter_on_tick(second, 10 + DEBOUNCE_WINDOW_MS);
    assert_eq!(after, FilterState::Idle);
    assert!(fired);
    assert_eq!(filter_on_tick(after, 300), (FilterState::Idle, false));
}

#[test]
fn test_filter_remove_alone_never_fires() {
    let pending = filter_on_event(FilterState::Idle, FsEventKind::Remove, 10);
    assert_eq!(pending, FilterState::Pending { deadline: 10 + DEBOUNCE_WINDOW_MS, will_fire: false });
    assert_eq!(filter_on_tick(pending, 300), (FilterState::Idle, false));
}

#[test]
fn test_filter_remove_then_create_fires_once() {
    let removed = filter_on_event(FilterState::Idle, FsEventKind::Remove, 10);
    let recreated = filter_on_event(removed, FsEventKind::Create, 20);
    assert_eq!(filter_on_tick(recreated, 10 + DEBOUNCE_WINDOW_MS), (FilterState::Idle, true));
}

#[test]
fn test_is_relevant_matches_target_paths() {
    let target = WatchTarget::with_canonical_path("file.md".to_owned(), "/tmp/docs/file.md".to_owned());
    assert!(is_relevant(&write_event("/tmp/docs/file.md"), &target));
    assert!(is_relevant(&write_event("file.md"), &target));
    assert!(!is_relevant(&write_event("/tmp/docs/other.md"), &target));
    let empty = RawFsEvent { kind: FsEventKind::Write, affected_paths: vec![] };
    assert!(!is_relevant(&empty, &target));
}

#[test]
fn test_message_of_render_keeps_outcome() {
    let renderer = MarkdownRenderer::new("file.md".to_owned());
    let content = renderer.run(&"# Test".to_owned());
    match message_of_render(Ok(content)) {
        OutboundMessage::ContentReady(c) => assert_eq!(c.html, "<h1>Test</h1>\n"),
        OutboundMessage::RenderFailed(_) => panic!("success must become ContentReady"),
    }
    match message_of_render(Err("no such file".to_owned())) {
        OutboundMessage::RenderFailed(description) => assert_eq!(description, "no such file"),
        OutboundMessage::ContentReady(_) => panic!("failure must become RenderFailed"),
    }
}

#[test]
fn test_dispatch_renders_successful_read_once() {
    let renderer = MarkdownRenderer::new("file.md".to_owned());
    match dispatch(&renderer, Ok("# Test".to_owned())) {
        OutboundMessage::ContentReady(c) => assert_eq!(c.html, "<h1>Test</h1>\n"),
        OutboundMessage::RenderFailed(_) => panic!("a successful read must be rendered"),
    }
    match dispatch(&renderer, Err("permission denied".to_owned())) {
        OutboundMessage::RenderFailed(description) => assert_eq!(description, "permission denied"),
        OutboundMessage::ContentReady(_) => panic!("a failed read must be reported"),
    }
}

#[test]
fn test_init_failure_stops_before_watching() {
    let target = WatchTarget::new("file.md".to_owned());
    let mut update_loop = UpdateLoop::init(target, false);
    let action = update_loop.step(LoopEvent::Notification { event: write_event("file.md"), now: 10 });
    assert!(matches!(action, LoopAction::Stop));
}

// Scenario: the file holds "# Test", the loop starts, the file is overwritten
// with "# Changed": exactly one message arrives, carrying the new content, and
// a later wait brings nothing further.
#[test]
fn test_update_loop_single_message_per_overwrite() {
    let renderer = MarkdownRenderer::new("file.md".to_owned());
    let target = WatchTarget::new("file.md".to_owned());
    let mut update_loop = UpdateLoop::init(target, true);

    let action = update_loop.step(LoopEvent::Notification { event: write_event("file.md"), now: 10 });
    assert!(matches!(action, LoopAction::Continue));

    let action = update_loop.step(LoopEvent::TimerTick { now: 10 + DEBOUNCE_WINDOW_MS });
    assert!(matches!(action, LoopAction::StartRender));

    let rendered = renderer.run(&"# Changed".to_owned());
    let action = update_loop.step(LoopEvent::RenderDone { result: Ok(rendered) });
    match action {
        LoopAction::Emit(OutboundMessage::ContentReady(c)) => assert_eq!(c.html, "<h1>Changed</h1>\n"),
        _ => panic!("the render must be emitted as one ContentReady message"),
    }

    let action = update_loop.step(LoopEvent::TimerTick { now: 300 });
    assert!(matches!(action, LoopAction::Continue));
}

// Scenario: the watched file is deleted, then a new file appears at the same
// path with different content: exactly one message arrives, reflecting the new
// content, with no failure message in between.
#[test]
fn test_update_loop_delete_then_recreate_yields_one_message() {
    let renderer = MarkdownRenderer::new("file.md".to_owned());
    let target = WatchTarget::new("file.md".to_owned());
    let mut update_loop = UpdateLoop::init(target, true);

    let removed = RawFsEvent { kind: FsEventKind::Remove, affected_paths: vec!["file.md".to_owned()] };
    let action = update_loop.step(LoopEvent::Notification { event: removed, now: 10 });
    assert!(matches!(action, LoopAction::Continue));

    let recreated = RawFsEvent { kind: FsEventKind::Create, affected_paths: vec!["file.md".to_owned()] };
    let action = update_loop.step(LoopEvent::Notification { event: recreated, now: 20 });
    assert!(matches!(action, LoopAction::Continue));

    let action = update_loop.step(LoopEvent::TimerTick { now: 10 + DEBOUNCE_WINDOW_MS });
    assert!(matches!(action, LoopAction::StartRender));

    let rendered = renderer.run(&"# Changed".to_owned());
    let action = update_loop.step(LoopEvent::RenderDone { result: Ok(rendered) });
    match action {
        LoopAction::Emit(OutboundMessage::ContentReady(c)) => assert_eq!(c.html, "<h1>Changed</h1>\n"),
        _ => panic!("the recreated content must arrive as one ContentReady message"),
    }

    let action = update_loop.step(LoopEvent::TimerTick { now: 300 });
    assert!(matches!(action, LoopAction::Continue));
}

// A removal with no recreation: no message, and the loop keeps watching.
#[test]
fn test_update_loop_remove_without_recreate_stays_alive() {
    let target = WatchTarget::new("file.md".to_owned());
    let mut update_loop = UpdateLoop::init(target, true);

    let removed = RawFsEvent { kind: FsEventKind::Remove, affected_paths: vec!["file.md".to_owned()] };
    let action = update_loop.step(LoopEvent::Notification { event: removed, now: 10 });
    assert!(matches!(action, LoopAction::Continue));

    let action = update_loop.step(LoopEvent::TimerTick { now: 10 + DEBOUNCE_WINDOW_MS });
    assert!(matches!(action, LoopAction::Continue));

    // Still watching: a later write is picked up as usual.
    let action = update_loop.step(LoopEvent::Notification { event: write_event("file.md"), now: 400 });
    assert!(matches!(action, LoopAction::Continue));
    let action = update_loop.step(LoopEvent::TimerTick { now: 400 + DEBOUNCE_WINDOW_MS });
    assert!(matches!(action, LoopAction::StartRender));
}

// Irrelevant filesystem noise never triggers a render.
#[test]
fn test_update_loop_ignores_unrelated_paths() {
    let target = WatchTarget::new("file.md".to_owned());
    let mut update_loop = UpdateLoop::init(target, true);

    let action = update_loop.step(LoopEvent::Notification { event: write_event("other.md"), now: 10 });
    assert!(matches!(action, LoopAction::Continue));
    let action = update_loop.step(LoopEvent::TimerTick { now: 300 });
    assert!(matches!(action, LoopAction::Continue));
}

// After the consumer closes its end of the channel the loop stops at the next
// step and never acts again.
#[test]
fn test_update_loop_stops_after_channel_closes() {
    let target = WatchTarget::new("file.md".to_owned());
    let mut update_loop = UpdateLoop::init(target, true);

    let action = update_loop.step(LoopEvent::ChannelClosed);
    assert!(matches!(action, LoopAction::Stop));

    let action = update_loop.step(LoopEvent::Notification { event: write_event("file.md"), now: 10 });
    assert!(matches!(action, LoopAction::Stop));
    let action = update_loop.step(LoopEvent::TimerTick { now: 300 });
    assert!(matches!(action, LoopAction::Stop));
}

// A failing render is reported to the consumer and the loop keeps going.
#[test]
fn test_update_loop_reports_render_failure_and_continues() {
    let target = WatchTarget::new("file.md".to_owned());
    let mut update_loop = UpdateLoop::init(target, true);

    let action = update_loop.step(LoopEvent::Notification { event: write_event("file.md"), now: 10 });
    assert!(matches!(action, LoopAction::Continue));
    let action = update_loop.step(LoopEvent::TimerTick { now: 10 + DEBOUNCE_WINDOW_MS });
    assert!(matches!(action, LoopAction::StartRender));

    let action = update_loop.step(LoopEvent::RenderDone { result: Err("locked".to_owned()) });
    match action {
        LoopAction::Emit(OutboundMessage::RenderFailed(description)) => assert_eq!(description, "locked"),
        _ => panic!("a failed render must be reported as RenderFailed"),
    }

    // The loop is back to watching.
    let action = update_loop.step(LoopEvent::Notification { event: write_event("file.md"), now: 200 });
    assert!(matches!(action, LoopAction::Continue));
}

// The watcher backend failing is fatal.
#[test]
fn test_update_loop_stops_on_watcher_failure() {
    let target = WatchTarget::new("file.md".to_owned());
    let mut update_loop = UpdateLoop::init(target, true);
    let action = update_loop.step(LoopEvent::WatchFailed);
    assert!(matches!(action, LoopAction::Stop));
    let action = update_loop.step(LoopEvent::TimerTick { now: 300 });
    assert!(matches!(action, LoopAction::Stop));
}
