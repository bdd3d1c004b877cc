use amk::exec::loop_impl::{AudioLoop, PendingResize, UpdateLoop};
use amk::exec::loops::GameLoop;
use amk::exec::msg::{ELGLMMsg, ELRLMsg, PhysicalSize};
use amk::logging::NoColorMsgFormatter;
use amk::scenes::common::close_window::CloseWindowScene;
use amk::scenes::common::resize_window::ResizeWindowScene;
use amk::scenes::event::{Event, WindowEvent};
use amk::scenes::root::RootScene;
use std::sync::Arc;

fn close(window_id: u64) -> Event {
    Event::WindowEvent { window_id, event: WindowEvent::CloseRequested }
}

fn resize(window_id: u64, width: u32, height: u32) -> Event {
    Event::WindowEvent { window_id, event: WindowEvent::Resized(PhysicalSize { width, height }) }
}

#[test]
fn close_request_for_own_window_stops() {
    assert!(matches!(CloseWindowScene::handle_event(&close(7), 7), Some(ELGLMMsg::Stop)));
}

#[test]
fn close_request_for_other_window_is_ignored() {
    assert!(CloseWindowScene::handle_event(&close(8), 7).is_none());
}

#[test]
fn close_scene_ignores_other_events() {
    assert!(CloseWindowScene::handle_event(&resize(7, 1, 1), 7).is_none());
    assert!(CloseWindowScene::handle_event(&Event::Other, 7).is_none());
    let other = Event::WindowEvent { window_id: 7, event: WindowEvent::Other };
    assert!(CloseWindowScene::handle_event(&other, 7).is_none());
}

#[test]
fn resize_of_own_window_is_passed_on() {
    assert_eq!(
        ResizeWindowScene::handle_event(&resize(3, 1280, 720), 3),
        Some(ELRLMsg::Resize(PhysicalSize { width: 1280, height: 720 }))
    );
}

#[test]
fn resize_of_other_window_is_ignored() {
    assert_eq!(ResizeWindowScene::handle_event(&resize(4, 1280, 720), 3), None);
    assert_eq!(ResizeWindowScene::handle_event(&close(3), 3), None);
    assert_eq!(ResizeWindowScene::handle_event(&Event::Other, 3), None);
}

#[test]
fn root_scene_routes_events() {
    let root = RootScene::new();
    let outbox = root.handle_event(close(1), 1);
    assert!(matches!(outbox.manager, Some(ELGLMMsg::Stop)));
    assert_eq!(outbox.render_loop, None);
    let outbox = root.handle_event(resize(1, 800, 600), 1);
    assert!(outbox.manager.is_none());
    assert_eq!(outbox.render_loop, Some(ELRLMsg::Resize(PhysicalSize { width: 800, height: 600 })));
    let outbox = root.handle_event(resize(2, 800, 600), 1);
    assert!(outbox.manager.is_none());
    assert_eq!(outbox.render_loop, None);
    let outbox = root.handle_event(Event::Other, 1);
    assert!(outbox.manager.is_none());
    assert_eq!(outbox.render_loop, None);
}

#[test]
fn update_and_audio_loops_succeed() {
    let root_scene = Arc::new(RootScene::new());
    let mut update = UpdateLoop { root_scene: root_scene.clone() };
    let mut audio = AudioLoop { root_scene };
    assert!(update.run());
    assert!(audio.run());
}

#[test]
fn pending_resize_keeps_the_last_size_until_done() {
    let small = PhysicalSize { width: 640, height: 480 };
    let large = PhysicalSize { width: 1920, height: 1080 };
    let mut pending = PendingResize::new();
    assert_eq!(pending.new_size, None);
    pending.receive(None);
    assert_eq!(pending.new_size, None);
    pending.receive(Some(ELRLMsg::Resize(small)));
    assert_eq!(pending.new_size, Some(small));
    pending.resized(false);
    assert_eq!(pending.new_size, Some(small));
    pending.receive(None);
    assert_eq!(pending.new_size, Some(small));
    pending.receive(Some(ELRLMsg::Resize(large)));
    assert_eq!(pending.new_size, Some(large));
    pending.resized(true);
    assert_eq!(pending.new_size, None);
}

#[test]
fn plain_log_line() {
    let formatter = NoColorMsgFormatter::new();
    assert_eq!(formatter.format("INFO", "amk", "Logger initialized"), "[INFO] [amk] Logger initialized");
    assert_eq!(formatter.format("", "", ""), "[] [] ");
}
