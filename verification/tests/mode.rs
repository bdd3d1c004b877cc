use amk::exec::loops::GameLoopKind;
use amk::exec::mode::{Mode, MAIN_THREAD_ID, MAX_RUNNERS};
use amk::utils::frequency::Frequency;

#[test]
fn main_thread_id_follows_the_worker_ids() {
    assert_eq!(MAX_RUNNERS, 3);
    assert_eq!(MAIN_THREAD_ID, 3);
}

#[test]
fn default_mode_keeps_everything_on_main_at_rate_one() {
    let mode = Mode::new();
    let once = Frequency::from_parts(1, 0);
    assert_eq!(mode.get(GameLoopKind::Update), (MAIN_THREAD_ID, once));
    assert_eq!(mode.get(GameLoopKind::Render), (MAIN_THREAD_ID, once));
    assert_eq!(mode.get(GameLoopKind::Audio), (MAIN_THREAD_ID, once));
}

#[test]
fn setters_replace_one_entry_each() {
    let once = Frequency::from_parts(1, 0);
    let twice = Frequency::from_parts(2, 0);
    let half = Frequency::from_parts(0, 0x8000_0000);
    let mode = Mode::new().render(0, twice);
    assert_eq!(mode.get(GameLoopKind::Update), (MAIN_THREAD_ID, once));
    assert_eq!(mode.get(GameLoopKind::Render), (0, twice));
    assert_eq!(mode.get(GameLoopKind::Audio), (MAIN_THREAD_ID, once));
    let mode = mode.update(2, half).audio(1, once);
    assert_eq!(mode.get(GameLoopKind::Update), (2, half));
    assert_eq!(mode.get(GameLoopKind::Render), (0, twice));
    assert_eq!(mode.get(GameLoopKind::Audio), (1, once));
}

#[test]
fn later_setter_wins() {
    let half = Frequency::from_parts(0, 0x8000_0000);
    let twice = Frequency::from_parts(2, 0);
    let mode = Mode::new().update(1, half).update(MAIN_THREAD_ID, twice);
    assert_eq!(mode.get(GameLoopKind::Update), (MAIN_THREAD_ID, twice));
}

#[test]
fn set_by_kind_is_the_named_setter() {
    let twice = Frequency::from_parts(2, 0);
    let by_kind = Mode::new().set(GameLoopKind::Audio, 2, twice);
    let by_name = Mode::new().audio(2, twice);
    for kind in [GameLoopKind::Update, GameLoopKind::Render, GameLoopKind::Audio] {
        assert_eq!(by_kind.get(kind), by_name.get(kind));
    }
}
