use tdengine::engine::{Axis, Engine, Frame, Key, Motion, Step, GROW, SECOND, SHRINK, TURN};
use tdengine::model::{cube_indicies, cube_verticies};
use tdengine::vec::Vector2;

const FRAME: u64 = 16_666_667;

fn state(engine: &Engine) -> (usize, usize, u32, u32, bool, bool) {
    (
        engine.canvas.verticies.len(),
        engine.canvas.indicies.len(),
        engine.fov,
        engine.max_fps,
        engine.should_stop,
        engine.show_ui,
    )
}

fn cube_engine() -> Engine {
    let mut engine = Engine::new();
    let fov = engine.fov as f32;
    engine.canvas.verticies = cube_verticies()
        .iter()
        .map(|v| {
            let depth = v.z as f32 + fov;
            Vector2::new((v.x as f32 * fov / depth).round() as i32, (v.y as f32 * fov / depth).round() as i32)
        })
        .collect();
    engine.canvas.indicies = cube_indicies();
    engine
}

#[test]
fn a_new_engine_runs_at_sixty_frames_and_shows_its_status_line() {
    let engine = Engine::new();
    assert_eq!(state(&engine), (0, 0, 90, 60, false, true));
}

#[test]
fn the_constants_are_those_of_the_keys() {
    assert_eq!((GROW, SHRINK, TURN, SECOND), (101, 99, 4, 1_000_000_000));
}

#[test]
fn a_frame_is_due_after_a_sixtieth_of_a_second() {
    let engine = Engine::new();
    assert!(!engine.frame_due(0));
    assert!(!engine.frame_due(16_666_666));
    assert!(engine.frame_due(16_666_667));
    assert!(engine.frame_due(u64::MAX));
}

#[test]
fn a_frame_is_due_by_the_rate_that_is_set() {
    let mut engine = Engine::new();
    engine.max_fps = 1;
    assert!(!engine.frame_due(999_999_999));
    assert!(engine.frame_due(1_000_000_000));
    engine.max_fps = 0;
    assert!(!engine.frame_due(u64::MAX));
    engine.max_fps = u32::MAX;
    assert!(!engine.frame_due(0));
    assert!(engine.frame_due(1));
}

#[test]
fn before_a_frame_is_due_nothing_happens_however_often_asked() {
    let mut engine = cube_engine();
    let before = state(&engine);
    let verticies = engine.canvas.verticies.clone();
    for key in [None, Some(Key::Char('q')), Some(Key::Tab), Some(Key::Up), Some(Key::Left)] {
        for elapsed in [0, 1, 1_000_000, 16_666_666] {
            assert_eq!(engine.update(elapsed, key), Step::Wait);
            assert_eq!(state(&engine), before);
            assert_eq!(engine.canvas.verticies, verticies);
        }
    }
    assert_eq!(engine.update(FRAME, None), Step::Draw(Motion::Still));
}

#[test]
fn without_a_key_a_frame_is_drawn_and_the_model_stays() {
    let mut engine = Engine::new();
    assert_eq!(engine.update(FRAME, None), Step::Draw(Motion::Still));
    assert_eq!(state(&engine), (0, 0, 90, 60, false, true));
}

#[test]
fn the_arrows_up_and_down_scale_the_model() {
    let mut engine = Engine::new();
    assert_eq!(engine.update(FRAME, Some(Key::Up)), Step::Draw(Motion::Scale { percent: 101 }));
    assert_eq!(engine.update(FRAME, Some(Key::Down)), Step::Draw(Motion::Scale { percent: 99 }));
    assert_eq!(state(&engine), (0, 0, 90, 60, false, true));
}

#[test]
fn the_turning_keys_rotate_the_model_about_their_axes() {
    let mut engine = Engine::new();
    let turns = [
        (Key::Left, Axis::Y, false),
        (Key::Right, Axis::Y, true),
        (Key::Char('j'), Axis::X, false),
        (Key::Char('k'), Axis::X, true),
        (Key::Char('h'), Axis::Z, false),
        (Key::Char('l'), Axis::Z, true),
    ];
    for (key, axis, reverse) in turns {
        assert_eq!(engine.update(FRAME, Some(key)), Step::Draw(Motion::Rotate { axis, reverse }));
    }
    assert_eq!(state(&engine), (0, 0, 90, 60, false, true));
}

#[test]
fn other_keys_do_nothing() {
    let mut engine = Engine::new();
    for key in [Key::Other, Key::Char('Q'), Key::Char('x'), Key::Char('J'), Key::Char(' ')] {
        assert_eq!(engine.update(FRAME, Some(key)), Step::Draw(Motion::Still));
    }
    assert_eq!(state(&engine), (0, 0, 90, 60, false, true));
}

#[test]
fn tab_shows_and_hides_the_status_line() {
    let mut engine = Engine::new();
    assert_eq!(engine.update(FRAME, Some(Key::Tab)), Step::Draw(Motion::Still));
    assert!(!engine.show_ui);
    assert_eq!(engine.render(FRAME).fps, None);
    assert_eq!(engine.update(FRAME, Some(Key::Tab)), Step::Draw(Motion::Still));
    assert!(engine.show_ui);
    assert_eq!(engine.render(FRAME).fps, Some(60));
}

#[test]
fn q_stops_the_viewer_and_no_frame_follows() {
    let mut engine = cube_engine();
    assert_eq!(engine.update(FRAME, Some(Key::Char('q'))), Step::Quit);
    assert!(engine.should_stop);
    assert!(engine.show_ui);
    assert_eq!(engine.update(FRAME, None), Step::Quit);
    assert_eq!(engine.update(FRAME, Some(Key::Up)), Step::Quit);
    assert_eq!(engine.update(1, Some(Key::Up)), Step::Wait);
}

#[test]
fn the_frame_rate_is_a_second_over_the_time_of_the_frame() {
    let engine = Engine::new();
    assert_eq!(engine.render(16_666_667).fps, Some(60));
    assert_eq!(engine.render(20_000_000).fps, Some(50));
    assert_eq!(engine.render(33_333_333).fps, Some(30));
    assert_eq!(engine.render(1_000_000_000).fps, Some(1));
    assert_eq!(engine.render(1).fps, Some(1_000_000_000));
    assert_eq!(engine.render(3).fps, Some(333_333_333));
}

#[test]
fn the_frame_rate_is_rounded_with_halves_upwards() {
    let engine = Engine::new();
    assert_eq!(engine.render(400_000_000).fps, Some(3));
    assert_eq!(engine.render(666_666_666).fps, Some(2));
    assert_eq!(engine.render(666_666_667).fps, Some(1));
    assert_eq!(engine.render(2_000_000_000).fps, Some(1));
    assert_eq!(engine.render(2_000_000_001).fps, Some(0));
    assert_eq!(engine.render(u64::MAX).fps, Some(0));
}

#[test]
fn one_pass_over_the_cube_draws_its_twelve_edges() {
    let mut engine = cube_engine();
    assert_eq!(engine.update(FRAME, None), Step::Draw(Motion::Still));
    let Frame { lines, fps } = engine.render(FRAME);
    assert_eq!(fps, Some(60));
    assert_eq!(lines.len(), 12);
    for (line, edge) in lines.iter().zip(engine.canvas.indicies.iter()) {
        assert_eq!(line[0], engine.canvas.verticies[edge.x]);
        assert_eq!(line[line.len() - 1], engine.canvas.verticies[edge.y]);
    }
    assert_eq!(lines[0].len(), 5);
    assert_eq!(lines[1].len(), 19);
}
