use scene_viewer::input::{key_system, Diagnostic, KeyInput};
use scene_viewer::motion::scene_entity_amplitudes;
use scene_viewer::startup::{startup_spawns, Spawn};

fn input(space: bool, escape: bool, left: bool) -> KeyInput {
    KeyInput { space_pressed: space, escape_just_pressed: escape, left_just_pressed: left }
}

/// Runs the input system over successive frames, given whether each input is
/// down in each frame; returns the exit requests and the lines written.
fn run(space: &[bool], escape: &[bool], left: &[bool]) -> (usize, Vec<Diagnostic>) {
    let mut exits = 0;
    let mut lines = Vec::new();
    for i in 0..space.len() {
        let newly = |held: &[bool]| held[i] && (i == 0 || !held[i - 1]);
        let actions = key_system(input(space[i], newly(escape), newly(left)));
        if actions.exit {
            exits += 1;
        }
        lines.extend(actions.diagnostics);
    }
    (exits, lines)
}

#[test]
fn idle_frame_does_nothing() {
    let a = key_system(input(false, false, false));
    assert!(a.diagnostics.is_empty());
    assert!(!a.exit);
}

#[test]
fn space_held_writes_a_line() {
    let a = key_system(input(true, false, false));
    assert_eq!(a.diagnostics, vec![Diagnostic::SpaceHeld]);
    assert!(!a.exit);
}

#[test]
fn escape_asks_to_exit() {
    let a = key_system(input(false, true, false));
    assert!(a.diagnostics.is_empty());
    assert!(a.exit);
}

#[test]
fn left_click_writes_a_line() {
    let a = key_system(input(false, false, true));
    assert_eq!(a.diagnostics, vec![Diagnostic::LeftClick]);
    assert!(!a.exit);
}

#[test]
fn all_inputs_in_one_frame() {
    let a = key_system(input(true, true, true));
    assert_eq!(a.diagnostics, vec![Diagnostic::SpaceHeld, Diagnostic::LeftClick]);
    assert!(a.exit);
}

#[test]
fn diagnostic_texts() {
    assert_eq!(Diagnostic::SpaceHeld.text(), "space is being held down");
    assert_eq!(Diagnostic::LeftClick.text(), "a left click just happened");
}

#[test]
fn holding_escape_exits_once() {
    let none = [false; 6];
    let escape = [false, true, true, true, true, true];
    let (exits, lines) = run(&none, &escape, &none);
    assert_eq!(exits, 1);
    assert!(lines.is_empty());
}

#[test]
fn pressing_escape_again_exits_again() {
    let none = [false; 5];
    let escape = [true, true, false, true, true];
    let (exits, _) = run(&none, &escape, &none);
    assert_eq!(exits, 2);
}

#[test]
fn space_writes_each_held_frame() {
    let none = [false; 7];
    let space = [true, true, true, false, false, true, true];
    let (exits, lines) = run(&space, &none, &none);
    assert_eq!(exits, 0);
    assert_eq!(lines, vec![Diagnostic::SpaceHeld; 5]);
}

#[test]
fn holding_left_button_writes_once() {
    let none = [false; 5];
    let left = [false, true, true, true, true];
    let (exits, lines) = run(&none, &none, &left);
    assert_eq!(exits, 0);
    assert_eq!(lines, vec![Diagnostic::LeftClick]);
}

#[test]
fn no_amplitudes_for_no_entities() {
    assert!(scene_entity_amplitudes(0).is_empty());
}

#[test]
fn amplitudes_alternate_and_grow() {
    assert_eq!(scene_entity_amplitudes(5), vec![2, -3, 4, -5, 6]);
}

#[test]
fn startup_spawns_in_order() {
    assert_eq!(
        startup_spawns(),
        vec![Spawn::SceneRoot, Spawn::SceneInstance, Spawn::Camera, Spawn::RotatingLight]
    );
}

#[test]
fn startup_spawns_each_kind_once() {
    let spawns = startup_spawns();
    for kind in [Spawn::SceneRoot, Spawn::SceneInstance, Spawn::Camera, Spawn::RotatingLight] {
        assert_eq!(spawns.iter().filter(|s| **s == kind).count(), 1);
    }
}

#[test]
fn spawn_assets() {
    assert_eq!(Spawn::SceneRoot.asset(), Some("console.glb#Scene0"));
    assert_eq!(Spawn::SceneInstance.asset(), Some("console.glb"));
    assert_eq!(Spawn::Camera.asset(), None);
    assert_eq!(Spawn::RotatingLight.asset(), None);
}
