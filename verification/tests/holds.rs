use rustic_app::holds::{
    ActiveHolds, AutoReceptors, HeldLanes, HoldRelease, HoldTick, InputAction, InputState, Lane,
    NormalizedInputEvent, NoteId, ReceptorState,
};
use rustic_app::timing::Samples;

fn hold_release(end: i64, elapsed: i64) -> Option<HoldRelease> {
    Some(HoldRelease {
        hold_end_at: Samples(end),
        elapsed_samples: elapsed,
    })
}

fn hold_tick(lane: Lane, elapsed_samples: i64) -> HoldTick {
    HoldTick {
        lane,
        elapsed_samples,
    }
}

fn event_at(action: InputAction, state: InputState, cursor: Samples) -> NormalizedInputEvent {
    NormalizedInputEvent::new(action, state, 0, cursor)
}

fn event(action: InputAction, state: InputState) -> NormalizedInputEvent {
    event_at(action, state, Samples(0))
}

#[test]
fn active_holds_report_drops_and_completions_once() {
    let mut holds = ActiveHolds::default();
    holds.start(Lane::Left, Samples(200), Samples(100));

    let lanes: Vec<_> = holds.active_lanes(Samples(150));
    assert_eq!(lanes, vec![Lane::Left]);
    assert_eq!(
        holds.release(Lane::Left, Samples(160)),
        hold_release(200, 60)
    );
    assert_eq!(holds.release(Lane::Left, Samples(170)), None);

    holds.start(Lane::Down, Samples(300), Samples(200));
    assert_eq!(holds.complete_elapsed(Samples(299)), Vec::<Lane>::new());
    assert_eq!(holds.complete_elapsed(Samples(300)), vec![Lane::Down]);
    assert_eq!(holds.complete_elapsed(Samples(301)), Vec::<Lane>::new());
}

#[test]
fn active_holds_score_elapsed_time_until_release_or_completion() {
    let mut holds = ActiveHolds::default();
    holds.start(Lane::Left, Samples(200), Samples(100));

    assert_eq!(
        holds.score_ticks(Samples(140)),
        vec![hold_tick(Lane::Left, 40)]
    );
    assert_eq!(
        holds.release(Lane::Left, Samples(180)),
        hold_release(200, 40)
    );

    holds.start(Lane::Down, Samples(300), Samples(200));
    assert_eq!(
        holds.score_ticks(Samples(350)),
        vec![hold_tick(Lane::Down, 100)]
    );
    assert_eq!(holds.complete_elapsed(Samples(350)), vec![Lane::Down]);
}

#[test]
fn lane_events_update_held_state() {
    let mut held = HeldLanes::default();

    assert_eq!(
        held.apply(&event(InputAction::LaneLeft, InputState::Pressed)),
        Some(Lane::Left)
    );
    assert!(held.is_held(Lane::Left));

    held.apply(&event(InputAction::LaneLeft, InputState::Released));
    assert!(!held.is_held(Lane::Left));
}

#[test]
fn non_lane_events_do_not_change_held_state() {
    let mut held = HeldLanes::default();

    assert_eq!(
        held.apply(&event(InputAction::Confirm, InputState::Pressed)),
        None
    );
    assert!(held.active_lanes().is_empty());
}

#[test]
fn active_lanes_preserve_fnf_lane_order() {
    let mut held = HeldLanes::default();
    held.apply(&event(InputAction::LaneRight, InputState::Pressed));
    held.apply(&event(InputAction::LaneDown, InputState::Pressed));

    let lanes: Vec<_> = held.active_lanes();
    assert_eq!(lanes, vec![Lane::Down, Lane::Right]);
}

#[test]
fn confirm_window_is_sample_cursor_based() {
    let mut held = HeldLanes::default();
    held.confirm(Lane::Up, Samples(100), Samples(100));

    assert!(held.is_confirming(Lane::Up, Samples(199)));
    assert!(held.is_confirming(Lane::Up, Samples(200)));
    assert!(!held.is_confirming(Lane::Up, Samples(201)));
}

#[test]
fn receptor_state_tracks_press_and_confirm_starts() {
    let mut held = HeldLanes::default();
    held.apply(&event_at(
        InputAction::LaneLeft,
        InputState::Pressed,
        Samples(25),
    ));
    assert_eq!(
        held.receptor_state(Lane::Left, Samples(30)),
        ReceptorState::Pressed {
            started_at: Samples(25)
        }
    );

    held.confirm(Lane::Left, Samples(50), Samples(10));
    assert_eq!(
        held.receptor_state(Lane::Left, Samples(55)),
        ReceptorState::Confirm {
            started_at: Samples(50),
            hold: false
        }
    );
    assert_eq!(
        held.receptor_state(Lane::Left, Samples(61)),
        ReceptorState::Confirm {
            started_at: Samples(50),
            hold: false
        }
    );
}

#[test]
fn hold_confirm_extends_without_restarting_active_confirm() {
    let mut held = HeldLanes::default();
    held.confirm(Lane::Left, Samples(50), Samples(100));
    held.hold_confirm(Lane::Left, Samples(80), Samples(100));

    assert_eq!(
        held.receptor_state(Lane::Left, Samples(120)),
        ReceptorState::Confirm {
            started_at: Samples(50),
            hold: true
        }
    );
    assert!(held.is_confirming(Lane::Left, Samples(180)));
    assert!(!held.is_confirming(Lane::Left, Samples(181)));
}

#[test]
fn release_forces_receptor_back_to_static() {
    let mut held = HeldLanes::default();
    held.apply(&event_at(
        InputAction::LaneLeft,
        InputState::Pressed,
        Samples(25),
    ));
    held.confirm(Lane::Left, Samples(50), Samples(100));
    held.apply(&event_at(
        InputAction::LaneLeft,
        InputState::Released,
        Samples(60),
    ));
    held.play_static(Lane::Left);

    assert_eq!(
        held.receptor_state(Lane::Left, Samples(61)),
        ReceptorState::Static
    );
}

#[test]
fn completed_hold_restarts_press_if_key_is_still_down() {
    let mut held = HeldLanes::default();
    held.apply(&event_at(
        InputAction::LaneLeft,
        InputState::Pressed,
        Samples(25),
    ));
    held.confirm(Lane::Left, Samples(50), Samples(100));
    held.play_press(Lane::Left, Samples(80));

    assert_eq!(
        held.receptor_state(Lane::Left, Samples(81)),
        ReceptorState::Pressed {
            started_at: Samples(80)
        }
    );
}

#[test]
fn repeated_press_does_not_restart_pressed_animation() {
    let mut held = HeldLanes::default();
    held.apply(&event_at(
        InputAction::LaneLeft,
        InputState::Pressed,
        Samples(25),
    ));
    held.apply(&event_at(
        InputAction::LaneLeft,
        InputState::Pressed,
        Samples(80),
    ));

    assert_eq!(
        held.receptor_state(Lane::Left, Samples(81)),
        ReceptorState::Pressed {
            started_at: Samples(25)
        }
    );
}

#[test]
fn auto_receptors_confirm_then_hold_until_completion() {
    let mut receptors = AutoReceptors::default();
    receptors.confirm(Lane::Left, Samples(10), Samples(100));
    assert_eq!(
        receptors.receptor_state(Lane::Left, Samples(20)),
        ReceptorState::Confirm {
            started_at: Samples(10),
            hold: false
        }
    );

    receptors.start_hold(Lane::Left, Samples(500), Samples(10), NoteId::new(0));
    receptors.update(Samples(200), Samples(100));
    assert_eq!(
        receptors.receptor_state(Lane::Left, Samples(200)),
        ReceptorState::Confirm {
            started_at: Samples(200),
            hold: true
        }
    );

    receptors.update(Samples(500), Samples(100));
    assert_eq!(
        receptors.receptor_state(Lane::Left, Samples(500)),
        ReceptorState::Static
    );
}

#[test]
fn released_hold_cannot_be_released_twice() {
    let mut holds = ActiveHolds::new();
    holds.start(Lane::Up, Samples(1_000), Samples(0));
    assert!(holds.release(Lane::Up, Samples(10)).is_some());
    assert_eq!(holds.release(Lane::Up, Samples(20)), None);
    assert_eq!(holds.complete_elapsed(Samples(2_000)), Vec::<Lane>::new());
}

#[test]
fn hold_ticks_and_release_add_up_to_hold_length() {
    let mut holds = ActiveHolds::new();
    holds.start(Lane::Left, Samples(5_000), Samples(1_000));
    holds.start(Lane::Up, Samples(3_000), Samples(1_000));
    let mut left_total = 0i64;
    for cursor in [1_000i64, 2_000, 2_000, 3_500] {
        let ticks = holds.score_ticks(Samples(cursor));
        for pair in ticks.windows(2) {
            assert!((pair[0].lane as u8) < (pair[1].lane as u8));
        }
        assert!(ticks.iter().all(|t| t.elapsed_samples > 0));
        left_total += ticks.iter().filter(|t| t.lane == Lane::Left).map(|t| t.elapsed_samples).sum::<i64>();
    }
    let release = holds.release(Lane::Left, Samples(6_000)).unwrap();
    assert_eq!(left_total + release.elapsed_samples, 5_000 - 1_000);
}

#[test]
fn finished_hold_keeps_confirm_while_key_is_down() {
    let mut lanes = HeldLanes::new();
    lanes.apply(&NormalizedInputEvent::new(InputAction::LaneLeft, InputState::Pressed, 0, Samples(100)));
    lanes.hold_confirm(Lane::Left, Samples(100), Samples(500));
    lanes.hold_confirm(Lane::Down, Samples(100), Samples(500));
    lanes.finish_hold(Lane::Left);
    lanes.finish_hold(Lane::Down);
    assert_eq!(
        lanes.receptor_state(Lane::Left, Samples(200)),
        ReceptorState::Confirm { started_at: Samples(100), hold: false }
    );
    assert_eq!(lanes.receptor_state(Lane::Down, Samples(200)), ReceptorState::Static);
}
