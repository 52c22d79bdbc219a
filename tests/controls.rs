use life::game::{
    render_step, simulation_step, speed_of_level, Command, Controls, RenderStep, SimulationStep,
    Speed, Wait, SPEED_LEVELS,
};

#[test]
fn new_controls() {
    let c = Controls::new();
    assert!(c.running());
    assert!(!c.paused());
    assert!(!c.is_panning());
    assert_eq!(c.edit_value(), None);
    assert_eq!(c.pointer_position(), (0, 0));
    assert_eq!(c.speed(), Speed::Lockstep);
}

#[test]
fn speed_levels() {
    assert_eq!(SPEED_LEVELS, 5);
    assert_eq!(speed_of_level(0), Speed::Unlimited);
    assert_eq!(speed_of_level(1), Speed::Lockstep);
    assert_eq!(speed_of_level(2), Speed::Limited(100));
    assert_eq!(speed_of_level(3), Speed::Limited(500));
    assert_eq!(speed_of_level(4), Speed::Limited(1000));
}

#[test]
fn speed_changes_stop_at_the_ends() {
    let mut c = Controls::new();
    c.apply(Command::SpeedUp);
    assert_eq!(c.speed(), Speed::Unlimited);
    c.apply(Command::SpeedUp);
    assert_eq!(c.speed(), Speed::Unlimited);
    for _ in 0..10 {
        c.apply(Command::SpeedDown);
    }
    assert_eq!(c.speed(), Speed::Limited(1000));
    c.apply(Command::SpeedUp);
    assert_eq!(c.speed(), Speed::Limited(500));
}

#[test]
fn pause_toggles() {
    let mut c = Controls::new();
    c.apply(Command::TogglePause);
    assert!(c.paused());
    c.apply(Command::TogglePause);
    assert!(!c.paused());
}

#[test]
fn quit_is_final() {
    let mut c = Controls::new();
    c.apply(Command::Quit);
    assert!(!c.running());
    for cmd in [
        Command::TogglePause,
        Command::SpeedUp,
        Command::SpeedDown,
        Command::PointerMoved { x: 3, y: 4 },
        Command::PanStart,
        Command::PanEnd,
        Command::DrawStart { over_live: true },
        Command::DrawEnd,
    ] {
        c.apply(cmd);
        assert!(!c.running());
    }
    assert_eq!(simulation_step(&c), SimulationStep::Stop);
    assert_eq!(render_step(&c), RenderStep::Stop);
}

#[test]
fn pointer_pan_and_draw() {
    let mut c = Controls::new();
    c.apply(Command::PointerMoved { x: -5, y: 12 });
    assert_eq!(c.pointer_position(), (-5, 12));
    c.apply(Command::PanStart);
    assert!(c.is_panning());
    c.apply(Command::PanEnd);
    assert!(!c.is_panning());
    c.apply(Command::DrawStart { over_live: true });
    assert_eq!(c.edit_value(), Some(false));
    c.apply(Command::DrawEnd);
    assert_eq!(c.edit_value(), None);
    c.apply(Command::DrawStart { over_live: false });
    assert_eq!(c.edit_value(), Some(true));
    assert!(c.running());
}

#[test]
fn loop_decisions_follow_speed_and_pause() {
    let mut c = Controls::new();
    assert_eq!(simulation_step(&c), SimulationStep::Run { tick: true, wait: Wait::Rendezvous });
    assert_eq!(render_step(&c), RenderStep::Frame { rendezvous: true });
    c.apply(Command::SpeedUp);
    assert_eq!(simulation_step(&c), SimulationStep::Run { tick: true, wait: Wait::Nothing });
    assert_eq!(render_step(&c), RenderStep::Frame { rendezvous: false });
    c.apply(Command::SpeedDown);
    c.apply(Command::SpeedDown);
    c.apply(Command::TogglePause);
    assert_eq!(simulation_step(&c), SimulationStep::Run { tick: false, wait: Wait::Sleep(100) });
    assert_eq!(render_step(&c), RenderStep::Frame { rendezvous: false });
}
