//! Control state shared by the simulation and render loops, the decisions
//! each loop takes per iteration, and the double-buffered generation store.
use vstd::prelude::*;
use crate::generation::{after_publish, after_tick, compute_next, publish};
use crate::life_matrix::{in_grid, LifeMatrix};

verus! {

/// Pace of the simulation loop.
#[derive(Clone, Copy, Debug, PartialEq, Eq, Structural)]
pub enum Speed {
    /// No delay between generations.
    Unlimited,
    /// One generation per rendered frame.
    Lockstep,
    /// A pause of the given number of milliseconds after each generation.
    Limited(u64),
}

/// Number of speed levels; level 0 is the fastest.
pub const SPEED_LEVELS: usize = 5;

/// The speed of level `level`.
pub open spec fn speed_at(level: int) -> Speed {
    if level == 0 {
        Speed::Unlimited
    } else if level == 1 {
        Speed::Lockstep
    } else if level == 2 {
        Speed::Limited(100)
    } else if level == 3 {
        Speed::Limited(500)
    } else {
        Speed::Limited(1000)
    }
}

/// The speed of level `level`.
pub fn speed_of_level(level: usize) -> (r: Speed)
    requires
        level < SPEED_LEVELS,
    ensures
        r == speed_at(level as int),
{
    if level == 0 {
        Speed::Unlimited
    } else if level == 1 {
        Speed::Lockstep
    } else if level == 2 {
        Speed::Limited(100)
    } else if level == 3 {
        Speed::Limited(500)
    } else {
        Speed::Limited(1000)
    }
}

/// A discrete command from the input collaborator.
#[derive(Clone, Copy, Debug, PartialEq, Eq, Structural)]
pub enum Command {
    /// Stop both loops.
    Quit,
    /// Pause a running simulation or resume a paused one.
    TogglePause,
    /// Move to the next faster speed level, if any.
    SpeedUp,
    /// Move to the next slower speed level, if any.
    SpeedDown,
    /// The pointer moved to screen position `(x, y)`.
    PointerMoved { x: i32, y: i32 },
    /// Start dragging the camera.
    PanStart,
    /// Stop dragging the camera.
    PanEnd,
    /// Start editing cells; `over_live` tells whether the cell under the
    /// pointer is live, and the edit writes the opposite state.
    DrawStart { over_live: bool },
    /// Stop editing cells.
    DrawEnd,
}

/// Whether the loops keep going after `cmd`: only `Quit` stops them.
pub open spec fn running_after(c: Controls, cmd: Command) -> bool {
    c.is_running() && !(cmd is Quit)
}

/// Whether the simulation is paused after `cmd`.
pub open spec fn paused_after(c: Controls, cmd: Command) -> bool {
    if cmd is TogglePause {
        !c.is_paused()
    } else {
        c.is_paused()
    }
}

/// The speed level after `cmd`; it stays within `[0, SPEED_LEVELS)`.
pub open spec fn speed_level_after(c: Controls, cmd: Command) -> nat {
    match cmd {
        Command::SpeedUp => if c.speed_level() > 0 {
            (c.speed_level() - 1) as nat
        } else {
            c.speed_level()
        },
        Command::SpeedDown => if c.speed_level() + 1 < SPEED_LEVELS {
            c.speed_level() + 1
        } else {
            c.speed_level()
        },
        _ => c.speed_level(),
    }
}

/// Whether the camera is being dragged after `cmd`.
pub open spec fn panning_after(c: Controls, cmd: Command) -> bool {
    match cmd {
        Command::PanStart => true,
        Command::PanEnd => false,
        _ => c.panning(),
    }
}

/// The state cell edits write after `cmd`: the opposite of the cell under
/// the pointer when editing starts, nothing once it ends.
pub open spec fn edit_after(c: Controls, cmd: Command) -> Option<bool> {
    match cmd {
        Command::DrawStart { over_live } => Some(!over_live),
        Command::DrawEnd => None,
        _ => c.edit(),
    }
}

/// The pointer position after `cmd`.
pub open spec fn pointer_after(c: Controls, cmd: Command) -> (i32, i32) {
    match cmd {
        Command::PointerMoved { x, y } => (x, y),
        _ => c.pointer(),
    }
}

/// Run and pause flags, speed level, and pointer and edit state.
#[derive(Clone, Copy)]
pub struct Controls {
    running: bool,
    paused: bool,
    movecam: bool,
    drawing: Option<bool>,
    speed: usize,
    mouse_x: i32,
    mouse_y: i32,
}

impl Controls {
    /// The speed level is one of the `SPEED_LEVELS` levels.
    pub open spec fn wf(&self) -> bool {
        self.speed_level() < SPEED_LEVELS
    }

    /// Whether the loops keep going.
    pub closed spec fn is_running(&self) -> bool {
        self.running
    }

    /// Whether the simulation is paused.
    pub closed spec fn is_paused(&self) -> bool {
        self.paused
    }

    /// Index of the current speed level.
    pub closed spec fn speed_level(&self) -> nat {
        self.speed as nat
    }

    /// Whether the camera is being dragged.
    pub closed spec fn panning(&self) -> bool {
        self.movecam
    }

    /// The state that cell edits write, while editing.
    pub closed spec fn edit(&self) -> Option<bool> {
        self.drawing
    }

    /// Last known pointer position on screen.
    pub closed spec fn pointer(&self) -> (i32, i32) {
        (self.mouse_x, self.mouse_y)
    }

    /// Running, not paused, at speed level 1 (lockstep), not panning, not
    /// editing, pointer at `(0, 0)`.
    pub fn new() -> (r: Controls)
        ensures
            r.wf(),
            r.is_running(),
            !r.is_paused(),
            r.speed_level() == 1,
            !r.panning(),
            r.edit() is None,
            r.pointer() == (0i32, 0i32),
    {
        Controls {
            running: true,
            paused: false,
            movecam: false,
            drawing: None,
            speed: 1,
            mouse_x: 0,
            mouse_y: 0,
        }
    }

    /// The current speed.
    pub fn speed(&self) -> (r: Speed)
        requires
            self.wf(),
        ensures
            r == speed_at(self.speed_level() as int),
    {
        speed_of_level(self.speed)
    }

    /// Whether the loops keep going.
    pub fn running(&self) -> (r: bool)
        ensures
            r == self.is_running(),
    {
        self.running
    }

    /// Whether the simulation is paused.
    pub fn paused(&self) -> (r: bool)
        ensures
            r == self.is_paused(),
    {
        self.paused
    }

    /// Whether the camera is being dragged.
    pub fn is_panning(&self) -> (r: bool)
        ensures
            r == self.panning(),
    {
        self.movecam
    }

    /// The state that cell edits write, or `None` when not editing.
    pub fn edit_value(&self) -> (r: Option<bool>)
        ensures
            r == self.edit(),
    {
        self.drawing
    }

    /// Last known pointer position on screen.
    pub fn pointer_position(&self) -> (r: (i32, i32))
        ensures
            r == self.pointer(),
    {
        (self.mouse_x, self.mouse_y)
    }

    /// Applies one command.
    pub fn apply(&mut self, cmd: Command)
        requires
            old(self).wf(),
        ensures
            final(self).wf(),
            final(self).is_running() == running_after(*old(self), cmd),
            final(self).is_paused() == paused_after(*old(self), cmd),
            final(self).speed_level() == speed_level_after(*old(self), cmd),
            final(self).panning() == panning_after(*old(self), cmd),
            final(self).edit() == edit_after(*old(self), cmd),
            final(self).pointer() == pointer_after(*old(self), cmd),
    {
        match cmd {
            Command::Quit => {
                self.running = false;
            },
            Command::TogglePause => {
                self.paused = !self.paused;
            },
            Command::SpeedUp => {
                if self.speed > 0 {
                    self.speed = self.speed - 1;
                }
            },
            Command::SpeedDown => {
                if self.speed + 1 < SPEED_LEVELS {
                    self.speed = self.speed + 1;
                }
            },
            Command::PointerMoved { x, y } => {
                self.mouse_x = x;
                self.mouse_y = y;
            },
            Command::PanStart => {
                self.movecam = true;
            },
            Command::PanEnd => {
                self.movecam = false;
            },
            Command::DrawStart { over_live } => {
                self.drawing = Some(!over_live);
            },
            Command::DrawEnd => {
                self.drawing = None;
            },
        }
    }
}

/// Once the controls say stop, no command makes them run again.
pub proof fn lemma_stop_is_final(c: Controls, cmd: Command)
    requires
        !c.is_running(),
    ensures
        !running_after(c, cmd),
{
}

/// What a loop waits for after an iteration.
#[derive(Clone, Copy, Debug, PartialEq, Eq, Structural)]
pub enum Wait {
    /// Go on at once.
    Nothing,
    /// Meet the other loop before going on.
    Rendezvous,
    /// Sleep the given number of milliseconds.
    Sleep(u64),
}

/// What the simulation loop does in one iteration.
#[derive(Clone, Copy, Debug, PartialEq, Eq, Structural)]
pub enum SimulationStep {
    /// Leave the loop without computing another generation.
    Stop,
    /// Compute and publish a generation when `tick` holds, then wait.
    Run { tick: bool, wait: Wait },
}

/// What the render loop does in one iteration.
#[derive(Clone, Copy, Debug, PartialEq, Eq, Structural)]
pub enum RenderStep {
    /// Leave the loop.
    Stop,
    /// Draw a frame and handle input, then meet the simulation loop when
    /// `rendezvous` holds.
    Frame { rendezvous: bool },
}

/// What the simulation loop waits for after a generation at speed `s`.
pub open spec fn wait_after(s: Speed) -> Wait {
    match s {
        Speed::Unlimited => Wait::Nothing,
        Speed::Lockstep => Wait::Rendezvous,
        Speed::Limited(ms) => Wait::Sleep(ms),
    }
}

/// The simulation loop's decision for one iteration, from a snapshot of
/// the controls.
pub fn simulation_step(c: &Controls) -> (r: SimulationStep)
    requires
        c.wf(),
    ensures
        r == if !c.is_running() {
            SimulationStep::Stop
        } else {
            SimulationStep::Run {
                tick: !c.is_paused(),
                wait: wait_after(speed_at(c.speed_level() as int)),
            }
        },
{
    if !c.running() {
        return SimulationStep::Stop;
    }
    let wait = match c.speed() {
        Speed::Unlimited => Wait::Nothing,
        Speed::Lockstep => Wait::Rendezvous,
        Speed::Limited(ms) => Wait::Sleep(ms),
    };
    SimulationStep::Run { tick: !c.paused(), wait }
}

/// The render loop's decision for one iteration, from a snapshot of the
/// controls.
pub fn render_step(c: &Controls) -> (r: RenderStep)
    requires
        c.wf(),
    ensures
        r == if !c.is_running() {
            RenderStep::Stop
        } else {
            RenderStep::Frame { rendezvous: speed_at(c.speed_level() as int) == Speed::Lockstep }
        },
{
    if !c.running() {
        return RenderStep::Stop;
    }
    let rendezvous = match c.speed() {
        Speed::Lockstep => true,
        _ => false,
    };
    RenderStep::Frame { rendezvous }
}

/// The current generation and the buffer the next one is computed into.
pub struct GameState {
    data: LifeMatrix,
    next_data: LifeMatrix,
}

impl View for GameState {
    type V = (Set<(int, int)>, Set<(int, int)>);

    /// The live cells of the current generation and of the spare buffer.
    open spec fn view(&self) -> (Set<(int, int)>, Set<(int, int)>) {
        (self.current()@, self.spare()@)
    }
}

impl GameState {
    /// Both buffers are well formed and of the same size.
    pub closed spec fn wf(&self) -> bool {
        &&& self.data.wf()
        &&& self.next_data.wf()
        &&& self.data.num_cols() == self.next_data.num_cols()
        &&& self.data.num_rows() == self.next_data.num_rows()
    }

    /// The current generation.
    pub closed spec fn current(&self) -> LifeMatrix {
        self.data
    }

    /// The buffer the next generation is computed into.
    pub closed spec fn spare(&self) -> LifeMatrix {
        self.next_data
    }

    /// Number of columns of both buffers.
    pub open spec fn num_cols(&self) -> nat {
        self.current().num_cols()
    }

    /// Number of rows of both buffers.
    pub open spec fn num_rows(&self) -> nat {
        self.current().num_rows()
    }

    /// Two all-dead `cols × rows` buffers.
    pub fn new(cols: usize, rows: usize) -> (r: GameState)
        requires
            cols <= i32::MAX,
            rows <= i32::MAX,
            cols * rows <= usize::MAX,
        ensures
            r.wf(),
            r.num_cols() == cols,
            r.num_rows() == rows,
            r.spare().num_cols() == cols,
            r.spare().num_rows() == rows,
            r@ == (Set::<(int, int)>::empty(), Set::<(int, int)>::empty()),
    {
        GameState { data: LifeMatrix::new(cols, rows), next_data: LifeMatrix::new(cols, rows) }
    }

    /// The current generation.
    pub fn data(&self) -> (r: &LifeMatrix)
        requires
            self.wf(),
        ensures
            *r == self.current(),
            r.wf(),
            r.num_cols() == self.num_cols(),
            r.num_rows() == self.num_rows(),
    {
        &self.data
    }

    /// Sets one cell of the current generation directly, as a user edit does.
    pub fn edit(&mut self, x: i32, y: i32, val: bool)
        requires
            old(self).wf(),
            in_grid(old(self).num_cols() as int, old(self).num_rows() as int, x as int, y as int),
        ensures
            final(self).wf(),
            final(self).num_cols() == old(self).num_cols(),
            final(self).num_rows() == old(self).num_rows(),
            final(self).spare().num_cols() == old(self).num_cols(),
            final(self).spare().num_rows() == old(self).num_rows(),
            final(self)@ == (
                crate::life_matrix::matrix::with_cell(old(self)@.0, x as int, y as int, val),
                old(self)@.1,
            ),
    {
        self.data.set(x, y, val);
    }

    /// Computes the generation after the current one into the spare buffer;
    /// the current generation is only read.
    pub fn tick(&mut self)
        requires
            old(self).wf(),
        ensures
            final(self).wf(),
            final(self).num_cols() == old(self).num_cols(),
            final(self).num_rows() == old(self).num_rows(),
            final(self).spare().num_cols() == old(self).num_cols(),
            final(self).spare().num_rows() == old(self).num_rows(),
            final(self).current() == old(self).current(),
            final(self)@ == after_tick(
                old(self).num_cols() as int,
                old(self).num_rows() as int,
                old(self)@,
            ),
    {
        compute_next(&self.data, &mut self.next_data);
    }

    /// Publishes the spare buffer as the current generation; the old
    /// current generation becomes the spare buffer.
    pub fn finalize_tick(&mut self)
        requires
            old(self).wf(),
        ensures
            final(self).wf(),
            final(self).num_cols() == old(self).num_cols(),
            final(self).num_rows() == old(self).num_rows(),
            final(self).spare().num_cols() == old(self).num_cols(),
            final(self).spare().num_rows() == old(self).num_rows(),
            final(self).current() == old(self).spare(),
            final(self).spare() == old(self).current(),
            final(self)@ == after_publish(old(self)@),
    {
        publish(&mut self.data, &mut self.next_data);
    }

    /// The current generation and the spare buffer, in that order.
    pub fn into_buffers(self) -> (r: (LifeMatrix, LifeMatrix))
        requires
            self.wf(),
        ensures
            r.0 == self.current(),
            r.1 == self.spare(),
            r.0.wf(),
            r.1.wf(),
            r.1.num_cols() == r.0.num_cols(),
            r.1.num_rows() == r.0.num_rows(),
    {
        (self.data, self.next_data)
    }
}

} // verus!
