//! The execution scheduler: it takes one event at a time and decides whether
//! the machine steps forward, steps back through its history, or stays put.

use crate::error::Chip8Error;
use crate::interpreter::lemma_random_only_matters_to_random;
use crate::machine::{initial_state, Chip8, MachineState};
use vstd::prelude::*;

verus! {

/// Period of the CPU clock and of the timer clock in nanoseconds: 60 Hz.
pub const TICK_NANOS: u64 = 16_666_667;

/// Period of the key-decay clock in nanoseconds: three CPU ticks.
pub const KEY_DECAY_NANOS: u64 = 3 * TICK_NANOS;

/// The switches of a session.
#[derive(Debug, Clone, Copy, PartialEq, Eq, Structural)]
pub struct App {
    /// Whether the debug panels are shown.
    pub debug: bool,
    /// Whether the key pad shows the machine's own key names.
    pub show_real_controls: bool,
    /// While above 0, CPU ticks step back through the history.
    pub rewind: u8,
    /// While set, CPU ticks do not execute instructions.
    pub paused: bool,
}

impl App {
    /// The switches at the start of a session.
    pub fn new() -> (app: Self)
        ensures
            app == (App { debug: false, show_real_controls: true, rewind: 0, paused: false }),
    {
        App { debug: false, show_real_controls: true, rewind: 0, paused: false }
    }

    /// The playback mark for the title: paused, rewinding or running.
    pub fn playback(&self) -> (mark: &'static str)
        ensures
            mark@ == if self.paused {
                "paused"@
            } else if self.rewind > 0 {
                "<<"@
            } else {
                ">"@
            },
    {
        if self.paused {
            "paused"
        } else if self.rewind > 0 {
            "<<"
        } else {
            ">"
        }
    }
}

/// What the scheduler is told, one at a time.
#[derive(Debug, Clone, Copy, PartialEq, Eq, Structural)]
pub enum Event {
    /// The CPU clock fired.
    CpuTick,
    /// The timer clock fired.
    TimerTick,
    /// The key-decay clock fired.
    KeyDecayTick,
    /// The key with this index was pressed.
    KeyPress(u8),
    /// Start over with the program that was loaded.
    Reset,
    /// Pause or resume.
    TogglePause,
    /// Show or hide the debug panels.
    ToggleDebug,
    /// Switch the key pad between the machine's key names and the host's.
    ToggleControls,
    /// Rewind for this many key-decay ticks.
    BeginRewind(u8),
    /// Execute one instruction, paused or not.
    StepForward,
    /// Go back one instruction, paused or not.
    StepBack,
    /// Anything else that calls for a new frame, such as a resized terminal.
    Redraw,
    /// End the session.
    Quit,
}

/// What the caller is to do after an event.
#[derive(Debug, Clone, Copy, PartialEq, Eq, Structural)]
pub enum Action {
    /// Nothing.
    Idle,
    /// Show the current state.
    Redraw,
    /// Stop.
    Quit,
}

/// The mathematical value of a scheduler.
#[verifier::ext_equal]
pub struct SchedulerState {
    pub app: App,
    pub chip8: MachineState,
    pub history: Seq<MachineState>,
    pub rom: Seq<u8>,
}

/// What the caller is to do after `event`.
pub open spec fn action_for(event: Event) -> Action {
    match event {
        Event::Quit => Action::Quit,
        Event::CpuTick | Event::StepForward | Event::StepBack | Event::Redraw => Action::Redraw,
        _ => Action::Idle,
    }
}

/// The state in which a session with the program `rom` starts: the machine
/// with the program loaded, and that machine as the first snapshot.
pub open spec fn start_state(app: App, rom: Seq<u8>) -> SchedulerState {
    let chip8 = initial_state().load_game(rom);
    SchedulerState { app, chip8, history: seq![chip8], rom }
}

/// The state after a reset: the machine with the program loaded again, and no
/// snapshots. The switches and the program stay.
pub open spec fn reset_state(app: App, rom: Seq<u8>) -> SchedulerState {
    SchedulerState { app, chip8: initial_state().load_game(rom), history: Seq::empty(), rom }
}

impl SchedulerState {
    /// The machine and every snapshot are well-formed.
    pub open spec fn well_formed(self) -> bool {
        &&& self.chip8.well_formed()
        &&& forall|i: int|
            0 <= i < self.history.len() ==> (#[trigger] self.history[i]).well_formed()
    }

    /// A snapshot is taken, then the machine makes one step.
    pub open spec fn step_forward(self, random: u8) -> SchedulerState {
        SchedulerState {
            chip8: self.chip8.step(random),
            history: self.history.push(self.chip8),
            ..self
        }
    }

    /// The latest snapshot, if there is one, replaces the machine.
    pub open spec fn step_back(self) -> SchedulerState {
        if self.history.len() > 0 {
            SchedulerState { chip8: self.history.last(), history: self.history.drop_last(), ..self }
        } else {
            self
        }
    }

    /// A CPU tick steps back rather than forward.
    pub open spec fn rewinding(self) -> bool {
        self.app.rewind > 0 && self.history.len() > 0
    }

    /// `event` makes the machine execute an instruction.
    pub open spec fn goes_forward(self, event: Event) -> bool {
        match event {
            Event::CpuTick => !self.rewinding() && !self.app.paused,
            Event::StepForward => true,
            _ => false,
        }
    }

    /// `event` replaces the machine by the latest snapshot.
    pub open spec fn goes_back(self, event: Event) -> bool {
        match event {
            Event::CpuTick => self.rewinding(),
            Event::StepBack => self.history.len() > 0,
            _ => false,
        }
    }

    /// The fault, if any, for which `event` is refused.
    pub open spec fn fault(self, event: Event) -> Option<Chip8Error> {
        match event {
            Event::CpuTick | Event::StepForward => {
                if self.goes_forward(event) {
                    self.chip8.step_fault()
                } else {
                    None
                }
            },
            Event::KeyPress(key) => {
                if key >= 16 {
                    Some(Chip8Error::InvalidKey)
                } else {
                    None
                }
            },
            Event::Reset => {
                if self.rom.len() > 3584 {
                    Some(Chip8Error::RomTooLarge)
                } else {
                    None
                }
            },
            _ => None,
        }
    }

    /// The state after `event`, where no fault refuses it. `random` is the
    /// byte that a `Random` instruction uses if the event executes one.
    pub open spec fn next(self, event: Event, random: u8) -> SchedulerState {
        match event {
            Event::CpuTick => {
                if self.rewinding() {
                    self.step_back()
                } else if !self.app.paused {
                    self.step_forward(random)
                } else {
                    self
                }
            },
            Event::TimerTick => SchedulerState { chip8: self.chip8.decrement_delay_timer(), ..self },
            Event::KeyDecayTick => SchedulerState {
                chip8: self.chip8.decay_keys(),
                app: App {
                    rewind: if self.app.rewind > 0 {
                        (self.app.rewind - 1) as u8
                    } else {
                        0u8
                    },
                    ..self.app
                },
                ..self
            },
            Event::KeyPress(key) => SchedulerState { chip8: self.chip8.press_key(key), ..self },
            Event::Reset => reset_state(self.app, self.rom),
            Event::TogglePause => SchedulerState {
                app: App { paused: !self.app.paused, ..self.app },
                ..self
            },
            Event::ToggleDebug => SchedulerState {
                app: App { debug: !self.app.debug, ..self.app },
                ..self
            },
            Event::ToggleControls => SchedulerState {
                app: App { show_real_controls: !self.app.show_real_controls, ..self.app },
                ..self
            },
            Event::BeginRewind(ticks) => SchedulerState {
                app: App { rewind: ticks, ..self.app },
                ..self
            },
            Event::StepForward => self.step_forward(random),
            Event::StepBack => self.step_back(),
            Event::Redraw | Event::Quit => self,
        }
    }

    /// The state after one forward step for each byte of `randoms`, in order.
    pub open spec fn run_forward(self, randoms: Seq<u8>) -> SchedulerState
        decreases randoms.len(),
    {
        if randoms.len() == 0 {
            self
        } else {
            self.run_forward(randoms.drop_last()).step_forward(randoms.last())
        }
    }

    /// The state after `n` steps back.
    pub open spec fn rewind(self, n: nat) -> SchedulerState
        decreases n,
    {
        if n == 0 {
            self
        } else {
            self.step_back().rewind((n - 1) as nat)
        }
    }

    /// The state after one CPU tick for each byte of `randoms`, in order.
    pub open spec fn ticks(self, randoms: Seq<u8>) -> SchedulerState
        decreases randoms.len(),
    {
        if randoms.len() == 0 {
            self
        } else {
            self.ticks(randoms.drop_last()).next(Event::CpuTick, randoms.last())
        }
    }
}

/// A step back undoes a step forward: machine and history are as before.
pub proof fn lemma_step_back_undoes_step_forward(s: SchedulerState, random: u8)
    ensures
        s.step_forward(random).step_back() == s,
{
    let forward = s.step_forward(random);
    assert(forward.history.drop_last() =~= s.history);
    assert(forward.step_back() =~= s);
}

/// After any number of forward steps, as many steps back restore the state
/// from before the first of them: the machine in every field, and the history.
pub proof fn lemma_rewind_undoes_run_forward(s: SchedulerState, randoms: Seq<u8>)
    ensures
        s.run_forward(randoms).rewind(randoms.len()) == s,
    decreases randoms.len(),
{
    if randoms.len() > 0 {
        let before = s.run_forward(randoms.drop_last());
        lemma_step_back_undoes_step_forward(before, randoms.last());
        lemma_rewind_undoes_run_forward(s, randoms.drop_last());
    }
}

/// While the scheduler runs (not paused, not rewinding), CPU ticks are forward
/// steps.
pub proof fn lemma_running_ticks_run_forward(s: SchedulerState, randoms: Seq<u8>)
    requires
        s.app.rewind == 0,
        !s.app.paused,
    ensures
        s.ticks(randoms) == s.run_forward(randoms),
        s.ticks(randoms).app == s.app,
        s.ticks(randoms).history.len() == s.history.len() + randoms.len(),
    decreases randoms.len(),
{
    if randoms.len() > 0 {
        lemma_running_ticks_run_forward(s, randoms.drop_last());
    }
}

/// While the rewind counter is above 0, CPU ticks are steps back, as long as
/// there are snapshots left.
pub proof fn lemma_rewinding_ticks_rewind(s: SchedulerState, randoms: Seq<u8>)
    requires
        s.app.rewind > 0,
        randoms.len() <= s.history.len(),
    ensures
        s.ticks(randoms) == s.rewind(randoms.len()),
        s.ticks(randoms).app == s.app,
        s.ticks(randoms).history.len() == s.history.len() - randoms.len(),
    decreases randoms.len(),
{
    if randoms.len() > 0 {
        let shorter = randoms.drop_last();
        lemma_rewinding_ticks_rewind(s, shorter);
        lemma_rewind_then_step_back(s, shorter.len());
    }
}

/// One more step back may be taken first or last.
pub proof fn lemma_rewind_then_step_back(s: SchedulerState, n: nat)
    ensures
        s.rewind(n).step_back() == s.rewind(n + 1),
    decreases n,
{
    assert(s.rewind(n + 1) == s.step_back().rewind(n));
    if n > 0 {
        lemma_rewind_then_step_back(s.step_back(), (n - 1) as nat);
        assert(s.rewind(n) == s.step_back().rewind((n - 1) as nat));
    } else {
        assert(s.step_back().rewind(0) == s.step_back());
    }
}

/// Rewinding restores the machine: from a running scheduler, any number of CPU
/// ticks forward, then a rewind command, then as many CPU ticks again lead
/// back to the machine and the history from before the first tick.
pub proof fn lemma_rewind_restores_machine(
    s: SchedulerState,
    forward: Seq<u8>,
    counter: u8,
    backward: Seq<u8>,
)
    requires
        s.app.rewind == 0,
        !s.app.paused,
        counter > 0,
        backward.len() == forward.len(),
    ensures
        ({
            let ahead = s.ticks(forward);
            let back = ahead.next(Event::BeginRewind(counter), 0).ticks(backward);
            back.chip8 == s.chip8 && back.history == s.history
        }),
{
    let ahead = s.ticks(forward);
    lemma_running_ticks_run_forward(s, forward);
    let turned = ahead.next(Event::BeginRewind(counter), 0);
    lemma_rewinding_ticks_rewind(turned, backward);
    lemma_rewind_undoes_run_forward(s, forward);
    lemma_rewind_ignores_switches(ahead, turned, forward.len());
}

/// Steps back do not look at the switches.
pub proof fn lemma_rewind_ignores_switches(a: SchedulerState, b: SchedulerState, n: nat)
    requires
        a.chip8 == b.chip8,
        a.history == b.history,
    ensures
        a.rewind(n).chip8 == b.rewind(n).chip8,
        a.rewind(n).history == b.rewind(n).history,
    decreases n,
{
    if n > 0 {
        lemma_rewind_ignores_switches(a.step_back(), b.step_back(), (n - 1) as nat);
    }
}

/// The scheduler: the machine, its history of snapshots, the session's
/// switches and the program that was loaded.
#[derive(Debug, PartialEq, Eq)]
pub struct Scheduler {
    pub app: App,
    pub chip8: Chip8,
    /// Snapshots, oldest first. A session starts with one of the machine as it
    /// was loaded; every forward step adds the machine from before the step, and
    /// every step back takes the latest one away.
    pub history: Vec<Chip8>,
    /// The program, kept for a reset.
    pub rom: Vec<u8>,
}

impl View for Scheduler {
    type V = SchedulerState;

    open spec fn view(&self) -> SchedulerState {
        SchedulerState {
            app: self.app,
            chip8: self.chip8@,
            history: self.history@.map_values(|c: Chip8| c@),
            rom: self.rom@,
        }
    }
}

impl Scheduler {
    /// See [`SchedulerState::well_formed`].
    pub open spec fn well_formed(&self) -> bool {
        self@.well_formed()
    }

    /// A scheduler for a session with the program `rom`. A program of more
    /// than 3584 bytes is refused.
    pub fn new(rom: Vec<u8>) -> (made: Result<Scheduler, Chip8Error>)
        ensures
            match made {
                Ok(scheduler) => rom.len() <= 3584 && scheduler@ == start_state(
                    App { debug: false, show_real_controls: true, rewind: 0, paused: false },
                    rom@,
                ),
                Err(fault) => rom.len() > 3584 && fault == Chip8Error::RomTooLarge,
            },
            made matches Ok(scheduler) ==> scheduler.well_formed(),
    {
        let mut chip8 = Chip8::new();
        match chip8.load_game(&rom) {
            Ok(()) => {},
            Err(fault) => {
                return Err(fault);
            },
        }
        let mut history: Vec<Chip8> = Vec::new();
        history.push(chip8.clone());
        let scheduler = Scheduler { app: App::new(), chip8, history, rom };
        assert(scheduler@.history =~= seq![scheduler@.chip8]);
        Ok(scheduler)
    }

    /// Whether `event` makes the machine execute an instruction.
    pub fn steps_forward(&self, event: Event) -> (forward: bool)
        ensures
            forward == self@.goes_forward(event),
    {
        match event {
            Event::CpuTick => !(self.app.rewind > 0 && self.history.len() > 0) && !self.app.paused,
            Event::StepForward => true,
            _ => false,
        }
    }

    /// Takes a snapshot and lets the machine make one step.
    fn forward(&mut self, random: u8) -> (outcome: Result<(), Chip8Error>)
        ensures
            match outcome {
                Ok(()) => old(self)@.chip8.step_fault() is None && final(self)@ == old(
                    self,
                )@.step_forward(random) && final(self).history@ == old(self).history@.push(
                    old(self).chip8,
                ),
                Err(fault) => old(self)@.chip8.step_fault() == Some(fault) && *final(self) == *old(
                    self,
                ),
            },
            old(self).well_formed() ==> final(self).well_formed(),
    {
        let snapshot = self.chip8.clone();
        match self.chip8.step_with(random) {
            Ok(()) => {
                self.history.push(snapshot);
                assert(self@.history =~= old(self)@.history.push(old(self)@.chip8));
                Ok(())
            },
            Err(fault) => Err(fault),
        }
    }

    /// Replaces the machine by the latest snapshot, if there is one.
    fn back(&mut self)
        ensures
            final(self)@ == old(self)@.step_back(),
            old(self).history.len() > 0 ==> final(self).chip8 == old(self).history@.last()
                && final(self).history@ == old(self).history@.drop_last(),
            old(self).well_formed() ==> final(self).well_formed(),
    {
        match self.history.pop() {
            Some(snapshot) => {
                self.chip8 = snapshot;
                assert(self@.history =~= old(self)@.history.drop_last());
            },
            None => {},
        }
    }

    /// Starts over with the program that was loaded: a fresh machine and an
    /// empty history. The switches stay as they are.
    fn reset(&mut self) -> (outcome: Result<(), Chip8Error>)
        ensures
            match outcome {
                Ok(()) => old(self).rom.len() <= 3584 && final(self)@ == reset_state(
                    old(self).app,
                    old(self).rom@,
                ),
                Err(fault) => old(self).rom.len() > 3584 && fault == Chip8Error::RomTooLarge
                    && *final(self) == *old(self),
            },
            old(self).well_formed() ==> final(self).well_formed(),
    {
        let mut chip8 = Chip8::new();
        match chip8.load_game(&self.rom) {
            Ok(()) => {},
            Err(fault) => {
                return Err(fault);
            },
        }
        self.chip8 = chip8;
        self.history = Vec::new();
        assert(self@.history =~= Seq::<MachineState>::empty());
        Ok(())
    }

    /// Handles one event, with `random` as the byte for a `Random`
    /// instruction. An event that cannot be carried out is refused: the fault
    /// is returned and the scheduler stays as it is.
    pub fn handle_with(&mut self, event: Event, random: u8) -> (outcome: Result<Action, Chip8Error>)
        ensures
            match outcome {
                Ok(action) => old(self)@.fault(event) is None && final(self)@ == old(self)@.next(
                    event,
                    random,
                ) && action == action_for(event),
                Err(fault) => old(self)@.fault(event) == Some(fault) && *final(self) == *old(self),
            },
            outcome is Ok && old(self)@.goes_forward(event) ==> final(self).history@ == old(
                self,
            ).history@.push(old(self).chip8),
            outcome is Ok && old(self)@.goes_back(event) ==> final(self).chip8 == old(
                self,
            ).history@.last() && final(self).history@ == old(self).history@.drop_last(),
            old(self).well_formed() ==> final(self).well_formed(),
    {
        match event {
            Event::CpuTick => {
                if self.app.rewind > 0 && self.history.len() > 0 {
                    self.back();
                } else if !self.app.paused {
                    match self.forward(random) {
                        Ok(()) => {},
                        Err(fault) => {
                            return Err(fault);
                        },
                    }
                }
            },
            Event::TimerTick => {
                self.chip8.decrement_delay_timer();
            },
            Event::KeyDecayTick => {
                self.chip8.decay_keys();
                if self.app.rewind > 0 {
                    self.app.rewind -= 1;
                }
            },
            Event::KeyPress(key) => {
                if key >= 16 {
                    return Err(Chip8Error::InvalidKey);
                }
                self.chip8.press_key(key);
            },
            Event::Reset => {
                match self.reset() {
                    Ok(()) => {},
                    Err(fault) => {
                        return Err(fault);
                    },
                }
            },
            Event::TogglePause => {
                self.app.paused = !self.app.paused;
            },
            Event::ToggleDebug => {
                self.app.debug = !self.app.debug;
            },
            Event::ToggleControls => {
                self.app.show_real_controls = !self.app.show_real_controls;
            },
            Event::BeginRewind(ticks) => {
                self.app.rewind = ticks;
            },
            Event::StepForward => {
                match self.forward(random) {
                    Ok(()) => {},
                    Err(fault) => {
                        return Err(fault);
                    },
                }
            },
            Event::StepBack => {
                self.back();
            },
            Event::Redraw | Event::Quit => {},
        }
        assert(self@ =~= old(self)@.next(event, random));
        Ok(
            match event {
                Event::Quit => Action::Quit,
                Event::CpuTick | Event::StepForward | Event::StepBack | Event::Redraw => Action::Redraw,
                _ => Action::Idle,
            },
        )
    }

    /// Handles one event. Where the event executes a `Random` instruction, the
    /// byte comes from the thread's random number generator; every other
    /// event has one outcome.
    pub fn handle(&mut self, event: Event) -> (outcome: Result<Action, Chip8Error>)
        ensures
            match outcome {
                Ok(action) => old(self)@.fault(event) is None && action == action_for(event)
                    && exists|random: u8|
                    final(self)@ == #[trigger] old(self)@.next(event, random),
                Err(fault) => old(self)@.fault(event) == Some(fault) && *final(self) == *old(self),
            },
            outcome is Ok && !(old(self)@.goes_forward(event) && old(
                self,
            )@.chip8.next_instruction() is Random) ==> forall|random: u8|
                final(self)@ == #[trigger] old(self)@.next(event, random),
            outcome is Ok && old(self)@.goes_forward(event) ==> final(self).history@ == old(
                self,
            ).history@.push(old(self).chip8),
            outcome is Ok && old(self)@.goes_back(event) ==> final(self).chip8 == old(
                self,
            ).history@.last() && final(self).history@ == old(self).history@.drop_last(),
            old(self).well_formed() ==> final(self).well_formed(),
    {
        let random = self.draw_random(event);
        let outcome = self.handle_with(event, random);
        proof {
            let before = old(self)@;
            if outcome is Ok && !(before.goes_forward(event)
                && before.chip8.next_instruction() is Random) {
                assert forall|r: u8| self@ == #[trigger] before.next(event, r) by {
                    if before.goes_forward(event) {
                        lemma_random_only_matters_to_random(before.chip8, random, r);
                    }
                }
            }
        }
        outcome
    }

    /// The byte for the instruction that `event` executes: a random one for a
    /// `Random` instruction, 0 where none is needed, which is where the event
    /// executes no instruction, the step is refused, or the instruction is
    /// another. Of the random one nothing is known: any byte may come back.
    fn draw_random(&self, event: Event) -> (random: u8)
        ensures
            !(self@.goes_forward(event) && self@.chip8.step_fault() is None
                && self@.chip8.next_instruction() is Random) ==> random == 0,
    {
        if self.steps_forward(event) {
            self.chip8.random_operand()
        } else {
            0
        }
    }

    /// The number of snapshots, shown as the count of CPU cycles.
    pub fn cpu_cycles(&self) -> (count: usize)
        ensures
            count == self@.history.len(),
    {
        self.history.len()
    }
}

} // verus!
