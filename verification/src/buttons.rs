//! Button actions, and the debounce decisions of each button task.
//!
//! A button task waits for a falling edge on its pin, waits out the debounce
//! time, and, if the pin is still low, queues the button's action and waits
//! for the button to be released. [`ButtonDebouncer`] makes these decisions;
//! the firmware performs the waits and reports what happened.
use vstd::prelude::*;

verus! {

/// Number of physical user buttons on the board.
pub const BUTTON_COUNT: usize = 3;

/// High-level actions triggered by button presses.
#[derive(Clone, Copy, PartialEq, Eq, Structural, Debug)]
pub enum ButtonAction {
    /// Switch to the previous lamp pattern.
    PreviousPattern,
    /// Reset the lamp to the default pattern.
    ResetToDefaultPattern,
    /// Switch to the next lamp pattern.
    NextPattern,
}

/// Where a button task is in its cycle.
#[derive(Clone, Copy, PartialEq, Eq, Structural, Debug)]
pub enum ButtonPhase {
    /// Waiting for the pin to fall (the button being pressed).
    WaitingForPress,
    /// A falling edge was seen; waiting out the debounce time.
    Debouncing,
    /// A press was confirmed; waiting for the pin to rise (the button being released).
    WaitingForRelease,
}

/// What a button task reports after a wait.
#[derive(Clone, Copy, PartialEq, Eq, Structural, Debug)]
pub enum ButtonEvent {
    /// The pin went from high to low.
    FallingEdge,
    /// The debounce time is over; `pressed` tells whether the pin is still low.
    DebounceElapsed { pressed: bool },
    /// The pin went from low to high.
    RisingEdge,
}

/// What a button task does next.
#[derive(Clone, Copy, PartialEq, Eq, Structural, Debug)]
pub enum ButtonCommand {
    /// Wait for a falling edge.
    AwaitPress,
    /// Wait for the debounce time, then read the pin.
    AwaitDebounce,
    /// Queue the action (drop it if the queue is full), then wait for a rising edge.
    EmitThenAwaitRelease(ButtonAction),
    /// Wait for a rising edge.
    AwaitRelease,
}

/// The command that waits for what `phase` expects.
pub open spec fn waiting_command(phase: ButtonPhase) -> ButtonCommand {
    match phase {
        ButtonPhase::WaitingForPress => ButtonCommand::AwaitPress,
        ButtonPhase::Debouncing => ButtonCommand::AwaitDebounce,
        ButtonPhase::WaitingForRelease => ButtonCommand::AwaitRelease,
    }
}

/// One step of the debounce cycle: from the phase and the reported event, the
/// next phase and the command. An event that the phase does not wait for
/// changes nothing, and the task keeps waiting.
pub open spec fn debounce_step(phase: ButtonPhase, action: ButtonAction, event: ButtonEvent) -> (
    ButtonPhase,
    ButtonCommand,
) {
    match (phase, event) {
        (ButtonPhase::WaitingForPress, ButtonEvent::FallingEdge) => (
            ButtonPhase::Debouncing,
            ButtonCommand::AwaitDebounce,
        ),
        (ButtonPhase::Debouncing, ButtonEvent::DebounceElapsed { pressed }) => if pressed {
            (ButtonPhase::WaitingForRelease, ButtonCommand::EmitThenAwaitRelease(action))
        } else {
            (ButtonPhase::WaitingForPress, ButtonCommand::AwaitPress)
        },
        (ButtonPhase::WaitingForRelease, ButtonEvent::RisingEdge) => (
            ButtonPhase::WaitingForPress,
            ButtonCommand::AwaitPress,
        ),
        _ => (phase, waiting_command(phase)),
    }
}

/// The debounce decisions of one button, bound to its action.
pub struct ButtonDebouncer {
    /// Action emitted when a press is confirmed.
    pub action: ButtonAction,
    /// Where the button is in its cycle.
    pub phase: ButtonPhase,
}

impl ButtonDebouncer {
    /// A debouncer for a released button, waiting for a press.
    pub fn new(action: ButtonAction) -> (debouncer: Self)
        ensures
            debouncer.action == action,
            debouncer.phase == ButtonPhase::WaitingForPress,
    {
        ButtonDebouncer { action, phase: ButtonPhase::WaitingForPress }
    }

    /// The command that starts the cycle, or resumes it in the current phase.
    pub fn first_command(&self) -> (command: ButtonCommand)
        ensures
            command == waiting_command(self.phase),
    {
        match self.phase {
            ButtonPhase::WaitingForPress => ButtonCommand::AwaitPress,
            ButtonPhase::Debouncing => ButtonCommand::AwaitDebounce,
            ButtonPhase::WaitingForRelease => ButtonCommand::AwaitRelease,
        }
    }

    /// Takes the event that the last wait produced and decides what to do next.
    pub fn on_event(&mut self, event: ButtonEvent) -> (command: ButtonCommand)
        ensures
            (final(self).phase, command) == debounce_step(old(self).phase, old(self).action, event),
            final(self).action == old(self).action,
    {
        match (self.phase, event) {
            (ButtonPhase::WaitingForPress, ButtonEvent::FallingEdge) => {
                self.phase = ButtonPhase::Debouncing;
                ButtonCommand::AwaitDebounce
            },
            (ButtonPhase::Debouncing, ButtonEvent::DebounceElapsed { pressed }) => {
                if pressed {
                    self.phase = ButtonPhase::WaitingForRelease;
                    ButtonCommand::EmitThenAwaitRelease(self.action)
                } else {
                    self.phase = ButtonPhase::WaitingForPress;
                    ButtonCommand::AwaitPress
                }
            },
            (ButtonPhase::WaitingForRelease, ButtonEvent::RisingEdge) => {
                self.phase = ButtonPhase::WaitingForPress;
                ButtonCommand::AwaitPress
            },
            _ => self.first_command(),
        }
    }
}

/// A press is reported only once the debounce time is over and the button is
/// still held, and what is reported is the button's own action.
pub proof fn lemma_emit_only_after_confirmed_press(
    phase: ButtonPhase,
    action: ButtonAction,
    event: ButtonEvent,
)
    ensures
        debounce_step(phase, action, event).1 is EmitThenAwaitRelease ==> {
            &&& phase == ButtonPhase::Debouncing
            &&& event == (ButtonEvent::DebounceElapsed { pressed: true })
            &&& debounce_step(phase, action, event).1 == ButtonCommand::EmitThenAwaitRelease(
                action,
            )
        },
{
}

/// One press gives one action: after a press is reported, nothing more is
/// reported until the button is released.
pub proof fn lemma_one_action_per_press(action: ButtonAction, event: ButtonEvent)
    ensures
        event != ButtonEvent::RisingEdge ==> debounce_step(
            ButtonPhase::WaitingForRelease,
            action,
            event,
        ) == (ButtonPhase::WaitingForRelease, ButtonCommand::AwaitRelease),
        debounce_step(ButtonPhase::WaitingForRelease, action, ButtonEvent::RisingEdge) == (
            ButtonPhase::WaitingForPress,
            ButtonCommand::AwaitPress,
        ),
{
}

/// The debounce cycle, step by step: a falling edge while waiting for a press
/// starts the debounce; a debounce that finds the button still held reports
/// the button's action and waits for the release, one that finds it released
/// goes back to waiting for a press; a rising edge after a report goes back to
/// waiting for a press. Anything else leaves the phase as it is. The command
/// always waits for what the new phase expects, except that the step that
/// confirms a press reports the action first.
pub proof fn lemma_debounce_cycle(phase: ButtonPhase, action: ButtonAction, event: ButtonEvent)
    ensures
        debounce_step(ButtonPhase::WaitingForPress, action, ButtonEvent::FallingEdge) == (
            ButtonPhase::Debouncing,
            ButtonCommand::AwaitDebounce,
        ),
        debounce_step(
            ButtonPhase::Debouncing,
            action,
            ButtonEvent::DebounceElapsed { pressed: true },
        ) == (ButtonPhase::WaitingForRelease, ButtonCommand::EmitThenAwaitRelease(action)),
        debounce_step(
            ButtonPhase::Debouncing,
            action,
            ButtonEvent::DebounceElapsed { pressed: false },
        ) == (ButtonPhase::WaitingForPress, ButtonCommand::AwaitPress),
        debounce_step(ButtonPhase::WaitingForRelease, action, ButtonEvent::RisingEdge) == (
            ButtonPhase::WaitingForPress,
            ButtonCommand::AwaitPress,
        ),
        !(phase == ButtonPhase::WaitingForPress && event == ButtonEvent::FallingEdge) && !(phase
            == ButtonPhase::Debouncing && event is DebounceElapsed) && !(phase
            == ButtonPhase::WaitingForRelease && event == ButtonEvent::RisingEdge) ==> debounce_step(
            phase,
            action,
            event,
        ).0 == phase,
        debounce_step(phase, action, event).0 == ButtonPhase::WaitingForPress ==> debounce_step(
            phase,
            action,
            event,
        ).1 == ButtonCommand::AwaitPress,
        debounce_step(phase, action, event).0 == ButtonPhase::Debouncing ==> debounce_step(
            phase,
            action,
            event,
        ).1 == ButtonCommand::AwaitDebounce,
        debounce_step(phase, action, event).0 == ButtonPhase::WaitingForRelease ==> (debounce_step(
            phase,
            action,
            event,
        ).1 == ButtonCommand::AwaitRelease || debounce_step(phase, action, event).1
            == ButtonCommand::EmitThenAwaitRelease(action)),
{
}

} // verus!
