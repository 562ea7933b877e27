//! One run of the utility, as a sequence of decisions.
//!
//! A run changes the sink, reads its state back, and announces it. The
//! library decides; its caller acts. `begin` reads the command line and
//! names the first action. After each command that the caller has run for
//! it, `advance` takes what came of the command and names the next action,
//! until the run ends with a notification to show or with nothing more to
//! do. Each step also hands over the messages to print.

use vstd::prelude::*;
use crate::command::{
    amount, amount_token, get_volume, get_volume_line, set_volume, set_volume_line, toggle_mute,
    toggle_mute_line, CommandLine, SinkCommand,
};
use crate::dispatch::{invocation_of, parse_invocation, Request};
use crate::notifier::{notification_of, shape_notification, NotificationSpec, NotificationText};
use crate::report::{lemma_report_is_percentage, parse_report, parse_volume_report, VolumeState};
use crate::text::{decode_lossy, utf8_lossy};

verus! {

/// Where a message is printed.
#[derive(Clone, Copy, Debug, PartialEq, Eq, Structural)]
pub enum Stream {
    /// The normal output stream.
    Output,
    /// The diagnostic stream.
    Diagnostic,
}

/// A message for the caller to print, on a line of its own.
#[derive(Debug, PartialEq, Eq)]
pub struct Message {
    pub stream: Stream,
    pub text: String,
}

/// A message as text.
pub struct MessageText {
    pub stream: Stream,
    pub text: Seq<char>,
}

impl DeepView for Message {
    type V = MessageText;

    open spec fn deep_view(&self) -> MessageText {
        MessageText { stream: self.stream, text: self.text@ }
    }
}

/// The command that changes the sink.
#[derive(Clone, Copy, Debug, PartialEq, Eq, Structural)]
pub enum Change {
    Volume,
    Mute,
}

/// How far a run has come.
#[derive(Clone, Copy, Debug, PartialEq, Eq, Structural)]
pub enum Phase {
    /// The command that changes the sink is running.
    Changing(Change),
    /// The command that reads the sink's state back is running.
    Reading,
    /// Nothing is left to run.
    Done,
}

/// The state of a run.
#[derive(Clone, Copy, Debug, PartialEq, Eq, Structural)]
pub struct Session {
    pub phase: Phase,
    pub verbose: bool,
}

/// What the caller is to do next.
#[derive(Debug, PartialEq, Eq)]
pub enum Action {
    /// Run the command, wait for it, and report what came of it.
    Run(SinkCommand),
    /// Show the notification. The run is over; whether the notification
    /// could be delivered does not matter.
    Notify(NotificationSpec),
    /// The run is over.
    Finish,
}

/// An action as plain values.
pub enum ActionText {
    Run(CommandLine),
    Notify(NotificationText),
    Finish,
}

impl View for Action {
    type V = ActionText;

    open spec fn view(&self) -> ActionText {
        match *self {
            Action::Run(command) => ActionText::Run(command@),
            Action::Notify(notification) => ActionText::Notify(notification@),
            Action::Finish => ActionText::Finish,
        }
    }
}

/// What came of a command.
#[derive(Debug, PartialEq, Eq)]
pub enum Event {
    /// The command ran and ended.
    Exited {
        /// Whether it ended with success.
        success: bool,
        /// Its exit status, in words.
        status: String,
        /// What it wrote to its standard output.
        stdout: Vec<u8>,
        /// What it wrote to its standard error.
        stderr: Vec<u8>,
    },
    /// The command could not be launched.
    SpawnFailed {
        /// The reason, in words.
        error: String,
    },
}

/// An event as plain values.
pub enum EventText {
    Exited { success: bool, status: Seq<char>, stdout: Seq<u8>, stderr: Seq<u8> },
    SpawnFailed { error: Seq<char> },
}

impl View for Event {
    type V = EventText;

    open spec fn view(&self) -> EventText {
        match *self {
            Event::Exited { success, status, stdout, stderr } => EventText::Exited {
                success,
                status: status@,
                stdout: stdout@,
                stderr: stderr@,
            },
            Event::SpawnFailed { error } => EventText::SpawnFailed { error: error@ },
        }
    }
}

/// One step of a run: the state after it, the messages to print, in order,
/// and the action to take.
#[derive(Debug, PartialEq, Eq)]
pub struct Step {
    pub session: Session,
    pub messages: Vec<Message>,
    pub action: Action,
}

/// A step as plain values.
pub struct StepText {
    pub session: Session,
    pub messages: Seq<MessageText>,
    pub action: ActionText,
}

impl View for Step {
    type V = StepText;

    open spec fn view(&self) -> StepText {
        StepText {
            session: self.session,
            messages: self.messages.deep_view(),
            action: self.action@,
        }
    }
}

/// The usage line.
pub open spec fn usage() -> Seq<char> {
    "Usage: volctl [up|down|mute] [amount] [--verbose]"@
}

/// A message on the diagnostic stream.
pub open spec fn diagnostic(text: Seq<char>) -> MessageText {
    MessageText { stream: Stream::Diagnostic, text }
}

/// `messages` if the run is verbose, and none otherwise.
pub open spec fn when_verbose(verbose: bool, messages: Seq<MessageText>) -> Seq<MessageText> {
    if verbose {
        messages
    } else {
        Seq::empty()
    }
}

/// A step that ends the run with `messages` and nothing to do.
pub open spec fn last_step(verbose: bool, messages: Seq<MessageText>) -> StepText {
    StepText {
        session: Session { phase: Phase::Done, verbose },
        messages,
        action: ActionText::Finish,
    }
}

/// The first step of the run that the command line `args` asks for.
///
/// A request for help prints the usage line on the normal output. A missing
/// or unknown verb prints it on the diagnostic stream. In both cases nothing
/// is run. Otherwise the command that changes the sink is to be run; a
/// verbose run traces the amount of a volume change before.
pub open spec fn first_step(args: Seq<Seq<char>>) -> StepText {
    let verbose = invocation_of(args).verbose;
    match invocation_of(args).request {
        Request::Help => last_step(
            verbose,
            seq![MessageText { stream: Stream::Output, text: usage() }],
        ),
        Request::MissingVerb => last_step(verbose, seq![diagnostic(usage())]),
        Request::UnknownVerb => last_step(verbose, seq![diagnostic(usage())]),
        Request::Adjust { step } => StepText {
            session: Session { phase: Phase::Changing(Change::Volume), verbose },
            messages: when_verbose(
                verbose,
                seq![diagnostic("[volctl] executing wpctl with amount "@ + amount_token(step as int))],
            ),
            action: ActionText::Run(set_volume_line(step as int)),
        },
        Request::ToggleMute => StepText {
            session: Session { phase: Phase::Changing(Change::Mute), verbose },
            messages: Seq::empty(),
            action: ActionText::Run(toggle_mute_line()),
        },
    }
}

/// The words that open the message about a change that could not be
/// launched.
pub open spec fn launch_failure(change: Change) -> Seq<char> {
    match change {
        Change::Volume => "[volctl] Failed to set volume: "@,
        Change::Mute => "[volctl] Failed to toggle mute: "@,
    }
}

/// The step that follows `event` in the state `session`.
///
/// While the sink is changed: success leads to the query of the sink's
/// state; failure ends the run with a diagnostic and without a notification.
/// While the state is read: whatever the query printed is parsed, whether it
/// succeeded or not, and a query that could not be launched counts as volume
/// zero, not muted; either way the state is announced. A run that is over
/// stays over.
pub open spec fn next_step(session: Session, event: EventText) -> StepText {
    let verbose = session.verbose;
    match session.phase {
        Phase::Changing(change) => match event {
            EventText::Exited { success, status, stdout, stderr } => if success {
                StepText {
                    session: Session { phase: Phase::Reading, verbose },
                    messages: Seq::empty(),
                    action: ActionText::Run(get_volume_line()),
                }
            } else {
                last_step(
                    verbose,
                    seq![diagnostic("[volctl] wpctl exited with status: "@ + status)]
                        + when_verbose(
                        verbose,
                        seq![diagnostic("[volctl] wpctl stderr: "@ + utf8_lossy(stderr))],
                    ),
                )
            },
            EventText::SpawnFailed { error } => last_step(
                verbose,
                seq![diagnostic(launch_failure(change) + error)],
            ),
        },
        Phase::Reading => match event {
            EventText::Exited { success, status, stdout, stderr } => StepText {
                session: Session { phase: Phase::Done, verbose },
                messages: when_verbose(
                    verbose,
                    seq![diagnostic("[volctl] wpctl get-volume output: "@ + utf8_lossy(stdout))],
                ),
                action: ActionText::Notify(notification_of(parse_report(utf8_lossy(stdout)))),
            },
            EventText::SpawnFailed { error } => StepText {
                session: Session { phase: Phase::Done, verbose },
                messages: seq![diagnostic("[volctl] Error getting volume: "@ + error)]
                    + when_verbose(
                    verbose,
                    seq![diagnostic("[volctl] Note: could not capture stderr for get-volume"@)],
                ),
                action: ActionText::Notify(
                    notification_of(VolumeState { percent: 0, muted: false }),
                ),
            },
        },
        Phase::Done => last_step(verbose, Seq::empty()),
    }
}

/// A message on the diagnostic stream: `opening` followed by `rest`.
fn diagnose(opening: &str, rest: &str) -> (message: Message)
    ensures
        message.deep_view() == diagnostic(opening@ + rest@),
{
    let mut text = String::from_str(opening);
    text.append(rest);
    Message { stream: Stream::Diagnostic, text }
}

/// A message that is `text` as it stands.
fn message(stream: Stream, text: &str) -> (message: Message)
    ensures
        message.deep_view() == (MessageText { stream, text: text@ }),
{
    Message { stream, text: String::from_str(text) }
}

/// The step that ends a run.
fn finish(verbose: bool, messages: Vec<Message>) -> (step: Step)
    ensures
        step@ == last_step(verbose, messages.deep_view()),
{
    Step { session: Session { phase: Phase::Done, verbose }, messages, action: Action::Finish }
}

/// Begins the run that the command line `args` asks for, `args[0]` being
/// the program's name.
pub fn begin(args: &Vec<String>) -> (step: Step)
    ensures
        step@ == first_step(args.deep_view()),
{
    let invocation = parse_invocation(args);
    let verbose = invocation.verbose;
    let mut messages: Vec<Message> = Vec::new();
    match invocation.request {
        Request::Help => {
            messages.push(
                message(Stream::Output, "Usage: volctl [up|down|mute] [amount] [--verbose]"),
            );
            let step = finish(verbose, messages);
            assert(step@.messages =~= first_step(args.deep_view()).messages);
            step
        },
        Request::MissingVerb | Request::UnknownVerb => {
            messages.push(
                message(Stream::Diagnostic, "Usage: volctl [up|down|mute] [amount] [--verbose]"),
            );
            let step = finish(verbose, messages);
            assert(step@.messages =~= first_step(args.deep_view()).messages);
            step
        },
        Request::Adjust { step } => {
            if verbose {
                let token = amount(step);
                messages.push(diagnose("[volctl] executing wpctl with amount ", token.as_str()));
            }
            let next = Step {
                session: Session { phase: Phase::Changing(Change::Volume), verbose },
                messages,
                action: Action::Run(set_volume(step)),
            };
            assert(next@.messages =~= first_step(args.deep_view()).messages);
            next
        },
        Request::ToggleMute => {
            let next = Step {
                session: Session { phase: Phase::Changing(Change::Mute), verbose },
                messages,
                action: Action::Run(toggle_mute()),
            };
            assert(next@.messages =~= first_step(args.deep_view()).messages);
            next
        },
    }
}

/// Takes what came of the command that the last step asked for, and names
/// the next step.
pub fn advance(session: Session, event: &Event) -> (step: Step)
    ensures
        step@ == next_step(session, event@),
{
    let verbose = session.verbose;
    let mut messages: Vec<Message> = Vec::new();
    match session.phase {
        Phase::Changing(change) => match event {
            Event::Exited { success, status, stdout, stderr } => {
                if *success {
                    let step = Step {
                        session: Session { phase: Phase::Reading, verbose },
                        messages,
                        action: Action::Run(get_volume()),
                    };
                    assert(step@.messages =~= next_step(session, event@).messages);
                    step
                } else {
                    messages.push(diagnose("[volctl] wpctl exited with status: ", status.as_str()));
                    if verbose {
                        let errors = decode_lossy(stderr.as_slice());
                        messages.push(diagnose("[volctl] wpctl stderr: ", errors.as_str()));
                    }
                    let step = finish(verbose, messages);
                    assert(step@.messages =~= next_step(session, event@).messages);
                    step
                }
            },
            Event::SpawnFailed { error } => {
                let opening = match change {
                    Change::Volume => "[volctl] Failed to set volume: ",
                    Change::Mute => "[volctl] Failed to toggle mute: ",
                };
                messages.push(diagnose(opening, error.as_str()));
                let step = finish(verbose, messages);
                assert(step@.messages =~= next_step(session, event@).messages);
                step
            },
        },
        Phase::Reading => match event {
            Event::Exited { success, status, stdout, stderr } => {
                let output = decode_lossy(stdout.as_slice());
                if verbose {
                    messages.push(diagnose("[volctl] wpctl get-volume output: ", output.as_str()));
                }
                let state = parse_volume_report(output.as_str());
                let step = Step {
                    session: Session { phase: Phase::Done, verbose },
                    messages,
                    action: Action::Notify(shape_notification(state)),
                };
                assert(step@.messages =~= next_step(session, event@).messages);
                step
            },
            Event::SpawnFailed { error } => {
                messages.push(diagnose("[volctl] Error getting volume: ", error.as_str()));
                if verbose {
                    messages.push(
                        message(
                            Stream::Diagnostic,
                            "[volctl] Note: could not capture stderr for get-volume",
                        ),
                    );
                }
                let state = VolumeState { percent: 0, muted: false };
                let step = Step {
                    session: Session { phase: Phase::Done, verbose },
                    messages,
                    action: Action::Notify(shape_notification(state)),
                };
                assert(step@.messages =~= next_step(session, event@).messages);
                step
            },
        },
        Phase::Done => {
            let step = finish(verbose, messages);
            assert(step@.messages =~= next_step(session, event@).messages);
            step
        },
    }
}

/// A command line without a verb, or with a verb that is not known, runs
/// nothing: the run ends at once, with the usage line on the diagnostic
/// stream.
pub proof fn lemma_bad_verb_runs_nothing(args: Seq<Seq<char>>)
    requires
        invocation_of(args).request is MissingVerb || invocation_of(args).request is UnknownVerb,
    ensures
        first_step(args).action is Finish,
        first_step(args).session.phase is Done,
        first_step(args).messages == seq![diagnostic(usage())],
{
}

/// A change that fails is not announced: when the command that changes the
/// sink ends without success, or cannot be launched, the run ends with a
/// diagnostic and without a notification.
pub proof fn lemma_failed_change_is_not_announced(session: Session, event: EventText)
    requires
        session.phase is Changing,
        event matches EventText::Exited { success, .. } ==> !success,
    ensures
        next_step(session, event).action is Finish,
        next_step(session, event).session.phase is Done,
        next_step(session, event).messages.len() >= 1,
        next_step(session, event).messages[0].stream is Diagnostic,
{
}

/// A notification is shown only for a state that was read after the change:
/// the first step never shows one, and a later step shows one only when it
/// ends the reading phase. That step ends the run.
pub proof fn lemma_notification_follows_reading(
    args: Seq<Seq<char>>,
    session: Session,
    event: EventText,
)
    ensures
        !(first_step(args).action is Notify),
        next_step(session, event).action is Notify ==> session.phase is Reading && next_step(
            session,
            event,
        ).session.phase is Done,
        next_step(session, event).action is Run ==> session.phase is Changing && next_step(
            session,
            event,
        ).session.phase is Reading,
{
}

/// A run that is over stays over: no event makes it run or show anything.
pub proof fn lemma_done_stays_done(session: Session, event: EventText)
    requires
        session.phase is Done,
    ensures
        next_step(session, event) == last_step(session.verbose, Seq::empty()),
{
}

/// Whatever the query printed, the state that is announced lies within 0
/// and 100 percent and carries the fixed replacement identifier.
pub proof fn lemma_announcement(session: Session, event: EventText)
    requires
        session.phase is Reading,
    ensures
        next_step(session, event).action matches ActionText::Notify(n) && 0 <= n.value_hint <= 100
            && n.replaces_id == 5555 && n.timeout_ms == 1000 && n.category == "volume"@,
{
    match event {
        EventText::Exited { success, status, stdout, stderr } => {
            lemma_report_is_percentage(utf8_lossy(stdout));
        },
        EventText::SpawnFailed { error } => {},
    }
}

} // verus!
