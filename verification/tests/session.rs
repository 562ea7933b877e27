use volctl::notifier::NotificationSpec;
use volctl::session::{advance, begin, Action, Change, Event, Message, Phase, Session, Step, Stream};

const USAGE: &str = "Usage: volctl [up|down|mute] [amount] [--verbose]";

/// What a run did: the command lines it ran, the messages it printed, and
/// the notification it showed.
struct Run {
    commands: Vec<Vec<String>>,
    messages: Vec<Message>,
    shown: Vec<NotificationSpec>,
}

/// Runs the utility on `words`, answering its commands with `answers` in
/// order.
fn run(words: &[&str], answers: Vec<Event>) -> Run {
    let mut args = vec!["volctl".to_string()];
    for word in words {
        args.push(word.to_string());
    }
    let mut done = Run { commands: Vec::new(), messages: Vec::new(), shown: Vec::new() };
    let mut answers = answers.into_iter();
    let mut step = begin(&args);
    loop {
        let Step { session, messages, action } = step;
        done.messages.extend(messages);
        match action {
            Action::Run(command) => {
                let mut line = vec![command.program];
                line.extend(command.args);
                done.commands.push(line);
                let answer = answers.next().expect("a command without an answer");
                step = advance(session, &answer);
            }
            Action::Notify(notification) => {
                assert_eq!(session.phase, Phase::Done);
                done.shown.push(notification);
                return done;
            }
            Action::Finish => {
                assert_eq!(session.phase, Phase::Done);
                return done;
            }
        }
    }
}

fn prints(output: &str) -> Event {
    Event::Exited {
        success: true,
        status: "exit status: 0".to_string(),
        stdout: output.as_bytes().to_vec(),
        stderr: Vec::new(),
    }
}

fn fails(status: &str, stderr: &str) -> Event {
    Event::Exited {
        success: false,
        status: status.to_string(),
        stdout: Vec::new(),
        stderr: stderr.as_bytes().to_vec(),
    }
}

fn missing() -> Event {
    Event::SpawnFailed { error: "No such file or directory (os error 2)".to_string() }
}

fn diagnostic(text: &str) -> Message {
    Message { stream: Stream::Diagnostic, text: text.to_string() }
}

fn words(line: &[&str]) -> Vec<String> {
    line.iter().map(|word| word.to_string()).collect()
}

#[test]
fn raise_is_announced() {
    let done = run(&["up", "10"], vec![prints(""), prints("Volume: 0.45")]);
    assert_eq!(
        done.commands,
        [
            words(&["wpctl", "set-volume", "-l", "1.0", "@DEFAULT_AUDIO_SINK@", "10%+"]),
            words(&["wpctl", "get-volume", "@DEFAULT_AUDIO_SINK@"]),
        ]
    );
    assert_eq!(done.messages, []);
    assert_eq!(
        done.shown,
        [NotificationSpec {
            summary: "Volume: 45%".to_string(),
            icon_name: "audio-volume-medium".to_string(),
            category: "volume".to_string(),
            value_hint: 45,
            timeout_ms: 1000,
            replaces_id: 5555,
        }]
    );
}

#[test]
fn mute_is_announced() {
    let done = run(&["mute"], vec![prints(""), prints("Volume: 0.72 [MUTED]")]);
    assert_eq!(
        done.commands,
        [
            words(&["wpctl", "set-mute", "@DEFAULT_AUDIO_SINK@", "toggle"]),
            words(&["wpctl", "get-volume", "@DEFAULT_AUDIO_SINK@"]),
        ]
    );
    assert_eq!(done.shown.len(), 1);
    assert_eq!(done.shown[0].summary, "Muted");
    assert_eq!(done.shown[0].icon_name, "audio-volume-muted");
    assert_eq!(done.shown[0].value_hint, 72);
}

#[test]
fn empty_report_is_announced_as_silence() {
    let done = run(&["down", "5"], vec![prints(""), prints("")]);
    assert_eq!(
        done.commands[0],
        words(&["wpctl", "set-volume", "-l", "1.0", "@DEFAULT_AUDIO_SINK@", "5%-"])
    );
    assert_eq!(done.messages, []);
    assert_eq!(done.shown.len(), 1);
    assert_eq!(done.shown[0].summary, "Volume: 0%");
    assert_eq!(done.shown[0].icon_name, "audio-volume-low");
    assert_eq!(done.shown[0].value_hint, 0);
}

#[test]
fn failed_change_is_not_announced() {
    let done = run(&["up", "10"], vec![fails("exit status: 1", "no sink")]);
    assert_eq!(done.commands.len(), 1);
    assert_eq!(done.messages, [diagnostic("[volctl] wpctl exited with status: exit status: 1")]);
    assert_eq!(done.shown, []);

    let done = run(&["mute"], vec![fails("exit status: 2", "")]);
    assert_eq!(done.commands.len(), 1);
    assert_eq!(done.messages, [diagnostic("[volctl] wpctl exited with status: exit status: 2")]);
    assert_eq!(done.shown, []);
}

#[test]
fn failed_change_echoes_errors_when_verbose() {
    let done = run(&["up", "10", "--verbose"], vec![fails("exit status: 1", "no sink\n")]);
    assert_eq!(
        done.messages,
        [
            diagnostic("[volctl] executing wpctl with amount 10%+"),
            diagnostic("[volctl] wpctl exited with status: exit status: 1"),
            diagnostic("[volctl] wpctl stderr: no sink\n"),
        ]
    );
    assert_eq!(done.shown, []);
}

#[test]
fn two_raises_share_one_identifier() {
    let first = run(&["up"], vec![prints(""), prints("Volume: 0.45")]);
    let second = run(&["up"], vec![prints(""), prints("Volume: 0.50")]);
    assert_eq!(first.shown[0].replaces_id, 5555);
    assert_eq!(second.shown[0].replaces_id, 5555);
    assert_eq!(first.shown[0].value_hint, 45);
    assert_eq!(second.shown[0].value_hint, 50);
    assert_eq!(first.commands[0][5], "5%+");
}

#[test]
fn tool_that_cannot_be_launched() {
    let done = run(&["up"], vec![missing()]);
    assert_eq!(done.commands.len(), 1);
    assert_eq!(
        done.messages,
        [diagnostic("[volctl] Failed to set volume: No such file or directory (os error 2)")]
    );
    assert_eq!(done.shown, []);

    let done = run(&["mute", "--verbose"], vec![missing()]);
    assert_eq!(
        done.messages,
        [diagnostic("[volctl] Failed to toggle mute: No such file or directory (os error 2)")]
    );
    assert_eq!(done.shown, []);
}

#[test]
fn query_that_cannot_be_launched() {
    let done = run(&["up"], vec![prints(""), missing()]);
    assert_eq!(
        done.messages,
        [diagnostic("[volctl] Error getting volume: No such file or directory (os error 2)")]
    );
    assert_eq!(done.shown.len(), 1);
    assert_eq!(done.shown[0].summary, "Volume: 0%");
    assert_eq!(done.shown[0].value_hint, 0);

    let done = run(&["--verbose", "mute"], vec![prints(""), missing()]);
    assert_eq!(
        done.messages,
        [
            diagnostic("[volctl] Error getting volume: No such file or directory (os error 2)"),
            diagnostic("[volctl] Note: could not capture stderr for get-volume"),
        ]
    );
    assert_eq!(done.shown.len(), 1);
}

#[test]
fn query_that_fails_is_still_parsed() {
    let answer = Event::Exited {
        success: false,
        status: "exit status: 1".to_string(),
        stdout: b"Volume: 0.30".to_vec(),
        stderr: b"warning".to_vec(),
    };
    let done = run(&["down"], vec![prints(""), answer]);
    assert_eq!(done.messages, []);
    assert_eq!(done.shown.len(), 1);
    assert_eq!(done.shown[0].summary, "Volume: 30%");
    assert_eq!(done.shown[0].icon_name, "audio-volume-medium");
}

#[test]
fn verbose_run_traces_amount_and_report() {
    let done = run(&["down", "7", "--verbose"], vec![prints(""), prints("Volume: 0.93\n")]);
    assert_eq!(
        done.messages,
        [
            diagnostic("[volctl] executing wpctl with amount 7%-"),
            diagnostic("[volctl] wpctl get-volume output: Volume: 0.93\n"),
        ]
    );
    assert_eq!(done.shown[0].summary, "Volume: 93%");
    assert_eq!(done.shown[0].icon_name, "audio-volume-high");
}

#[test]
fn report_that_is_not_text() {
    let answer = Event::Exited {
        success: true,
        status: String::new(),
        stdout: b"Volume: \xff 0.25 [MUTED]".to_vec(),
        stderr: Vec::new(),
    };
    let done = run(&["--verbose", "mute"], vec![prints(""), answer]);
    assert_eq!(
        done.messages,
        [diagnostic("[volctl] wpctl get-volume output: Volume: \u{fffd} 0.25 [MUTED]")]
    );
    assert_eq!(done.shown[0].summary, "Muted");
    assert_eq!(done.shown[0].value_hint, 25);
}

#[test]
fn unknown_verb_runs_nothing() {
    let done = run(&["louder"], Vec::new());
    assert_eq!(done.commands.len(), 0);
    assert_eq!(done.messages, [diagnostic(USAGE)]);
    assert_eq!(done.shown, []);
}

#[test]
fn missing_verb_runs_nothing() {
    for line in [&[][..], &["--verbose"][..]] {
        let done = run(line, Vec::new());
        assert_eq!(done.commands.len(), 0);
        assert_eq!(done.messages, [diagnostic(USAGE)]);
        assert_eq!(done.shown, []);
    }
}

#[test]
fn help_prints_usage_on_the_normal_output() {
    for flag in ["--help", "-h"] {
        let done = run(&[flag], Vec::new());
        assert_eq!(done.commands.len(), 0);
        assert_eq!(done.messages, [Message { stream: Stream::Output, text: USAGE.to_string() }]);
        assert_eq!(done.shown, []);
    }
}

#[test]
fn first_step_of_each_verb() {
    let up = begin(&words(&["volctl", "up"]));
    assert_eq!(up.session, Session { phase: Phase::Changing(Change::Volume), verbose: false });
    let mute = begin(&words(&["volctl", "mute", "--verbose"]));
    assert_eq!(mute.session, Session { phase: Phase::Changing(Change::Mute), verbose: true });
    assert_eq!(mute.messages, []);
}

#[test]
fn run_that_is_over_stays_over() {
    for verbose in [false, true] {
        let over = Session { phase: Phase::Done, verbose };
        for event in [prints("Volume: 0.45"), fails("exit status: 1", "x"), missing()] {
            let step = advance(over, &event);
            assert_eq!(step.session, over);
            assert_eq!(step.messages, []);
            assert_eq!(step.action, Action::Finish);
        }
    }
}
