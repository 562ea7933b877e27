//! The command lines that query and change the default audio sink.
//!
//! The audio tool takes a relative change as a magnitude followed by a sign,
//! `7%+` or `5%-`, rather than as a signed number. That quirk is kept here;
//! the rest of the library speaks of a signed step.

use vstd::prelude::*;
use crate::number::{decimal_digits, render_decimal};

verus! {

/// A command line for the audio tool.
#[derive(Debug, PartialEq, Eq)]
pub struct SinkCommand {
    pub program: String,
    pub args: Vec<String>,
}

/// A command line as text.
pub struct CommandLine {
    pub program: Seq<char>,
    pub args: Seq<Seq<char>>,
}

impl View for SinkCommand {
    type V = CommandLine;

    open spec fn view(&self) -> CommandLine {
        CommandLine { program: self.program@, args: self.args.deep_view() }
    }
}

/// The name of the audio tool.
pub open spec fn tool() -> Seq<char> {
    "wpctl"@
}

/// The name by which the audio tool knows the default sink.
pub open spec fn default_sink() -> Seq<char> {
    "@DEFAULT_AUDIO_SINK@"@
}

/// The size of a step, whatever its direction.
pub open spec fn magnitude(step: int) -> nat {
    if step < 0 {
        (-step) as nat
    } else {
        step as nat
    }
}

/// The amount that asks for a change by `step` percentage points: the
/// magnitude in decimal, a percent sign, and `+` for a step above zero, `-`
/// for any other.
pub open spec fn amount_token(step: int) -> Seq<char> {
    decimal_digits(magnitude(step)) + "%"@ + (if step > 0 {
        "+"@
    } else {
        "-"@
    })
}

/// The query for the volume of the default sink.
pub open spec fn get_volume_line() -> CommandLine {
    CommandLine { program: tool(), args: seq!["get-volume"@, default_sink()] }
}

/// The change of the default sink's volume by `step` percentage points, with
/// unity gain as its ceiling.
pub open spec fn set_volume_line(step: int) -> CommandLine {
    CommandLine {
        program: tool(),
        args: seq!["set-volume"@, "-l"@, "1.0"@, default_sink(), amount_token(step)],
    }
}

/// The flip of the default sink's mute state.
pub open spec fn toggle_mute_line() -> CommandLine {
    CommandLine { program: tool(), args: seq!["set-mute"@, default_sink(), "toggle"@] }
}

/// The amount that asks the audio tool for a change by `step`.
pub fn amount(step: i32) -> (token: String)
    ensures
        token@ == amount_token(step as int),
{
    let size: u32 = if step >= 0 {
        step as u32
    } else if step == i32::MIN {
        0x8000_0000
    } else {
        (-step) as u32
    };
    let mut token = render_decimal(size);
    token.append("%");
    token.append(if step > 0 { "+" } else { "-" });
    token
}

/// The command line that reads the volume of the default sink.
pub fn get_volume() -> (command: SinkCommand)
    ensures
        command@ == get_volume_line(),
{
    let mut args: Vec<String> = Vec::new();
    args.push(String::from_str("get-volume"));
    args.push(String::from_str("@DEFAULT_AUDIO_SINK@"));
    let command = SinkCommand { program: String::from_str("wpctl"), args };
    assert(command@.args =~= get_volume_line().args);
    command
}

/// The command line that changes the volume of the default sink by `step`
/// percentage points. The tool is told to keep the gain at or below unity.
pub fn set_volume(step: i32) -> (command: SinkCommand)
    ensures
        command@ == set_volume_line(step as int),
{
    let mut args: Vec<String> = Vec::new();
    args.push(String::from_str("set-volume"));
    args.push(String::from_str("-l"));
    args.push(String::from_str("1.0"));
    args.push(String::from_str("@DEFAULT_AUDIO_SINK@"));
    args.push(amount(step));
    let command = SinkCommand { program: String::from_str("wpctl"), args };
    assert(command@.args =~= set_volume_line(step as int).args);
    command
}

/// The command line that flips the mute state of the default sink.
pub fn toggle_mute() -> (command: SinkCommand)
    ensures
        command@ == toggle_mute_line(),
{
    let mut args: Vec<String> = Vec::new();
    args.push(String::from_str("set-mute"));
    args.push(String::from_str("@DEFAULT_AUDIO_SINK@"));
    args.push(String::from_str("toggle"));
    let command = SinkCommand { program: String::from_str("wpctl"), args };
    assert(command@.args =~= toggle_mute_line().args);
    command
}

/// Every change of the volume carries the ceiling `-l 1.0`, whatever the
/// step, and names the default sink.
pub proof fn lemma_ceiling_always_present(step: int)
    ensures
        set_volume_line(step).args.len() == 5,
        set_volume_line(step).args[1] == "-l"@,
        set_volume_line(step).args[2] == "1.0"@,
        set_volume_line(step).args[3] == default_sink(),
        set_volume_line(step).args[4] == amount_token(step),
{
}

} // verus!
