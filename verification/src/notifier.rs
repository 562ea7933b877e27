//! The notification that announces the state of the sink.
//!
//! Every notification carries the same replacement identifier, so that a
//! desktop shell updates one bubble in place instead of stacking a new one
//! at each key press.

use vstd::prelude::*;
use crate::number::{decimal_digits, render_decimal};
use crate::report::VolumeState;

verus! {

/// The identifier under which each notification replaces the one before.
pub const REPLACES_ID: u32 = 5555;

/// How long a notification stays on screen, in milliseconds.
pub const TIMEOUT_MS: u32 = 1000;

/// A notification, ready to be handed to the notification bus.
#[derive(Debug, PartialEq, Eq)]
pub struct NotificationSpec {
    pub summary: String,
    pub icon_name: String,
    /// The value of the category hint.
    pub category: String,
    /// The value of the integer hint named `value`, from which a shell may
    /// draw a progress bar.
    pub value_hint: i32,
    pub timeout_ms: u32,
    pub replaces_id: u32,
}

/// A notification as plain values.
pub struct NotificationText {
    pub summary: Seq<char>,
    pub icon_name: Seq<char>,
    pub category: Seq<char>,
    pub value_hint: int,
    pub timeout_ms: int,
    pub replaces_id: int,
}

impl View for NotificationSpec {
    type V = NotificationText;

    open spec fn view(&self) -> NotificationText {
        NotificationText {
            summary: self.summary@,
            icon_name: self.icon_name@,
            category: self.category@,
            value_hint: self.value_hint as int,
            timeout_ms: self.timeout_ms as int,
            replaces_id: self.replaces_id as int,
        }
    }
}

/// The line that sums up `state`: `Muted` for a muted sink, and otherwise the
/// percentage in decimal between `Volume: ` and `%`.
pub open spec fn summary_of(state: VolumeState) -> Seq<char> {
    if state.muted {
        "Muted"@
    } else {
        "Volume: "@ + decimal_digits(state.percent as nat) + "%"@
    }
}

/// The icon that stands for `state`. A muted sink has its own icon, whatever
/// its volume; otherwise the volume picks among three.
pub open spec fn icon_of(state: VolumeState) -> Seq<char> {
    if state.muted {
        "audio-volume-muted"@
    } else if state.percent < 30 {
        "audio-volume-low"@
    } else if state.percent < 70 {
        "audio-volume-medium"@
    } else {
        "audio-volume-high"@
    }
}

/// The notification that announces `state`.
pub open spec fn notification_of(state: VolumeState) -> NotificationText {
    NotificationText {
        summary: summary_of(state),
        icon_name: icon_of(state),
        category: "volume"@,
        value_hint: state.percent as int,
        timeout_ms: TIMEOUT_MS as int,
        replaces_id: REPLACES_ID as int,
    }
}

/// The line that sums up `state`.
pub fn summary(state: VolumeState) -> (text: String)
    ensures
        text@ == summary_of(state),
{
    if state.muted {
        String::from_str("Muted")
    } else {
        let mut text = String::from_str("Volume: ");
        let digits = render_decimal(state.percent as u32);
        text.append(digits.as_str());
        text.append("%");
        text
    }
}

/// The name of the icon that stands for `state`.
pub fn icon_name(state: VolumeState) -> (name: &'static str)
    ensures
        name@ == icon_of(state),
{
    if state.muted {
        "audio-volume-muted"
    } else if state.percent < 30 {
        "audio-volume-low"
    } else if state.percent < 70 {
        "audio-volume-medium"
    } else {
        "audio-volume-high"
    }
}

/// Shapes the notification that announces `state`.
pub fn shape_notification(state: VolumeState) -> (notification: NotificationSpec)
    ensures
        notification@ == notification_of(state),
{
    NotificationSpec {
        summary: summary(state),
        icon_name: String::from_str(icon_name(state)),
        category: String::from_str("volume"),
        value_hint: state.percent as i32,
        timeout_ms: TIMEOUT_MS,
        replaces_id: REPLACES_ID,
    }
}

/// The replacement identifier does not depend on the state: any two
/// notifications carry the same one.
pub proof fn lemma_replacement_is_stable(a: VolumeState, b: VolumeState)
    ensures
        notification_of(a).replaces_id == notification_of(b).replaces_id,
        notification_of(a).replaces_id == 5555,
{
}

/// A muted sink is announced as muted whatever its volume.
pub proof fn lemma_muted_takes_precedence(percent: u8)
    ensures
        summary_of(VolumeState { percent, muted: true }) == "Muted"@,
        icon_of(VolumeState { percent, muted: true }) == "audio-volume-muted"@,
{
}

} // verus!
