//! Writing a shaped notification into the notification client's own value.
//!
//! The client's `Notification` is opaque here. What it holds is named by
//! `held`, as far as this library speaks of it, and the client's setters are
//! taken on trust to change of it what their documentation and source say
//! they change. Of what else a notification holds (the application's name,
//! a subtitle, hints of other kinds) nothing is said; no setter called here
//! touches it.
//!
//! A notification is made by the caller: the client's constructor reads the
//! name of the running executable, which is no business of this library.

use vstd::prelude::*;
use notify_rust::{Hint, Notification, Timeout};
use crate::notifier::NotificationSpec;

verus! {

/// The notification client's notification, which is opaque here.
#[verifier::external_type_specification]
#[verifier::external_body]
pub struct ExNotification(Notification);

/// What a notification holds, as far as this library speaks of it.
pub struct Held {
    pub summary: Seq<char>,
    pub body: Seq<char>,
    pub icon: Seq<char>,
    /// The actions: identifiers and labels in turn.
    pub actions: Seq<Seq<char>>,
    /// The milliseconds after which the notification expires, where it
    /// holds a number of them.
    pub timeout: Option<u32>,
    /// The identifier that the notification was given ahead of time.
    pub id: Option<u32>,
    /// The values of its category hints.
    pub categories: Set<Seq<char>>,
    /// The levels of its urgency hints.
    pub urgencies: Set<int>,
    /// Its integer hints, by name.
    pub integers: Map<Seq<char>, int>,
}

/// What the notification `n` holds.
pub uninterp spec fn held(n: Notification) -> Held;

/// A hint for the notification server.
enum ServerHint {
    /// The category of the notification.
    Category(String),
    /// An integer under a name of the sender's choosing.
    Integer(String, i32),
}

/// `Notification::summary`: sets the summary and nothing else.
#[verifier::external_body]
fn set_summary(notification: &mut Notification, text: &str)
    ensures
        held(*final(notification)) == (Held { summary: text@, ..held(*old(notification)) }),
{
    notification.summary(text);
}

/// `Notification::icon`: sets the icon and nothing else.
#[verifier::external_body]
fn set_icon(notification: &mut Notification, name: &str)
    ensures
        held(*final(notification)) == (Held { icon: name@, ..held(*old(notification)) }),
{
    notification.icon(name);
}

/// `Notification::timeout`, called with `Timeout::Milliseconds`: sets the
/// timeout to that number of milliseconds, and nothing else.
#[verifier::external_body]
fn set_timeout(notification: &mut Notification, milliseconds: u32)
    ensures
        held(*final(notification)) == (Held {
            timeout: Some(milliseconds),
            ..held(*old(notification))
        }),
{
    notification.timeout(Timeout::Milliseconds(milliseconds));
}

/// `Notification::id`: sets the identifier and nothing else.
#[verifier::external_body]
fn set_id(notification: &mut Notification, id: u32)
    ensures
        held(*final(notification)) == (Held { id: Some(id), ..held(*old(notification)) }),
{
    notification.id(id);
}

/// `Notification::hint`, called with `Hint::Category` or `Hint::CustomInt`:
/// a category hint joins the set of category hints; an integer hint is filed
/// under its name, in place of an earlier one of that name. Nothing else
/// changes.
#[verifier::external_body]
fn add_hint(notification: &mut Notification, hint: &ServerHint)
    ensures
        held(*final(notification)) == (match *hint {
            ServerHint::Category(category) => Held {
                categories: held(*old(notification)).categories.insert(category@),
                ..held(*old(notification))
            },
            ServerHint::Integer(name, value) => Held {
                integers: held(*old(notification)).integers.insert(name@, value as int),
                ..held(*old(notification))
            },
        }),
{
    notification.hint(
        match hint {
            ServerHint::Category(category) => Hint::Category(category.clone()),
            ServerHint::Integer(name, value) => Hint::CustomInt(name.clone(), *value),
        },
    );
}

/// The name of the integer hint that carries the percentage.
pub open spec fn value_hint_name() -> Seq<char> {
    "value"@
}

/// What a notification holds once `spec` is written into one that held
/// `before`: the summary, icon, timeout and replacement identifier of
/// `spec`, its category among the category hints, and its percentage as the
/// integer hint `value`. Body, actions and urgency are as before.
pub open spec fn filled(before: Held, spec: NotificationSpec) -> Held {
    Held {
        summary: spec.summary@,
        icon: spec.icon_name@,
        timeout: Some(spec.timeout_ms),
        id: Some(spec.replaces_id),
        categories: before.categories.insert(spec.category@),
        integers: before.integers.insert(value_hint_name(), spec.value_hint as int),
        ..before
    }
}

/// Writes `spec` into `notification`.
pub fn fill(notification: &mut Notification, spec: &NotificationSpec)
    ensures
        held(*final(notification)) == filled(held(*old(notification)), *spec),
{
    set_summary(notification, spec.summary.as_str());
    set_id(notification, spec.replaces_id);
    set_timeout(notification, spec.timeout_ms);
    set_icon(notification, spec.icon_name.as_str());
    add_hint(notification, &ServerHint::Category(spec.category.clone()));
    add_hint(notification, &ServerHint::Integer(String::from_str("value"), spec.value_hint));
}

} // verus!
