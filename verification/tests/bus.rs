use notify_rust::{Hint, Notification, Timeout};
use volctl::bus::fill;
use volctl::notifier::{shape_notification, NotificationSpec};
use volctl::report::VolumeState;

fn filled(percent: u8, muted: bool) -> Notification {
    let mut notification = Notification::new();
    fill(&mut notification, &shape_notification(VolumeState { percent, muted }));
    notification
}

#[test]
fn fills_summary_and_icon() {
    let notification = filled(45, false);
    assert_eq!(notification.summary, "Volume: 45%");
    assert_eq!(notification.icon, "audio-volume-medium");
    let notification = filled(72, true);
    assert_eq!(notification.summary, "Muted");
    assert_eq!(notification.icon, "audio-volume-muted");
}

#[test]
fn fills_timeout_and_identifier() {
    let notification = filled(45, false);
    assert_eq!(notification.timeout, Timeout::Milliseconds(1000));
    assert!(format!("{:?}", notification).contains("id: Some(5555)"));
}

#[test]
fn fills_hints() {
    let notification = filled(45, false);
    assert!(notification.hints.contains(&Hint::Category("volume".to_string())));
    assert_eq!(notification.hints.len(), 1);
    assert!(format!("{:?}", notification).contains("CustomInt(\"value\", 45)"));
}

#[test]
fn leaves_body_and_actions_alone() {
    let notification = filled(45, false);
    assert_eq!(notification.body, "");
    assert!(notification.actions.is_empty());
    assert_eq!(notification.subtitle, None);
}

#[test]
fn fills_over_what_was_there() {
    let mut notification = Notification::new();
    notification
        .summary("old")
        .icon("old-icon")
        .id(1)
        .timeout(Timeout::Never)
        .hint(Hint::Category("device".to_string()))
        .hint(Hint::CustomInt("value".to_string(), 3));
    let spec = NotificationSpec {
        summary: "Volume: 7%".to_string(),
        icon_name: "audio-volume-low".to_string(),
        category: "volume".to_string(),
        value_hint: 7,
        timeout_ms: 250,
        replaces_id: 42,
    };
    fill(&mut notification, &spec);
    assert_eq!(notification.summary, "Volume: 7%");
    assert_eq!(notification.icon, "audio-volume-low");
    assert_eq!(notification.timeout, Timeout::Milliseconds(250));
    let printed = format!("{:?}", notification);
    assert!(printed.contains("id: Some(42)"));
    assert!(printed.contains("CustomInt(\"value\", 7)"));
    assert!(!printed.contains("CustomInt(\"value\", 3)"));
    assert!(notification.hints.contains(&Hint::Category("device".to_string())));
    assert!(notification.hints.contains(&Hint::Category("volume".to_string())));
}
