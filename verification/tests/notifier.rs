use volctl::notifier::{icon_name, shape_notification, summary, REPLACES_ID, TIMEOUT_MS};
use volctl::report::VolumeState;

fn shown(percent: u8, muted: bool) -> (String, String) {
    let notification = shape_notification(VolumeState { percent, muted });
    (notification.summary, notification.icon_name)
}

fn pair(summary: &str, icon: &str) -> (String, String) {
    (summary.to_string(), icon.to_string())
}

#[test]
fn silent_sink() {
    assert_eq!(shown(0, false), pair("Volume: 0%", "audio-volume-low"));
}

#[test]
fn low_volume() {
    assert_eq!(shown(1, false), pair("Volume: 1%", "audio-volume-low"));
    assert_eq!(shown(29, false), pair("Volume: 29%", "audio-volume-low"));
}

#[test]
fn medium_volume() {
    assert_eq!(shown(30, false), pair("Volume: 30%", "audio-volume-medium"));
    assert_eq!(shown(69, false), pair("Volume: 69%", "audio-volume-medium"));
}

#[test]
fn high_volume() {
    assert_eq!(shown(70, false), pair("Volume: 70%", "audio-volume-high"));
    assert_eq!(shown(100, false), pair("Volume: 100%", "audio-volume-high"));
}

#[test]
fn muted_sink() {
    assert_eq!(shown(50, true), pair("Muted", "audio-volume-muted"));
    assert_eq!(shown(0, true), pair("Muted", "audio-volume-muted"));
    assert_eq!(shown(100, true), pair("Muted", "audio-volume-muted"));
}

#[test]
fn every_percentage_is_written_without_leading_zeros() {
    for percent in 0..=255u8 {
        let state = VolumeState { percent, muted: false };
        assert_eq!(summary(state), format!("Volume: {}%", percent));
        let expected = if percent < 30 {
            "audio-volume-low"
        } else if percent < 70 {
            "audio-volume-medium"
        } else {
            "audio-volume-high"
        };
        assert_eq!(icon_name(state), expected);
    }
}

#[test]
fn hints_timeout_and_identifier() {
    let notification = shape_notification(VolumeState { percent: 45, muted: false });
    assert_eq!(notification.category, "volume");
    assert_eq!(notification.value_hint, 45);
    assert_eq!(notification.timeout_ms, 1000);
    assert_eq!(notification.replaces_id, 5555);
    assert_eq!(TIMEOUT_MS, 1000);
    assert_eq!(REPLACES_ID, 5555);
}

#[test]
fn value_hint_of_a_muted_sink() {
    let notification = shape_notification(VolumeState { percent: 72, muted: true });
    assert_eq!(notification.value_hint, 72);
}

#[test]
fn same_identifier_for_every_state() {
    for percent in [0u8, 1, 29, 30, 69, 70, 100] {
        for muted in [false, true] {
            let notification = shape_notification(VolumeState { percent, muted });
            assert_eq!(notification.replaces_id, 5555);
        }
    }
}
