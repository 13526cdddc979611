//! Looking on at a touchpad.

use openlogi::agent::input::CapturedInput;
use openlogi::agent::monitor::{
    TouchpadMonitor, TouchpadMonitorEvent, TouchpadMonitorRecord, TouchpadRawModeConflict, CAPACITY,
};
use openlogi::touchpad::{TouchContact, TouchFrame};

fn frame() -> CapturedInput {
    CapturedInput::TouchpadFrame(
        TouchFrame::new(
            8_000,
            false,
            vec![TouchContact {
                id: 2,
                x_um: 10_000,
                y_um: 20_000,
            }],
        )
        .expect("one contact is valid"),
    )
}

#[test]
fn records_only_touchpad_inputs_after_the_first_poll() {
    let mut monitor = TouchpadMonitor::default();
    monitor.record("unit:casa", &frame());
    assert!(monitor.poll("unit:casa").events.is_empty());
    assert!(monitor.capture_requested_for("unit:casa"));
    assert!(!monitor.capture_requested_for("unit:other"));

    monitor.record("unit:casa", &frame());
    monitor.record("unit:other", &frame());

    assert_eq!(
        monitor.poll("unit:casa").events,
        vec![TouchpadMonitorRecord {
            device_key: "unit:casa".to_string(),
            event: TouchpadMonitorEvent::Frame {
                timestamp_us: 8_000,
                button: false,
                contacts: vec![TouchContact {
                    id: 2,
                    x_um: 10_000,
                    y_um: 20_000,
                }],
            },
        }]
    );
}

#[test]
fn bounded_buffer_reports_evicted_events() {
    let mut monitor = TouchpadMonitor::default();
    monitor.poll("unit:casa");
    for _ in 0..=CAPACITY {
        monitor.record("unit:casa", &CapturedInput::TouchpadEnd);
    }

    let batch = monitor.poll("unit:casa");
    assert_eq!(batch.events.len(), CAPACITY);
    assert_eq!(batch.dropped_events, 1);
}

#[test]
fn conflicts_survive_disabled_event_buffering_until_cleared() {
    let mut monitor = TouchpadMonitor::default();
    monitor.set_conflict("unit:casa", 0x05, 0x00);

    assert_eq!(
        monitor.poll("unit:casa").conflicts,
        vec![TouchpadRawModeConflict {
            device_key: "unit:casa".to_string(),
            expected: 0x05,
            actual: 0x00,
        }]
    );
    monitor.clear_conflict("unit:casa");
    assert!(monitor.poll("unit:casa").conflicts.is_empty());
}

#[test]
fn nobody_looking_on_stops_the_recording() {
    let mut monitor = TouchpadMonitor::default();
    monitor.poll("unit:casa");
    monitor.idle_tick();
    assert!(monitor.capture_requested_for("unit:casa"), "it was polled since");
    monitor.record("unit:casa", &frame());
    monitor.idle_tick();
    assert!(!monitor.capture_requested_for("unit:casa"));
    assert!(monitor.poll("unit:casa").events.is_empty());
}

#[test]
fn another_device_takes_the_recording_over() {
    let mut monitor = TouchpadMonitor::default();
    monitor.poll("unit:casa");
    monitor.record("unit:casa", &CapturedInput::TouchpadCancel);
    assert!(monitor.poll("unit:other").events.is_empty());
    assert!(!monitor.capture_requested_for("unit:casa"));
    monitor.record("unit:other", &CapturedInput::TouchpadDroppedFrames(3));
    assert_eq!(
        monitor.poll("unit:other").events,
        vec![TouchpadMonitorRecord {
            device_key: "unit:other".to_string(),
            event: TouchpadMonitorEvent::DroppedFrames { count: 3 },
        }]
    );
}

#[test]
fn a_poll_gives_the_last_events_in_order_and_counts_the_others() {
    let mut monitor = TouchpadMonitor::default();
    monitor.poll("unit:casa");
    let surplus: u64 = 3;
    let total = CAPACITY as u64 + surplus;
    for count in 0..total {
        monitor.record("unit:casa", &CapturedInput::TouchpadDroppedFrames(count));
        monitor.record("unit:other", &CapturedInput::TouchpadEnd);
    }
    monitor.idle_tick();
    monitor.set_conflict("unit:casa", 0x05, 0x00);

    let batch = monitor.poll("unit:casa");
    let seen: Vec<TouchpadMonitorRecord> = (surplus..total)
        .map(|count| TouchpadMonitorRecord {
            device_key: "unit:casa".to_string(),
            event: TouchpadMonitorEvent::DroppedFrames { count },
        })
        .collect();
    assert_eq!(batch.events, seen);
    assert_eq!(batch.dropped_events, surplus);
    assert_eq!(batch.conflicts.len(), 1);

    let again = monitor.poll("unit:casa");
    assert!(again.events.is_empty());
    assert_eq!(again.dropped_events, 0);
    assert_eq!(again.conflicts, batch.conflicts);
}
