//! Tracing a touchpad.

use openlogi::agent::monitor::{
    TouchpadMonitorBatch, TouchpadMonitorEvent, TouchpadMonitorRecord, TouchpadRawModeConflict,
};
use openlogi::cli::touchpad::{
    capturing_line, check_protocol, conflict_line, match_device_query, match_lowered,
    select_device, touchpad_candidates, Candidate, Lowered, Selection, Summary, TouchpadArgs,
    Trace, TraceLengthError,
};
use openlogi::config::Config;
use openlogi::hid::SmartShiftThreshold;
use openlogi::mock::state::State;

fn candidate(name: &str, key: &str) -> Candidate {
    Candidate { name: name.to_string(), key: key.to_string() }
}

#[test]
fn device_query_must_select_exactly_one_touchpad() {
    let candidates = vec![
        candidate("Casa Touch Office", "serial:office"),
        candidate("Casa Touch Travel", "serial:travel"),
    ];

    assert_eq!(
        match_device_query(&candidates, "travel").expect("unique match"),
        Some("serial:travel".to_string())
    );
    assert!(
        match_device_query(&candidates, "Casa Touch")
            .expect_err("ambiguous name must not silently pick a device")
            .message
            .contains("is ambiguous")
    );
}

#[test]
fn a_query_is_matched_whatever_its_letters() {
    let candidates = vec![
        candidate("Casa Touch Office", "serial:office"),
        candidate("Casa Touch ÄRGER", "serial:travel"),
    ];
    assert_eq!(
        match_device_query(&candidates, "OFFICE"),
        Ok(Some("serial:office".to_string()))
    );
    assert_eq!(
        match_device_query(&candidates, "ärger"),
        Ok(Some("serial:travel".to_string()))
    );
    assert_eq!(
        match_device_query(&candidates, "SERIAL:TRAVEL"),
        Ok(Some("serial:travel".to_string()))
    );
    assert_eq!(match_device_query(&candidates, "nothing"), Ok(None));
    assert_eq!(
        match_device_query(&candidates, "casa")
            .expect_err("two touchpads")
            .message,
        "`--device casa` is ambiguous; matches: Casa Touch Office (serial:office), \
         Casa Touch ÄRGER (serial:travel)"
    );
}

#[test]
fn the_empty_query_means_every_touchpad() {
    assert_eq!(
        match_device_query(&vec![candidate("A", "a")], ""),
        Ok(Some("a".to_string()))
    );
    assert_eq!(match_device_query(&vec![], ""), Ok(None));
}

#[test]
fn small_letters_given_beforehand_decide() {
    let candidates = vec![candidate("X", "one"), candidate("Y", "two")];
    let lowered = vec![
        Lowered {
            name: "first".to_string(),
            key: "k".to_string(),
        },
        Lowered {
            name: "second".to_string(),
            key: "l".to_string(),
        },
    ];
    assert_eq!(
        match_lowered(&candidates, &lowered, "eco", "ECO"),
        Ok(Some("two".to_string()))
    );
    assert_eq!(match_lowered(&candidates, &lowered, "x", "X"), Ok(None));
}

#[test]
fn a_trace_lasts_between_a_second_and_five_minutes() {
    assert_eq!(
        TouchpadArgs::new(None, None),
        Ok(TouchpadArgs {
            seconds: 10,
            device: None
        })
    );
    assert_eq!(TouchpadArgs::new(Some(1), None).expect("short").seconds, 1);
    assert_eq!(TouchpadArgs::new(Some(300), None).expect("long").seconds, 300);
    assert_eq!(
        TouchpadArgs::new(Some(0), None),
        Err(TraceLengthError { seconds: 0 })
    );
    assert_eq!(
        TouchpadArgs::new(Some(301), None),
        Err(TraceLengthError { seconds: 301 })
    );
}

#[test]
fn the_shown_touchpad_is_traced_and_else_the_only_one() {
    let two = vec![candidate("A", "a"), candidate("B", "b")];
    let one = vec![candidate("A", "a")];
    assert_eq!(
        select_device(&two, None, Some("b"), false),
        Selection::Chosen("b".to_string())
    );
    assert_eq!(
        select_device(&one, None, Some("b"), false),
        Selection::Chosen("a".to_string())
    );
    assert_eq!(
        select_device(&two, None, None, false),
        Selection::Fail(
            "multiple raw-touchpad devices are online; select one with `--device`: A (a), B (b)"
                .to_string()
        )
    );
    assert_eq!(
        select_device(&two, Some("c"), Some("b"), false),
        Selection::Fail(
            "no raw-touchpad device matches `--device c`; available: A (a), B (b)".to_string()
        )
    );
    assert_eq!(select_device(&vec![], None, None, false), Selection::Wait);
    assert_eq!(
        select_device(&vec![], Some("c"), None, true),
        Selection::Fail("no online raw-touchpad device was reported by the Agent".to_string())
    );
}

#[test]
fn candidates_are_the_online_touchpads_by_key() {
    let state = State::new(SmartShiftThreshold { value: 16 });
    let found = touchpad_candidates(&state.render_inventory(0), &Config::default());
    assert_eq!(found, vec![candidate("Casa Touch", "serial:mockcasa1")]);
}

#[test]
fn a_candidate_without_a_name_is_called_by_its_slot() {
    let mut inventories = State::new(SmartShiftThreshold { value: 16 }).render_inventory(0);
    inventories[0].paired[3].codename = None;
    let found = touchpad_candidates(&inventories, &Config::default());
    assert_eq!(found, vec![candidate("Slot 4", "serial:mockcasa1")]);
}

fn record(event: TouchpadMonitorEvent) -> TouchpadMonitorRecord {
    TouchpadMonitorRecord {
        device_key: "unit:casa".to_string(),
        event,
    }
}

fn conflict(actual: u8) -> TouchpadRawModeConflict {
    TouchpadRawModeConflict {
        device_key: "unit:casa".to_string(),
        expected: 5,
        actual,
    }
}

#[test]
fn a_batch_is_counted_and_each_conflict_reported_once() {
    let mut trace = Trace::default();
    assert!(trace.saw_nothing());
    let batch = TouchpadMonitorBatch {
        events: vec![
            record(TouchpadMonitorEvent::Frame {
                timestamp_us: 1,
                button: false,
                contacts: vec![],
            }),
            record(TouchpadMonitorEvent::End),
            record(TouchpadMonitorEvent::Cancel),
            record(TouchpadMonitorEvent::DroppedFrames { count: 4 }),
        ],
        dropped_events: 9,
        conflicts: vec![conflict(0), conflict(1), conflict(0)],
    };
    assert_eq!(
        trace.consume_batch(&batch),
        vec![conflict(0), conflict(1)]
    );
    assert_eq!(trace.consume_batch(&batch), vec![]);
    trace.summary.observe_native(7);
    assert!(!trace.saw_nothing());
    assert_eq!(
        trace.summary_line(),
        "summary: 2 frames, 2 ends, 2 cancels, 8 logical-frame drops, 18 buffer drops, \
         7 native events, 2 raw-mode conflicts"
    );
}

#[test]
fn lost_frames_are_counted_up_to_the_largest_number() {
    let mut summary = Summary::default();
    summary.observe_touchpad(&TouchpadMonitorEvent::DroppedFrames { count: u64::MAX });
    summary.observe_touchpad(&TouchpadMonitorEvent::DroppedFrames { count: 1 });
    assert_eq!(summary.logical_frame_drops, u64::MAX);
}

#[test]
fn lines_of_a_trace() {
    assert_eq!(
        conflict_line(&conflict(0)),
        "raw-mode conflict on unit:casa: expected 0x05, observed 0x00; \
         the Agent will not overwrite it"
    );
    assert_eq!(
        capturing_line(10, "unit:casa"),
        "capturing Agent-owned touchpad and native-event traces for 10 s (unit:casa)"
    );
    assert_eq!(check_protocol(3, 3), Ok(()));
    assert_eq!(
        check_protocol(2, 3),
        Err("the agent speaks protocol v2, but this CLI expects v3".to_string())
    );
}
