use key_mapper::controller::VirtualController;
use key_mapper::device::InputDevice;
use key_mapper::error::AppError;
use key_mapper::keys::{ButtonCode, RawEvent, KEY_E, KEY_Q, KEY_W};
use key_mapper::mapping::{run_worker, DeviceMapper, SessionState, WorkerEvent};
use key_mapper::router::{route_event, Emission};

fn test_keyboard() -> InputDevice {
    InputDevice::new(
        "/dev/input/event0".to_string(),
        "Test Keyboard".to_string(),
        Some(vec![29, 42, 56]),
    )
}

fn mapper_with_one_controller() -> DeviceMapper {
    let mut mapper = DeviceMapper::new(test_keyboard());
    let mut controller = VirtualController::new("Controller 1".to_string());
    controller.key_mapping.insert(KEY_W, ButtonCode::DpadUp);
    mapper.add_controller(controller);
    mapper
}

#[test]
fn start_without_controllers_fails() {
    let mut mapper = DeviceMapper::new(test_keyboard());
    match mapper.start_mapping() {
        Err(AppError::NoControllers) => {}
        other => panic!("expected NoControllers, got {:?}", other.map(|_| ())),
    }
    assert!(matches!(mapper.state, SessionState::Idle));
}

#[test]
fn start_while_running_fails() {
    let mut mapper = mapper_with_one_controller();
    mapper.start_mapping().expect("first start should succeed");
    assert!(mapper.is_running());
    match mapper.start_mapping() {
        Err(AppError::AlreadyRunning) => {}
        other => panic!("expected AlreadyRunning, got {:?}", other.map(|_| ())),
    }
    assert!(mapper.is_running());
}

#[test]
fn stop_is_idempotent_and_returns_to_idle() {
    let mut mapper = mapper_with_one_controller();
    mapper.start_mapping().expect("start should succeed");
    mapper.stop_mapping();
    assert!(!mapper.is_running());
    assert!(matches!(mapper.state, SessionState::Idle));
    mapper.stop_mapping();
    assert!(matches!(mapper.state, SessionState::Idle));
}

#[test]
fn start_then_stop_releases_device_and_allows_restart() {
    let mut mapper = mapper_with_one_controller();
    let router = mapper.start_mapping().expect("start should succeed");

    // The worker observes the cancellation within one poll turn and
    // releases the grabbed device before exiting.
    let outcome = run_worker(&router, true, true, &vec![WorkerEvent::Cancelled]);
    assert!(outcome.released);
    assert_eq!(outcome.result, Ok(()));
    assert!(outcome.emissions.is_empty());

    mapper.stop_mapping();
    // The device is free again: a fresh session can grab it.
    let router2 = mapper.start_mapping().expect("restart should succeed");
    let outcome2 = run_worker(&router2, true, true, &vec![WorkerEvent::Signal]);
    assert!(outcome2.released);
    assert_eq!(outcome2.result, Ok(()));
}

#[test]
fn failed_grab_is_fatal_and_dispatches_nothing() {
    let mut mapper = mapper_with_one_controller();
    let router = mapper.start_mapping().expect("start should succeed");
    let outcome = run_worker(
        &router,
        true,
        false,
        &vec![WorkerEvent::Batch(vec![RawEvent::key(KEY_W, 1)])],
    );
    assert!(!outcome.released);
    assert_eq!(outcome.result, Err(AppError::DeviceBusy));
    assert!(outcome.emissions.is_empty());
    // The session surfaces the failure and returns to idle.
    mapper.stop_mapping();
    assert!(matches!(mapper.state, SessionState::Idle));
}

#[test]
fn failed_open_is_fatal_before_any_dispatch() {
    let mut mapper = mapper_with_one_controller();
    let router = mapper.start_mapping().expect("start should succeed");
    let outcome = run_worker(
        &router,
        false,
        false,
        &vec![WorkerEvent::Batch(vec![RawEvent::key(KEY_W, 1)])],
    );
    assert!(!outcome.released);
    assert_eq!(outcome.result, Err(AppError::DeviceOpenFailed));
    assert!(outcome.emissions.is_empty());
}

#[test]
fn fetch_failure_ends_loop_after_releasing() {
    let mut mapper = mapper_with_one_controller();
    let router = mapper.start_mapping().expect("start should succeed");
    let outcome = run_worker(
        &router,
        true,
        true,
        &vec![
            WorkerEvent::Batch(vec![RawEvent::key(KEY_W, 1)]),
            WorkerEvent::FetchFailed,
            WorkerEvent::Batch(vec![RawEvent::key(KEY_W, 0)]),
        ],
    );
    assert!(outcome.released);
    assert_eq!(outcome.result, Err(AppError::IoFailure));
    assert_eq!(
        outcome.emissions,
        vec![Emission::Controller { controller: 0, button: ButtonCode::DpadUp, value: 1 }],
        "only the batch before the failure was dispatched"
    );
}

#[test]
fn worker_dispatches_batches_until_signal() {
    let mut mapper = mapper_with_one_controller();
    let router = mapper.start_mapping().expect("start should succeed");
    let press = RawEvent::key(KEY_Q, 1);
    let outcome = run_worker(
        &router,
        true,
        true,
        &vec![
            WorkerEvent::Batch(vec![RawEvent::key(KEY_W, 1), press]),
            WorkerEvent::Signal,
            WorkerEvent::Batch(vec![RawEvent::key(KEY_W, 0)]),
        ],
    );
    assert!(outcome.released);
    assert_eq!(outcome.result, Ok(()));
    assert_eq!(
        outcome.emissions,
        vec![
            Emission::Controller { controller: 0, button: ButtonCode::DpadUp, value: 1 },
            Emission::Keyboard { event: press },
        ]
    );
}

#[test]
fn mapping_edits_after_start_do_not_reach_the_running_session() {
    let mut mapper = mapper_with_one_controller();
    let router = mapper.start_mapping().expect("start should succeed");

    // Rebind W and claim a new key while the session runs.
    mapper.controllers[0].key_mapping.insert(KEY_W, ButtonCode::A);
    mapper.controllers[0].key_mapping.insert(KEY_E, ButtonCode::B);

    // The frozen router still routes by the snapshot taken at start.
    assert_eq!(
        route_event(&router, RawEvent::key(KEY_W, 1)),
        vec![Emission::Controller { controller: 0, button: ButtonCode::DpadUp, value: 1 }]
    );
    let e_press = RawEvent::key(KEY_E, 1);
    assert_eq!(
        route_event(&router, e_press),
        vec![Emission::Keyboard { event: e_press }]
    );

    // The next start sees the edits.
    mapper.stop_mapping();
    let router2 = mapper.start_mapping().expect("restart should succeed");
    assert_eq!(
        route_event(&router2, RawEvent::key(KEY_W, 1)),
        vec![Emission::Controller { controller: 0, button: ButtonCode::A, value: 1 }]
    );
    assert_eq!(
        route_event(&router2, e_press),
        vec![Emission::Controller { controller: 0, button: ButtonCode::B, value: 1 }]
    );
}

#[test]
fn capture_key_finds_first_press_only() {
    let mapper = mapper_with_one_controller();
    let batch = vec![
        RawEvent::key(KEY_W, 0),
        RawEvent::key(KEY_W, 2),
        RawEvent { etype: 0, code: 0, value: 1 },
        RawEvent::key(KEY_Q, 1),
        RawEvent::key(KEY_E, 1),
    ];
    assert_eq!(mapper.capture_key(&batch), Some(KEY_Q));
    assert_eq!(mapper.capture_key(&vec![RawEvent::key(KEY_W, 0)]), None);
    assert_eq!(mapper.capture_key(&vec![]), None);
}

#[test]
fn bind_capture_records_first_press() {
    let mut controller = VirtualController::new("Controller 2".to_string());
    let batch = vec![RawEvent::key(KEY_W, 0), RawEvent::key(KEY_Q, 1)];
    let bound = controller.bind_capture(&batch, ButtonCode::LeftShoulder);
    assert_eq!(bound, Some(KEY_Q));
    assert_eq!(controller.key_mapping.get(KEY_Q), Some(ButtonCode::LeftShoulder));

    let no_press = vec![RawEvent::key(KEY_W, 0)];
    assert_eq!(controller.bind_capture(&no_press, ButtonCode::A), None);
    assert_eq!(controller.key_mapping.len(), 1);
}
