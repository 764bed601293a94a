use key_mapper::controller::VirtualController;
use key_mapper::device::InputDevice;
use key_mapper::keys::{
    ButtonCode, RawEvent, EV_SYN, KEY_Q, KEY_W, VALUE_PRESS, VALUE_RELEASE, VALUE_REPEAT,
};
use key_mapper::mapping::DeviceMapper;
use key_mapper::router::{route_event, route_events, Emission, KeyRouter};

fn test_keyboard() -> InputDevice {
    InputDevice::new(
        "/dev/input/event0".to_string(),
        "Test Keyboard".to_string(),
        Some(vec![29, 42, 56, KEY_W, KEY_Q]),
    )
}

fn running_router(controllers: Vec<VirtualController>) -> (DeviceMapper, KeyRouter) {
    let mut mapper = DeviceMapper::new(test_keyboard());
    for c in controllers {
        mapper.add_controller(c);
    }
    let router = mapper.start_mapping().expect("start_mapping should succeed");
    (mapper, router)
}

#[test]
fn default_mapped_press_fires_controller_and_skips_keyboard() {
    let mut controller = VirtualController::new("Controller 1".to_string());
    controller.apply_default_mapping();
    let (_mapper, router) = running_router(vec![controller]);

    let emissions = route_event(&router, RawEvent::key(KEY_W, 1));
    assert_eq!(
        emissions,
        vec![Emission::Controller { controller: 0, button: ButtonCode::DpadUp, value: 1 }]
    );
    assert!(emissions
        .iter()
        .all(|e| !matches!(e, Emission::Keyboard { .. })));
}

#[test]
fn mapped_release_fires_with_value_zero() {
    let mut controller = VirtualController::new("Controller 1".to_string());
    controller.key_mapping.insert(KEY_W, ButtonCode::DpadUp);
    let (_mapper, router) = running_router(vec![controller]);

    let emissions = route_event(&router, RawEvent::key(KEY_W, 0));
    assert_eq!(
        emissions,
        vec![Emission::Controller { controller: 0, button: ButtonCode::DpadUp, value: 0 }]
    );
}

#[test]
fn unmapped_key_passes_through_in_order() {
    let mut controller = VirtualController::new("Controller 1".to_string());
    controller.key_mapping.insert(KEY_W, ButtonCode::DpadUp);
    let (_mapper, router) = running_router(vec![controller]);

    let press = RawEvent::key(KEY_Q, 1);
    let release = RawEvent::key(KEY_Q, 0);
    let emissions = route_events(&router, &vec![press, release]);
    assert_eq!(
        emissions,
        vec![
            Emission::Keyboard { event: press },
            Emission::Keyboard { event: release },
        ]
    );
}

#[test]
fn non_key_events_forward_verbatim() {
    let mut controller = VirtualController::new("Controller 1".to_string());
    controller.apply_default_mapping();
    let (_mapper, router) = running_router(vec![controller]);

    let syn = RawEvent { etype: EV_SYN, code: 0, value: 0 };
    let emissions = route_event(&router, syn);
    assert_eq!(emissions, vec![Emission::Keyboard { event: syn }]);
}

#[test]
fn key_claimed_by_two_controllers_fans_out_to_both() {
    let mut c1 = VirtualController::new("Controller 1".to_string());
    c1.key_mapping.insert(KEY_W, ButtonCode::DpadUp);
    let mut c2 = VirtualController::new("Controller 2".to_string());
    c2.key_mapping.insert(KEY_W, ButtonCode::A);
    let (_mapper, router) = running_router(vec![c1, c2]);

    let emissions = route_event(&router, RawEvent::key(KEY_W, 1));
    assert_eq!(
        emissions,
        vec![
            Emission::Controller { controller: 0, button: ButtonCode::DpadUp, value: 1 },
            Emission::Controller { controller: 1, button: ButtonCode::A, value: 1 },
        ]
    );
}

#[test]
fn mixed_stream_preserves_passthrough_order_and_values() {
    let mut controller = VirtualController::new("Controller 1".to_string());
    controller.key_mapping.insert(KEY_W, ButtonCode::DpadUp);
    let (_mapper, router) = running_router(vec![controller]);

    let stream = vec![
        RawEvent::key(KEY_Q, 1),
        RawEvent::key(KEY_W, 1),
        RawEvent { etype: EV_SYN, code: 0, value: 0 },
        RawEvent::key(KEY_W, 0),
        RawEvent::key(KEY_Q, 0),
    ];
    let emissions = route_events(&router, &stream);
    let keyboard_out: Vec<RawEvent> = emissions
        .iter()
        .filter_map(|e| match e {
            Emission::Keyboard { event } => Some(*event),
            Emission::Controller { .. } => None,
        })
        .collect();
    assert_eq!(
        keyboard_out,
        vec![stream[0], stream[2], stream[4]],
        "exactly the unclaimed events, in stream order"
    );
    let controller_out: Vec<(ButtonCode, i32)> = emissions
        .iter()
        .filter_map(|e| match e {
            Emission::Controller { controller: 0, button, value } => Some((*button, *value)),
            _ => None,
        })
        .collect();
    assert_eq!(
        controller_out,
        vec![(ButtonCode::DpadUp, 1), (ButtonCode::DpadUp, 0)],
        "the claimed press/release pair, in stream order"
    );
}

#[test]
fn emissions_repeat_the_physical_value_verbatim() {
    // Press, release and auto-repeat all reach the controller with the
    // physical value; no filtering or deduplication happens here.
    let mut controller = VirtualController::new("Controller 1".to_string());
    controller.key_mapping.insert(KEY_W, ButtonCode::DpadUp);
    let (_mapper, router) = running_router(vec![controller]);

    for value in [VALUE_PRESS, VALUE_RELEASE, VALUE_REPEAT, VALUE_REPEAT] {
        let emissions = route_event(&router, RawEvent::key(KEY_W, value));
        assert_eq!(
            emissions,
            vec![Emission::Controller { controller: 0, button: ButtonCode::DpadUp, value }]
        );
    }
}

#[test]
fn router_exposes_claims_and_targets() {
    let mut c1 = VirtualController::new("Controller 1".to_string());
    c1.key_mapping.insert(KEY_W, ButtonCode::DpadUp);
    let mut c2 = VirtualController::new("Controller 2".to_string());
    c2.key_mapping.insert(KEY_W, ButtonCode::B);
    let (_mapper, router) = running_router(vec![c1, c2]);

    assert_eq!(router.len(), 2);
    assert_eq!(router.name_of(0).as_str(), "Controller 1");
    assert_eq!(router.name_of(1).as_str(), "Controller 2");
    assert!(router.is_claimed(KEY_W));
    assert!(!router.is_claimed(KEY_Q));
    assert_eq!(
        router.targets(KEY_W),
        vec![(0, ButtonCode::DpadUp), (1, ButtonCode::B)]
    );
    assert_eq!(router.targets(KEY_Q), vec![]);
}
