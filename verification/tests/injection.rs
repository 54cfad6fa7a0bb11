use clipboard_manager::paste::PasteError;
use clipboard_manager::injection::{
    byte_order_of, device_failure, device_request, step_is_fatal, display_variable, encode_descriptor, encode_event, encode_u16, encode_u32,
    input_library_plan, key_command, make_descriptor, make_event,
    pending_action, simulate_paste, virtual_device_plan, ByteOrder, DeviceStep, InjectionAction,
    InjectionEvent, InjectionState, InputEvent, KeyDirection, LibraryStep, SimulatedKey, Stage,
    Strategy, EV_KEY, EV_SYN, KEY_LEFTCTRL, KEY_V, SYN_REPORT, UI_DEV_CREATE, UI_DEV_DESTROY,
    UI_DEV_SETUP, UI_SET_EVBIT, UI_SET_KEYBIT,
};

fn failed(detail: &str) -> InjectionEvent {
    InjectionEvent::Failed { detail: detail.to_string() }
}

#[test]
fn integers_in_both_byte_orders() {
    assert_eq!(encode_u16(ByteOrder::LittleEndian, 0x1234), 0x1234u16.to_le_bytes());
    assert_eq!(encode_u16(ByteOrder::BigEndian, 0x1234), 0x1234u16.to_be_bytes());
    for x in [0u32, 1, 0xff, 0x100, 0x12345678, u32::MAX] {
        assert_eq!(encode_u32(ByteOrder::LittleEndian, x), x.to_le_bytes());
        assert_eq!(encode_u32(ByteOrder::BigEndian, x), x.to_be_bytes());
    }
}

#[test]
fn event_record_layout() {
    let press = InputEvent { kind: EV_KEY, code: KEY_LEFTCTRL, value: 1 };
    let little = encode_event(ByteOrder::LittleEndian, press);
    let mut expected = [0u8; 24];
    expected[16] = 1;
    expected[18] = 29;
    expected[20] = 1;
    assert_eq!(little, expected);
    let big = encode_event(ByteOrder::BigEndian, press);
    let mut expected = [0u8; 24];
    expected[17] = 1;
    expected[19] = 29;
    expected[23] = 1;
    assert_eq!(big, expected);
    let sync = encode_event(ByteOrder::LittleEndian, InputEvent { kind: EV_SYN, code: SYN_REPORT, value: 0 });
    assert_eq!(sync, [0u8; 24]);
}

#[test]
fn event_record_is_that_of_native_bytes() {
    for (kind, code, value) in
        [(EV_KEY, KEY_V, 1), (EV_KEY, KEY_V, 0), (0x1234, 0xfedc, -1), (7, 9, i32::MIN), (0, 0, i32::MAX), (1, 2, -256)]
    {
        let mut expected = [0u8; 24];
        expected[16..18].copy_from_slice(&kind.to_ne_bytes());
        expected[18..20].copy_from_slice(&code.to_ne_bytes());
        expected[20..24].copy_from_slice(&value.to_ne_bytes());
        assert_eq!(make_event(kind, code, value), expected);
        let event = InputEvent { kind, code, value };
        assert_eq!(&encode_event(ByteOrder::LittleEndian, event)[20..], &value.to_le_bytes());
        assert_eq!(&encode_event(ByteOrder::BigEndian, event)[20..], &value.to_be_bytes());
    }
}

#[test]
fn descriptor_layout() {
    let record = encode_descriptor(ByteOrder::LittleEndian);
    assert_eq!(record.len(), 92);
    assert_eq!(&record[..8], &[0x03, 0x00, 0x34, 0x12, 0x78, 0x56, 0x01, 0x00]);
    let name = b"clipboard-paste-helper";
    assert_eq!(&record[8..8 + name.len()], name);
    assert!(record[8 + name.len()..].iter().all(|byte| *byte == 0));
    let big = encode_descriptor(ByteOrder::BigEndian);
    assert_eq!(&big[..8], &[0x00, 0x03, 0x12, 0x34, 0x56, 0x78, 0x00, 0x01]);
    assert_eq!(&big[8..], &record[8..]);
    let native =
        if 1u16.to_ne_bytes()[0] == 1 { ByteOrder::LittleEndian } else { ByteOrder::BigEndian };
    assert_eq!(make_descriptor(), encode_descriptor(native));
}

#[test]
fn virtual_device_steps_in_order() {
    let plan = virtual_device_plan();
    let key = |code: u16, value: i32| DeviceStep::Emit { event: InputEvent { kind: EV_KEY, code, value } };
    let sync = DeviceStep::Emit { event: InputEvent { kind: EV_SYN, code: SYN_REPORT, value: 0 } };
    let expected = vec![
        DeviceStep::Open,
        DeviceStep::EnableEventType { kind: EV_KEY },
        DeviceStep::EnableKey { code: KEY_LEFTCTRL },
        DeviceStep::EnableKey { code: KEY_V },
        DeviceStep::Setup,
        DeviceStep::Create,
        DeviceStep::Settle { millis: 100 },
        key(29, 1),
        sync,
        DeviceStep::Flush,
        DeviceStep::Settle { millis: 30 },
        key(47, 1),
        sync,
        DeviceStep::Flush,
        DeviceStep::Settle { millis: 30 },
        key(47, 0),
        sync,
        DeviceStep::Flush,
        DeviceStep::Settle { millis: 30 },
        key(29, 0),
        sync,
        DeviceStep::Flush,
        DeviceStep::Settle { millis: 100 },
        DeviceStep::Destroy,
    ];
    assert_eq!(plan, expected);
}

#[test]
fn device_requests() {
    assert_eq!(device_request(DeviceStep::EnableEventType { kind: EV_KEY }), Some(0x40045564));
    assert_eq!(device_request(DeviceStep::EnableKey { code: KEY_V }), Some(0x40045565));
    assert_eq!(device_request(DeviceStep::Setup), Some(0x405c5503));
    assert_eq!(device_request(DeviceStep::Create), Some(0x5501));
    assert_eq!(device_request(DeviceStep::Destroy), Some(0x5502));
    assert_eq!(device_request(DeviceStep::Open), None);
    assert_eq!(device_request(DeviceStep::Flush), None);
    assert_eq!(device_request(DeviceStep::Settle { millis: 1 }), None);
    assert_eq!(
        [UI_SET_EVBIT, UI_SET_KEYBIT, UI_DEV_SETUP, UI_DEV_CREATE, UI_DEV_DESTROY],
        [0x40045564, 0x40045565, 0x405c5503, 0x5501, 0x5502]
    );
}

#[test]
fn input_library_steps_in_order() {
    let key = |key: SimulatedKey, direction: KeyDirection| LibraryStep::Key { key, direction };
    let wait = LibraryStep::Settle { millis: 20 };
    assert_eq!(
        input_library_plan(),
        vec![
            LibraryStep::Connect,
            key(SimulatedKey::Control, KeyDirection::Press),
            wait,
            key(SimulatedKey::LetterV, KeyDirection::Press),
            wait,
            key(SimulatedKey::LetterV, KeyDirection::Release),
            wait,
            key(SimulatedKey::Control, KeyDirection::Release),
        ]
    );
}

#[test]
fn key_command_line() {
    assert_eq!(key_command(), vec!["xdotool", "key", "--clearmodifiers", "ctrl+v"]);
    assert_eq!(display_variable(), "DISPLAY");
}

#[test]
fn second_strategy_suffices() {
    let state = InjectionState::start(true);
    assert_eq!(pending_action(state.stage), InjectionAction::Settle { millis: 10 });
    let mut attempted = Vec::new();
    let (state, action) = simulate_paste(state, InjectionEvent::Settled);
    assert_eq!(action, InjectionAction::Attempt(Strategy::VirtualDevice));
    attempted.push(action);
    let (state, action) = simulate_paste(state, failed("no permission"));
    assert_eq!(action, InjectionAction::Attempt(Strategy::InputLibrary));
    attempted.push(action);
    let (state, action) = simulate_paste(state, InjectionEvent::Succeeded);
    assert_eq!(action, InjectionAction::Succeed);
    assert_eq!(state.stage, Stage::Succeeded);
    assert!(!attempted.contains(&InjectionAction::Attempt(Strategy::KeyCommand)));
    assert_eq!(state.causes.len(), 1);
    assert_eq!(state.causes[0].strategy, Strategy::VirtualDevice);
    assert_eq!(state.causes[0].detail, "no permission");
}

#[test]
fn first_strategy_suffices() {
    let (state, _) = simulate_paste(InjectionState::start(true), InjectionEvent::Settled);
    let (state, action) = simulate_paste(state, InjectionEvent::Succeeded);
    assert_eq!(action, InjectionAction::Succeed);
    assert!(state.causes.is_empty());
}

#[test]
fn every_strategy_fails() {
    let (state, _) = simulate_paste(InjectionState::start(true), InjectionEvent::Settled);
    let (state, _) = simulate_paste(state, failed("a"));
    let (state, action) = simulate_paste(state, failed("b"));
    assert_eq!(action, InjectionAction::ProbeDisplay);
    assert_eq!(state.stage, Stage::Probing);
    let (state, action) = simulate_paste(state, InjectionEvent::DisplayFound);
    assert_eq!(action, InjectionAction::Attempt(Strategy::KeyCommand));
    let (state, action) = simulate_paste(state, failed("c"));
    assert_eq!(action, InjectionAction::Fail);
    assert_eq!(state.stage, Stage::Failed);
    let causes: Vec<(Strategy, String)> =
        state.causes.iter().map(|cause| (cause.strategy, cause.detail.clone())).collect();
    assert_eq!(
        causes,
        vec![
            (Strategy::VirtualDevice, "a".to_string()),
            (Strategy::InputLibrary, "b".to_string()),
            (Strategy::KeyCommand, "c".to_string()),
        ]
    );
}

#[test]
fn third_strategy_suffices() {
    let (state, _) = simulate_paste(InjectionState::start(true), InjectionEvent::Settled);
    let (state, _) = simulate_paste(state, failed("a"));
    let (state, _) = simulate_paste(state, failed("b"));
    let (state, _) = simulate_paste(state, InjectionEvent::DisplayFound);
    let (state, action) = simulate_paste(state, InjectionEvent::Succeeded);
    assert_eq!(action, InjectionAction::Succeed);
    assert_eq!(state.causes.len(), 2);
}

#[test]
fn key_command_needs_a_display() {
    let (state, _) = simulate_paste(InjectionState::start(true), InjectionEvent::Settled);
    let (state, _) = simulate_paste(state, failed("a"));
    let (state, _) = simulate_paste(state, failed("b"));
    let (state, action) = simulate_paste(state, InjectionEvent::DisplayMissing);
    assert_eq!(action, InjectionAction::Fail);
    assert_eq!(state.causes.len(), 2);
}

#[test]
fn no_native_injection_counts_as_success() {
    let state = InjectionState::start(false);
    assert_eq!(state.stage, Stage::Succeeded);
    assert_eq!(pending_action(state.stage), InjectionAction::Succeed);
    let (state, action) = simulate_paste(state, failed("late"));
    assert_eq!(action, InjectionAction::Succeed);
    assert!(state.causes.is_empty());
}

#[test]
fn an_event_that_answers_nothing_changes_nothing() {
    let state = InjectionState::start(true);
    let (state, action) = simulate_paste(state, InjectionEvent::Succeeded);
    assert_eq!(action, InjectionAction::Settle { millis: 10 });
    let (state, action) = simulate_paste(state, failed("early"));
    assert_eq!(action, InjectionAction::Settle { millis: 10 });
    assert!(state.causes.is_empty());
    let (state, _) = simulate_paste(state, InjectionEvent::Settled);
    let (state, action) = simulate_paste(state, InjectionEvent::DisplayFound);
    assert_eq!(action, InjectionAction::Attempt(Strategy::VirtualDevice));
    let (state, _) = simulate_paste(state, failed("a"));
    let (state, _) = simulate_paste(state, failed("b"));
    let (state, action) = simulate_paste(state, InjectionEvent::Succeeded);
    assert_eq!(action, InjectionAction::ProbeDisplay);
    let (state, action) = simulate_paste(state, failed("c"));
    assert_eq!(action, InjectionAction::ProbeDisplay);
    assert_eq!(state.causes.len(), 2);
    let (state, _) = simulate_paste(state, InjectionEvent::DisplayMissing);
    let (state, action) = simulate_paste(state, InjectionEvent::Succeeded);
    assert_eq!(action, InjectionAction::Fail);
    assert_eq!(state.stage, Stage::Failed);
}

#[test]
fn outcome_of_the_chain() {
    let state = InjectionState::start(true);
    assert!(state.outcome().is_none());
    assert!(matches!(InjectionState::start(false).outcome(), Some(Ok(()))));
    let (state, _) = simulate_paste(InjectionState::start(true), InjectionEvent::Settled);
    let (state, _) = simulate_paste(state, InjectionEvent::Succeeded);
    assert!(matches!(state.outcome(), Some(Ok(()))));
    let (state, _) = simulate_paste(InjectionState::start(true), InjectionEvent::Settled);
    let (state, _) = simulate_paste(state, failed("a"));
    let (state, _) = simulate_paste(state, failed("b"));
    assert!(state.outcome().is_none());
    let (state, _) = simulate_paste(InjectionState::start(true), InjectionEvent::Settled);
    let (state, _) = simulate_paste(state, failed("a"));
    let (state, _) = simulate_paste(state, failed("b"));
    let (state, _) = simulate_paste(state, InjectionEvent::DisplayMissing);
    match state.outcome() {
        Some(Err(PasteError::AllInjectionStrategiesFailed(causes))) => {
            assert_eq!(causes.len(), 2);
            assert_eq!(causes[0].strategy, Strategy::VirtualDevice);
            assert_eq!(causes[0].detail, "a");
            assert_eq!(causes[1].strategy, Strategy::InputLibrary);
            assert_eq!(causes[1].detail, "b");
        }
        other => panic!("unexpected outcome: {:?}", other),
    }
}

#[test]
fn byte_order_is_told_from_the_layout_of_one() {
    assert_eq!(byte_order_of(1u16.to_le_bytes()), ByteOrder::LittleEndian);
    assert_eq!(byte_order_of(1u16.to_be_bytes()), ByteOrder::BigEndian);
    assert_eq!(byte_order_of(encode_u16(ByteOrder::LittleEndian, 1)), ByteOrder::LittleEndian);
    assert_eq!(byte_order_of(encode_u16(ByteOrder::BigEndian, 1)), ByteOrder::BigEndian);
    let native = byte_order_of(1u16.to_ne_bytes());
    assert_eq!(make_descriptor(), encode_descriptor(native));
    assert_eq!(make_event(0x0102, 0x0304, 1), encode_event(native, InputEvent { kind: 0x0102, code: 0x0304, value: 1 }));
}

#[test]
fn every_setup_step_has_its_own_cause() {
    assert_eq!(device_failure(DeviceStep::Open), "Failed to open /dev/uinput");
    assert_eq!(device_failure(DeviceStep::EnableEventType { kind: EV_KEY }), "Failed to set EV_KEY");
    assert_eq!(
        device_failure(DeviceStep::EnableKey { code: KEY_LEFTCTRL }),
        "Failed to set KEY_LEFTCTRL"
    );
    assert_eq!(device_failure(DeviceStep::EnableKey { code: KEY_V }), "Failed to set KEY_V");
    assert_eq!(device_failure(DeviceStep::Setup), "Failed to setup uinput device");
    assert_eq!(device_failure(DeviceStep::Create), "Failed to create uinput device");
    assert_eq!(device_failure(DeviceStep::EnableEventType { kind: EV_SYN }), "Failed to set event type");
    assert_eq!(device_failure(DeviceStep::EnableKey { code: 1 }), "Failed to set key");
    assert_eq!(device_failure(DeviceStep::Settle { millis: 1 }), "Failed to wait");
    assert_eq!(
        device_failure(DeviceStep::Emit { event: InputEvent { kind: 0, code: 0, value: 0 } }),
        "Failed to write event"
    );
    assert_eq!(device_failure(DeviceStep::Flush), "Failed to flush events");
    assert_eq!(device_failure(DeviceStep::Destroy), "Failed to destroy uinput device");
    let plan = virtual_device_plan();
    let causes: Vec<&str> = plan[..6].iter().map(|step| device_failure(*step)).collect();
    for (at, cause) in causes.iter().enumerate() {
        assert!(!causes[..at].contains(cause));
    }
}

#[test]
fn only_a_failed_destroy_is_forgiven() {
    for step in virtual_device_plan() {
        assert_eq!(step_is_fatal(step), step != DeviceStep::Destroy);
    }
    assert!(!step_is_fatal(DeviceStep::Destroy));
    assert!(step_is_fatal(DeviceStep::Open));
    assert!(step_is_fatal(DeviceStep::Flush));
}
