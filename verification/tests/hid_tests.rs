use windowmaster::audio::StreamState;
use windowmaster::control::{ChannelInput, ChannelOutput, DeviceId};
use windowmaster::hid_backend::{
    apply_channel_output, blink_phase, build_output_report, output_mask, parse_input_report,
    process_channel_input, ChannelState, DeviceKey, DeviceModel, DeviceRegistry, DeviceState,
    Timer,
};

#[test]
fn long_press_opens_menu_and_release_is_silent() {
    // scenario: button held from t=0 to t=700 ms; the worker emits OpenMenu
    // at the 500 ms boundary and nothing at release
    let mut ch = ChannelState::new();
    assert!(process_channel_input(&mut ch, 0, true, 0).is_empty());
    assert!(process_channel_input(&mut ch, 0, true, 499).is_empty());
    let at_deadline = process_channel_input(&mut ch, 0, true, 500);
    assert_eq!(at_deadline, vec![ChannelInput::OpenMenu]);
    assert!(process_channel_input(&mut ch, 0, true, 600).is_empty());
    assert!(process_channel_input(&mut ch, 0, false, 700).is_empty());
}

#[test]
fn short_press_selects_or_toggles() {
    // held for less than 500 ms: exactly one ToggleMuted at release
    let mut ch = ChannelState::new();
    assert!(process_channel_input(&mut ch, 0, true, 0).is_empty());
    let release = process_channel_input(&mut ch, 0, false, 100);
    assert_eq!(release, vec![ChannelInput::ToggleMuted]);

    // with the menu open the same gesture selects
    let mut ch = ChannelState::new();
    apply_channel_output(&mut ch, &ChannelOutput::MenuOpened);
    assert!(process_channel_input(&mut ch, 0, true, 1000).is_empty());
    let release = process_channel_input(&mut ch, 0, false, 1100);
    assert_eq!(release, vec![ChannelInput::MenuSelect]);
}

#[test]
fn long_press_with_menu_open_closes_it() {
    let mut ch = ChannelState::new();
    apply_channel_output(&mut ch, &ChannelOutput::MenuOpened);
    assert!(process_channel_input(&mut ch, 0, true, 0).is_empty());
    let fired = process_channel_input(&mut ch, 0, true, 500);
    assert_eq!(fired, vec![ChannelInput::CloseMenu]);
}

#[test]
fn encoder_steps_become_menu_or_volume_events() {
    let mut ch = ChannelState::new();
    let events = process_channel_input(&mut ch, 4, false, 0);
    assert_eq!(events, vec![ChannelInput::StepVolume(4)]);

    apply_channel_output(&mut ch, &ChannelOutput::MenuOpened);
    let events = process_channel_input(&mut ch, 3, false, 10);
    assert_eq!(
        events,
        vec![ChannelInput::MenuNext, ChannelInput::MenuNext, ChannelInput::MenuNext]
    );
    let events = process_channel_input(&mut ch, -2, false, 20);
    assert_eq!(events, vec![ChannelInput::MenuPrevious, ChannelInput::MenuPrevious]);
}

#[test]
fn channel_outputs_update_state() {
    let mut ch = ChannelState::new();
    apply_channel_output(
        &mut ch,
        &ChannelOutput::StateChanged(StreamState { volume: 5000, muted: true }),
    );
    assert!(ch.stream_state.muted);
    assert_eq!(ch.stream_state.volume, 5000);
    apply_channel_output(&mut ch, &ChannelOutput::MenuOpened);
    assert!(ch.menu_open);
    apply_channel_output(&mut ch, &ChannelOutput::MenuClosed);
    assert!(!ch.menu_open);
}

#[test]
fn blink_phase_window() {
    // on during the first 250 ms of every 1000 ms window, off otherwise
    assert!(blink_phase(0));
    assert!(blink_phase(249));
    assert!(!blink_phase(250));
    assert!(!blink_phase(999));
    assert!(blink_phase(1000));
    assert!(blink_phase(3249));
    assert!(!blink_phase(3250));
}

#[test]
fn indicator_blinks_while_menu_open() {
    // with muted=false, menu_open=true the indicator is on during the on
    // phase; with muted=true the relation inverts
    let mut st = DeviceState::new();
    st.channels[0].menu_open = true;
    st.channels[1].menu_open = true;
    st.channels[1].stream_state.muted = true;
    st.channels[2].stream_state.muted = true;

    let in_phase = output_mask(&st.channels, 100);
    assert_eq!(in_phase & 0b001, 0b001); // blinking on
    assert_eq!(in_phase & 0b010, 0b000); // muted, blink inverts to off
    assert_eq!(in_phase & 0b100, 0b100); // plain muted: on

    let off_phase = output_mask(&st.channels, 600);
    assert_eq!(off_phase & 0b001, 0b000);
    assert_eq!(off_phase & 0b010, 0b010);
    assert_eq!(off_phase & 0b100, 0b100);
}

#[test]
fn raw_report_round_trip() {
    let buf = [0xffu8, 1, 0, 0, 0, 2, 0b100101, 0];
    let (encoders, buttons) = parse_input_report(&buf);
    assert_eq!(encoders, [-1, 1, 0, 0, 0, 2]);
    assert_eq!(buttons, 0b100101);

    let out = build_output_report(0b011010);
    assert_eq!(out, [0, 0b011010]);
}

#[test]
fn device_key_serial_and_path_fallback() {
    let with_serial = DeviceKey::new(0x1209, 0x4573, 0x0010, Some(vec![0x3141, 0x0042]), vec![1]);
    assert_eq!(with_serial.serial_number, vec![0x41, 0x31, 0x42, 0x00]);
    let with_path = DeviceKey::new(0x1209, 0x4573, 0x0010, None, vec![7, 8, 9]);
    assert_eq!(with_path.serial_number, vec![7, 8, 9]);
    assert!(with_serial != with_path);
    let again = DeviceKey::new(0x1209, 0x4573, 0x0010, Some(vec![0x3141, 0x0042]), vec![2]);
    assert!(with_serial == again);
}

#[test]
fn device_model_detection() {
    assert_eq!(DeviceModel::detect(0x1209, 0x4573), Some(DeviceModel::Rev1));
    assert_eq!(DeviceModel::detect(0x1209, 0x4574), None);
    assert_eq!(DeviceModel::detect(0x1210, 0x4573), None);
    let model = DeviceModel::Rev1;
    assert_eq!(model.name(), "WindowMaster Rev1");
    assert_eq!(model.num_channels(), 6);
    let info = model.device_info();
    assert_eq!(info.name(), "WindowMaster Rev1");
    assert_eq!(info.num_channels(), 6);
}

#[test]
fn registry_tracks_devices_and_rejects_conflicts() {
    let mut reg = DeviceRegistry::new();
    let k1 = DeviceKey::new(0x1209, 0x4573, 0x0010, None, vec![1]);
    let k2 = DeviceKey::new(0x1209, 0x4573, 0x0010, None, vec![2]);
    assert!(reg.insert_no_overwrite(DeviceId(0), k1.clone()).is_ok());
    assert!(reg.contains_key(&k1));
    assert!(!reg.contains_key(&k2));
    // same key again: a device-identity conflict
    assert!(reg.insert_no_overwrite(DeviceId(1), k1.clone()).is_err());
    assert!(reg.insert_no_overwrite(DeviceId(1), k2.clone()).is_ok());

    // k1 disappeared from the bus: only its device is dropped
    let removed = reg.removed_devices(&vec![k2.clone()]);
    assert_eq!(removed, vec![DeviceId(0)]);
    assert!(reg.remove_by_left(DeviceId(0)));
    assert!(!reg.remove_by_left(DeviceId(0)));
    assert!(!reg.contains_key(&k1));
    assert!(reg.contains_key(&k2));
}

#[test]
fn refresh_timer_fires_after_period() {
    let mut t = Timer::new(1000, 0);
    assert!(!t.poll(0));
    assert!(t.poll(1));
    assert!(!t.poll(900));
    assert!(t.poll(1500));
    assert!(t.poll(2100));
}
