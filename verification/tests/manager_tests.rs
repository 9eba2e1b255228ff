use windowmaster::manager::{
    apply_update, ChannelMirror, DeviceType, Input, Manager, Update, VOLUME_INCREMENT,
};
use windowmaster::audio::MAX_VOLUME;

#[test]
fn register_and_step_volume() {
    let mut m = Manager::new();
    let id = m.register_channel();
    assert_eq!(id, 0);
    let u = m.handle_input(id, Input::VolumeStep(2));
    match u {
        Update::Volume(v) => assert_eq!(v, 2 * VOLUME_INCREMENT),
        _ => panic!("expected a volume update"),
    }
    // stepping far down clamps at silent
    let u = m.handle_input(id, Input::VolumeStep(-5));
    assert!(matches!(u, Update::Volume(0)));
    // and far up clamps at full scale
    let u = m.handle_input(id, Input::VolumeStep(1000));
    assert!(matches!(u, Update::Volume(v) if v == MAX_VOLUME));
}

#[test]
fn set_volume_clamps() {
    let mut m = Manager::new();
    let id = m.register_channel();
    let u = m.handle_input(id, Input::Volume(60000));
    assert!(matches!(u, Update::Volume(v) if v == MAX_VOLUME));
    let u = m.handle_input(id, Input::Volume(1234));
    assert!(matches!(u, Update::Volume(1234)));
}

#[test]
fn mute_and_toggle() {
    let mut m = Manager::new();
    let id = m.register_channel();
    assert!(matches!(m.handle_input(id, Input::Mute(true)), Update::Mute(true)));
    assert!(matches!(m.handle_input(id, Input::ToggleMute), Update::Mute(false)));
    assert!(matches!(m.handle_input(id, Input::ToggleMute), Update::Mute(true)));
}

#[test]
fn menu_open_step_clamps_and_close() {
    let mut m = Manager::new();
    let id = m.register_channel();
    let u = m.handle_input(id, Input::OpenMenu);
    match u {
        Update::OpenMenu(options, index) => {
            assert_eq!(options, vec!["Close".to_owned()]);
            assert_eq!(index, 0);
        }
        _ => panic!("expected the menu to open"),
    }
    // give the menu four entries to see the clamping at both ends
    m.channels[id].menu_size = 4;
    m.channels[id].menu_index = 2;
    assert!(matches!(m.handle_input(id, Input::MenuStep(1)), Update::MenuIndex(3)));
    // at the last option a further step stays there: no wrap-around
    assert!(matches!(m.handle_input(id, Input::MenuStep(1)), Update::MenuIndex(3)));
    assert!(matches!(m.handle_input(id, Input::MenuStep(-2)), Update::MenuIndex(1)));
    // stepping past the first option stays on it
    assert!(matches!(m.handle_input(id, Input::MenuStep(-6)), Update::MenuIndex(0)));
    assert!(matches!(m.handle_input(id, Input::MenuStep(9)), Update::MenuIndex(3)));
    assert!(matches!(m.handle_input(id, Input::Select), Update::CloseMenu));
    assert_eq!(m.channels[id].menu_size, 0);
}

#[test]
fn second_channel_untouched() {
    let mut m = Manager::new();
    let a = m.register_channel();
    let b = m.register_channel();
    m.handle_input(a, Input::Mute(true));
    assert!(m.channels[a].muted);
    assert!(!m.channels[b].muted);
}

#[test]
fn device_type_detection() {
    assert_eq!(DeviceType::detect(0x1209, 0x4573, 0x0010), Some(DeviceType::WindowMasterRev1));
    assert_eq!(DeviceType::detect(0x1209, 0x4573, 0x0011), None);
    assert_eq!(DeviceType::detect(0x1209, 0x4574, 0x0010), None);
    assert_eq!(DeviceType::WindowMasterRev1.num_channels(), 6);
}

#[test]
fn updates_mirror_menu_and_mute() {
    let mut mirror = ChannelMirror { muted: false, menu_open: false };
    apply_update(&mut mirror, &Update::Mute(true));
    assert!(mirror.muted);
    apply_update(&mut mirror, &Update::OpenMenu(vec!["Close".to_owned()], 0));
    assert!(mirror.menu_open);
    apply_update(&mut mirror, &Update::Volume(100));
    assert!(mirror.menu_open && mirror.muted);
    apply_update(&mut mirror, &Update::CloseMenu);
    assert!(!mirror.menu_open);
}
