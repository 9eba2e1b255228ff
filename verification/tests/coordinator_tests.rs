use windowmaster::audio::{
    apply_stream_control, AudioControl, AudioEvent, StreamControl, StreamEvent, StreamId,
    StreamIdGen, StreamInfoBuilder, StreamState, MAX_VOLUME,
};
use windowmaster::bigraph::{Binding, ChannelId};
use windowmaster::control::{ChannelInput, ChannelOutput, ControlInput, ControlOutput, DeviceId};
use windowmaster::coordinator::{FatalError, Runtime};

fn opened(sid: StreamId, name: &str, state: StreamState) -> AudioEvent {
    AudioEvent::StreamOpened {
        stream_id: sid,
        stream_info: StreamInfoBuilder::new(name.to_owned()).with_initial_state(state).build(),
    }
}

fn state(volume: u16, muted: bool) -> StreamState {
    StreamState { volume, muted }
}

#[test]
fn stream_open_update_close() {
    let mut rt = Runtime::new();
    let s = StreamId(1);
    let out = rt.handle_audio_event(opened(s, "Music", state(5000, false))).unwrap();
    assert!(out.is_empty());
    assert_eq!(rt.streams.get(s).unwrap().state, state(5000, false));

    let ev = AudioEvent::StreamEvent {
        stream_id: s,
        stream_event: StreamEvent::StateChanged(state(2500, true)),
    };
    rt.handle_audio_event(ev).unwrap();
    assert_eq!(rt.streams.get(s).unwrap().state, state(2500, true));

    rt.handle_audio_event(AudioEvent::StreamClosed { stream_id: s }).unwrap();
    assert!(rt.streams.get(s).is_none());
}

#[test]
fn duplicate_stream_is_fatal() {
    let mut rt = Runtime::new();
    let s = StreamId(4);
    rt.handle_audio_event(opened(s, "A", state(0, false))).unwrap();
    let err = rt.handle_audio_event(opened(s, "B", state(0, false)));
    assert_eq!(err.unwrap_err(), FatalError::DuplicateStream(s));
}

#[test]
fn short_press_toggles_mute_on_bound_stream() {
    // scenario: channel 0 bound directly to a registered stream; a short
    // press arrives as ToggleMuted and yields exactly one stream control
    let mut rt = Runtime::new();
    let s = StreamId(1);
    rt.handle_audio_event(opened(s, "App", state(1000, false))).unwrap();
    let c = ChannelId(DeviceId(0), 0);
    rt.bind(c, Some(Binding::Direct(s)));

    let (controls, outputs) =
        rt.handle_control_input(ControlInput::ChannelInput(DeviceId(0), 0, ChannelInput::ToggleMuted));
    assert!(outputs.is_empty());
    assert_eq!(controls.len(), 1);
    assert_eq!(
        controls[0],
        AudioControl::StreamControl { stream_id: s, stream_control: StreamControl::ToggleMuted }
    );
}

#[test]
fn menu_opens_with_fixed_options_first() {
    let mut rt = Runtime::new();
    rt.handle_audio_event(opened(StreamId(9), "Player", state(0, false))).unwrap();
    let c = ChannelId(DeviceId(1), 2);
    let (controls, outputs) =
        rt.handle_control_input(ControlInput::ChannelInput(DeviceId(1), 2, ChannelInput::OpenMenu));
    assert!(controls.is_empty());
    assert_eq!(outputs.len(), 1);
    assert_eq!(outputs[0], ControlOutput::ChannelOutput(DeviceId(1), 2, ChannelOutput::MenuOpened));

    let menu = rt.menus.get(c).unwrap();
    assert_eq!(menu.current_index, 0);
    assert_eq!(menu.options.len(), 4);
    assert_eq!(menu.options[0].name, "None");
    assert!(menu.options[0].binding.is_none());
    assert_eq!(menu.options[1].name, "Default Device");
    assert_eq!(menu.options[1].binding, Some(Binding::DefaultDevice));
    assert_eq!(menu.options[2].name, "Active Window");
    assert_eq!(menu.options[2].binding, Some(Binding::ActiveWindow));
    assert_eq!(menu.options[3].name, "Player");
    assert_eq!(menu.options[3].binding, Some(Binding::Direct(StreamId(9))));
}

#[test]
fn menu_streams_sorted_by_name() {
    let mut rt = Runtime::new();
    rt.handle_audio_event(opened(StreamId(1), "Chrome", state(0, false))).unwrap();
    rt.handle_audio_event(opened(StreamId(2), "Alpha", state(0, false))).unwrap();
    rt.handle_audio_event(opened(StreamId(3), "Beta", state(0, false))).unwrap();
    let c = ChannelId(DeviceId(0), 0);
    rt.open_menu(c);
    let menu = rt.menus.get(c).unwrap();
    assert_eq!(menu.options[3].name, "Alpha");
    assert_eq!(menu.options[4].name, "Beta");
    assert_eq!(menu.options[5].name, "Chrome");
    // exactly one entry per registered stream
    assert_eq!(menu.options.len(), 6);
    let mut bindings: Vec<_> = menu.options[3..].iter().map(|o| o.binding).collect();
    bindings.sort();
    bindings.dedup();
    assert_eq!(bindings.len(), 3);
}

#[test]
fn menu_next_and_previous_clamp() {
    // menu clamp: the highlight never leaves [0, options - 1] and does not wrap
    let mut rt = Runtime::new();
    let c = ChannelId(DeviceId(0), 0);
    rt.open_menu(c);
    assert_eq!(rt.menus.get(c).unwrap().options.len(), 3);

    rt.menu_previous(c);
    assert_eq!(rt.menus.get(c).unwrap().current_index, 0);
    rt.menu_next(c);
    rt.menu_next(c);
    assert_eq!(rt.menus.get(c).unwrap().current_index, 2);
    rt.menu_next(c);
    rt.menu_next(c);
    assert_eq!(rt.menus.get(c).unwrap().current_index, 2);
    rt.menu_previous(c);
    assert_eq!(rt.menus.get(c).unwrap().current_index, 1);
}

#[test]
fn menu_rotate_and_select() {
    // scenario: with four options, rotate by +2 and short-press: the third
    // option (Active Window) becomes the binding, the menu closes, and the
    // channel hears the resolved (here: default) state
    let mut rt = Runtime::new();
    rt.handle_audio_event(opened(StreamId(5), "Game", state(3000, true))).unwrap();
    let dev = DeviceId(3);
    let c = ChannelId(dev, 0);
    rt.handle_control_input(ControlInput::ChannelInput(dev, 0, ChannelInput::OpenMenu));
    rt.handle_control_input(ControlInput::ChannelInput(dev, 0, ChannelInput::MenuNext));
    rt.handle_control_input(ControlInput::ChannelInput(dev, 0, ChannelInput::MenuNext));
    assert_eq!(rt.menus.get(c).unwrap().current_index, 2);

    let (controls, outputs) =
        rt.handle_control_input(ControlInput::ChannelInput(dev, 0, ChannelInput::MenuSelect));
    assert!(controls.is_empty());
    assert!(rt.bindings.contains_edge(c, Binding::ActiveWindow));
    assert!(rt.menus.get(c).is_none());
    assert_eq!(outputs.len(), 2);
    assert_eq!(
        outputs[0],
        ControlOutput::ChannelOutput(dev, 0, ChannelOutput::StateChanged(state(0, false)))
    );
    assert_eq!(outputs[1], ControlOutput::ChannelOutput(dev, 0, ChannelOutput::MenuClosed));
}

#[test]
fn state_change_fans_out_to_bound_channels_only() {
    // binding update fan-out: after channels select Direct(s), a state change
    // for s reaches each of them exactly once and no other channel
    let mut rt = Runtime::new();
    let s = StreamId(1);
    let other = StreamId(2);
    rt.handle_audio_event(opened(s, "A", state(0, false))).unwrap();
    rt.handle_audio_event(opened(other, "B", state(0, false))).unwrap();
    let c1 = ChannelId(DeviceId(0), 0);
    let c2 = ChannelId(DeviceId(0), 1);
    let c3 = ChannelId(DeviceId(0), 2);
    rt.bind(c1, Some(Binding::Direct(s)));
    rt.bind(c2, Some(Binding::Direct(s)));
    rt.bind(c3, Some(Binding::Direct(other)));

    let ev = AudioEvent::StreamEvent {
        stream_id: s,
        stream_event: StreamEvent::StateChanged(state(800, true)),
    };
    let out = rt.handle_audio_event(ev).unwrap();
    assert_eq!(out.len(), 2);
    let mut hit1 = 0;
    let mut hit2 = 0;
    for o in &out {
        match o {
            ControlOutput::ChannelOutput(d, i, ChannelOutput::StateChanged(st)) => {
                assert_eq!(*st, state(800, true));
                if ChannelId(*d, *i) == c1 {
                    hit1 += 1;
                } else if ChannelId(*d, *i) == c2 {
                    hit2 += 1;
                } else {
                    panic!("update sent to an unbound channel");
                }
            }
            _ => panic!("unexpected output"),
        }
    }
    assert_eq!((hit1, hit2), (1, 1));
}

#[test]
fn dangling_binding_yields_default_and_no_controls() {
    let mut rt = Runtime::new();
    let s = StreamId(7);
    rt.handle_audio_event(opened(s, "Gone", state(9000, true))).unwrap();
    let c = ChannelId(DeviceId(0), 0);
    rt.bind(c, Some(Binding::Direct(s)));
    rt.handle_audio_event(AudioEvent::StreamClosed { stream_id: s }).unwrap();

    // the edge still exists but evaluates to the default state
    assert!(rt.bindings.contains_edge(c, Binding::Direct(s)));
    assert!(rt.get_binding_state(&Binding::Direct(s)).is_none());

    // and input for the channel generates no control
    let (controls, _) = rt.handle_control_input(ControlInput::ChannelInput(
        DeviceId(0),
        0,
        ChannelInput::StepVolume(2),
    ));
    assert!(controls.is_empty());
}

#[test]
fn reopening_menu_replaces_it() {
    // at-most-once menu: reopening swaps in the fresh menu atomically
    let mut rt = Runtime::new();
    let c = ChannelId(DeviceId(0), 0);
    rt.open_menu(c);
    assert_eq!(rt.menus.get(c).unwrap().options.len(), 3);
    rt.menu_next(c);
    assert_eq!(rt.menus.get(c).unwrap().current_index, 1);

    rt.handle_audio_event(opened(StreamId(1), "New", state(0, false))).unwrap();
    rt.open_menu(c);
    let menu = rt.menus.get(c).unwrap();
    assert_eq!(menu.options.len(), 4);
    assert_eq!(menu.current_index, 0);
}

#[test]
fn dynamic_slots_follow_focus_and_default() {
    let mut rt = Runtime::new();
    let s = StreamId(1);
    rt.handle_audio_event(opened(s, "Focused", state(4000, false))).unwrap();
    let c = ChannelId(DeviceId(0), 0);
    rt.bind(c, Some(Binding::ActiveWindow));

    let out = rt
        .handle_audio_event(AudioEvent::WindowFocusChanged { stream_id: Some(s) })
        .unwrap();
    assert_eq!(out.len(), 1);
    assert_eq!(
        out[0],
        ControlOutput::ChannelOutput(DeviceId(0), 0, ChannelOutput::StateChanged(state(4000, false)))
    );

    // a state change on the focused stream also reaches the dynamic binding
    let ev = AudioEvent::StreamEvent {
        stream_id: s,
        stream_event: StreamEvent::StateChanged(state(4200, false)),
    };
    let out = rt.handle_audio_event(ev).unwrap();
    assert_eq!(out.len(), 1);
    assert_eq!(
        out[0],
        ControlOutput::ChannelOutput(DeviceId(0), 0, ChannelOutput::StateChanged(state(4200, false)))
    );
}

#[test]
fn unbind_through_menu_none() {
    let mut rt = Runtime::new();
    let s = StreamId(1);
    rt.handle_audio_event(opened(s, "A", state(0, false))).unwrap();
    let dev = DeviceId(0);
    let c = ChannelId(dev, 0);
    rt.bind(c, Some(Binding::Direct(s)));
    rt.open_menu(c);
    // highlight stays on "None"; selecting removes the binding
    let (_, outputs) =
        rt.handle_control_input(ControlInput::ChannelInput(dev, 0, ChannelInput::MenuSelect));
    assert!(!rt.bindings.contains_edge(c, Binding::Direct(s)));
    assert_eq!(outputs.len(), 1);
    assert_eq!(outputs[0], ControlOutput::ChannelOutput(dev, 0, ChannelOutput::MenuClosed));
}

#[test]
fn stream_control_arithmetic() {
    let st = state(100, false);
    let up = apply_stream_control(st, &StreamControl::StepVolume(3));
    assert_eq!(up.volume, 700);
    let down = apply_stream_control(st, &StreamControl::StepVolume(-1));
    assert_eq!(down.volume, 0);
    let capped = apply_stream_control(state(9900, false), &StreamControl::StepVolume(1));
    assert_eq!(capped.volume, MAX_VOLUME);
    let set = apply_stream_control(st, &StreamControl::SetVolume(1234));
    assert_eq!(set.volume, 1234);
    let muted = apply_stream_control(st, &StreamControl::SetMuted(true));
    assert!(muted.muted);
    let toggled = apply_stream_control(muted, &StreamControl::ToggleMuted);
    assert!(!toggled.muted);
    assert_eq!(toggled.volume, 100);
}

#[test]
fn stream_ids_are_fresh_and_increasing() {
    let mut gen = StreamIdGen::new();
    let a = StreamId::new(&mut gen);
    let b = StreamId::new(&mut gen);
    assert_eq!(a, StreamId(0));
    assert_eq!(b, StreamId(1));
    assert!(a < b);
}
