use windowmaster::bigraph::{BiGraph, Binding, ChannelId};
use windowmaster::audio::StreamId;
use windowmaster::button::{self, Button};
use windowmaster::channel::ChannelImpl;
use windowmaster::control::DeviceId;
use windowmaster::encoder::Quadrature;
use windowmaster::indicator::{self, Indicator};
use windowmaster::switch::Switch;
use windowmaster::system::{update_channel, ChannelSamples, System};
use windowmaster::report::Report;

#[test]
fn active_low_button_reads_inverted() {
    let mut b = button::ActiveLow::new();
    assert_eq!(b.poll(false).unwrap(), true);
    assert_eq!(b.poll(true).unwrap(), false);
    let mut d = button::Disabled::new();
    assert_eq!(d.poll(false).unwrap(), false);
}

#[test]
fn switch_reports_edges() {
    let mut s = Switch::new();
    assert!(!s.is_pressed());
    assert!(s.poll(false)); // low = pressed: rising edge
    assert!(s.is_pressed());
    assert!(!s.poll(false)); // still held: no edge
    assert!(s.poll(true)); // released: falling edge
    assert!(!s.is_pressed());
}

#[test]
fn indicator_polarities() {
    let mut low = indicator::ActiveLow::new();
    assert!(low.level_high); // off state drives the line high
    low.turn_on().unwrap();
    assert!(!low.level_high);
    low.turn_off().unwrap();
    assert!(low.level_high);

    let mut high = indicator::ActiveHigh::new();
    assert!(!high.level_high);
    high.turn_on().unwrap();
    assert!(high.level_high);
}

#[test]
fn channel_scan_stages_report() {
    let chan = || {
        ChannelImpl::new(Quadrature::new(), button::ActiveLow::new(), indicator::ActiveLow::new())
    };
    let mut channel = chan();
    let mut report = Report::new();

    // first sample primes the decoder; the button line is low (pressed)
    update_channel(
        &mut report,
        0,
        &mut channel,
        ChannelSamples { encoder: Some((false, false)), button: Some(false) },
    );
    assert_eq!(report.encoders[0], 0);
    assert_eq!(report.buttons & 1, 1);

    // one detent forward
    update_channel(
        &mut report,
        0,
        &mut channel,
        ChannelSamples { encoder: Some((true, false)), button: Some(true) },
    );
    assert_eq!(report.encoders[0], 1);
    assert_eq!(report.buttons & 1, 0);

    // a failed pin read leaves the staged values alone
    update_channel(
        &mut report,
        0,
        &mut channel,
        ChannelSamples { encoder: None, button: None },
    );
    assert_eq!(report.encoders[0], 1);
}

#[test]
fn indicator_follows_received_mask() {
    let mut channel = ChannelImpl::new(
        Quadrature::new(),
        button::ActiveLow::new(),
        indicator::ActiveLow::new(),
    );
    let mut report = Report::new();
    report.apply_output(0b1);
    update_channel(
        &mut report,
        0,
        &mut channel,
        ChannelSamples { encoder: None, button: None },
    );
    assert!(!channel.indicator.level_high); // active-low: on

    report.apply_output(0b0);
    update_channel(
        &mut report,
        0,
        &mut channel,
        ChannelSamples { encoder: None, button: None },
    );
    assert!(channel.indicator.level_high); // off again
}

#[test]
fn system_scan_covers_all_channels() {
    let chan = || {
        ChannelImpl::new(Quadrature::new(), button::ActiveLow::new(), indicator::ActiveLow::new())
    };
    let mut sys = System::from_parts(
        indicator::ActiveLow::new(),
        chan(),
        chan(),
        chan(),
        chan(),
        chan(),
        chan(),
    );
    let prime = ChannelSamples { encoder: Some((false, false)), button: Some(true) };
    sys.scan(&[prime; 6]);
    let forward = ChannelSamples { encoder: Some((true, false)), button: Some(false) };
    sys.scan(&[forward; 6]);
    assert_eq!(sys.report.encoders, [1, 1, 1, 1, 1, 1]);
    assert_eq!(sys.report.buttons, 0b111111);
}

#[test]
fn bigraph_edges_and_neighbors() {
    let mut g = BiGraph::new();
    let c1 = ChannelId(DeviceId(0), 0);
    let c2 = ChannelId(DeviceId(0), 1);
    let s = Binding::Direct(StreamId(3));

    assert!(!g.contains_edge(c1, s));
    assert!(g.add_edge(c1, s));
    assert!(!g.add_edge(c1, s)); // second insert is not fresh
    g.add_edge(c2, s);
    g.add_edge(c1, Binding::ActiveWindow);

    assert!(g.contains_edge(c1, s));
    assert!(g.contains_left(c1));
    assert!(g.contains_right(s));

    let mut n1 = g.neighbors_of_left(c1);
    n1.sort();
    assert_eq!(n1, vec![Binding::Direct(StreamId(3)), Binding::ActiveWindow]);
    let mut ns = g.neighbors_of_right(s);
    ns.sort();
    assert_eq!(ns, vec![c1, c2]);

    assert!(g.remove_edge(c1, s));
    assert!(!g.contains_edge(c1, s));
    assert!(g.contains_edge(c2, s));

    // removing a left node drops its remaining edges
    assert!(g.remove_left(c1));
    assert!(!g.contains_edge(c1, Binding::ActiveWindow));
    assert!(g.neighbors_of_left(c1).is_empty());

    g.clear();
    assert!(!g.contains_edge(c2, s));
    assert!(!g.contains_right(s));
}

#[test]
fn bigraph_isolated_nodes() {
    let mut g = BiGraph::new();
    let c = ChannelId(DeviceId(9), 5);
    g.add_left(c);
    g.add_right(Binding::DefaultDevice);
    assert!(g.contains_left(c));
    assert!(g.contains_right(Binding::DefaultDevice));
    assert!(!g.contains_edge(c, Binding::DefaultDevice));
    assert!(g.neighbors_of_left(c).is_empty());
}
