//! The host coordinator: the single-threaded state machine that owns the
//! stream registry, the binding graph, the per-channel menus and the two
//! dynamic binding slots.
//!
//! The surrounding runtime races two inbound queues and feeds one event at a
//! time into [`Runtime::handle_audio_event`] or
//! [`Runtime::handle_control_input`]; each returns the messages to send, in
//! order, on the outbound queues. Processing is to completion: no state is
//! shared and nothing suspends inside a handler.

use vstd::prelude::*;
use crate::audio::{AudioControl, AudioEvent, StreamControl, StreamEvent, StreamId, StreamInfo, StreamState};
use crate::bigraph::{BiGraph, Binding, ChannelId};
use crate::control::{ChannelInput, ChannelOutput, ControlInput, ControlOutput};
use crate::names::{lex_le, sort_by_name};
use crate::registry::{Menu, MenuMap, MenuOption, Stream, StreamMap};

verus! {

broadcast use vstd::seq_lib::lemma_seq_contains_after_push;

/// A fault that violates a process-wide invariant; the daemon logs and exits
/// rather than continue on it.
#[derive(Debug, Clone, Copy, PartialEq, Eq, Structural)]
pub enum FatalError {
    /// A stream opened under an identifier that is already registered.
    DuplicateStream(StreamId),
}

/// The coordinator's owned state.
pub struct Runtime {
    pub streams: StreamMap,
    pub bindings: BiGraph,
    pub menus: MenuMap,
    pub window_focus: Option<StreamId>,
    pub default_device: Option<StreamId>,
}

/// The update sent to a channel when its bound stream's state changes.
pub open spec fn state_output(c: ChannelId, st: StreamState) -> ControlOutput {
    ControlOutput::ChannelOutput(c.0, c.1, ChannelOutput::StateChanged(st))
}

pub open spec fn menu_opened_output(c: ChannelId) -> ControlOutput {
    ControlOutput::ChannelOutput(c.0, c.1, ChannelOutput::MenuOpened)
}

pub open spec fn menu_closed_output(c: ChannelId) -> ControlOutput {
    ControlOutput::ChannelOutput(c.0, c.1, ChannelOutput::MenuClosed)
}

/// The channel a control output is addressed to.
pub open spec fn out_channel(o: ControlOutput) -> ChannelId {
    match o {
        ControlOutput::ChannelOutput(d, i, _) => ChannelId(d, i),
    }
}

/// The stream a stream control is addressed to.
pub open spec fn control_stream(a: AudioControl) -> StreamId {
    match a {
        AudioControl::StreamControl { stream_id, stream_control } => stream_id,
    }
}

/// A correct fan-out of one state to the channels bound to `b`: every output
/// carries exactly `st`, no channel is addressed twice, and a channel is
/// addressed if and only if it is bound to `b`.
pub open spec fn fanout_ok(
    edges: Set<(ChannelId, Binding)>,
    b: Binding,
    st: StreamState,
    out: Seq<ControlOutput>,
) -> bool {
    &&& forall|k: int| 0 <= k < out.len() ==> #[trigger] out[k] == state_output(
        out_channel(out[k]),
        st,
    )
    &&& forall|k1: int, k2: int|
        0 <= k1 < k2 < out.len() ==> out_channel(out[k1]) != out_channel(out[k2])
    &&& forall|k: int| 0 <= k < out.len() ==> edges.contains(((#[trigger] out_channel(out[k])), b))
    &&& forall|c: ChannelId| #[trigger]
        edges.contains((c, b)) ==> exists|k: int| 0 <= k < out.len() && out_channel(out[k]) == c
}

impl Runtime {
    /// Structural soundness: distinct registry keys, a bipartite graph, and
    /// every open menu with a valid highlight and the three fixed options.
    pub open spec fn wf(self) -> bool {
        &&& self.streams.wf()
        &&& self.bindings.wf()
        &&& self.menus.wf()
        &&& forall|c: ChannelId| #[trigger]
            self.menus@.contains_key(c) ==> self.menus@[c].wf()
    }

    /// The stream a binding resolves to: a direct binding names its stream,
    /// the dynamic bindings go through the coordinator's slots.
    pub open spec fn spec_resolve(self, b: Binding) -> Option<StreamId> {
        match b {
            Binding::Direct(s) => Option::Some(s),
            Binding::ActiveWindow => self.window_focus,
            Binding::DefaultDevice => self.default_device,
        }
    }

    /// Whether a binding resolves to a stream that is currently registered.
    pub open spec fn binding_registered(self, b: Binding) -> bool {
        match self.spec_resolve(b) {
            Option::Some(s) => self.streams@.contains_key(s),
            Option::None => false,
        }
    }

    /// The state a binding evaluates to: the registered stream's state, or
    /// the default state when the binding is dangling or unresolved.
    pub open spec fn spec_binding_state(self, b: Binding) -> StreamState {
        match self.spec_resolve(b) {
            Option::Some(s) => if self.streams@.contains_key(s) {
                self.streams@[s].state
            } else {
                StreamState { volume: 0, muted: false }
            },
            Option::None => StreamState { volume: 0, muted: false },
        }
    }

    pub fn new() -> (rt: Self)
        ensures
            rt.wf(),
            rt.streams@ == Map::<StreamId, Stream>::empty(),
            rt.bindings.edges() == Set::<(ChannelId, Binding)>::empty(),
            rt.menus@ == Map::<ChannelId, Menu>::empty(),
            rt.window_focus is None,
            rt.default_device is None,
    {
        Runtime {
            streams: StreamMap::new(),
            bindings: BiGraph::new(),
            menus: MenuMap::new(),
            window_focus: None,
            default_device: None,
        }
    }

    /// Resolves a binding to a stream identifier, if it has one.
    pub fn binding_stream_id(&self, binding: &Binding) -> (r: Option<StreamId>)
        ensures
            r == self.spec_resolve(*binding),
    {
        match binding {
            Binding::Direct(stream_id) => Some(*stream_id),
            Binding::ActiveWindow => self.window_focus,
            Binding::DefaultDevice => self.default_device,
        }
    }

    /// The registered stream a binding resolves to, if any.
    pub fn get_binding_state(&self, binding: &Binding) -> (r: Option<&Stream>)
        requires
            self.wf(),
        ensures
            match r {
                Option::Some(s) => self.binding_registered(*binding) && *s
                    == self.streams@[self.spec_resolve(*binding).unwrap()],
                Option::None => !self.binding_registered(*binding),
            },
    {
        match self.binding_stream_id(binding) {
            Some(stream_id) => self.streams.get(stream_id),
            None => None,
        }
    }

    /// The state a binding evaluates to, defaulting when it is dangling or
    /// unresolved.
    fn binding_state_or_default(&self, binding: &Binding) -> (r: StreamState)
        requires
            self.wf(),
        ensures
            r == self.spec_binding_state(*binding),
    {
        match self.get_binding_state(binding) {
            Some(stream) => stream.state,
            None => StreamState { volume: 0, muted: false },
        }
    }

    /// Sends the state a binding now evaluates to, to every channel bound to
    /// that binding, each exactly once.
    pub fn update_bound_channels(&self, binding: Binding) -> (out: Vec<ControlOutput>)
        requires
            self.wf(),
        ensures
            fanout_ok(self.bindings.edges(), binding, self.spec_binding_state(binding), out@),
    {
        let state = self.binding_state_or_default(&binding);
        let chans = self.bindings.neighbors_of_right(binding);
        let mut out: Vec<ControlOutput> = Vec::new();
        let mut i: usize = 0;
        while i < chans.len()
            invariant
                self.wf(),
                state == self.spec_binding_state(binding),
                chans@.no_duplicates(),
                forall|c: ChannelId|
                    #[trigger] chans@.contains(c) <==> self.bindings.edges().contains((c, binding)),
                i <= chans@.len(),
                out@.len() == i,
                forall|k: int| 0 <= k < i ==> #[trigger] out@[k] == state_output(chans@[k], state),
            decreases chans@.len() - i,
        {
            let c = chans[i];
            out.push(ControlOutput::ChannelOutput(c.0, c.1, ChannelOutput::StateChanged(state)));
            i = i + 1;
        }
        proof {
            assert forall|k: int| 0 <= k < out@.len() implies #[trigger] out@[k] == state_output(
                out_channel(out@[k]),
                self.spec_binding_state(binding),
            ) by {
                assert(out@[k] == state_output(chans@[k], state));
                assert(out_channel(out@[k]) == chans@[k]);
            };
            assert forall|k: int| 0 <= k < out@.len() implies self.bindings.edges().contains(
                ((#[trigger] out_channel(out@[k])), binding),
            ) by {
                assert(out_channel(out@[k]) == chans@[k]);
                assert(chans@.contains(chans@[k]));
            };
            assert forall|c: ChannelId| #[trigger]
                self.bindings.edges().contains((c, binding)) implies exists|k: int|
                0 <= k < out@.len() && out_channel(out@[k]) == c by {
                assert(chans@.contains(c));
                let k = choose|k: int| 0 <= k < chans@.len() && chans@[k] == c;
                assert(out_channel(out@[k]) == c);
            };
            assert forall|k1: int, k2: int|
                0 <= k1 < k2 < out@.len() implies out_channel(out@[k1]) != out_channel(
                out@[k2],
            ) by {
                assert(out_channel(out@[k1]) == chans@[k1]);
                assert(out_channel(out@[k2]) == chans@[k2]);
            };
        }
        out
    }

    /// Sends the state each of a channel's bindings evaluates to, to that
    /// channel: one update per binding.
    pub fn update_channel(&self, channel_id: ChannelId) -> (out: Vec<ControlOutput>)
        requires
            self.wf(),
        ensures
            exists|bs: Seq<Binding>| update_channel_ok(*self, channel_id, bs, out@),
    {
        let nbrs = self.bindings.neighbors_of_left(channel_id);
        let mut out: Vec<ControlOutput> = Vec::new();
        let mut i: usize = 0;
        while i < nbrs.len()
            invariant
                self.wf(),
                i <= nbrs@.len(),
                nbrs@.no_duplicates(),
                forall|b: Binding| #[trigger]
                    nbrs@.contains(b) <==> self.bindings.edges().contains((channel_id, b)),
                out@.len() == i,
                forall|k: int|
                    0 <= k < i ==> #[trigger] out@[k] == state_output(
                        channel_id,
                        self.spec_binding_state(nbrs@[k]),
                    ),
            decreases nbrs@.len() - i,
        {
            let b = nbrs[i];
            let state = self.binding_state_or_default(&b);
            out.push(
                ControlOutput::ChannelOutput(
                    channel_id.0,
                    channel_id.1,
                    ChannelOutput::StateChanged(state),
                ),
            );
            i = i + 1;
        }
        proof {
            assert(update_channel_ok(*self, channel_id, nbrs@, out@));
        }
        out
    }
}

/// A correct per-channel update: one output per binding of the channel (in
/// some duplicate-free order `bs`), each carrying the state that binding
/// evaluates to.
pub open spec fn update_channel_ok(
    rt: Runtime,
    c: ChannelId,
    bs: Seq<Binding>,
    out: Seq<ControlOutput>,
) -> bool {
    &&& bs.no_duplicates()
    &&& forall|b: Binding| #[trigger] bs.contains(b) <==> rt.bindings.edges().contains((c, b))
    &&& out.len() == bs.len()
    &&& forall|k: int|
        0 <= k < out.len() ==> #[trigger] out[k] == state_output(c, rt.spec_binding_state(bs[k]))
}

/// A correct dispatch of one stream control from a channel: one control per
/// binding of the channel that resolves to a registered stream (in some
/// duplicate-free order `bs`), addressed to that stream.
pub open spec fn dispatch_ok(
    rt: Runtime,
    c: ChannelId,
    sc: StreamControl,
    bs: Seq<Binding>,
    out: Seq<AudioControl>,
) -> bool {
    &&& bs.no_duplicates()
    &&& forall|b: Binding| #[trigger]
        bs.contains(b) <==> (rt.bindings.edges().contains((c, b)) && rt.binding_registered(b))
    &&& out.len() == bs.len()
    &&& forall|k: int|
        0 <= k < out.len() ==> match rt.spec_resolve(bs[k]) {
            Option::Some(sid) => #[trigger] out[k] == (AudioControl::StreamControl {
                stream_id: sid,
                stream_control: sc,
            }),
            Option::None => false,
        }
}

/// There is some duplicate-free order of the channel's resolvable bindings
/// under which `out` is a correct dispatch.
pub open spec fn dispatched(
    rt: Runtime,
    c: ChannelId,
    sc: StreamControl,
    out: Seq<AudioControl>,
) -> bool {
    exists|bs: Seq<Binding>| dispatch_ok(rt, c, sc, bs, out)
}

impl Runtime {
    /// Emits one copy of `stream_control` for each binding of the channel
    /// that resolves to a registered stream; a dangling or unresolved binding
    /// generates no control.
    pub fn dispatch_stream_control(&self, channel_id: ChannelId, stream_control: StreamControl) -> (out: Vec<
        AudioControl,
    >)
        requires
            self.wf(),
        ensures
            dispatched(*self, channel_id, stream_control, out@),
    {
        let nbrs = self.bindings.neighbors_of_left(channel_id);
        let mut out: Vec<AudioControl> = Vec::new();
        let ghost mut bs: Seq<Binding> = Seq::empty();
        let mut i: usize = 0;
        while i < nbrs.len()
            invariant
                self.wf(),
                i <= nbrs@.len(),
                nbrs@.no_duplicates(),
                forall|b: Binding| #[trigger]
                    nbrs@.contains(b) <==> self.bindings.edges().contains((channel_id, b)),
                bs.no_duplicates(),
                forall|b: Binding| #[trigger]
                    bs.contains(b) <==> (nbrs@.subrange(0, i as int).contains(b)
                        && self.binding_registered(b)),
                out@.len() == bs.len(),
                forall|k: int|
                    0 <= k < out@.len() ==> match self.spec_resolve(bs[k]) {
                        Option::Some(sid) => #[trigger] out@[k] == (AudioControl::StreamControl {
                            stream_id: sid,
                            stream_control: stream_control,
                        }),
                        Option::None => false,
                    },
            decreases nbrs@.len() - i,
        {
            let ghost bs0 = bs;
            let b = nbrs[i];
            let mut took = false;
            match self.binding_stream_id(&b) {
                Some(stream_id) => {
                    if self.streams.contains(stream_id) {
                        out.push(
                            AudioControl::StreamControl { stream_id, stream_control },
                        );
                        proof {
                            bs = bs.push(b);
                        }
                        took = true;
                    }
                },
                None => {},
            }
            proof {
                assert(nbrs@.subrange(0, i as int).push(b) =~= nbrs@.subrange(0, i as int + 1));
                if took {
                    if bs0.contains(b) {
                        assert(nbrs@.subrange(0, i as int).contains(b));
                        let j = choose|j: int|
                            0 <= j < i && (#[trigger] nbrs@.subrange(0, i as int)[j]) == b;
                        assert(nbrs@[j] == b && nbrs@[i as int] == b);
                        assert(false);
                    }
                    assert forall|x: Binding| #[trigger] bs.contains(x) implies (nbrs@.subrange(
                        0,
                        i as int + 1,
                    ).contains(x) && self.binding_registered(x)) by {
                        if x != b {
                            assert(bs0.contains(x));
                        }
                    };
                    assert forall|x: Binding|
                        nbrs@.subrange(0, i as int + 1).contains(x) && self.binding_registered(
                            x,
                        ) implies #[trigger] bs.contains(x) by {
                        if x != b {
                            let j = choose|j: int|
                                0 <= j < i + 1 && (#[trigger] nbrs@.subrange(
                                    0,
                                    i as int + 1,
                                )[j]) == x;
                            assert(nbrs@.subrange(0, i as int + 1)[i as int] == b);
                            assert(j < i);
                            assert(nbrs@.subrange(0, i as int)[j] == x);
                            assert(bs0.contains(x));
                        }
                    };
                } else {
                    assert forall|x: Binding|
                        nbrs@.subrange(0, i as int + 1).contains(x) && self.binding_registered(
                            x,
                        ) implies #[trigger] bs.contains(x) by {
                        if x == b {
                            assert(!self.binding_registered(b));
                            assert(false);
                        }
                        let j = choose|j: int|
                            0 <= j < i + 1 && (#[trigger] nbrs@.subrange(
                                0,
                                i as int + 1,
                            )[j]) == x;
                        assert(nbrs@.subrange(0, i as int + 1)[i as int] == b);
                        assert(j < i);
                        assert(nbrs@.subrange(0, i as int)[j] == x);
                    };
                    assert forall|x: Binding| #[trigger] bs.contains(x) implies (nbrs@.subrange(
                        0,
                        i as int + 1,
                    ).contains(x) && self.binding_registered(x)) by {
                        assert(nbrs@.subrange(0, i as int).contains(x));
                    };
                }
            }
            i = i + 1;
        }
        proof {
            assert(nbrs@.subrange(0, nbrs@.len() as int) =~= nbrs@);
            assert(dispatch_ok(*self, channel_id, stream_control, bs, out@));
        }
        out
    }
}


/// The menu a channel gets when it opens one: the highlight on the first
/// option; the fixed options to unbind or pick a dynamic binding; then every
/// registered stream as a direct binding, sorted by name.
pub open spec fn fresh_menu_ok(rt0: Runtime, m: Menu) -> bool {
    &&& m.current_index == 0
    &&& m.options@.len() >= 3
    &&& m.options@[0].binding is None
    &&& m.options@[0].name@ == "None"@
    &&& m.options@[1].binding == Option::Some(Binding::DefaultDevice)
    &&& m.options@[1].name@ == "Default Device"@
    &&& m.options@[2].binding == Option::Some(Binding::ActiveWindow)
    &&& m.options@[2].name@ == "Active Window"@
    &&& forall|j: int|
        3 <= j < m.options@.len() ==> match (#[trigger] m.options@[j]).binding {
            Option::Some(b) => match b {
                Binding::Direct(sid) => rt0.streams@.contains_key(sid) && m.options@[j].name
                    == rt0.streams@[sid].name,
                _ => false,
            },
            Option::None => false,
        }
    &&& forall|sid: StreamId| #[trigger]
        rt0.streams@.contains_key(sid) ==> exists|j: int|
            3 <= j < m.options@.len() && (#[trigger] m.options@[j]).binding == Option::Some(
                Binding::Direct(sid),
            )
    &&& forall|i: int, j: int|
        3 <= i < j < m.options@.len() ==> (#[trigger] m.options@[i]).binding != (
        #[trigger] m.options@[j]).binding
    &&& m.options@.len() == 3 + rt0.streams@.dom().len()
    &&& forall|i: int, j: int|
        3 <= i <= j < m.options@.len() ==> lex_le(m.options@[i].name@, m.options@[j].name@)
}

/// Opening a menu: everything else stays; the channel's menu is atomically
/// replaced by a fresh one; the channel is told its menu opened.
pub open spec fn open_menu_post(
    rt0: Runtime,
    rt1: Runtime,
    c: ChannelId,
    out: Seq<ControlOutput>,
) -> bool {
    &&& rt1.streams == rt0.streams
    &&& rt1.bindings == rt0.bindings
    &&& rt1.window_focus == rt0.window_focus
    &&& rt1.default_device == rt0.default_device
    &&& rt1.menus@.contains_key(c)
    &&& fresh_menu_ok(rt0, rt1.menus@[c])
    &&& rt1.menus@ == rt0.menus@.insert(c, rt1.menus@[c])
    &&& out == seq![menu_opened_output(c)]
}

/// Closing a menu: the channel's menu is removed, whether or not one was
/// open; the channel is told its menu closed.
pub open spec fn close_menu_post(
    rt0: Runtime,
    rt1: Runtime,
    c: ChannelId,
    out: Seq<ControlOutput>,
) -> bool {
    &&& rt1.streams == rt0.streams
    &&& rt1.bindings == rt0.bindings
    &&& rt1.window_focus == rt0.window_focus
    &&& rt1.default_device == rt0.default_device
    &&& rt1.menus@ == rt0.menus@.remove(c)
    &&& out == seq![menu_closed_output(c)]
}

/// Moving the menu highlight: one step forward or back, clamped to the
/// options and never wrapping. Without an open menu nothing changes.
pub open spec fn menu_step_post(rt0: Runtime, rt1: Runtime, c: ChannelId, next: bool) -> bool {
    &&& rt1.streams == rt0.streams
    &&& rt1.bindings == rt0.bindings
    &&& rt1.window_focus == rt0.window_focus
    &&& rt1.default_device == rt0.default_device
    &&& if rt0.menus@.contains_key(c) {
        let m0 = rt0.menus@[c];
        let ni: int = if next {
            if m0.current_index + 1 < m0.options@.len() {
                m0.current_index + 1
            } else {
                m0.options@.len() - 1
            }
        } else {
            if m0.current_index > 0 {
                m0.current_index - 1
            } else {
                0
            }
        };
        rt1.menus@ == rt0.menus@.insert(
            c,
            (Menu { options: m0.options, current_index: ni as usize }),
        )
    } else {
        rt1.menus@ == rt0.menus@
    }
}

/// Rebinding a channel: all of its edges are removed and replaced by the one
/// chosen binding (or none), and the channel is told the state its new
/// binding evaluates to.
pub open spec fn bind_post(
    rt0: Runtime,
    rt1: Runtime,
    c: ChannelId,
    ob: Option<Binding>,
    out: Seq<ControlOutput>,
) -> bool {
    &&& rt1.streams == rt0.streams
    &&& rt1.menus == rt0.menus
    &&& rt1.window_focus == rt0.window_focus
    &&& rt1.default_device == rt0.default_device
    &&& forall|p: (ChannelId, Binding)|
        #![trigger rt1.bindings.edges().contains(p)]
        #![trigger rt0.bindings.edges().contains(p)]
        rt1.bindings.edges().contains(p) <==> ((rt0.bindings.edges().contains(p) && p.0 != c) || (
        ob is Some && p == (c, ob.unwrap())))
    &&& out == (match ob {
        Option::Some(b) => seq![state_output(c, rt1.spec_binding_state(b))],
        Option::None => Seq::<ControlOutput>::empty(),
    })
}

/// Selecting the highlighted option: the channel is rebound to it, told the
/// resulting state, and its menu closes. Without an open menu nothing
/// happens.
pub open spec fn menu_select_post(
    rt0: Runtime,
    rt1: Runtime,
    c: ChannelId,
    out: Seq<ControlOutput>,
) -> bool {
    if rt0.menus@.contains_key(c) {
        let ob = rt0.menus@[c].options@[rt0.menus@[c].current_index as int].binding;
        &&& rt1.streams == rt0.streams
        &&& rt1.window_focus == rt0.window_focus
        &&& rt1.default_device == rt0.default_device
        &&& rt1.menus@ == rt0.menus@.remove(c)
        &&& forall|p: (ChannelId, Binding)|
            #![trigger rt1.bindings.edges().contains(p)]
            #![trigger rt0.bindings.edges().contains(p)]
            rt1.bindings.edges().contains(p) <==> ((rt0.bindings.edges().contains(p) && p.0 != c)
                || (ob is Some && p == (c, ob.unwrap())))
        &&& out == (match ob {
            Option::Some(b) => seq![
                state_output(c, rt1.spec_binding_state(b)),
                menu_closed_output(c),
            ],
            Option::None => seq![menu_closed_output(c)],
        })
    } else {
        &&& rt1 == rt0
        &&& out == Seq::<ControlOutput>::empty()
    }
}

impl Runtime {
    /// Opens (or atomically replaces) the menu for a channel: the three fixed
    /// options, then every registered stream sorted by name.
    pub fn open_menu(&mut self, channel_id: ChannelId) -> (out: Vec<ControlOutput>)
        requires
            old(self).wf(),
        ensures
            final(self).wf(),
            open_menu_post(*old(self), *final(self), channel_id, out@),
    {
        let mut options: Vec<MenuOption> = Vec::new();
        options.push(MenuOption { name: "None".to_owned(), binding: None });
        options.push(
            MenuOption { name: "Default Device".to_owned(), binding: Some(Binding::DefaultDevice) },
        );
        options.push(
            MenuOption { name: "Active Window".to_owned(), binding: Some(Binding::ActiveWindow) },
        );
        let names = self.streams.stream_names();
        let ghost names0 = names@;
        let sorted = sort_by_name(names);
        proof {
            names0.to_multiset_ensures();
            sorted@.to_multiset_ensures();
        }
        let ghost base = options@;
        let mut i: usize = 0;
        while i < sorted.len()
            invariant
                base.len() == 3,
                options@.len() == 3 + i,
                i <= sorted@.len(),
                options@.subrange(0, 3) =~= base,
                forall|j: int|
                    3 <= j < options@.len() ==> (#[trigger] options@[j]).binding == Option::Some(
                        Binding::Direct(sorted@[j - 3].0),
                    ) && options@[j].name == sorted@[j - 3].1,
            decreases sorted@.len() - i,
        {
            let id = sorted[i].0;
            let name = sorted[i].1.clone();
            options.push(MenuOption { name, binding: Some(Binding::Direct(id)) });
            i = i + 1;
        }
        let menu = Menu { options, current_index: 0 };
        proof {
            let rt0 = *old(self);
            let m = menu;
            assert(m.options@[0] == base[0]);
            assert(m.options@[1] == base[1]);
            assert(m.options@[2] == base[2]);
            // every tail entry names a registered stream
            assert forall|j: int| 3 <= j < m.options@.len() implies match (
            #[trigger] m.options@[j]).binding {
                Option::Some(b) => match b {
                    Binding::Direct(sid) => rt0.streams@.contains_key(sid) && m.options@[j].name
                        == rt0.streams@[sid].name,
                    _ => false,
                },
                Option::None => false,
            } by {
                let pair = sorted@[j - 3];
                assert(sorted@.contains(pair));
                assert(sorted@.to_multiset().count(pair) > 0);
                assert(names0.to_multiset().count(pair) > 0);
                assert(names0.contains(pair));
                let k = choose|k: int| 0 <= k < names0.len() && names0[k] == pair;
                assert(rt0.streams@.contains_key(names0[k].0));
                assert(names0[k].1 == rt0.streams@[names0[k].0].name);
                assert(m.options@[j].name == rt0.streams@[pair.0].name);
                assert(m.options@[j].binding == Option::Some(Binding::Direct(pair.0)));
            };
            // every registered stream appears in the tail
            assert forall|sid: StreamId| #[trigger]
                rt0.streams@.contains_key(sid) implies exists|j: int|
                3 <= j < m.options@.len() && (#[trigger] m.options@[j]).binding == Option::Some(
                    Binding::Direct(sid),
                ) by {
                let k = choose|k: int| 0 <= k < names0.len() && names0[k].0 == sid;
                let pair = names0[k];
                assert(names0.contains(pair));
                assert(names0.to_multiset().count(pair) > 0);
                assert(sorted@.to_multiset().count(pair) > 0);
                assert(sorted@.contains(pair));
                let k2 = choose|k2: int| 0 <= k2 < sorted@.len() && sorted@[k2] == pair;
                assert(m.options@[k2 + 3].binding == Option::Some(Binding::Direct(sid)));
            };
            // the tail is sorted by name
            assert forall|i1: int, j1: int|
                3 <= i1 <= j1 < m.options@.len() implies lex_le(
                m.options@[i1].name@,
                m.options@[j1].name@,
            ) by {
                assert(m.options@[i1].name == sorted@[i1 - 3].1);
                assert(m.options@[j1].name == sorted@[j1 - 3].1);
                assert(lex_le(sorted@[i1 - 3].1@, sorted@[j1 - 3].1@));
            };
            // each registered stream appears exactly once: the name pairs are
            // pairwise distinct, so the sort keeps them distinct, and distinct
            // pairs with one identifier would mean the identifier occurred
            // twice among the names
            assert(names0.no_duplicates());
            assert forall|i1: int, j1: int| 3 <= i1 < j1 < m.options@.len() implies (
            #[trigger] m.options@[i1]).binding != (#[trigger] m.options@[j1]).binding by {
                let p1 = sorted@[i1 - 3];
                let p2 = sorted@[j1 - 3];
                assert(p1 != p2);
                if p1.0 == p2.0 {
                    assert(sorted@.contains(p1));
                    assert(sorted@.to_multiset().count(p1) > 0);
                    assert(names0.to_multiset().count(p1) > 0);
                    assert(names0.contains(p1));
                    assert(sorted@.contains(p2));
                    assert(sorted@.to_multiset().count(p2) > 0);
                    assert(names0.to_multiset().count(p2) > 0);
                    assert(names0.contains(p2));
                    let k1 = choose|k1: int| 0 <= k1 < names0.len() && names0[k1] == p1;
                    let k2 = choose|k2: int| 0 <= k2 < names0.len() && names0[k2] == p2;
                    assert(k1 != k2);
                    assert(names0[k1].0 != names0[k2].0);
                    assert(false);
                }
            };
            assert(m.options@.len() == 3 + rt0.streams@.dom().len());
            assert(fresh_menu_ok(rt0, m));
        }
        self.menus.insert(channel_id, menu);
        let mut out: Vec<ControlOutput> = Vec::new();
        out.push(
            ControlOutput::ChannelOutput(channel_id.0, channel_id.1, ChannelOutput::MenuOpened),
        );
        proof {
            assert(out@ =~= seq![menu_opened_output(channel_id)]);
        }
        out
    }

    /// Closes the menu for a channel, if one is open, and reports the close
    /// either way.
    pub fn close_menu(&mut self, channel_id: ChannelId) -> (out: Vec<ControlOutput>)
        requires
            old(self).wf(),
        ensures
            final(self).wf(),
            close_menu_post(*old(self), *final(self), channel_id, out@),
    {
        let _ = self.menus.remove(channel_id);
        let mut out: Vec<ControlOutput> = Vec::new();
        out.push(
            ControlOutput::ChannelOutput(channel_id.0, channel_id.1, ChannelOutput::MenuClosed),
        );
        proof {
            assert(out@ =~= seq![menu_closed_output(channel_id)]);
        }
        out
    }

    /// Moves the highlight one option forward, clamped to the last option.
    pub fn menu_next(&mut self, channel_id: ChannelId)
        requires
            old(self).wf(),
        ensures
            final(self).wf(),
            menu_step_post(*old(self), *final(self), channel_id, true),
    {
        let step = match self.menus.get(channel_id) {
            Some(menu) => {
                let len = menu.options.len();
                let i = menu.current_index;
                Some(if i + 1 < len {
                    i + 1
                } else {
                    len - 1
                })
            },
            None => None,
        };
        if let Some(new_index) = step {
            let _ = self.menus.set_index(channel_id, new_index);
        }
    }

    /// Moves the highlight one option back, clamped to the first option.
    pub fn menu_previous(&mut self, channel_id: ChannelId)
        requires
            old(self).wf(),
        ensures
            final(self).wf(),
            menu_step_post(*old(self), *final(self), channel_id, false),
    {
        let step = match self.menus.get(channel_id) {
            Some(menu) => {
                let i = menu.current_index;
                Some(if i > 0 {
                    i - 1
                } else {
                    0
                })
            },
            None => None,
        };
        if let Some(new_index) = step {
            let _ = self.menus.set_index(channel_id, new_index);
        }
    }

    /// Rebinds a channel: removes all of its edges, adds the one chosen
    /// binding if any, and tells the channel the state it now evaluates to.
    pub fn bind(&mut self, channel_id: ChannelId, binding: Option<Binding>) -> (out: Vec<
        ControlOutput,
    >)
        requires
            old(self).wf(),
        ensures
            final(self).wf(),
            bind_post(*old(self), *final(self), channel_id, binding, out@),
    {
        let _ = self.bindings.remove_left(channel_id);
        if let Some(b) = binding {
            let _ = self.bindings.add_edge(channel_id, b);
        }
        proof {
            assert forall|p: (ChannelId, Binding)|
                self.bindings.edges().contains(p) <==> ((old(self).bindings.edges().contains(p)
                    && p.0 != channel_id) || (binding is Some && p == (
                    channel_id,
                    binding.unwrap(),
                ))) by {
                match binding {
                    Option::Some(b) => {},
                    Option::None => {},
                }
            };
        }
        let out = self.update_channel(channel_id);
        proof {
            let bs = choose|bs: Seq<Binding>| update_channel_ok(*self, channel_id, bs, out@);
            match binding {
                Option::Some(b) => {
                    assert(self.bindings.edges().contains((channel_id, b)));
                    assert(bs.contains(b));
                    assert forall|k: int| 0 <= k < bs.len() implies bs[k] == b by {
                        assert(bs.contains(bs[k]));
                        assert(self.bindings.edges().contains((channel_id, bs[k])));
                    };
                    if bs.len() > 1 {
                        assert(bs[0] == b && bs[1] == b);
                        assert(false);
                    }
                    let j = choose|j: int| 0 <= j < bs.len() && bs[j] == b;
                    assert(bs.len() == 1);
                    assert(bs[0] == b);
                    assert(out@ =~= seq![state_output(channel_id, self.spec_binding_state(b))]);
                },
                Option::None => {
                    if bs.len() > 0 {
                        assert(bs.contains(bs[0]));
                        assert(self.bindings.edges().contains((channel_id, bs[0])));
                        assert(false);
                    }
                    assert(out@ =~= Seq::<ControlOutput>::empty());
                },
            }
        }
        out
    }

    /// Applies the highlighted option as the channel's new binding, reports
    /// the resolved state, and closes the menu.
    pub fn menu_select(&mut self, channel_id: ChannelId) -> (out: Vec<ControlOutput>)
        requires
            old(self).wf(),
        ensures
            final(self).wf(),
            menu_select_post(*old(self), *final(self), channel_id, out@),
    {
        let selection = match self.menus.get(channel_id) {
            Some(menu) => Some(menu.options[menu.current_index].binding),
            None => None,
        };
        match selection {
            Some(ob) => {
                let mut out = self.bind(channel_id, ob);
                let mut out2 = self.close_menu(channel_id);
                let ghost out1v = out@;
                out.append(&mut out2);
                proof {
                    assert(out@ =~= out1v + seq![menu_closed_output(channel_id)]);
                    match ob {
                        Option::Some(b) => {
                            assert(out@ =~= seq![
                                state_output(channel_id, final(self).spec_binding_state(b)),
                                menu_closed_output(channel_id),
                            ]);
                        },
                        Option::None => {
                            assert(out@ =~= seq![menu_closed_output(channel_id)]);
                        },
                    }
                }
                out
            },
            None => Vec::new(),
        }
    }
}

/// Lifts the outputs of a fallible handler to their mathematical view.
pub open spec fn out_view(r: Result<Vec<ControlOutput>, FatalError>) -> Result<
    Seq<ControlOutput>,
    FatalError,
> {
    match r {
        Result::Ok(v) => Result::Ok(v@),
        Result::Err(e) => Result::Err(e),
    }
}

/// A stream opened: it is registered with its initial state, unless the
/// identifier is already taken, which is fatal.
pub open spec fn stream_opened_post(
    rt0: Runtime,
    rt1: Runtime,
    sid: StreamId,
    info: StreamInfo,
    r: Result<Seq<ControlOutput>, FatalError>,
) -> bool {
    if rt0.streams@.contains_key(sid) {
        &&& r == Result::<Seq<ControlOutput>, FatalError>::Err(FatalError::DuplicateStream(sid))
        &&& rt1 == rt0
    } else {
        &&& rt1.streams@ == rt0.streams@.insert(
            sid,
            (Stream { name: info.name, state: info.initial_state }),
        )
        &&& rt1.bindings == rt0.bindings
        &&& rt1.menus == rt0.menus
        &&& rt1.window_focus == rt0.window_focus
        &&& rt1.default_device == rt0.default_device
        &&& r == Result::<Seq<ControlOutput>, FatalError>::Ok(Seq::empty())
    }
}

/// A stream closed: it leaves the registry; channels bound to it keep their
/// (now dangling) edges and evaluate to the default state.
pub open spec fn stream_closed_post(rt0: Runtime, rt1: Runtime, sid: StreamId) -> bool {
    &&& rt1.streams@ == rt0.streams@.remove(sid)
    &&& rt1.bindings == rt0.bindings
    &&& rt1.menus == rt0.menus
    &&& rt1.window_focus == rt0.window_focus
    &&& rt1.default_device == rt0.default_device
}

/// A stream's state changed: the registry is updated and the new state fans
/// out to the channels bound directly to the stream, then to those bound to
/// the dynamic slot(s) currently resolving to it. An unknown stream is
/// ignored.
pub open spec fn state_changed_post(
    rt0: Runtime,
    rt1: Runtime,
    sid: StreamId,
    st: StreamState,
    out: Seq<ControlOutput>,
) -> bool {
    if rt0.streams@.contains_key(sid) {
        &&& rt1.streams@ == rt0.streams@.insert(
            sid,
            (Stream { name: rt0.streams@[sid].name, state: st }),
        )
        &&& rt1.bindings == rt0.bindings
        &&& rt1.menus == rt0.menus
        &&& rt1.window_focus == rt0.window_focus
        &&& rt1.default_device == rt0.default_device
        &&& exists|n1: int, n2: int|
            #![trigger out.subrange(n1, n2)]
            {
                &&& 0 <= n1 <= n2 <= out.len()
                &&& fanout_ok(
                    rt1.bindings.edges(),
                    Binding::Direct(sid),
                    st,
                    out.subrange(0, n1),
                )
                &&& if rt0.window_focus == Option::Some(sid) {
                    fanout_ok(rt1.bindings.edges(), Binding::ActiveWindow, st, out.subrange(n1, n2))
                } else {
                    n1 == n2
                }
                &&& if rt0.default_device == Option::Some(sid) {
                    fanout_ok(
                        rt1.bindings.edges(),
                        Binding::DefaultDevice,
                        st,
                        out.subrange(n2, out.len() as int),
                    )
                } else {
                    n2 == out.len()
                }
            }
    } else {
        &&& rt1.streams@ == rt0.streams@
        &&& rt1.bindings == rt0.bindings
        &&& rt1.menus == rt0.menus
        &&& rt1.window_focus == rt0.window_focus
        &&& rt1.default_device == rt0.default_device
        &&& out == Seq::<ControlOutput>::empty()
    }
}

/// A dynamic slot changed: the slot is reassigned and the state it now
/// evaluates to fans out to the channels bound to the corresponding dynamic
/// binding.
pub open spec fn slot_changed_post(
    rt0: Runtime,
    rt1: Runtime,
    slot: Binding,
    sid: Option<StreamId>,
    out: Seq<ControlOutput>,
) -> bool {
    &&& rt1.streams == rt0.streams
    &&& rt1.bindings == rt0.bindings
    &&& rt1.menus == rt0.menus
    &&& (slot == Binding::ActiveWindow ==> rt1.window_focus == sid && rt1.default_device
        == rt0.default_device)
    &&& (slot == Binding::DefaultDevice ==> rt1.default_device == sid && rt1.window_focus
        == rt0.window_focus)
    &&& fanout_ok(rt1.bindings.edges(), slot, rt1.spec_binding_state(slot), out)
}


/// Stitches the three fan-out pieces of a state change into
/// [`state_changed_post`], with the piece boundaries as witnesses.
proof fn lemma_state_changed_pieces(
    rt0: Runtime,
    rt1: Runtime,
    sid: StreamId,
    st: StreamState,
    out: Seq<ControlOutput>,
    n1: int,
    n2: int,
)
    requires
        rt0.streams@.contains_key(sid),
        rt1.streams@ == rt0.streams@.insert(
            sid,
            (Stream { name: rt0.streams@[sid].name, state: st }),
        ),
        rt1.bindings == rt0.bindings,
        rt1.menus == rt0.menus,
        rt1.window_focus == rt0.window_focus,
        rt1.default_device == rt0.default_device,
        0 <= n1 <= n2 <= out.len(),
        fanout_ok(rt1.bindings.edges(), Binding::Direct(sid), st, out.subrange(0, n1)),
        rt0.window_focus == Option::Some(sid) ==> fanout_ok(
            rt1.bindings.edges(),
            Binding::ActiveWindow,
            st,
            out.subrange(n1, n2),
        ),
        rt0.window_focus != Option::Some(sid) ==> n1 == n2,
        rt0.default_device == Option::Some(sid) ==> fanout_ok(
            rt1.bindings.edges(),
            Binding::DefaultDevice,
            st,
            out.subrange(n2, out.len() as int),
        ),
        rt0.default_device != Option::Some(sid) ==> n2 == out.len(),
    ensures
        state_changed_post(rt0, rt1, sid, st, out),
{
    assert(out.subrange(0, n1).len() == n1);
    assert(out.subrange(n1, n2).len() == n2 - n1);
    assert(out.subrange(n2, out.len() as int).len() == out.len() - n2);
    assert({
        &&& 0 <= n1 <= n2 <= out.len()
        &&& fanout_ok(rt1.bindings.edges(), Binding::Direct(sid), st, out.subrange(0, n1))
        &&& if rt0.window_focus == Option::Some(sid) {
            fanout_ok(rt1.bindings.edges(), Binding::ActiveWindow, st, out.subrange(n1, n2))
        } else {
            n1 == n2
        }
        &&& if rt0.default_device == Option::Some(sid) {
            fanout_ok(
                rt1.bindings.edges(),
                Binding::DefaultDevice,
                st,
                out.subrange(n2, out.len() as int),
            )
        } else {
            n2 == out.len()
        }
    });
}

impl Runtime {
    /// Processes one event from the audio backend to completion and returns
    /// the channel updates to send, in order.
    pub fn handle_audio_event(&mut self, event: AudioEvent) -> (r: Result<
        Vec<ControlOutput>,
        FatalError,
    >)
        requires
            old(self).wf(),
        ensures
            final(self).wf(),
            match event {
                AudioEvent::StreamOpened { stream_id, stream_info } => stream_opened_post(
                    *old(self),
                    *final(self),
                    stream_id,
                    stream_info,
                    out_view(r),
                ),
                AudioEvent::StreamClosed { stream_id } => stream_closed_post(
                    *old(self),
                    *final(self),
                    stream_id,
                ) && out_view(r) == Result::<Seq<ControlOutput>, FatalError>::Ok(Seq::empty()),
                AudioEvent::StreamEvent { stream_id, stream_event } => match stream_event {
                    StreamEvent::StateChanged(st) => r is Ok && state_changed_post(
                        *old(self),
                        *final(self),
                        stream_id,
                        st,
                        r.unwrap()@,
                    ),
                },
                AudioEvent::WindowFocusChanged { stream_id } => r is Ok && slot_changed_post(
                    *old(self),
                    *final(self),
                    Binding::ActiveWindow,
                    stream_id,
                    r.unwrap()@,
                ),
                AudioEvent::DefaultDeviceChanged { stream_id } => r is Ok && slot_changed_post(
                    *old(self),
                    *final(self),
                    Binding::DefaultDevice,
                    stream_id,
                    r.unwrap()@,
                ),
            },
    {
        match event {
            AudioEvent::StreamOpened { stream_id, stream_info } => {
                if self.streams.contains(stream_id) {
                    return Err(FatalError::DuplicateStream(stream_id));
                }
                self.streams.insert(
                    stream_id,
                    Stream { name: stream_info.name, state: stream_info.initial_state },
                );
                Ok(Vec::new())
            },
            AudioEvent::StreamClosed { stream_id } => {
                let _ = self.streams.remove(stream_id);
                Ok(Vec::new())
            },
            AudioEvent::StreamEvent { stream_id, stream_event } => {
                match stream_event {
                    StreamEvent::StateChanged(st) => {
                        let found = self.streams.set_state(stream_id, st);
                        if !found {
                            return Ok(Vec::new());
                        }
                        let mut out = self.update_bound_channels(Binding::Direct(stream_id));
                        let ghost piece1 = out@;
                        let ghost mut piece2: Seq<ControlOutput> = Seq::empty();
                        let is_focus = match self.window_focus {
                            Some(s) => s.0 == stream_id.0,
                            None => false,
                        };
                        if is_focus {
                            let mut out2 = self.update_bound_channels(Binding::ActiveWindow);
                            proof {
                                piece2 = out2@;
                            }
                            out.append(&mut out2);
                        }
                        let ghost n1 = piece1.len() as int;
                        let ghost n2 = out@.len() as int;
                        let ghost prefix2 = out@;
                        let ghost mut piece3: Seq<ControlOutput> = Seq::empty();
                        let is_default = match self.default_device {
                            Some(s) => s.0 == stream_id.0,
                            None => false,
                        };
                        if is_default {
                            let mut out3 = self.update_bound_channels(Binding::DefaultDevice);
                            proof {
                                piece3 = out3@;
                            }
                            out.append(&mut out3);
                        }
                        proof {
                            assert(prefix2 =~= piece1 + piece2);
                            assert(out@ =~= prefix2 + piece3);
                            assert(out@.subrange(0, n1) =~= piece1);
                            assert(out@.subrange(n1, n2) =~= piece2);
                            assert(out@.subrange(n2, out@.len() as int) =~= piece3);
                            assert(self.spec_binding_state(Binding::Direct(stream_id)) == st);
                            if is_focus {
                                assert(self.window_focus == Option::Some(stream_id));
                                assert(self.spec_binding_state(Binding::ActiveWindow) == st);
                            } else {
                                assert(self.window_focus != Option::Some(stream_id));
                                assert(n1 == n2);
                            }
                            if is_default {
                                assert(self.default_device == Option::Some(stream_id));
                                assert(self.spec_binding_state(Binding::DefaultDevice) == st);
                            } else {
                                assert(self.default_device != Option::Some(stream_id));
                                assert(n2 == out@.len());
                            }
                            lemma_state_changed_pieces(
                                *old(self),
                                *self,
                                stream_id,
                                st,
                                out@,
                                n1,
                                n2,
                            );
                        }
                        Ok(out)
                    },
                }
            },
            AudioEvent::WindowFocusChanged { stream_id } => {
                self.window_focus = stream_id;
                Ok(self.update_bound_channels(Binding::ActiveWindow))
            },
            AudioEvent::DefaultDeviceChanged { stream_id } => {
                self.default_device = stream_id;
                Ok(self.update_bound_channels(Binding::DefaultDevice))
            },
        }
    }

    /// Processes one message from the HID worker to completion and returns
    /// the stream controls and channel updates to send, in order.
    pub fn handle_control_input(&mut self, input: ControlInput) -> (r: (
        Vec<AudioControl>,
        Vec<ControlOutput>,
    ))
        requires
            old(self).wf(),
        ensures
            final(self).wf(),
            match input {
                ControlInput::DeviceAdded(_, _) => *final(self) == *old(self) && r.0@
                    == Seq::<AudioControl>::empty() && r.1@ == Seq::<ControlOutput>::empty(),
                ControlInput::DeviceRemoved(_) => *final(self) == *old(self) && r.0@
                    == Seq::<AudioControl>::empty() && r.1@ == Seq::<ControlOutput>::empty(),
                ControlInput::ChannelInput(device_id, channel_index, channel_input) => {
                    let c = ChannelId(device_id, channel_index);
                    match channel_input {
                        ChannelInput::SetVolume(v) => *final(self) == *old(self) && r.1@
                            == Seq::<ControlOutput>::empty() && dispatched(
                            *old(self),
                            c,
                            StreamControl::SetVolume(v),
                            r.0@,
                        ),
                        ChannelInput::StepVolume(n) => *final(self) == *old(self) && r.1@
                            == Seq::<ControlOutput>::empty() && dispatched(
                            *old(self),
                            c,
                            StreamControl::StepVolume(n),
                            r.0@,
                        ),
                        ChannelInput::SetMuted(m) => *final(self) == *old(self) && r.1@
                            == Seq::<ControlOutput>::empty() && dispatched(
                            *old(self),
                            c,
                            StreamControl::SetMuted(m),
                            r.0@,
                        ),
                        ChannelInput::ToggleMuted => *final(self) == *old(self) && r.1@
                            == Seq::<ControlOutput>::empty() && dispatched(
                            *old(self),
                            c,
                            StreamControl::ToggleMuted,
                            r.0@,
                        ),
                        ChannelInput::OpenMenu => r.0@ == Seq::<AudioControl>::empty()
                            && open_menu_post(*old(self), *final(self), c, r.1@),
                        ChannelInput::CloseMenu => r.0@ == Seq::<AudioControl>::empty()
                            && close_menu_post(*old(self), *final(self), c, r.1@),
                        ChannelInput::MenuNext => r.0@ == Seq::<AudioControl>::empty() && r.1@
                            == Seq::<ControlOutput>::empty() && menu_step_post(
                            *old(self),
                            *final(self),
                            c,
                            true,
                        ),
                        ChannelInput::MenuPrevious => r.0@ == Seq::<AudioControl>::empty() && r.1@
                            == Seq::<ControlOutput>::empty() && menu_step_post(
                            *old(self),
                            *final(self),
                            c,
                            false,
                        ),
                        ChannelInput::MenuSelect => r.0@ == Seq::<AudioControl>::empty()
                            && menu_select_post(*old(self), *final(self), c, r.1@),
                    }
                },
            },
    {
        match input {
            ControlInput::DeviceAdded(device_id, device_info) => (Vec::new(), Vec::new()),
            ControlInput::DeviceRemoved(device_id) => (Vec::new(), Vec::new()),
            ControlInput::ChannelInput(device_id, channel_index, channel_input) => {
                let channel_id = ChannelId(device_id, channel_index);
                match channel_input {
                    ChannelInput::SetVolume(v) => {
                        let out = self.dispatch_stream_control(channel_id, StreamControl::SetVolume(v));
                        (out, Vec::new())
                    },
                    ChannelInput::StepVolume(n) => {
                        let out = self.dispatch_stream_control(channel_id, StreamControl::StepVolume(n));
                        (out, Vec::new())
                    },
                    ChannelInput::SetMuted(m) => {
                        let out = self.dispatch_stream_control(channel_id, StreamControl::SetMuted(m));
                        (out, Vec::new())
                    },
                    ChannelInput::ToggleMuted => {
                        let out = self.dispatch_stream_control(channel_id, StreamControl::ToggleMuted);
                        (out, Vec::new())
                    },
                    ChannelInput::OpenMenu => (Vec::new(), self.open_menu(channel_id)),
                    ChannelInput::CloseMenu => (Vec::new(), self.close_menu(channel_id)),
                    ChannelInput::MenuNext => {
                        self.menu_next(channel_id);
                        (Vec::new(), Vec::new())
                    },
                    ChannelInput::MenuPrevious => {
                        self.menu_previous(channel_id);
                        (Vec::new(), Vec::new())
                    },
                    ChannelInput::MenuSelect => (Vec::new(), self.menu_select(channel_id)),
                }
            },
        }
    }
}

/// Law: the menu highlight never leaves `[0, options - 1]` and an open menu
/// always offers at least the three fixed options — after any clamped step on
/// a well-formed runtime, the menu that is open is still in bounds.
pub proof fn lemma_menu_clamp(rt0: Runtime, rt1: Runtime, c: ChannelId, next: bool)
    requires
        rt0.wf(),
        rt1.wf(),
        menu_step_post(rt0, rt1, c, next),
        rt1.menus@.contains_key(c),
    ensures
        rt1.menus@[c].current_index < rt1.menus@[c].options@.len(),
        rt1.menus@[c].options@.len() >= 3,
{
}

/// Law: a fan-out for the direct binding of stream `s` reaches every channel
/// bound to `s` exactly once, and no channel that is not bound to it.
pub proof fn lemma_binding_update_fanout(
    edges: Set<(ChannelId, Binding)>,
    s: StreamId,
    st: StreamState,
    out: Seq<ControlOutput>,
    c: ChannelId,
)
    requires
        fanout_ok(edges, Binding::Direct(s), st, out),
    ensures
        edges.contains((c, Binding::Direct(s))) ==> exists|k: int|
            0 <= k < out.len() && out[k] == state_output(c, st),
        forall|k1: int, k2: int|
            0 <= k1 < out.len() && 0 <= k2 < out.len() && out[k1] == state_output(c, st)
                && out[k2] == state_output(c, st) ==> k1 == k2,
        !edges.contains((c, Binding::Direct(s))) ==> forall|k: int|
            0 <= k < out.len() ==> out_channel(#[trigger] out[k]) != c,
{
    if edges.contains((c, Binding::Direct(s))) {
        let k = choose|k: int| 0 <= k < out.len() && out_channel(out[k]) == c;
        assert(out[k] == state_output(c, st));
    }
    assert forall|k1: int, k2: int|
        0 <= k1 < out.len() && 0 <= k2 < out.len() && out[k1] == state_output(c, st) && out[k2]
            == state_output(c, st) implies k1 == k2 by {
        assert(out_channel(out[k1]) == c);
        assert(out_channel(out[k2]) == c);
    };
    if !edges.contains((c, Binding::Direct(s))) {
        assert forall|k: int| 0 <= k < out.len() implies out_channel(#[trigger] out[k]) != c by {
            if out_channel(out[k]) == c {
                assert(edges.contains((c, Binding::Direct(s))));
            }
        };
    }
}

/// Law: a closed stream never receives a control — once `s` has left the
/// registry, a channel bound `Direct(s)` evaluates to the default state and
/// a dispatch from any channel addresses no control to `s`.
pub proof fn lemma_dangling_binding(
    rt: Runtime,
    c: ChannelId,
    s: StreamId,
    sc: StreamControl,
    bs: Seq<Binding>,
    out: Seq<AudioControl>,
)
    requires
        dispatch_ok(rt, c, sc, bs, out),
        !rt.streams@.contains_key(s),
    ensures
        rt.spec_binding_state(Binding::Direct(s)) == (StreamState { volume: 0, muted: false }),
        forall|k: int| 0 <= k < out.len() ==> control_stream(#[trigger] out[k]) != s,
{
    assert forall|k: int| 0 <= k < out.len() implies control_stream(#[trigger] out[k]) != s by {
        assert(bs.contains(bs[k]));
        assert(rt.binding_registered(bs[k]));
        match rt.spec_resolve(bs[k]) {
            Option::Some(sid) => {
                assert(out[k] == (AudioControl::StreamControl {
                    stream_id: sid,
                    stream_control: sc,
                }));
                assert(rt.streams@.contains_key(sid));
            },
            Option::None => {},
        }
    };
}

/// Law: reopening a menu replaces the previous one atomically — afterwards
/// the channel's single menu is the fresh one and every other channel's menu
/// is untouched. (That a channel can never hold two menus at once is
/// [`MenuMap::lemma_at_most_one_menu`].)
pub proof fn lemma_menu_reopen_replaces(rt0: Runtime, rt1: Runtime, c: ChannelId, out: Seq<ControlOutput>)
    requires
        open_menu_post(rt0, rt1, c, out),
    ensures
        rt1.menus@.contains_key(c),
        fresh_menu_ok(rt0, rt1.menus@[c]),
        forall|c2: ChannelId|
            c2 != c ==> (#[trigger] rt1.menus@.contains_key(c2) == rt0.menus@.contains_key(c2)
                && (rt0.menus@.contains_key(c2) ==> rt1.menus@[c2] == rt0.menus@[c2])),
{
}

/// The assembled application: the audio backend and the control backend that
/// the surrounding process starts and wires to a fresh [`Runtime`]. The
/// backends are opaque to this crate.
pub struct Core<A, C> {
    pub audio_backend: A,
    pub control_backend: C,
}

impl<A, C> Core<A, C> {
    pub fn new(audio_backend: A, control_backend: C) -> (core: Self)
        ensures
            core.audio_backend == audio_backend,
            core.control_backend == control_backend,
    {
        Self { audio_backend, control_backend }
    }

    /// Hands the two backends back to the process so it can start them and
    /// run the event loop around the runtime.
    pub fn into_parts(self) -> (r: (A, C))
        ensures
            r.0 == self.audio_backend,
            r.1 == self.control_backend,
    {
        (self.audio_backend, self.control_backend)
    }
}

} // verus!
