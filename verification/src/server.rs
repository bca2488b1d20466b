//! The dispatch core of the server loop.
//!
//! The receive loop owns the transport's read side; for every
//! delivered event — a received frame, the completion of a pooled
//! task, a disconnect or a reconnect — it calls [`ServerCore::step`]
//! and performs the returned actions: frames to send, pooled tasks to
//! start, a reboot to carry out. Everything the step decides is
//! pinned by the pure model [`spec_step`]: a malformed frame is
//! dropped and changes nothing, an unknown key follows the configured
//! policy, a pooled request is admitted only while the pool has room,
//! and every reply carries the sequence number of its request.

use vstd::prelude::*;
use vstd::string::StringSliceAdditionalSpecFns;
use crate::key::{spec_key_of, spec_trunc_key, trunc_key};
use crate::codec::{
    encode_led_state, encode_wire_error, spec_encode_led_state, spec_encode_slept_millis,
    spec_encode_wire_error, spec_take_led_state, spec_take_position, spec_take_sleep_millis,
    take_led_state, take_position, take_sleep_millis, LedState, Position, SleptMillis, WireError,
};
use crate::codec::encode_slept_millis;
use crate::frame::{spec_take_frame, take_frame, Frame, FrameV};
use crate::pool::Pool;
use crate::registry::{DescriptorKind, Direction, Registry, RegistryError};
use crate::varint::{push_varint, spec_varint, DecodeError};

verus! {

/// How many pooled sleep requests may be in flight at once.
pub const SLEEP_POOL_SIZE: u32 = 3;

/// What the loop does with a frame whose key names no route.
#[derive(Clone, Copy, Debug, PartialEq, Eq, Structural)]
pub enum UnknownKeyPolicy {
    /// Drop the frame silently, tolerating protocol-version skew.
    Drop,
    /// Answer with a typed "unroutable" error on the error route.
    Reject,
}

/// The device state the handlers read and write.
#[derive(Clone, Copy, Debug, PartialEq, Eq, Structural)]
pub struct Context {
    /// Read-only identity answered by the unique-id endpoint.
    pub unique_id: u64,
    pub led: LedState,
    pub position: Position,
}

/// One event delivered to the dispatch core.
#[derive(Debug)]
pub enum Event {
    /// One whole frame arrived from the transport.
    FrameReceived(Vec<u8>),
    /// A pooled sleep task finished after `millis`, for the request
    /// with sequence number `seq`.
    SleepDone { seq: u32, millis: u16 },
    /// The host went away; outbound traffic is dropped meanwhile.
    Disconnected,
    /// The host is back; serving resumes without a restart.
    Reconnected,
}

/// One action the loop must carry out.
#[derive(Debug)]
pub enum Action {
    /// Hand this frame to the sender.
    Send(Frame),
    /// Start a pooled sleep task for request `seq`.
    StartSleep { seq: u32, millis: u16 },
    /// Reboot the device into its loader.
    Reboot,
}

/// The mathematical content of an [`Event`].
pub enum EventV {
    FrameReceived(Seq<u8>),
    SleepDone { seq: u32, millis: u16 },
    Disconnected,
    Reconnected,
}

/// The mathematical content of an [`Action`].
pub enum ActionV {
    Send(FrameV),
    StartSleep { seq: u32, millis: u16 },
    Reboot,
}

impl View for Event {
    type V = EventV;

    open spec fn view(&self) -> EventV {
        match self {
            Event::FrameReceived(b) => EventV::FrameReceived(b@),
            Event::SleepDone { seq, millis } => EventV::SleepDone { seq: *seq, millis: *millis },
            Event::Disconnected => EventV::Disconnected,
            Event::Reconnected => EventV::Reconnected,
        }
    }
}

impl View for Action {
    type V = ActionV;

    open spec fn view(&self) -> ActionV {
        match self {
            Action::Send(f) => ActionV::Send(f@),
            Action::StartSleep { seq, millis } => ActionV::StartSleep {
                seq: *seq,
                millis: *millis,
            },
            Action::Reboot => ActionV::Reboot,
        }
    }
}

/// The fixed configuration of a core: the route keys as carried on
/// the wire, the key width, the pool size and the unknown-key
/// policy. Built once at startup, never mutated afterwards.
pub struct ConfigV {
    pub key_len: usize,
    pub unique_id_key: u64,
    pub reboot_key: u64,
    pub sleep_key: u64,
    pub set_led_key: u64,
    pub get_led_key: u64,
    pub set_position_key: u64,
    pub error_key: u64,
    pub pool_size: u32,
    pub policy: UnknownKeyPolicy,
}

/// The mutable state of a core.
pub struct CoreV {
    pub context: Context,
    pub in_flight: u32,
    pub connected: bool,
}

/// The dispatch core.
#[derive(Debug)]
pub struct ServerCore {
    /// The table the routes were registered in.
    pub registry: Registry,
    /// Key prefix width the wire carries.
    pub key_len: usize,
    pub unique_id_key: u64,
    pub reboot_key: u64,
    pub sleep_key: u64,
    pub set_led_key: u64,
    pub get_led_key: u64,
    pub set_position_key: u64,
    pub error_key: u64,
    pub log_key: u64,
    pub broadcast_key: u64,
    /// Admission counter of the pooled sleep endpoint.
    pub sleep_pool: Pool,
    pub context: Context,
    pub policy: UnknownKeyPolicy,
    pub connected: bool,
}

impl ServerCore {
    /// The fixed configuration of this core.
    pub open spec fn cfg(self) -> ConfigV {
        ConfigV {
            key_len: self.key_len,
            unique_id_key: self.unique_id_key,
            reboot_key: self.reboot_key,
            sleep_key: self.sleep_key,
            set_led_key: self.set_led_key,
            get_led_key: self.get_led_key,
            set_position_key: self.set_position_key,
            error_key: self.error_key,
            pool_size: self.sleep_pool.size,
            policy: self.policy,
        }
    }

    /// The mutable state of this core.
    pub open spec fn state(self) -> CoreV {
        CoreV {
            context: self.context,
            in_flight: self.sleep_pool.in_flight,
            connected: self.connected,
        }
    }

    /// The key width is supported, the pool respects its bound, and
    /// the dispatchable keys are pairwise distinct and already
    /// reduced to the wire's key width.
    pub open spec fn wf(self) -> bool {
        &&& (self.key_len == 1 || self.key_len == 2 || self.key_len == 4 || self.key_len == 8)
        &&& self.sleep_pool.wf()
        &&& spec_cfg_keys_distinct(self.cfg())
    }
}

/// The full 64-bit keys of the server's routes, in registration
/// order: the six endpoints, then the error, log and broadcast
/// routes.
pub open spec fn spec_server_path_keys() -> Seq<u64> {
    seq![
        spec_key_of("poststation/unique_id/get".spec_bytes()),
        spec_key_of("template/picoboot/reset".spec_bytes()),
        spec_key_of("template/sleep".spec_bytes()),
        spec_key_of("template/led/set".spec_bytes()),
        spec_key_of("template/led/get".spec_bytes()),
        spec_key_of("template/position/set".spec_bytes()),
        spec_key_of("rpc/error".spec_bytes()),
        spec_key_of("rpc/log".spec_bytes()),
        spec_key_of("bc/ctrl_status ".spec_bytes()),
    ]
}

/// No two of the server's route paths hash to the same 64-bit key.
pub open spec fn spec_server_paths_ok() -> bool {
    forall|i: int, j: int|
        0 <= i < spec_server_path_keys().len() && 0 <= j < spec_server_path_keys().len() && i != j
            ==> spec_server_path_keys()[i] != spec_server_path_keys()[j]
}

/// A failed registration of the route at position `i` exhibits an
/// earlier route with the same key.
proof fn lemma_collision_refutes_paths_ok(r: Registry, i: int)
    requires
        0 <= i < spec_server_path_keys().len(),
        r.entries@.len() == i,
        forall|j: int|
            0 <= j < i ==> (#[trigger] r.entries@[j]).key == spec_server_path_keys()[j],
        r.spec_contains_key(spec_server_path_keys()[i]),
    ensures
        !spec_server_paths_ok(),
{
    let j = choose|j: int|
        0 <= j < r.entries@.len() && (#[trigger] r.entries@[j]).key == spec_server_path_keys()[i];
    assert(spec_server_path_keys()[j] == spec_server_path_keys()[i]);
}

/// The six dispatchable keys and the error key differ pairwise.
pub open spec fn spec_cfg_keys_distinct(cfg: ConfigV) -> bool {
    seq![
        cfg.unique_id_key,
        cfg.reboot_key,
        cfg.sleep_key,
        cfg.set_led_key,
        cfg.get_led_key,
        cfg.set_position_key,
        cfg.error_key,
    ].no_duplicates()
}

/// A reply frame on route `key` for request `seq`.
pub open spec fn spec_send(key: u64, seq: u32, payload: Seq<u8>) -> ActionV {
    ActionV::Send(FrameV { key, seq, payload })
}

/// A typed error reply for request `seq` on the error route.
pub open spec fn spec_send_error(cfg: ConfigV, seq: u32, e: WireError) -> ActionV {
    spec_send(cfg.error_key, seq, spec_encode_wire_error(e))
}

/// What one event does to the state, and which actions it causes.
///
/// This is the whole behaviour of the dispatch loop: the executable
/// [`ServerCore::step`] returns exactly this state and this action
/// sequence.
pub open spec fn spec_step(cfg: ConfigV, st: CoreV, e: EventV) -> (CoreV, Seq<ActionV>) {
    match e {
        EventV::Disconnected => (CoreV { connected: false, ..st }, Seq::empty()),
        EventV::Reconnected => (CoreV { connected: true, ..st }, Seq::empty()),
        EventV::SleepDone { seq, millis } => {
            if st.in_flight > 0 {
                (
                    CoreV { in_flight: (st.in_flight - 1) as u32, ..st },
                    seq![
                        spec_send(
                            cfg.sleep_key,
                            seq,
                            spec_encode_slept_millis(SleptMillis { millis }),
                        ),
                    ],
                )
            } else {
                (st, Seq::empty())
            }
        },
        EventV::FrameReceived(bytes) => match spec_take_frame(bytes, cfg.key_len as nat) {
            Err(_) => (st, Seq::empty()),
            Ok(f) => spec_dispatch(cfg, st, f),
        },
    }
}

/// Routing of one well-formed frame by its key.
pub open spec fn spec_dispatch(cfg: ConfigV, st: CoreV, f: FrameV) -> (CoreV, Seq<ActionV>) {
    if f.key == cfg.unique_id_key {
        (st, seq![spec_send(cfg.unique_id_key, f.seq, spec_varint(st.context.unique_id as nat))])
    } else if f.key == cfg.reboot_key {
        (st, seq![ActionV::Reboot])
    } else if f.key == cfg.sleep_key {
        match spec_take_sleep_millis(f.payload) {
            Err(_) => (st, seq![spec_send_error(cfg, f.seq, WireError::Malformed)]),
            Ok((m, _)) => {
                if st.in_flight < cfg.pool_size {
                    (
                        CoreV { in_flight: (st.in_flight + 1) as u32, ..st },
                        seq![ActionV::StartSleep { seq: f.seq, millis: m.millis }],
                    )
                } else {
                    (st, seq![spec_send_error(cfg, f.seq, WireError::Busy)])
                }
            },
        }
    } else if f.key == cfg.set_led_key {
        match spec_take_led_state(f.payload) {
            Err(_) => (st, seq![spec_send_error(cfg, f.seq, WireError::Malformed)]),
            Ok((l, _)) => (
                CoreV { context: Context { led: l, ..st.context }, ..st },
                seq![spec_send(cfg.set_led_key, f.seq, Seq::empty())],
            ),
        }
    } else if f.key == cfg.get_led_key {
        (st, seq![spec_send(cfg.get_led_key, f.seq, spec_encode_led_state(st.context.led))])
    } else if f.key == cfg.set_position_key {
        match spec_take_position(f.payload) {
            Err(_) => (st, seq![spec_send_error(cfg, f.seq, WireError::Malformed)]),
            Ok((p, _)) => (
                CoreV { context: Context { position: p, ..st.context }, ..st },
                seq![spec_send(cfg.set_position_key, f.seq, Seq::empty())],
            ),
        }
    } else {
        match cfg.policy {
            UnknownKeyPolicy::Drop => (st, Seq::empty()),
            UnknownKeyPolicy::Reject => (
                st,
                seq![spec_send_error(cfg, f.seq, WireError::Unroutable)],
            ),
        }
    }
}

impl ServerCore {
    /// Applies one event. The new state and the returned actions are
    /// exactly those of [`spec_step`]; the configuration never
    /// changes.
    pub fn step(&mut self, event: Event) -> (actions: Vec<Action>)
        requires
            old(self).wf(),
        ensures
            final(self).wf(),
            final(self).cfg() == old(self).cfg(),
            final(self).registry == old(self).registry,
            final(self).log_key == old(self).log_key,
            final(self).broadcast_key == old(self).broadcast_key,
            final(self).state() == spec_step(old(self).cfg(), old(self).state(), event@).0,
            actions@.map_values(|a: Action| a@) == spec_step(
                old(self).cfg(),
                old(self).state(),
                event@,
            ).1,
    {
        let mut actions: Vec<Action> = Vec::new();
        match event {
            Event::Disconnected => {
                self.connected = false;
                proof {
                    assert(actions@.map_values(|a: Action| a@) =~= Seq::<ActionV>::empty());
                }
            },
            Event::Reconnected => {
                self.connected = true;
                proof {
                    assert(actions@.map_values(|a: Action| a@) =~= Seq::<ActionV>::empty());
                }
            },
            Event::SleepDone { seq, millis } => {
                if self.sleep_pool.in_flight > 0 {
                    self.sleep_pool.release();
                    let payload = encode_slept_millis(&SleptMillis { millis });
                    actions.push(Action::Send(Frame { key: self.sleep_key, seq, payload }));
                    proof {
                        assert(actions@.map_values(|a: Action| a@) =~= seq![
                            spec_send(
                                self.sleep_key,
                                seq,
                                spec_encode_slept_millis(SleptMillis { millis }),
                            ),
                        ]);
                    }
                } else {
                    proof {
                        assert(actions@.map_values(|a: Action| a@) =~= Seq::<ActionV>::empty());
                    }
                }
            },
            Event::FrameReceived(bytes) => {
                match take_frame(bytes.as_slice(), self.key_len) {
                    Err(_) => {
                        proof {
                            assert(actions@.map_values(|a: Action| a@) =~= Seq::<
                                ActionV,
                            >::empty());
                        }
                    },
                    Ok(f) => {
                        let a = self.dispatch(f);
                        return a;
                    },
                }
            },
        }
        actions
    }

    /// Routes one well-formed frame; mirrors [`spec_dispatch`].
    fn dispatch(&mut self, f: Frame) -> (actions: Vec<Action>)
        requires
            old(self).wf(),
        ensures
            final(self).wf(),
            final(self).cfg() == old(self).cfg(),
            final(self).registry == old(self).registry,
            final(self).log_key == old(self).log_key,
            final(self).broadcast_key == old(self).broadcast_key,
            final(self).state() == spec_dispatch(old(self).cfg(), old(self).state(), f@).0,
            actions@.map_values(|a: Action| a@) == spec_dispatch(
                old(self).cfg(),
                old(self).state(),
                f@,
            ).1,
    {
        let mut actions: Vec<Action> = Vec::new();
        if f.key == self.unique_id_key {
            let mut payload: Vec<u8> = Vec::new();
            push_varint(&mut payload, self.context.unique_id);
            proof {
                assert(payload@ =~= spec_varint(self.context.unique_id as nat));
            }
            actions.push(Action::Send(Frame { key: self.unique_id_key, seq: f.seq, payload }));
            proof {
                assert(actions@.map_values(|a: Action| a@) =~= seq![
                    spec_send(
                        self.unique_id_key,
                        f@.seq,
                        spec_varint(self.context.unique_id as nat),
                    ),
                ]);
            }
        } else if f.key == self.reboot_key {
            actions.push(Action::Reboot);
            proof {
                assert(actions@.map_values(|a: Action| a@) =~= seq![ActionV::Reboot]);
            }
        } else if f.key == self.sleep_key {
            match take_sleep_millis(f.payload.as_slice(), 0) {
                Err(_) => {
                    proof {
                        assert(f.payload@.skip(0) =~= f.payload@);
                    }
                    self.push_error(&mut actions, f.seq, WireError::Malformed);
                },
                Ok((m, _)) => {
                    proof {
                        assert(f.payload@.skip(0) =~= f.payload@);
                    }
                    if self.sleep_pool.try_admit() {
                        actions.push(Action::StartSleep { seq: f.seq, millis: m.millis });
                        proof {
                            assert(actions@.map_values(|a: Action| a@) =~= seq![
                                ActionV::StartSleep { seq: f@.seq, millis: m.millis },
                            ]);
                        }
                    } else {
                        self.push_error(&mut actions, f.seq, WireError::Busy);
                    }
                },
            }
        } else if f.key == self.set_led_key {
            match take_led_state(f.payload.as_slice(), 0) {
                Err(_) => {
                    proof {
                        assert(f.payload@.skip(0) =~= f.payload@);
                    }
                    self.push_error(&mut actions, f.seq, WireError::Malformed);
                },
                Ok((l, _)) => {
                    proof {
                        assert(f.payload@.skip(0) =~= f.payload@);
                    }
                    self.context.led = l;
                    actions.push(
                        Action::Send(Frame { key: self.set_led_key, seq: f.seq, payload: Vec::new() }),
                    );
                    proof {
                        assert(actions@.map_values(|a: Action| a@) =~= seq![
                            spec_send(self.set_led_key, f@.seq, Seq::<u8>::empty()),
                        ]);
                    }
                },
            }
        } else if f.key == self.get_led_key {
            let payload = encode_led_state(&self.context.led);
            actions.push(Action::Send(Frame { key: self.get_led_key, seq: f.seq, payload }));
            proof {
                assert(actions@.map_values(|a: Action| a@) =~= seq![
                    spec_send(self.get_led_key, f@.seq, spec_encode_led_state(self.context.led)),
                ]);
            }
        } else if f.key == self.set_position_key {
            match take_position(f.payload.as_slice(), 0) {
                Err(_) => {
                    proof {
                        assert(f.payload@.skip(0) =~= f.payload@);
                    }
                    self.push_error(&mut actions, f.seq, WireError::Malformed);
                },
                Ok((p, _)) => {
                    proof {
                        assert(f.payload@.skip(0) =~= f.payload@);
                    }
                    self.context.position = p;
                    actions.push(
                        Action::Send(
                            Frame { key: self.set_position_key, seq: f.seq, payload: Vec::new() },
                        ),
                    );
                    proof {
                        assert(actions@.map_values(|a: Action| a@) =~= seq![
                            spec_send(self.set_position_key, f@.seq, Seq::<u8>::empty()),
                        ]);
                    }
                },
            }
        } else {
            match self.policy {
                UnknownKeyPolicy::Drop => {
                    proof {
                        assert(actions@.map_values(|a: Action| a@) =~= Seq::<ActionV>::empty());
                    }
                },
                UnknownKeyPolicy::Reject => {
                    self.push_error(&mut actions, f.seq, WireError::Unroutable);
                },
            }
        }
        actions
    }

    /// Builds the core: registers every route, failing fast on a key
    /// collision, then negotiates the shortest unambiguous key
    /// width. Succeeds exactly when no two route paths hash to the
    /// same 64-bit key.
    pub fn new(unique_id: u64, policy: UnknownKeyPolicy) -> (r: Result<ServerCore, RegistryError>)
        ensures
            match r {
                Ok(s) => {
                    &&& spec_server_paths_ok()
                    &&& s.wf()
                    &&& s.registry.wf()
                    &&& s.registry.entries@.len() == 9
                    &&& s.context == (Context {
                        unique_id,
                        led: LedState::Off,
                        position: Position { x: 0, y: 0 },
                    })
                    &&& s.sleep_pool == (Pool { size: SLEEP_POOL_SIZE, in_flight: 0 })
                    &&& s.policy == policy
                    &&& s.connected
                },
                Err(e) => {
                    &&& e == RegistryError::KeyCollision
                    &&& !spec_server_paths_ok()
                },
            },
    {
        let ghost pk = spec_server_path_keys();
        let mut registry = Registry::new();
        let k0 = match registry.register("poststation/unique_id/get", DescriptorKind::Endpoint) {
            Ok(k) => k,
            Err(e) => {
                proof {
                    // Nothing is registered yet, so no key can
                    // collide with an earlier one.
                    assert(false);
                }
                return Err(e);
            },
        };
        assert(registry.entries@[0].key == pk[0]);
        let k1 = match registry.register("template/picoboot/reset", DescriptorKind::Endpoint) {
            Ok(k) => k,
            Err(e) => {
                proof {
                    lemma_collision_refutes_paths_ok(registry, 1);
                }
                return Err(e);
            },
        };
        assert(registry.entries@[1].key == pk[1]);
        let k2 = match registry.register("template/sleep", DescriptorKind::Endpoint) {
            Ok(k) => k,
            Err(e) => {
                proof {
                    lemma_collision_refutes_paths_ok(registry, 2);
                }
                return Err(e);
            },
        };
        assert(registry.entries@[2].key == pk[2]);
        let k3 = match registry.register("template/led/set", DescriptorKind::Endpoint) {
            Ok(k) => k,
            Err(e) => {
                proof {
                    lemma_collision_refutes_paths_ok(registry, 3);
                }
                return Err(e);
            },
        };
        assert(registry.entries@[3].key == pk[3]);
        let k4 = match registry.register("template/led/get", DescriptorKind::Endpoint) {
            Ok(k) => k,
            Err(e) => {
                proof {
                    lemma_collision_refutes_paths_ok(registry, 4);
                }
                return Err(e);
            },
        };
        assert(registry.entries@[4].key == pk[4]);
        let k5 = match registry.register("template/position/set", DescriptorKind::Endpoint) {
            Ok(k) => k,
            Err(e) => {
                proof {
                    lemma_collision_refutes_paths_ok(registry, 5);
                }
                return Err(e);
            },
        };
        assert(registry.entries@[5].key == pk[5]);
        let k6 = match registry.register("rpc/error", DescriptorKind::Topic(Direction::ToClient)) {
            Ok(k) => k,
            Err(e) => {
                proof {
                    lemma_collision_refutes_paths_ok(registry, 6);
                }
                return Err(e);
            },
        };
        assert(registry.entries@[6].key == pk[6]);
        let k7 = match registry.register("rpc/log", DescriptorKind::Topic(Direction::ToClient)) {
            Ok(k) => k,
            Err(e) => {
                proof {
                    lemma_collision_refutes_paths_ok(registry, 7);
                }
                return Err(e);
            },
        };
        assert(registry.entries@[7].key == pk[7]);
        let k8 = match registry.register(
            "bc/ctrl_status ",
            DescriptorKind::Topic(Direction::ToClient),
        ) {
            Ok(k) => k,
            Err(e) => {
                proof {
                    lemma_collision_refutes_paths_ok(registry, 8);
                }
                return Err(e);
            },
        };
        assert(registry.entries@[8].key == pk[8]);
        let key_len = registry.min_key_len();
        let core = ServerCore {
            registry,
            key_len,
            unique_id_key: trunc_key(k0, key_len),
            reboot_key: trunc_key(k1, key_len),
            sleep_key: trunc_key(k2, key_len),
            set_led_key: trunc_key(k3, key_len),
            get_led_key: trunc_key(k4, key_len),
            set_position_key: trunc_key(k5, key_len),
            error_key: trunc_key(k6, key_len),
            log_key: trunc_key(k7, key_len),
            broadcast_key: trunc_key(k8, key_len),
            sleep_pool: Pool::new(SLEEP_POOL_SIZE),
            context: Context { unique_id, led: LedState::Off, position: Position { x: 0, y: 0 } },
            policy,
            connected: true,
        };
        proof {
            let entries = core.registry.entries@;
            assert forall|i: int, j: int| 0 <= i < pk.len() && 0 <= j < pk.len() && i != j implies
                pk[i] != pk[j] by {
                assert(entries[i].key == pk[i]);
                assert(entries[j].key == pk[j]);
                if i < j {
                    assert(entries[i].key != entries[j].key);
                } else {
                    assert(entries[j].key != entries[i].key);
                }
            }
            let ck = seq![
                core.unique_id_key,
                core.reboot_key,
                core.sleep_key,
                core.set_led_key,
                core.get_led_key,
                core.set_position_key,
                core.error_key,
            ];
            assert forall|a: int, b: int| 0 <= a < 7 && 0 <= b < 7 && a != b implies ck[a]
                != ck[b] by {
                assert(ck[a] == spec_trunc_key(entries[a].key, key_len));
                assert(ck[b] == spec_trunc_key(entries[b].key, key_len));
                if a < b {
                    assert(spec_trunc_key(entries[a].key, key_len) != spec_trunc_key(
                        entries[b].key,
                        key_len,
                    ));
                } else {
                    assert(spec_trunc_key(entries[b].key, key_len) != spec_trunc_key(
                        entries[a].key,
                        key_len,
                    ));
                }
            }
            assert(ck.no_duplicates());
            assert(spec_cfg_keys_distinct(core.cfg()));
        }
        Ok(core)
    }

    /// Appends the typed error reply for request `seq` to `actions`.
    fn push_error(&self, actions: &mut Vec<Action>, seq: u32, e: WireError)
        ensures
            final(actions)@.map_values(|a: Action| a@) == old(actions)@.map_values(
                |a: Action| a@,
            ).push(spec_send_error(self.cfg(), seq, e)),
    {
        let payload = encode_wire_error(&e);
        actions.push(Action::Send(Frame { key: self.error_key, seq, payload }));
        proof {
            assert(actions@.map_values(|a: Action| a@) =~= old(actions)@.map_values(
                |a: Action| a@,
            ).push(spec_send_error(self.cfg(), seq, e)));
        }
    }
}

// ---------------------------------------------------------------
// Laws of the dispatch loop.
// ---------------------------------------------------------------

/// The event is a received frame whose envelope does not decode.
pub open spec fn spec_malformed_event(cfg: ConfigV, e: EventV) -> bool {
    match e {
        EventV::FrameReceived(b) => spec_take_frame(b, cfg.key_len as nat) is Err,
        _ => false,
    }
}

/// The state left after delivering `events` in order, starting from
/// `st`.
pub open spec fn spec_run(cfg: ConfigV, st: CoreV, events: Seq<EventV>) -> CoreV
    decreases events.len(),
{
    if events.len() == 0 {
        st
    } else {
        spec_run(cfg, spec_step(cfg, st, events[0]).0, events.skip(1))
    }
}

/// A malformed frame is inert: the loop drops it, resynchronizes,
/// changes no state and emits nothing.
pub proof fn lemma_malformed_is_inert(cfg: ConfigV, st: CoreV, e: EventV)
    requires
        spec_malformed_event(cfg, e),
    ensures
        spec_step(cfg, st, e).0 == st,
        spec_step(cfg, st, e).1 == Seq::<ActionV>::empty(),
{
}

/// Reply correlation: whatever route a well-formed frame hits, and
/// whatever the state, every frame sent in response — the reply, or
/// the typed busy, malformed or unroutable error — carries the
/// request's sequence number; so does the pooled task it starts.
pub proof fn lemma_reply_correlation(
    cfg: ConfigV,
    st: CoreV,
    bytes: Seq<u8>,
    f: FrameV,
    a: ActionV,
)
    requires
        spec_take_frame(bytes, cfg.key_len as nat) == Ok::<FrameV, DecodeError>(f),
        spec_step(cfg, st, EventV::FrameReceived(bytes)).1.contains(a),
    ensures
        a matches ActionV::Send(reply) ==> reply.seq == f.seq,
        a matches ActionV::StartSleep { seq, .. } ==> seq == f.seq,
{
    let out = spec_step(cfg, st, EventV::FrameReceived(bytes)).1;
    let i = choose|i: int| 0 <= i < out.len() && out[i] == a;
    assert(out[i] == a);
}

/// The reply of a completed pooled task carries the sequence number
/// of the request that started it, however many other requests ran
/// meanwhile.
pub proof fn lemma_pooled_reply_correlation(
    cfg: ConfigV,
    st: CoreV,
    seq: u32,
    millis: u16,
    a: ActionV,
)
    requires
        spec_step(cfg, st, EventV::SleepDone { seq, millis }).1.contains(a),
    ensures
        a matches ActionV::Send(reply) ==> reply.seq == seq && reply.key == cfg.sleep_key,
{
    let out = spec_step(cfg, st, EventV::SleepDone { seq, millis }).1;
    let i = choose|i: int| 0 <= i < out.len() && out[i] == a;
    assert(out[i] == a);
}

/// Liveness under malformed input: after any number of malformed
/// frames, the state is what it was, and a well-formed request still
/// receives exactly the response it would have received — each sent
/// frame correlated to it by sequence number.
pub proof fn lemma_liveness_under_malformed(
    cfg: ConfigV,
    st: CoreV,
    junk: Seq<EventV>,
    bytes: Seq<u8>,
    f: FrameV,
)
    requires
        forall|i: int| 0 <= i < junk.len() ==> spec_malformed_event(cfg, #[trigger] junk[i]),
        spec_take_frame(bytes, cfg.key_len as nat) == Ok::<FrameV, DecodeError>(f),
    ensures
        spec_run(cfg, st, junk) == st,
        spec_step(cfg, spec_run(cfg, st, junk), EventV::FrameReceived(bytes)) == spec_step(
            cfg,
            st,
            EventV::FrameReceived(bytes),
        ),
        forall|a: ActionV|
            spec_step(cfg, st, EventV::FrameReceived(bytes)).1.contains(a) ==> (
            a matches ActionV::Send(reply) ==> reply.seq == f.seq),
    decreases junk.len(),
{
    if junk.len() > 0 {
        lemma_malformed_is_inert(cfg, st, junk[0]);
        assert forall|i: int| 0 <= i < junk.skip(1).len() implies spec_malformed_event(
            cfg,
            #[trigger] junk.skip(1)[i],
        ) by {
            assert(junk.skip(1)[i] == junk[i + 1]);
        }
        lemma_liveness_under_malformed(cfg, st, junk.skip(1), bytes, f);
    }
    assert forall|a: ActionV|
        spec_step(cfg, st, EventV::FrameReceived(bytes)).1.contains(a) implies (
    a matches ActionV::Send(reply) ==> reply.seq == f.seq) by {
        lemma_reply_correlation(cfg, st, bytes, f, a);
    }
}

/// Admission bound, refusal side: a well-formed sleep request that
/// finds the pool exhausted changes nothing and is answered with
/// exactly the typed busy reply, correlated to the request.
pub proof fn lemma_pool_exhaustion_is_rejected(cfg: ConfigV, st: CoreV, f: FrameV)
    requires
        spec_cfg_keys_distinct(cfg),
        f.key == cfg.sleep_key,
        spec_take_sleep_millis(f.payload) is Ok,
        st.in_flight >= cfg.pool_size,
    ensures
        spec_dispatch(cfg, st, f).0 == st,
        spec_dispatch(cfg, st, f).1 == seq![spec_send_error(cfg, f.seq, WireError::Busy)],
{
    let ck = seq![
        cfg.unique_id_key,
        cfg.reboot_key,
        cfg.sleep_key,
        cfg.set_led_key,
        cfg.get_led_key,
        cfg.set_position_key,
        cfg.error_key,
    ];
    assert(ck[2] != ck[0] && ck[2] != ck[1]);
}

/// Admission bound, admission side: while fewer than `pool_size`
/// instances are in flight, a well-formed sleep request is admitted,
/// takes exactly one slot, and starts the task under the request's
/// sequence number.
pub proof fn lemma_pool_admission(cfg: ConfigV, st: CoreV, f: FrameV)
    requires
        spec_cfg_keys_distinct(cfg),
        f.key == cfg.sleep_key,
        spec_take_sleep_millis(f.payload) is Ok,
        st.in_flight < cfg.pool_size,
    ensures
        spec_dispatch(cfg, st, f).0.in_flight == st.in_flight + 1,
        spec_dispatch(cfg, st, f).0.context == st.context,
        spec_take_sleep_millis(f.payload) matches Ok((m, n)) ==> spec_dispatch(cfg, st, f).1
            == seq![ActionV::StartSleep { seq: f.seq, millis: m.millis }],
{
    let ck = seq![
        cfg.unique_id_key,
        cfg.reboot_key,
        cfg.sleep_key,
        cfg.set_led_key,
        cfg.get_led_key,
        cfg.set_position_key,
        cfg.error_key,
    ];
    assert(ck[2] != ck[0] && ck[2] != ck[1]);
}

/// Serving one endpoint leaves every other endpoint's state alone:
/// a set-position request moves the position and nothing else.
pub proof fn lemma_set_position_isolated(cfg: ConfigV, st: CoreV, f: FrameV)
    requires
        spec_cfg_keys_distinct(cfg),
        f.key == cfg.set_position_key,
    ensures
        spec_dispatch(cfg, st, f).0.context.led == st.context.led,
        spec_dispatch(cfg, st, f).0.context.unique_id == st.context.unique_id,
        spec_dispatch(cfg, st, f).0.in_flight == st.in_flight,
        spec_dispatch(cfg, st, f).0.connected == st.connected,
        spec_take_position(f.payload) matches Ok((p, n)) ==> spec_dispatch(
            cfg,
            st,
            f,
        ).0.context.position == p,
{
    let ck = seq![
        cfg.unique_id_key,
        cfg.reboot_key,
        cfg.sleep_key,
        cfg.set_led_key,
        cfg.get_led_key,
        cfg.set_position_key,
        cfg.error_key,
    ];
    assert(ck[5] != ck[0] && ck[5] != ck[1] && ck[5] != ck[2] && ck[5] != ck[3] && ck[5]
        != ck[4]);
}

} // verus!
