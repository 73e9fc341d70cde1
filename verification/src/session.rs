//! The session driver: one connection, its handler registry and its one-shot
//! tasks, advanced as a single cooperative state machine.
//!
//! The session never blocks and never touches a socket. Whoever drives it
//! feeds socket bytes into its connection and calls `progress` once per
//! wake-up; `progress` first polls every handler (running task preludes and
//! delivering task results), then parses and dispatches at most one inbound
//! frame — one per call, so a burst of frames cannot starve the handlers —
//! and finally reports what resolved and whether the session is finished.

use vstd::prelude::*;

use crate::connection::{Connection, FrameStep};
use crate::crypto::CipherMode;
use crate::error::ProtocolError;
use crate::handler::{
    HandlerPoll, PacketHandlerRegistry, SessionHandler, TaskHandler,
};
use crate::packets::{Packet, ResourceLoaderInitializeEncryption};

verus! {

/// Marks a type as attachable per-session state. The core never names the
/// states higher layers attach; they only travel with the session.
pub trait SessionComponent {

}

/// One piece of per-session state a higher layer attaches: the session keeps
/// at most one of each kind and never looks inside.
pub enum Component {
    Captcha(crate::captcha::CaptchaProvider),
    Resources(crate::client_resources::ClientResources),
    Settings(crate::client_components::SettingsDialog),
    BattleList(crate::client_components::ClientBattleList),
    BattleCreate(crate::client_components::ClientBattleCreate),
    LoginKickoff(crate::client_components::LoginKickoff),
}

/// The kind a component is stored under.
#[derive(Debug, Clone, Copy, PartialEq, Eq, Structural)]
pub enum ComponentKind {
    Captcha,
    Resources,
    Settings,
    BattleList,
    BattleCreate,
    LoginKickoff,
}

/// The kind of a component.
pub open spec fn component_kind(c: Component) -> ComponentKind {
    match c {
        Component::Captcha(_) => ComponentKind::Captcha,
        Component::Resources(_) => ComponentKind::Resources,
        Component::Settings(_) => ComponentKind::Settings,
        Component::BattleList(_) => ComponentKind::BattleList,
        Component::BattleCreate(_) => ComponentKind::BattleCreate,
        Component::LoginKickoff(_) => ComponentKind::LoginKickoff,
    }
}

/// The kinds stored in a component list, in order.
pub open spec fn component_kinds(cs: Seq<Component>) -> Seq<ComponentKind> {
    Seq::new(cs.len(), |i: int| component_kind(cs[i]))
}

/// A component list without every entry of one kind, keeping the rest in
/// order.
pub open spec fn remove_kind(cs: Seq<Component>, kind: ComponentKind) -> Seq<Component>
    decreases cs.len(),
{
    if cs.len() == 0 {
        cs
    } else {
        let rest = remove_kind(cs.drop_last(), kind);
        if component_kind(cs.last()) == kind {
            rest
        } else {
            rest.push(cs.last())
        }
    }
}

/// Where a session stands in its life.
#[derive(Debug, Clone, Copy, PartialEq, Eq, Structural)]
pub enum SessionState {
    /// Exchanging frames.
    Open,
    /// Closing: new sends are refused silently, pending writes still drain;
    /// the session finishes once the write buffer is empty.
    ClosingFlush,
    /// Terminally closed.
    Disconnected,
}

/// What one progress step produced.
pub struct ProgressOutcome {
    /// Tasks that resolved, each with the packet its matcher captured.
    pub resolved: Vec<(u32, Packet)>,
    /// Tasks that can no longer resolve because the session ended.
    pub failed: Vec<u32>,
    /// One inbound packet was dispatched this step; call again soon.
    pub dispatched: bool,
    /// The session is finished; polling further changes nothing.
    pub done: bool,
    /// The protocol error that ended the session, surfaced exactly on the
    /// step that hit it; `None` on every other step.
    pub error: Option<ProtocolError>,
}

/// The ids of every task handler in a list, in order.
pub open spec fn task_ids(hs: Seq<(u32, SessionHandler)>) -> Seq<u32>
    decreases hs.len(),
{
    if hs.len() == 0 {
        Seq::<u32>::empty()
    } else {
        let rest = task_ids(hs.drop_last());
        if hs.last().1 is Task {
            rest.push(hs.last().0)
        } else {
            rest
        }
    }
}

/// A task is dropped without resolving when its future was cancelled,
/// either on the handler itself or through the session's cancellation list.
pub open spec fn task_cancelled(id: u32, t: crate::handler::TaskHandler, cancelled: Seq<
    u32,
>) -> bool {
    t.cancelled || cancelled.contains(id)
}

/// The tasks one handler poll resolves, in order: every task whose matcher
/// has captured a packet and whose future still waits for it, each paired
/// with the captured packet's model.
pub open spec fn resolved_entries(
    hs: Seq<(u32, SessionHandler)>,
    cancelled: Seq<u32>,
) -> Seq<(u32, crate::packets::PacketModel)>
    decreases hs.len(),
{
    if hs.len() == 0 {
        Seq::<(u32, crate::packets::PacketModel)>::empty()
    } else {
        let rest = resolved_entries(hs.drop_last(), cancelled);
        match hs.last().1 {
            SessionHandler::Task(t) => match t.result {
                Some(q) => if task_cancelled(hs.last().0, t, cancelled) {
                    rest
                } else {
                    rest.push((hs.last().0, q.model()))
                },
                None => rest,
            },
            _ => rest,
        }
    }
}

/// The models of a resolution list, in order.
pub open spec fn resolved_view(s: Seq<(u32, Packet)>) -> Seq<(u32, crate::packets::PacketModel)> {
    Seq::new(s.len(), |i: int| (s[i].0, s[i].1.model()))
}

/// Whether one handler poll keeps a handler registered: every plain handler
/// stays; a task stays only while its future still waits and its matcher has
/// not captured a packet.
pub open spec fn poll_keeps(id: u32, h: SessionHandler, cancelled: Seq<u32>) -> bool {
    match h {
        SessionHandler::Task(t) => !task_cancelled(id, t, cancelled) && t.result is None,
        _ => true,
    }
}

/// The ids of the tasks one poll keeps waiting — the tasks that fail when
/// the session ends instead of resolving.
pub open spec fn polled_task_ids(hs: Seq<(u32, SessionHandler)>, cancelled: Seq<u32>) -> Seq<u32>
    decreases hs.len(),
{
    if hs.len() == 0 {
        Seq::<u32>::empty()
    } else {
        let rest = polled_task_ids(hs.drop_last(), cancelled);
        if hs.last().1 is Task && poll_keeps(hs.last().0, hs.last().1, cancelled) {
            rest.push(hs.last().0)
        } else {
            rest
        }
    }
}

/// The handler list as models, in order.
pub open spec fn handler_models(hs: Seq<(u32, SessionHandler)>) -> Seq<
    (u32, crate::handler::HandlerModel),
> {
    Seq::new(hs.len(), |i: int| (hs[i].0, crate::handler::handler_model(hs[i].1)))
}

/// The handlers one poll keeps, each with its poll transition applied: the
/// executor is marked run, everything else is carried over.
pub open spec fn polled_models(hs: Seq<(u32, SessionHandler)>, cancelled: Seq<u32>) -> Seq<
    (u32, crate::handler::HandlerModel),
>
    decreases hs.len(),
{
    if hs.len() == 0 {
        Seq::<(u32, crate::handler::HandlerModel)>::empty()
    } else {
        let rest = polled_models(hs.drop_last(), cancelled);
        if poll_keeps(hs.last().0, hs.last().1, cancelled) {
            match hs.last().1 {
                SessionHandler::Task(t) => rest.push(
                    (
                        hs.last().0,
                        crate::handler::HandlerModel::Task {
                            prelude: crate::handler::packet_option_model(t.prelude),
                            executor_ran: true,
                            match_packet_id: t.match_packet_id,
                            result: None,
                            cancelled: false,
                        },
                    ),
                ),
                _ => rest.push((hs.last().0, crate::handler::handler_model(hs.last().1))),
            }
        } else {
            rest
        }
    }
}

/// The preludes one handler poll sends, in order: every task whose future
/// still waits and whose executor has not yet run contributes its prelude.
pub open spec fn prelude_sends(hs: Seq<(u32, SessionHandler)>, cancelled: Seq<u32>) -> Seq<
    crate::packets::PacketModel,
>
    decreases hs.len(),
{
    if hs.len() == 0 {
        Seq::<crate::packets::PacketModel>::empty()
    } else {
        let rest = prelude_sends(hs.drop_last(), cancelled);
        match hs.last().1 {
            SessionHandler::Task(t) => if !task_cancelled(hs.last().0, t, cancelled)
                && !t.executor_ran {
                match t.prelude {
                    Some(p) => rest.push(p.model()),
                    None => rest,
                }
            } else {
                rest
            },
            _ => rest,
        }
    }
}

/// The handlers one poll keeps, as values: the executor marked run,
/// everything else carried over.
pub open spec fn polled_handlers(hs: Seq<(u32, SessionHandler)>, cancelled: Seq<u32>) -> Seq<
    (u32, SessionHandler),
>
    decreases hs.len(),
{
    if hs.len() == 0 {
        Seq::<(u32, SessionHandler)>::empty()
    } else {
        let rest = polled_handlers(hs.drop_last(), cancelled);
        if poll_keeps(hs.last().0, hs.last().1, cancelled) {
            match hs.last().1 {
                SessionHandler::Task(t) => rest.push(
                    (
                        hs.last().0,
                        SessionHandler::Task(
                            crate::handler::TaskHandler {
                                prelude: t.prelude,
                                executor_ran: true,
                                match_packet_id: t.match_packet_id,
                                result: t.result,
                                cancelled: t.cancelled,
                            },
                        ),
                    ),
                ),
                _ => rest.push(hs.last()),
            }
        } else {
            rest
        }
    }
}

/// The reply packets dispatching one packet makes a handler list send,
/// flattened in handler order.
pub open spec fn dispatch_sends(
    hs: Seq<(u32, SessionHandler)>,
    p: crate::packets::PacketModel,
    now: i32,
) -> Seq<crate::packets::PacketModel>
    decreases hs.len(),
{
    if hs.len() == 0 {
        Seq::<crate::packets::PacketModel>::empty()
    } else {
        dispatch_sends(hs.drop_last(), p, now) + crate::handler::observe_sends(
            hs.last().1,
            p,
            now,
        )
    }
}

/// Each handler of a list advanced by observing one packet.
pub open spec fn observed_models(
    ms: Seq<(u32, crate::handler::HandlerModel)>,
    p: crate::packets::PacketModel,
) -> Seq<(u32, crate::handler::HandlerModel)> {
    Seq::new(ms.len(), |i: int| (ms[i].0, crate::handler::observe_model(ms[i].1, p)))
}

/// A handler list without its task handlers.
pub open spec fn non_tasks(hs: Seq<(u32, SessionHandler)>) -> Seq<(u32, SessionHandler)>
    decreases hs.len(),
{
    if hs.len() == 0 {
        hs
    } else {
        let rest = non_tasks(hs.drop_last());
        if hs.last().1 is Task {
            rest
        } else {
            rest.push(hs.last())
        }
    }
}

/// A session: a connection plus handler, task and timer state, driven as one
/// cooperative future by the caller.
pub struct Session {
    /// The framed, ciphered connection this session drives.
    pub connection: Connection,
    packet_handler: PacketHandlerRegistry,
    state: SessionState,
    language_code: String,
    start_millis: u64,
    cancelled: Vec<u32>,
    components: Vec<Component>,
}

impl Session {
    /// The connection, as contracts see it.
    pub closed spec fn spec_connection(&self) -> Connection {
        self.connection
    }

    /// Where the session stands in its life.
    pub closed spec fn spec_state(&self) -> SessionState {
        self.state
    }

    /// The registered handlers, in registration order.
    pub closed spec fn spec_handlers(&self) -> Seq<(u32, SessionHandler)> {
        self.packet_handler.spec_handlers()
    }

    /// The last handler id handed out.
    pub closed spec fn spec_handler_index(&self) -> u32 {
        self.packet_handler.spec_index()
    }

    /// The handler registry, as contracts see it.
    pub closed spec fn spec_registry(&self) -> PacketHandlerRegistry {
        self.packet_handler
    }

    /// Task ids whose futures were dropped and await reaping.
    pub closed spec fn spec_cancelled(&self) -> Seq<u32> {
        self.cancelled@
    }

    /// The attached components, in attachment order.
    pub closed spec fn spec_components(&self) -> Seq<Component> {
        self.components@
    }

    /// The language code announced during the handshake.
    pub closed spec fn spec_language_code(&self) -> Seq<char> {
        self.language_code@
    }

    /// The wall-clock origin of the session, in milliseconds.
    pub closed spec fn spec_start_millis(&self) -> u64 {
        self.start_millis
    }

    /// The connection stays well formed and the registry is at rest between
    /// progress calls.
    pub open spec fn wf(&self) -> bool {
        &&& self.spec_connection().wf()
        &&& self.spec_registry().wf()
        &&& !self.spec_registry().spec_iterating()
    }

    /// A fresh session around a fresh connection.
    ///
    /// `start_millis` is the session's wall-clock origin, supplied by the
    /// caller's clock; `session_timestamp` reports times relative to it.
    pub fn new(is_server: bool, language_code: String, start_millis: u64) -> (r: Session)
        ensures
            r.wf(),
            r.spec_state() == SessionState::Open,
            r.spec_handlers() == Seq::<(u32, SessionHandler)>::empty(),
            r.spec_cancelled() == Seq::<u32>::empty(),
            r.spec_components() == Seq::<Component>::empty(),
            r.spec_language_code() == language_code@,
            r.spec_start_millis() == start_millis,
            r.spec_connection().spec_is_server() == is_server,
            !r.spec_connection().spec_disconnected(),
            r.spec_connection().spec_lanes() is None,
            r.spec_connection().spec_recv() == Seq::<u8>::empty(),
            r.spec_connection().spec_send() == Seq::<u8>::empty(),
    {
        let session = Session {
            connection: Connection::new(is_server),
            packet_handler: PacketHandlerRegistry::new(),
            state: SessionState::Open,
            language_code,
            start_millis,
            cancelled: Vec::new(),
            components: Vec::new(),
        };
        proof {
            assert(session.spec_components() =~= Seq::<Component>::empty());
        }
        session
    }

    /// The language code announced during the handshake.
    pub fn language_code(&self) -> (r: &String)
        ensures
            r@ == self.spec_language_code(),
    {
        &self.language_code
    }

    /// Milliseconds since the session's origin, truncated to a signed
    /// 32-bit value (the low 32 bits of the elapsed time, read as signed).
    pub fn session_timestamp(&self, now_millis: u64) -> (r: i32)
        requires
            now_millis >= self.spec_start_millis(),
        ensures
            r == (now_millis - self.spec_start_millis()) as i32,
            now_millis - self.spec_start_millis() <= i32::MAX ==> r == now_millis
                - self.spec_start_millis(),
    {
        let elapsed = now_millis - self.start_millis;
        #[verifier::truncate]
        let r = elapsed as i32;
        proof {
            if elapsed <= i32::MAX {
                assert((elapsed as i32) == elapsed) by (bit_vector)
                    requires
                        elapsed <= 0x7fffffffu64,
                ;
            }
        }
        r
    }

    /// Registers a long-lived packet handler under a fresh id.
    pub fn register_packet_handler(&mut self, handler: SessionHandler) -> (id: u32)
        requires
            old(self).wf(),
            old(self).spec_handler_index() < u32::MAX - 1,
        ensures
            final(self).wf(),
            id == old(self).spec_handler_index() + 1,
            final(self).spec_handlers() == old(self).spec_handlers().push((id, handler)),
            final(self).spec_state() == old(self).spec_state(),
            final(self).spec_connection() == old(self).spec_connection(),
            final(self).spec_start_millis() == old(self).spec_start_millis(),
            final(self).spec_cancelled() == old(self).spec_cancelled(),
    {
        self.packet_handler.register_handler(handler)
    }

    /// Removes the handler registered under this id.
    pub fn remove_packet_handler(&mut self, handler_id: u32)
        requires
            old(self).wf(),
        ensures
            final(self).wf(),
            final(self).spec_handlers() == crate::handler::remove_id(
                old(self).spec_handlers(),
                handler_id,
            ),
            final(self).spec_state() == old(self).spec_state(),
            final(self).spec_connection() == old(self).spec_connection(),
            final(self).spec_start_millis() == old(self).spec_start_millis(),
            final(self).spec_cancelled() == old(self).spec_cancelled(),
    {
        self.packet_handler.remove_handler(handler_id);
    }

    /// Starts a one-shot task: its prelude is sent on the first progress,
    /// and the first inbound packet with id `match_packet_id` resolves it.
    pub fn execute_task(&mut self, prelude: Packet, match_packet_id: u32) -> (id: u32)
        requires
            old(self).wf(),
            old(self).spec_handler_index() < u32::MAX - 1,
        ensures
            final(self).wf(),
            id == old(self).spec_handler_index() + 1,
            final(self).spec_handlers().len() == old(self).spec_handlers().len() + 1,
            final(self).spec_handlers().last().0 == id,
            final(self).spec_handlers().last().1 matches SessionHandler::Task(t) && {
                &&& t.prelude == Some(prelude)
                &&& !t.executor_ran
                &&& t.match_packet_id == match_packet_id
                &&& t.result is None
                &&& !t.cancelled
            },
            final(self).spec_state() == old(self).spec_state(),
            final(self).spec_connection() == old(self).spec_connection(),
            final(self).spec_start_millis() == old(self).spec_start_millis(),
            final(self).spec_cancelled() == old(self).spec_cancelled(),
    {
        let task = TaskHandler::new(Some(prelude), match_packet_id);
        self.packet_handler.register_handler(SessionHandler::Task(task))
    }

    /// Registers a bare matcher: no prelude, resolves on the first inbound
    /// packet with the given id.
    pub fn await_match(&mut self, match_packet_id: u32) -> (id: u32)
        requires
            old(self).wf(),
            old(self).spec_handler_index() < u32::MAX - 1,
        ensures
            final(self).wf(),
            id == old(self).spec_handler_index() + 1,
            final(self).spec_handlers().len() == old(self).spec_handlers().len() + 1,
            final(self).spec_handlers().last().0 == id,
            final(self).spec_handlers().last().1 matches SessionHandler::Task(t) && {
                &&& t.prelude is None
                &&& !t.executor_ran
                &&& t.match_packet_id == match_packet_id
                &&& t.result is None
                &&& !t.cancelled
            },
            final(self).spec_state() == old(self).spec_state(),
            final(self).spec_connection() == old(self).spec_connection(),
            final(self).spec_start_millis() == old(self).spec_start_millis(),
            final(self).spec_cancelled() == old(self).spec_cancelled(),
    {
        let task = TaskHandler::new(None, match_packet_id);
        self.packet_handler.register_handler(SessionHandler::Task(task))
    }

    /// Notes that a task's future was dropped; the task's handler removes
    /// itself within the next progress cycle.
    pub fn cancel_task(&mut self, task_id: u32)
        requires
            old(self).wf(),
        ensures
            final(self).wf(),
            final(self).spec_cancelled() == old(self).spec_cancelled().push(task_id),
            final(self).spec_handlers() == old(self).spec_handlers(),
            final(self).spec_state() == old(self).spec_state(),
            final(self).spec_connection() == old(self).spec_connection(),
            final(self).spec_start_millis() == old(self).spec_start_millis(),
    {
        self.cancelled.push(task_id);
    }

    /// Attaches per-session state of one kind, replacing whatever of that
    /// kind was attached before.
    pub fn register_component(&mut self, component: Component)
        requires
            old(self).wf(),
        ensures
            final(self).wf(),
            component_kinds(final(self).spec_components()) == component_kinds(
                remove_kind(old(self).spec_components(), component_kind(component)),
            ).push(component_kind(component)),
            final(self).spec_components().last() == component,
            final(self).spec_handlers() == old(self).spec_handlers(),
            final(self).spec_state() == old(self).spec_state(),
            final(self).spec_connection() == old(self).spec_connection(),
            final(self).spec_start_millis() == old(self).spec_start_millis(),
            final(self).spec_cancelled() == old(self).spec_cancelled(),
    {
        let kind = match &component {
            Component::Captcha(_) => ComponentKind::Captcha,
            Component::Resources(_) => ComponentKind::Resources,
            Component::Settings(_) => ComponentKind::Settings,
            Component::BattleList(_) => ComponentKind::BattleList,
            Component::BattleCreate(_) => ComponentKind::BattleCreate,
            Component::LoginKickoff(_) => ComponentKind::LoginKickoff,
        };
        let ghost cs = self.components@;
        let mut kept: Vec<Component> = Vec::new();
        while self.components.len() > 0
            invariant
                self.components@.len() <= cs.len(),
                self.components@ =~= cs.skip(cs.len() - self.components@.len()),
                kept@ == remove_kind(cs.take(cs.len() - self.components@.len()), kind),
                self.connection == old(self).connection,
                self.packet_handler == old(self).packet_handler,
                self.state == old(self).state,
                self.start_millis == old(self).start_millis,
                self.cancelled@ == old(self).cancelled@,
                self.language_code == old(self).language_code,
            decreases self.components@.len(),
        {
            let ghost k = cs.len() - self.components@.len();
            let entry = self.components.remove(0);
            let entry_kind = match &entry {
                Component::Captcha(_) => ComponentKind::Captcha,
                Component::Resources(_) => ComponentKind::Resources,
                Component::Settings(_) => ComponentKind::Settings,
                Component::BattleList(_) => ComponentKind::BattleList,
                Component::BattleCreate(_) => ComponentKind::BattleCreate,
                Component::LoginKickoff(_) => ComponentKind::LoginKickoff,
            };
            if entry_kind != kind {
                kept.push(entry);
            }
            proof {
                assert(entry == cs[k]);
                assert(self.components@ =~= cs.skip(k + 1));
                assert(cs.take(k + 1).drop_last() =~= cs.take(k));
                assert(cs.take(k + 1).last() == cs[k]);
                assert(kept@ == remove_kind(cs.take(k + 1), kind));
            }
        }
        kept.push(component);
        self.components = kept;
        proof {
            assert(cs.take(cs.len() as int) =~= cs);
            assert(component_kinds(self.spec_components()) =~= component_kinds(
                remove_kind(cs, kind),
            ).push(kind));
        }
    }

    /// Detaches and hands back the component of one kind, to be re-attached
    /// after use; `None` when nothing of that kind is attached.
    pub fn take_component(&mut self, kind: ComponentKind) -> (r: Option<Component>)
        requires
            old(self).wf(),
        ensures
            final(self).wf(),
            final(self).spec_handlers() == old(self).spec_handlers(),
            final(self).spec_state() == old(self).spec_state(),
            final(self).spec_connection() == old(self).spec_connection(),
            final(self).spec_start_millis() == old(self).spec_start_millis(),
            final(self).spec_cancelled() == old(self).spec_cancelled(),
            match r {
                Some(c) => {
                    &&& component_kind(c) == kind
                    &&& exists|i: int|
                        0 <= i < old(self).spec_components().len() && old(
                            self,
                        ).spec_components()[i] == c
                    &&& final(self).spec_components().len() + 1 == old(
                        self,
                    ).spec_components().len()
                },
                None => {
                    &&& final(self).spec_components() == old(self).spec_components()
                    &&& forall|i: int|
                        0 <= i < old(self).spec_components().len() ==> component_kind(
                            #[trigger] old(self).spec_components()[i],
                        ) != kind
                },
            },
    {
        let mut i: usize = 0;
        while i < self.components.len()
            invariant
                i <= self.components@.len(),
                self.components@ == old(self).components@,
                self.connection == old(self).connection,
                self.packet_handler == old(self).packet_handler,
                self.state == old(self).state,
                self.start_millis == old(self).start_millis,
                self.cancelled@ == old(self).cancelled@,
                self.language_code == old(self).language_code,
                old(self).wf(),
                forall|j: int|
                    0 <= j < i ==> component_kind(#[trigger] self.components@[j]) != kind,
            decreases self.components@.len() - i,
        {
            let entry_kind = match &self.components[i] {
                Component::Captcha(_) => ComponentKind::Captcha,
                Component::Resources(_) => ComponentKind::Resources,
                Component::Settings(_) => ComponentKind::Settings,
                Component::BattleList(_) => ComponentKind::BattleList,
                Component::BattleCreate(_) => ComponentKind::BattleCreate,
                Component::LoginKickoff(_) => ComponentKind::LoginKickoff,
            };
            if entry_kind == kind {
                let taken = self.components.remove(i);
                return Some(taken);
            }
            i = i + 1;
        }
        None
    }

    /// Queues one outbound packet. On an open session this frames, ciphers
    /// and enqueues it exactly as the connection does; once the session is
    /// closing or disconnected the packet is dropped silently.
    pub fn send(&mut self, packet: &Packet) -> (r: Result<(), ProtocolError>)
        requires
            old(self).wf(),
        ensures
            final(self).wf(),
            final(self).spec_state() == old(self).spec_state(),
            final(self).spec_handlers() == old(self).spec_handlers(),
            final(self).spec_start_millis() == old(self).spec_start_millis(),
            final(self).spec_cancelled() == old(self).spec_cancelled(),
            !(old(self).spec_state() is Open) ==> r is Ok && final(self).spec_connection()
                == old(self).spec_connection(),
            old(self).spec_state() is Open && !old(self).spec_connection().spec_disconnected() ==> {
                let payload = crate::packets::packet_model_wire(packet.model());
                if !crate::packets::packet_model_valid(packet.model()) {
                    &&& r is Err
                    &&& final(self).spec_connection().spec_send() == old(self).spec_connection().spec_send()
                } else if 8 + payload.len() > crate::connection::PACKET_SIZE_CAP {
                    &&& r is Err
                    &&& final(self).spec_connection().spec_send() == old(self).spec_connection().spec_send()
                } else {
                    let (lanes, ciphered) = crate::connection::cipher_send(
                        old(self).spec_connection().spec_lanes(),
                        payload,
                    );
                    &&& r is Ok
                    &&& final(self).spec_connection().spec_lanes() == lanes
                    &&& final(self).spec_connection().spec_send() == old(self).spec_connection().spec_send()
                        + crate::connection::frame_bytes(
                        crate::packets::packet_model_id_of(packet.model()),
                        ciphered,
                    )
                }
            },
    {
        match self.state {
            SessionState::Open => self.connection.send_packet(packet),
            _ => Ok(()),
        }
    }

    /// Begins the server handshake: derives the cipher from fresh random
    /// seed bytes, sends them in the clear, then installs the cipher for
    /// every later payload.
    ///
    /// The seed is random, so the contract binds one unknown: some 4-byte
    /// seed was drawn, the frame queued for the peer carries exactly that
    /// seed — in clear, since the cipher was not yet installed — and the
    /// installed lanes derive from the same seed.
    pub fn server_begin_encryption(&mut self) -> (r: Result<(), ProtocolError>)
        requires
            old(self).wf(),
            old(self).spec_state() is Open,
            old(self).spec_connection().spec_lanes() is None,
        ensures
            final(self).wf(),
            r is Ok,
            final(self).spec_state() == old(self).spec_state(),
            final(self).spec_handlers() == old(self).spec_handlers(),
            final(self).spec_cancelled() == old(self).spec_cancelled(),
            final(self).spec_start_millis() == old(self).spec_start_millis(),
            final(self).spec_connection().spec_recv() == old(self).spec_connection().spec_recv(),
            final(self).spec_connection().spec_disconnected() == old(
                self,
            ).spec_connection().spec_disconnected(),
            final(self).spec_connection().spec_registry() == old(
                self,
            ).spec_connection().spec_registry(),
            final(self).spec_connection().spec_is_server() == old(
                self,
            ).spec_connection().spec_is_server(),
            final(self).spec_connection().spec_lanes() matches Some(lanes) && exists|k: Seq<u8>|
                {
                    &&& #[trigger] k.len() == 4
                    &&& lanes.0 == crate::crypto::XOrCipher::initial_encrypt_lane(
                        CipherMode::Server,
                        k,
                    )
                    &&& lanes.1 == crate::crypto::XOrCipher::initial_decrypt_lane(
                        CipherMode::Server,
                        k,
                    )
                    &&& !old(self).spec_connection().spec_disconnected() ==> final(self).spec_connection().spec_send() == old(self).spec_connection().spec_send()
                        + crate::connection::frame_bytes(
                        crate::packets::ID_RESOURCE_LOADER_INITIALIZE_ENCRYPTION,
                        <Vec<u8> as crate::codec::Codeable>::wire(k),
                    )
                    &&& old(self).spec_connection().spec_disconnected() ==> final(self).spec_connection().spec_send() == old(self).spec_connection().spec_send()
                },
    {
        let key = crate::crypto::XOrCipher::generate_key();
        let packet = Packet::ResourceLoaderInitializeEncryption(
            ResourceLoaderInitializeEncryption {
                protection_data: crate::handler::clone_bytes(&key),
            },
        );
        proof {
            let ms = crate::codec::models_of(key@);
            assert(ms =~= key@);
            crate::codec::lemma_wire_elems_u8_len(ms);
        }
        let r = self.connection.send_packet(&packet);
        self.connection.install_cipher(CipherMode::Server, key.as_slice());
        proof {
            let k = key@;
            assert(k.len() == 4);
            assert(crate::packets::packet_model_valid(packet.model()));
            assert(crate::packets::packet_model_wire(packet.model())
                == <Vec<u8> as crate::codec::Codeable>::wire(k));
        }
        match r {
            Ok(()) => Ok(()),
            Err(e) => {
                proof {
                    assert(false);
                }
                Err(e)
            },
        }
    }

    /// Finishes the client handshake: the first inbound packet must carry
    /// the seed bytes, and the cipher is installed with the roles swapped;
    /// anything else is `UnexpectedPacket`.
    pub fn client_finish_encryption(&mut self, first_packet: &Packet) -> (r: Result<
        (),
        ProtocolError,
    >)
        requires
            old(self).wf(),
        ensures
            final(self).wf(),
            final(self).spec_state() == old(self).spec_state(),
            final(self).spec_handlers() == old(self).spec_handlers(),
            final(self).spec_cancelled() == old(self).spec_cancelled(),
            final(self).spec_start_millis() == old(self).spec_start_millis(),
            match first_packet {
                Packet::ResourceLoaderInitializeEncryption(p) => {
                    &&& r is Ok
                    &&& final(self).spec_connection().spec_lanes() == Some(
                        (
                            crate::crypto::XOrCipher::initial_encrypt_lane(
                                CipherMode::Client,
                                p.protection_data@,
                            ),
                            crate::crypto::XOrCipher::initial_decrypt_lane(
                                CipherMode::Client,
                                p.protection_data@,
                            ),
                        ),
                    )
                    &&& final(self).spec_connection().spec_recv() == old(
                        self,
                    ).spec_connection().spec_recv()
                    &&& final(self).spec_connection().spec_send() == old(
                        self,
                    ).spec_connection().spec_send()
                    &&& final(self).spec_connection().spec_disconnected() == old(
                        self,
                    ).spec_connection().spec_disconnected()
                    &&& final(self).spec_connection().spec_registry() == old(
                        self,
                    ).spec_connection().spec_registry()
                    &&& final(self).spec_connection().spec_is_server() == old(
                        self,
                    ).spec_connection().spec_is_server()
                },
                _ => r == Err::<(), ProtocolError>(ProtocolError::UnexpectedPacket)
                    && final(self).spec_connection() == old(self).spec_connection(),
            },
    {
        match first_packet {
            Packet::ResourceLoaderInitializeEncryption(p) => {
                self.connection.install_cipher(CipherMode::Client, p.protection_data.as_slice());
                Ok(())
            },
            _ => Err(ProtocolError::UnexpectedPacket),
        }
    }

    /// Marks the session disconnected at once, or lets pending writes drain
    /// first: a flushing session refuses new sends and finishes on the next
    /// progress call that finds its write buffer empty.
    pub fn disconnect(&mut self, flush: bool)
        requires
            old(self).wf(),
        ensures
            final(self).wf(),
            final(self).spec_handlers() == old(self).spec_handlers(),
            final(self).spec_start_millis() == old(self).spec_start_millis(),
            final(self).spec_cancelled() == old(self).spec_cancelled(),
            flush && old(self).spec_state() is Open ==> final(self).spec_state()
                == SessionState::ClosingFlush,
            !(flush && old(self).spec_state() is Open) ==> final(self).spec_state()
                == SessionState::Disconnected && final(self).spec_connection().spec_disconnected(),
    {
        if flush {
            match self.state {
                SessionState::Open => {
                    self.state = SessionState::ClosingFlush;
                },
                _ => {
                    self.state = SessionState::Disconnected;
                    self.connection.disconnect();
                },
            }
        } else {
            self.state = SessionState::Disconnected;
            self.connection.disconnect();
        }
    }

    /// Removes every task handler and reports their ids: the session ended,
    /// so their futures resolve with a disconnected error instead of a
    /// result.
    fn fail_pending_tasks(&mut self) -> (r: Vec<u32>)
        requires
            old(self).wf(),
        ensures
            final(self).wf(),
            r@ == task_ids(old(self).spec_handlers()),
            final(self).spec_handlers() == non_tasks(old(self).spec_handlers()),
            task_ids(final(self).spec_handlers()) == Seq::<u32>::empty(),
            final(self).spec_state() == old(self).spec_state(),
            final(self).spec_start_millis() == old(self).spec_start_millis(),
            final(self).spec_connection() == old(self).spec_connection(),
    {
        let mut snapshot = self.packet_handler.begin_iteration();
        let ghost hs = snapshot@;
        let mut kept: Vec<(u32, SessionHandler)> = Vec::new();
        let mut failed: Vec<u32> = Vec::new();
        while snapshot.len() > 0
            invariant
                snapshot@.len() <= hs.len(),
                snapshot@ =~= hs.skip(hs.len() - snapshot@.len()),
                kept@ == non_tasks(hs.take(hs.len() - snapshot@.len())),
                failed@ == task_ids(hs.take(hs.len() - snapshot@.len())),
            decreases snapshot@.len(),
        {
            let ghost k = hs.len() - snapshot@.len();
            let entry = snapshot.remove(0);
            let is_task = match &entry.1 {
                SessionHandler::Task(_) => true,
                _ => false,
            };
            if is_task {
                failed.push(entry.0);
            } else {
                kept.push(entry);
            }
            proof {
                assert(entry == hs[k]);
                assert(snapshot@ =~= hs.skip(k + 1));
                assert(hs.take(k + 1).drop_last() =~= hs.take(k));
                assert(hs.take(k + 1).last() == hs[k]);
                assert(kept@ == non_tasks(hs.take(k + 1)));
                assert(failed@ == task_ids(hs.take(k + 1)));
            }
        }
        proof {
            assert(hs.take(hs.len() as int) =~= hs);
        }
        self.packet_handler.end_iteration(kept);
        proof {
            lemma_non_tasks_taskless(hs);
        }
        failed
    }

    /// One cooperative progress step.
    ///
    /// First every handler is polled: task preludes run exactly once, tasks
    /// whose matchers have captured a packet resolve and are dropped, and
    /// tasks whose futures were cancelled are reaped without resolving.
    /// Then at most one inbound frame is parsed, deciphered and dispatched
    /// to every handler in registration order — one frame per call, so
    /// bursts cannot starve the handlers. A framing or decode error
    /// disconnects the session, surfaces the error once, and fails every
    /// remaining task. A flushing session finishes once its write buffer has
    /// drained.
    ///
    /// Across one step, exactly the polled-out handlers disappear: resolved
    /// and cancelled tasks are gone, everything else stays registered and —
    /// on a dispatched step — advanced by observing the decoded packet,
    /// whose shape is pinned to the head of the receive buffer. The write
    /// buffer grows by exactly the frames of the task preludes and the
    /// handlers' replies, in order. A finished session reports precisely its
    /// still-waiting tasks as failed.
    pub fn progress(&mut self, now_millis: u64) -> (r: ProgressOutcome)
        requires
            old(self).wf(),
            now_millis >= old(self).spec_start_millis(),
        ensures
            final(self).wf(),
            final(self).spec_start_millis() == old(self).spec_start_millis(),
            old(self).spec_state() is Disconnected ==> r.done && r.error is None
                && final(self).spec_connection() == old(self).spec_connection() && final(self).spec_handlers() == old(self).spec_handlers() && final(self).spec_cancelled() == old(
                self,
            ).spec_cancelled() && final(self).spec_state() == old(self).spec_state(),
            r.done ==> final(self).spec_state() is Disconnected,
            r.error is Some ==> r.done && !(old(self).spec_state() is Disconnected),
            final(self).spec_state() is Disconnected && !(old(self).spec_state()
                is Disconnected) ==> task_ids(final(self).spec_handlers())
                == Seq::<u32>::empty(),
            !(old(self).spec_state() is Disconnected) ==> resolved_view(r.resolved@)
                == resolved_entries(old(self).spec_handlers(), old(self).spec_cancelled()),
            !r.done && !r.dispatched ==> handler_models(final(self).spec_handlers())
                == polled_models(old(self).spec_handlers(), old(self).spec_cancelled()),
            r.dispatched ==> (crate::connection::frame_decoded(
                old(self).spec_connection().spec_recv(),
                old(self).spec_connection().spec_lanes(),
                old(self).spec_connection().spec_registry().0,
                old(self).spec_connection().spec_registry().1,
            ) matches Some(pm) && handler_models(final(self).spec_handlers()) == observed_models(
                polled_models(old(self).spec_handlers(), old(self).spec_cancelled()),
                pm,
            )),
            r.done && !(old(self).spec_state() is Disconnected) ==> r.failed@ == polled_task_ids(
                old(self).spec_handlers(),
                old(self).spec_cancelled(),
            ),
            !(old(self).spec_state() is Disconnected) && !r.dispatched ==> final(self).spec_connection().spec_send() == old(self).spec_connection().spec_send()
                + crate::connection::send_fold(
                old(self).spec_connection().spec_lanes(),
                old(self).spec_connection().spec_disconnected(),
                prelude_sends(old(self).spec_handlers(), old(self).spec_cancelled()),
            ).1,
            r.dispatched ==> (crate::connection::frame_decoded(
                old(self).spec_connection().spec_recv(),
                old(self).spec_connection().spec_lanes(),
                old(self).spec_connection().spec_registry().0,
                old(self).spec_connection().spec_registry().1,
            ) matches Some(pm) && final(self).spec_connection().spec_send() == old(
                self,
            ).spec_connection().spec_send() + crate::connection::send_fold(
                old(self).spec_connection().spec_lanes(),
                old(self).spec_connection().spec_disconnected(),
                prelude_sends(old(self).spec_handlers(), old(self).spec_cancelled())
                    + dispatch_sends(
                    polled_handlers(old(self).spec_handlers(), old(self).spec_cancelled()),
                    pm,
                    (now_millis - old(self).spec_start_millis()) as i32,
                ),
            ).1),
            r.error matches Some(e) ==> crate::connection::frame_parse_error(
                old(self).spec_connection().spec_recv(),
                old(self).spec_connection().spec_lanes(),
                old(self).spec_connection().spec_registry().0,
                old(self).spec_connection().spec_registry().1,
                e,
            ),
    {
        match self.state {
            SessionState::Disconnected => {
                return ProgressOutcome {
                    resolved: Vec::new(),
                    failed: Vec::new(),
                    dispatched: false,
                    done: true,
                    error: None,
                };
            },
            _ => {},
        }
        let now = self.session_timestamp(now_millis);

        // Poll every handler: run preludes, resolve finished tasks, reap
        // cancelled ones.
        let mut resolved: Vec<(u32, Packet)> = Vec::new();
        let mut snapshot = self.packet_handler.begin_iteration();
        let ghost hs = snapshot@;
        let ghost cancelled_ids = self.spec_cancelled();
        let mut kept: Vec<(u32, SessionHandler)> = Vec::new();
        proof {
            assert(resolved_view(resolved@) =~= resolved_entries(hs.take(0), cancelled_ids));
            assert(handler_models(kept@) =~= polled_models(hs.take(0), cancelled_ids));
            assert(kept@ =~= polled_handlers(hs.take(0), cancelled_ids));
            assert(task_ids(kept@) =~= polled_task_ids(hs.take(0), cancelled_ids));
            assert(prelude_sends(hs.take(0), cancelled_ids)
                =~= Seq::<crate::packets::PacketModel>::empty());
            assert(self.connection.spec_send() =~= old(self).spec_connection().spec_send()
                + crate::connection::send_fold(
                old(self).spec_connection().spec_lanes(),
                old(self).spec_connection().spec_disconnected(),
                prelude_sends(hs.take(0), cancelled_ids),
            ).1);
        }
        while snapshot.len() > 0
            invariant
                self.packet_handler.wf(),
                self.packet_handler.spec_iterating(),
                self.packet_handler.spec_pending() == Seq::<
                    crate::handler::PendingOp,
                >::empty(),
                self.connection.wf(),
                self.connection.spec_recv() == old(self).spec_connection().spec_recv(),
                crate::connection::dec_lane_of(self.connection.spec_lanes())
                    == crate::connection::dec_lane_of(old(self).spec_connection().spec_lanes()),
                (self.connection.spec_lanes() is Some) == (old(
                    self,
                ).spec_connection().spec_lanes() is Some),
                self.connection.spec_registry() == old(self).spec_connection().spec_registry(),
                self.connection.spec_disconnected() == old(
                    self,
                ).spec_connection().spec_disconnected(),
                self.connection.spec_lanes() == crate::connection::send_fold(
                    old(self).spec_connection().spec_lanes(),
                    old(self).spec_connection().spec_disconnected(),
                    prelude_sends(hs.take(hs.len() - snapshot@.len()), cancelled_ids),
                ).0,
                self.connection.spec_send() == old(self).spec_connection().spec_send()
                    + crate::connection::send_fold(
                    old(self).spec_connection().spec_lanes(),
                    old(self).spec_connection().spec_disconnected(),
                    prelude_sends(hs.take(hs.len() - snapshot@.len()), cancelled_ids),
                ).1,
                self.spec_start_millis() == old(self).spec_start_millis(),
                self.spec_state() == old(self).spec_state(),
                self.spec_cancelled() == cancelled_ids,
                snapshot@.len() <= hs.len(),
                snapshot@ =~= hs.skip(hs.len() - snapshot@.len()),
                resolved_view(resolved@) == resolved_entries(
                    hs.take(hs.len() - snapshot@.len()),
                    cancelled_ids,
                ),
                handler_models(kept@) == polled_models(
                    hs.take(hs.len() - snapshot@.len()),
                    cancelled_ids,
                ),
                kept@ == polled_handlers(hs.take(hs.len() - snapshot@.len()), cancelled_ids),
                task_ids(kept@) == polled_task_ids(
                    hs.take(hs.len() - snapshot@.len()),
                    cancelled_ids,
                ),
            decreases snapshot@.len(),
        {
            let ghost k = hs.len() - snapshot@.len();
            let ghost kept_before = kept@;
            let entry = snapshot.remove(0);
            proof {
                assert(entry == hs[k]);
                assert(snapshot@ =~= hs.skip(k + 1));
                assert(hs.take(k + 1).drop_last() =~= hs.take(k));
                assert(hs.take(k + 1).last() == hs[k]);
            }
            let id = entry.0;
            match entry.1 {
                SessionHandler::Task(mut task) => {
                    let was_cancelled = task.cancelled || self.is_cancelled(id);
                    if was_cancelled {
                        task.cancelled = true;
                    }
                    let (prelude, poll) = task.progress();
                    match prelude {
                        Some(p) => {
                            // A handler-produced packet is always small and
                            // encodable; on a closed connection the send is a
                            // silent no-op by design.
                            let _ = self.connection.send_packet(&p);
                        },
                        None => {},
                    }
                    match poll {
                        HandlerPoll::Ready => {
                            match task.result {
                                Some(result) => {
                                    if !was_cancelled {
                                        resolved.push((id, result));
                                        proof {
                                            assert(resolved_view(resolved@) =~= resolved_entries(
                                                hs.take(k + 1),
                                                cancelled_ids,
                                            ));
                                        }
                                    }
                                },
                                None => {},
                            }
                        },
                        HandlerPoll::Keep => {
                            kept.push((id, SessionHandler::Task(task)));
                        },
                    }
                },
                other => {
                    kept.push((id, other));
                },
            }
            proof {
                assert(resolved_view(resolved@) =~= resolved_entries(
                    hs.take(k + 1),
                    cancelled_ids,
                ));
                if kept@.len() == kept_before.len() + 1 {
                    assert(kept@.drop_last() =~= kept_before);
                }
                assert(handler_models(kept@) =~= polled_models(hs.take(k + 1), cancelled_ids));
                assert(kept@ =~= polled_handlers(hs.take(k + 1), cancelled_ids));
                assert(task_ids(kept@) =~= polled_task_ids(hs.take(k + 1), cancelled_ids));
                let sent_before = prelude_sends(hs.take(k), cancelled_ids);
                match hs[k].1 {
                    SessionHandler::Task(t) => {
                        if !task_cancelled(hs[k].0, t, cancelled_ids) && !t.executor_ran {
                            match t.prelude {
                                Some(p) => {
                                    assert(prelude_sends(hs.take(k + 1), cancelled_ids)
                                        =~= sent_before.push(p.model()));
                                    if !old(self).spec_connection().spec_disconnected() {
                                        crate::connection::lemma_send_fold_snoc(
                                            old(self).spec_connection().spec_lanes(),
                                            false,
                                            sent_before,
                                            p.model(),
                                        );
                                    }
                                },
                                None => {
                                    assert(prelude_sends(hs.take(k + 1), cancelled_ids)
                                        =~= sent_before);
                                },
                            }
                        } else {
                            assert(prelude_sends(hs.take(k + 1), cancelled_ids) =~= sent_before);
                        }
                    },
                    _ => {
                        assert(prelude_sends(hs.take(k + 1), cancelled_ids) =~= sent_before);
                    },
                }
            }
        }
        proof {
            assert(hs.take(hs.len() as int) =~= hs);
        }
        let ghost after_poll = kept@;
        self.packet_handler.end_iteration(kept);
        proof {
            assert(self.packet_handler.spec_handlers() == after_poll);
            assert(handler_models(after_poll) == polled_models(hs, cancelled_ids));
            assert(after_poll == polled_handlers(hs, cancelled_ids));
            assert(task_ids(after_poll) == polled_task_ids(hs, cancelled_ids));
        }

        // Parse and dispatch at most one inbound frame. The handler polls
        // above touched only the encrypt lane and the write buffer, so what
        // the frame parses to is what it would have parsed to at entry.
        proof {
            crate::connection::lemma_frame_views_dec_only(
                self.connection.spec_recv(),
                self.connection.spec_lanes(),
                old(self).spec_connection().spec_lanes(),
                self.connection.spec_registry().0,
                self.connection.spec_registry().1,
            );
        }
        let step = self.connection.try_parse_read_buffer();
        match step {
            Ok(FrameStep::Pending) => {
                // A flushing session finishes once its writes have drained.
                match self.state {
                    SessionState::ClosingFlush => {
                        if self.connection.outgoing().len() == 0 {
                            self.state = SessionState::Disconnected;
                            self.connection.disconnect();
                            let failed = self.fail_pending_tasks();
                            return ProgressOutcome {
                                resolved,
                                failed,
                                dispatched: false,
                                done: true,
                                error: None,
                            };
                        }
                    },
                    _ => {},
                }
                ProgressOutcome { resolved, failed: Vec::new(), dispatched: false, done: false, error: None }
            },
            Ok(FrameStep::Decoded(packet)) => {
                // Dispatch the packet to every handler in registration
                // order; registrations and removals requested meanwhile are
                // committed before this returns.
                let mut snapshot = self.packet_handler.begin_iteration();
                let ghost base = snapshot@;
                let ghost pm = packet.model();
                let ghost send1 = self.connection.spec_send();
                let ghost lanes1 = self.connection.spec_lanes();
                let ghost disc0 = old(self).spec_connection().spec_disconnected();
                let mut rewritten: Vec<(u32, SessionHandler)> = Vec::new();
                proof {
                    assert(handler_models(rewritten@) =~= observed_models(
                        handler_models(base.take(0)),
                        pm,
                    ));
                    assert(dispatch_sends(base.take(0), pm, now)
                        =~= Seq::<crate::packets::PacketModel>::empty());
                }
                while snapshot.len() > 0
                    invariant
                        self.packet_handler.wf(),
                        self.packet_handler.spec_iterating(),
                        self.packet_handler.spec_pending() == Seq::<
                            crate::handler::PendingOp,
                        >::empty(),
                        self.connection.wf(),
                        self.spec_start_millis() == old(self).spec_start_millis(),
                        self.spec_state() == old(self).spec_state(),
                        snapshot@.len() <= base.len(),
                        snapshot@ =~= base.skip(base.len() - snapshot@.len()),
                        pm == packet.model(),
                        handler_models(rewritten@) == observed_models(
                            handler_models(base.take(base.len() - snapshot@.len())),
                            pm,
                        ),
                        self.connection.spec_disconnected() == disc0,
                        self.connection.spec_send() == send1 + crate::connection::send_fold(
                            lanes1,
                            disc0,
                            dispatch_sends(base.take(base.len() - snapshot@.len()), pm, now),
                        ).1,
                        self.connection.spec_lanes() == crate::connection::send_fold(
                            lanes1,
                            disc0,
                            dispatch_sends(base.take(base.len() - snapshot@.len()), pm, now),
                        ).0,
                    decreases snapshot@.len(),
                {
                    let ghost k2 = base.len() - snapshot@.len();
                    let entry = snapshot.remove(0);
                    proof {
                        assert(entry == base[k2]);
                        assert(snapshot@ =~= base.skip(k2 + 1));
                        assert(base.take(k2 + 1).drop_last() =~= base.take(k2));
                        assert(base.take(k2 + 1).last() == base[k2]);
                    }
                    let entry_id = entry.0;
                    let mut handler = entry.1;
                    let effect = handler.observe(&packet, now);
                    let sends = effect.send;
                    let ghost sent_here = dispatch_sends(base.take(k2), pm, now);
                    proof {
                        assert(sent_here + crate::packets::packet_models(sends@.take(0))
                            =~= sent_here);
                    }
                    let mut s: usize = 0;
                    while s < sends.len()
                        invariant
                            s <= sends@.len(),
                            self.packet_handler.wf(),
                            self.packet_handler.spec_iterating(),
                            self.packet_handler.spec_pending() == Seq::<
                                crate::handler::PendingOp,
                            >::empty(),
                            self.connection.wf(),
                            self.spec_start_millis() == old(self).spec_start_millis(),
                            self.spec_state() == old(self).spec_state(),
                            sent_here == dispatch_sends(base.take(k2), pm, now),
                            self.connection.spec_disconnected() == disc0,
                            self.connection.spec_send() == send1 + crate::connection::send_fold(
                                lanes1,
                                disc0,
                                sent_here + crate::packets::packet_models(sends@.take(s as int)),
                            ).1,
                            self.connection.spec_lanes() == crate::connection::send_fold(
                                lanes1,
                                disc0,
                                sent_here + crate::packets::packet_models(sends@.take(s as int)),
                            ).0,
                        decreases sends@.len() - s,
                    {
                        proof {
                            let batch = sent_here + crate::packets::packet_models(
                                sends@.take(s as int),
                            );
                            assert(sent_here + crate::packets::packet_models(
                                sends@.take(s + 1),
                            ) =~= batch.push(sends@[s as int].model()));
                            if !disc0 {
                                crate::connection::lemma_send_fold_snoc(
                                    lanes1,
                                    false,
                                    batch,
                                    sends@[s as int].model(),
                                );
                            }
                        }
                        // As above: handler sends cannot exceed the cap, and
                        // a closed connection drops them silently.
                        let _ = self.connection.send_packet(&sends[s]);
                        s = s + 1;
                    }
                    proof {
                        assert(crate::packets::packet_models(sends@.take(sends@.len() as int))
                            =~= crate::packets::packet_models(sends@));
                        assert(dispatch_sends(base.take(k2 + 1), pm, now) =~= sent_here
                            + crate::handler::observe_sends(base[k2].1, pm, now));
                    }
                    proof {
                        assert(handler_models(rewritten@).len() == k2);
                    }
                    let ghost rw_before = rewritten@;
                    rewritten.push((entry_id, handler));
                    proof {
                        assert(rw_before.len() == k2);
                        assert(rewritten@.len() == k2 + 1);
                        assert forall|i: int|
                            0 <= i < k2 + 1 implies #[trigger] handler_models(rewritten@)[i]
                            == observed_models(handler_models(base.take(k2 + 1)), pm)[i] by {
                            if i < k2 {
                                assert(rewritten@[i] == rw_before[i]);
                                assert(handler_models(rw_before)[i] == observed_models(
                                    handler_models(base.take(k2)),
                                    pm,
                                )[i]);
                                assert(base.take(k2)[i] == base[i]);
                                assert(base.take(k2 + 1)[i] == base[i]);
                            } else {
                                assert(rewritten@[i].0 == base[k2].0);
                                assert(base.take(k2 + 1)[i] == base[k2]);
                                assert(crate::handler::handler_model(rewritten@[i].1)
                                    == crate::handler::observe_model(
                                    crate::handler::handler_model(base[k2].1),
                                    pm,
                                ));
                            }
                        }
                        assert(handler_models(rewritten@) =~= observed_models(
                            handler_models(base.take(k2 + 1)),
                            pm,
                        ));
                    }
                }
                proof {
                    assert(base.take(base.len() as int) =~= base);
                    assert(observed_models(handler_models(base), pm) =~= observed_models(
                        polled_models(hs, cancelled_ids),
                        pm,
                    ));
                    let preludes = prelude_sends(hs, cancelled_ids);
                    let replies = dispatch_sends(base, pm, now);
                    if !disc0 {
                        // The poll phase queued the preludes; the dispatch
                        // phase continued from the lane it left, which the
                        // frame parse touched only on the decrypt side.
                        let lanes_before_parse = crate::connection::send_fold(
                            old(self).spec_connection().spec_lanes(),
                            false,
                            preludes,
                        ).0;
                        crate::connection::lemma_send_fold_enc_only(
                            lanes1,
                            lanes_before_parse,
                            replies,
                        );
                        crate::connection::lemma_send_fold_append(
                            old(self).spec_connection().spec_lanes(),
                            preludes,
                            replies,
                        );
                    }
                    assert(dispatch_sends(base, pm, now) =~= dispatch_sends(
                        polled_handlers(hs, cancelled_ids),
                        pm,
                        now,
                    ));
                    assert(self.connection.spec_send() == old(self).spec_connection().spec_send()
                        + crate::connection::send_fold(
                        old(self).spec_connection().spec_lanes(),
                        disc0,
                        preludes + replies,
                    ).1);
                }
                self.packet_handler.end_iteration(rewritten);
                ProgressOutcome { resolved, failed: Vec::new(), dispatched: true, done: false, error: None }
            },
            Err(error) => {
                // Fatal: disconnect once and fail what cannot resolve.
                self.state = SessionState::Disconnected;
                self.connection.disconnect();
                let failed = self.fail_pending_tasks();
                ProgressOutcome { resolved, failed, dispatched: false, done: true, error: Some(error) }
            },
        }
    }

    /// Whether a task id was cancelled by its future being dropped.
    fn is_cancelled(&self, id: u32) -> (r: bool)
        ensures
            r == self.spec_cancelled().contains(id),
    {
        let mut i: usize = 0;
        while i < self.cancelled.len()
            invariant
                i <= self.cancelled@.len(),
                forall|j: int| 0 <= j < i ==> self.cancelled@[j] != id,
            decreases self.cancelled@.len() - i,
        {
            if self.cancelled[i] == id {
                return true;
            }
            i = i + 1;
        }
        false
    }
}

/// A list without task handlers reports no task ids.
proof fn lemma_non_tasks_taskless(hs: Seq<(u32, SessionHandler)>)
    ensures
        task_ids(non_tasks(hs)) == Seq::<u32>::empty(),
    decreases hs.len(),
{
    if hs.len() > 0 {
        lemma_non_tasks_taskless(hs.drop_last());
        let rest = non_tasks(hs.drop_last());
        if !(hs.last().1 is Task) {
            assert(rest.push(hs.last()).drop_last() =~= rest);
            assert(rest.push(hs.last()).last() == hs.last());
        }
    }
}

} // verus!
