//! The handler framework: long-lived observers of inbound packets, the
//! registry that holds them, and the one-shot task handler built on top.
//!
//! The registry is safe to mutate while it is being iterated: between
//! `begin_iteration` and `end_iteration` every registration and removal is
//! queued, and `end_iteration` commits the queue in order. A handler
//! registered mid-dispatch is therefore never observed by the dispatch that
//! was already running, and is present for the very next one; a handler that
//! removes itself mid-dispatch stays in place for the rest of the current
//! dispatch and is gone afterwards. The two laws are proved below as
//! `lemma_deferred_register_visible` and `lemma_deferred_remove_final`.

use vstd::prelude::*;

use crate::custom::CaptchaLocation;
use crate::packets::{
    Packet, PacketModel, PingMeasurePong, ResourceLoaderDependenciesLoaded,
    ServerSessionSyncResponse,
};

verus! {

/// Copies a byte vector; the copy holds the same bytes.
pub(crate) fn clone_bytes(v: &Vec<u8>) -> (r: Vec<u8>)
    ensures
        r@ == v@,
{
    let mut r: Vec<u8> = Vec::new();
    let mut i: usize = 0;
    while i < v.len()
        invariant
            i <= v@.len(),
            r@ == v@.take(i as int),
        decreases v@.len() - i,
    {
        r.push(v[i]);
        proof {
            assert(r@ =~= v@.take(i + 1));
        }
        i = i + 1;
    }
    proof {
        assert(r@ =~= v@);
    }
    r
}

/// Copies a vector of captcha locations; the copy holds the same values.
fn clone_locations(v: &Vec<CaptchaLocation>) -> (r: Vec<CaptchaLocation>)
    ensures
        r@ == v@,
{
    let mut r: Vec<CaptchaLocation> = Vec::new();
    let mut i: usize = 0;
    while i < v.len()
        invariant
            i <= v@.len(),
            r@ == v@.take(i as int),
        decreases v@.len() - i,
    {
        r.push(v[i]);
        proof {
            assert(r@ =~= v@.take(i + 1));
        }
        i = i + 1;
    }
    proof {
        assert(r@ =~= v@);
    }
    r
}

/// Copies a packet; the copy has the same model, hence the same wire form.
pub fn clone_packet(p: &Packet) -> (r: Packet)
    ensures
        r.model() == p.model(),
{
    match p {
        Packet::ResourceLoaderInitializeEncryption(m) => {
            Packet::ResourceLoaderInitializeEncryption(
                crate::packets::ResourceLoaderInitializeEncryption {
                    protection_data: clone_bytes(&m.protection_data),
                },
            )
        },
        Packet::ResourceLoaderEncryptionInitialized(m) => {
            Packet::ResourceLoaderEncryptionInitialized(
                crate::packets::ResourceLoaderEncryptionInitialized { lang: m.lang.clone() },
            )
        },
        Packet::ResourceLoaderLoadDependencies(m) => {
            Packet::ResourceLoaderLoadDependencies(
                crate::packets::ResourceLoaderLoadDependencies { callback_id: m.callback_id },
            )
        },
        Packet::ResourceLoaderDependenciesLoaded(m) => {
            Packet::ResourceLoaderDependenciesLoaded(
                crate::packets::ResourceLoaderDependenciesLoaded { callback_id: m.callback_id },
            )
        },
        Packet::ResourceLoaderFinished(_) => {
            Packet::ResourceLoaderFinished(crate::packets::ResourceLoaderFinished {})
        },
        Packet::ResourceLoaderRegisterResources(m) => {
            Packet::ResourceLoaderRegisterResources(
                crate::packets::ResourceLoaderRegisterResources {
                    callback_id: m.callback_id,
                    json: m.json.clone(),
                },
            )
        },
        Packet::ResourceLoaderResourcesRegistered(m) => {
            Packet::ResourceLoaderResourcesRegistered(
                crate::packets::ResourceLoaderResourcesRegistered {
                    callback_id: m.callback_id,
                },
            )
        },
        Packet::PingMeasurePing(_) => Packet::PingMeasurePing(crate::packets::PingMeasurePing {}),
        Packet::PingMeasurePong(_) => Packet::PingMeasurePong(PingMeasurePong {}),
        Packet::ServerSessionSync(m) => {
            Packet::ServerSessionSync(
                crate::packets::ServerSessionSync { server_session_time: m.server_session_time },
            )
        },
        Packet::ServerSessionSyncResponse(m) => {
            Packet::ServerSessionSyncResponse(
                ServerSessionSyncResponse {
                    client_session_time: m.client_session_time,
                    server_session_time: m.server_session_time,
                },
            )
        },
        Packet::CaptchaRequestLocation(m) => {
            Packet::CaptchaRequestLocation(
                crate::packets::CaptchaRequestLocation { location: m.location },
            )
        },
        Packet::CaptchaShow(m) => {
            Packet::CaptchaShow(
                crate::packets::CaptchaShow {
                    location: m.location,
                    captcha_data: clone_bytes(&m.captcha_data),
                },
            )
        },
        Packet::CaptchaValidateCaptcha(m) => {
            Packet::CaptchaValidateCaptcha(
                crate::packets::CaptchaValidateCaptcha {
                    location: m.location,
                    code: m.code.clone(),
                },
            )
        },
        Packet::CaptchaCaptchaValidated(m) => {
            Packet::CaptchaCaptchaValidated(
                crate::packets::CaptchaCaptchaValidated { location: m.location },
            )
        },
        Packet::CaptchaCaptchaFailed(m) => {
            Packet::CaptchaCaptchaFailed(
                crate::packets::CaptchaCaptchaFailed {
                    location: m.location,
                    new_captcha: clone_bytes(&m.new_captcha),
                },
            )
        },
        Packet::CaptchaParameters(m) => {
            Packet::CaptchaParameters(
                crate::packets::CaptchaParameters {
                    init_params: clone_locations(&m.init_params),
                },
            )
        },
        Packet::SettingsRequestOpen(_) => {
            Packet::SettingsRequestOpen(crate::packets::SettingsRequestOpen {})
        },
        Packet::SettingsRequestClose(_) => {
            Packet::SettingsRequestClose(crate::packets::SettingsRequestClose {})
        },
        Packet::SettingsOpen(m) => {
            Packet::SettingsOpen(
                crate::packets::SettingsOpen { notification_enabled: m.notification_enabled },
            )
        },
        Packet::SettingsClose(_) => Packet::SettingsClose(crate::packets::SettingsClose {}),
        Packet::BattleListListCreate(m) => {
            Packet::BattleListListCreate(
                crate::packets::BattleListListCreate { json: m.json.clone() },
            )
        },
        Packet::BattleCreateParameters(m) => {
            Packet::BattleCreateParameters(
                crate::packets::BattleCreateParameters { json: m.json.clone() },
            )
        },
        Packet::Unknown(u) => {
            let borrowed = u.payload();
            let mut payload: Vec<u8> = Vec::new();
            let mut i: usize = 0;
            while i < borrowed.len()
                invariant
                    i <= borrowed@.len(),
                    payload@ == borrowed@.take(i as int),
                decreases borrowed@.len() - i,
            {
                payload.push(borrowed[i]);
                proof {
                    assert(payload@ =~= borrowed@.take(i + 1));
                }
                i = i + 1;
            }
            proof {
                assert(payload@ =~= borrowed@);
            }
            let id = p.packet_id();
            Packet::Unknown(
                crate::packets::UnknownPacket::new(
                    crate::packets::PacketDirection::Unknown,
                    id,
                    payload,
                ),
            )
        },
    }
}

/// Answers a low-level ping probe with a pong.
pub struct LowLevelPing {}

/// Answers a server session clock sync with the local session clock.
pub struct SessionPing {}

/// Acknowledges dependency-load requests without loading anything.
pub struct DummyResourceLoader {}

/// The one-shot task handler: optionally sends a prelude on its first
/// progress, then waits for the first packet with a matching id.
pub struct TaskHandler {
    /// The request to send on the first progress; `None` for a bare matcher.
    pub prelude: Option<Packet>,
    /// Whether the one-shot executor has run.
    pub executor_ran: bool,
    /// The packet id the task is waiting for.
    pub match_packet_id: u32,
    /// The first matching packet, once seen.
    pub result: Option<Packet>,
    /// Set when the task's future was dropped; the handler then removes
    /// itself on its next progress.
    pub cancelled: bool,
}

/// The mathematical shape of a handler: packets it holds are reduced to
/// their models.
pub enum HandlerModel {
    LowLevelPing,
    SessionPing,
    DummyResourceLoader,
    Task {
        prelude: Option<PacketModel>,
        executor_ran: bool,
        match_packet_id: u32,
        result: Option<PacketModel>,
        cancelled: bool,
    },
}

/// The model of an optionally held packet.
pub open spec fn packet_option_model(p: Option<Packet>) -> Option<PacketModel> {
    match p {
        Some(q) => Some(q.model()),
        None => None,
    }
}

/// The model of a handler.
pub open spec fn handler_model(h: SessionHandler) -> HandlerModel {
    match h {
        SessionHandler::LowLevelPing(_) => HandlerModel::LowLevelPing,
        SessionHandler::SessionPing(_) => HandlerModel::SessionPing,
        SessionHandler::DummyResourceLoader(_) => HandlerModel::DummyResourceLoader,
        SessionHandler::Task(t) => HandlerModel::Task {
            prelude: packet_option_model(t.prelude),
            executor_ran: t.executor_ran,
            match_packet_id: t.match_packet_id,
            result: packet_option_model(t.result),
            cancelled: t.cancelled,
        },
    }
}

/// The handler after observing one packet: only a task changes, capturing
/// the first packet whose id it awaits.
pub open spec fn observe_model(h: HandlerModel, p: PacketModel) -> HandlerModel {
    match h {
        HandlerModel::Task { prelude, executor_ran, match_packet_id, result, cancelled } => if result
            is None && crate::packets::packet_model_id_of(p) == match_packet_id {
            HandlerModel::Task {
                prelude,
                executor_ran,
                match_packet_id,
                result: Some(p),
                cancelled,
            }
        } else {
            h
        },
        _ => h,
    }
}

/// One registered observer of inbound packets.
pub enum SessionHandler {
    LowLevelPing(LowLevelPing),
    SessionPing(SessionPing),
    DummyResourceLoader(DummyResourceLoader),
    Task(TaskHandler),
}

/// What a handler asks for after observing one packet: packets to send, and
/// whether a task matcher just resolved.
pub struct ObserveEffect {
    pub send: Vec<Packet>,
    pub resolved: bool,
}

/// The packets a handler sends in reaction to one observed packet, given the
/// local session clock.
pub open spec fn observe_sends(h: SessionHandler, p: PacketModel, now: i32) -> Seq<PacketModel> {
    match h {
        SessionHandler::LowLevelPing(_) => if p is PingMeasurePing {
            seq![PacketModel::PingMeasurePong]
        } else {
            Seq::<PacketModel>::empty()
        },
        SessionHandler::SessionPing(_) => match p {
            PacketModel::ServerSessionSync(t) => seq![
                PacketModel::ServerSessionSyncResponse(now, t),
            ],
            _ => Seq::<PacketModel>::empty(),
        },
        SessionHandler::DummyResourceLoader(_) => match p {
            PacketModel::ResourceLoaderLoadDependencies(c) => seq![
                PacketModel::ResourceLoaderDependenciesLoaded(c),
            ],
            _ => Seq::<PacketModel>::empty(),
        },
        SessionHandler::Task(_) => Seq::<PacketModel>::empty(),
    }
}

impl SessionHandler {
    /// Observes one inbound packet. Every handler sees every packet; the
    /// effect says what to send, and a task handler captures the first
    /// packet whose id it was waiting for — later matches are not delivered
    /// to it.
    pub fn observe(&mut self, packet: &Packet, now: i32) -> (r: ObserveEffect)
        ensures
            crate::packets::packet_models(r.send@) == observe_sends(*old(self), packet.model(), now),
            handler_model(*final(self)) == observe_model(handler_model(*old(self)), packet.model()),
            match *old(self) {
                SessionHandler::Task(t) => {
                    &&& *final(self) matches SessionHandler::Task(t2)
                    &&& t2.prelude == t.prelude
                    &&& t2.executor_ran == t.executor_ran
                    &&& t2.match_packet_id == t.match_packet_id
                    &&& t2.cancelled == t.cancelled
                    &&& if t.result is None && crate::packets::packet_model_id_of(packet.model())
                        == t.match_packet_id {
                        &&& t2.result matches Some(q) && q.model() == packet.model()
                        &&& r.resolved
                    } else {
                        t2.result == t.result && !r.resolved
                    }
                },
                _ => *final(self) == *old(self) && !r.resolved,
            },
    {
        match self {
            SessionHandler::LowLevelPing(_) => {
                let mut send: Vec<Packet> = Vec::new();
                match packet {
                    Packet::PingMeasurePing(_) => {
                        send.push(Packet::PingMeasurePong(PingMeasurePong {}));
                    },
                    _ => {},
                }
                proof {
                    assert(crate::packets::packet_models(send@) =~= observe_sends(
                        *old(self),
                        packet.model(),
                        now,
                    ));
                }
                ObserveEffect { send, resolved: false }
            },
            SessionHandler::SessionPing(_) => {
                let mut send: Vec<Packet> = Vec::new();
                match packet {
                    Packet::ServerSessionSync(p) => {
                        send.push(
                            Packet::ServerSessionSyncResponse(
                                ServerSessionSyncResponse {
                                    client_session_time: now,
                                    server_session_time: p.server_session_time,
                                },
                            ),
                        );
                    },
                    _ => {},
                }
                proof {
                    assert(crate::packets::packet_models(send@) =~= observe_sends(
                        *old(self),
                        packet.model(),
                        now,
                    ));
                }
                ObserveEffect { send, resolved: false }
            },
            SessionHandler::DummyResourceLoader(_) => {
                let mut send: Vec<Packet> = Vec::new();
                match packet {
                    Packet::ResourceLoaderLoadDependencies(p) => {
                        send.push(
                            Packet::ResourceLoaderDependenciesLoaded(
                                ResourceLoaderDependenciesLoaded { callback_id: p.callback_id },
                            ),
                        );
                    },
                    _ => {},
                }
                proof {
                    assert(crate::packets::packet_models(send@) =~= observe_sends(
                        *old(self),
                        packet.model(),
                        now,
                    ));
                }
                ObserveEffect { send, resolved: false }
            },
            SessionHandler::Task(t) => {
                let mut resolved = false;
                if t.result.is_none() && packet.packet_id() == t.match_packet_id {
                    t.result = Some(clone_packet(packet));
                    resolved = true;
                }
                let send: Vec<Packet> = Vec::new();
                proof {
                    assert(crate::packets::packet_models(send@) =~= Seq::<PacketModel>::empty());
                }
                ObserveEffect { send, resolved }
            },
        }
    }
}

/// What a handler's progress step decided.
pub enum HandlerPoll {
    /// Keep the handler registered.
    Keep,
    /// The handler is finished; the registry drops it.
    Ready,
}

impl TaskHandler {
    /// Builds a task that sends `prelude` once and then waits for the first
    /// packet with id `match_packet_id`.
    pub fn new(prelude: Option<Packet>, match_packet_id: u32) -> (r: TaskHandler)
        ensures
            r.prelude == prelude,
            !r.executor_ran,
            r.match_packet_id == match_packet_id,
            r.result is None,
            !r.cancelled,
    {
        TaskHandler {
            prelude,
            executor_ran: false,
            match_packet_id,
            result: None,
            cancelled: false,
        }
    }

    /// One progress step of the task.
    ///
    /// The prelude executor runs exactly once, on the first progress after
    /// registration. A cancelled task, or one whose matcher has produced a
    /// value, reports ready and is dropped by the registry.
    pub fn progress(&mut self) -> (r: (Option<Packet>, HandlerPoll))
        ensures
            final(self).prelude == old(self).prelude,
            final(self).match_packet_id == old(self).match_packet_id,
            final(self).result == old(self).result,
            final(self).cancelled == old(self).cancelled,
            final(self).executor_ran,
            if !old(self).executor_ran && !old(self).cancelled {
                match old(self).prelude {
                    Some(p) => r.0 matches Some(q) && q.model() == p.model(),
                    None => r.0 is None,
                }
            } else {
                r.0 is None
            },
            r.1 is Ready <==> (old(self).cancelled || old(self).result is Some),
    {
        if self.cancelled {
            self.executor_ran = true;
            return (None, HandlerPoll::Ready);
        }
        let mut send: Option<Packet> = None;
        if !self.executor_ran {
            self.executor_ran = true;
            send = match &self.prelude {
                Some(p) => Some(clone_packet(p)),
                None => None,
            };
        }
        if self.result.is_some() {
            (send, HandlerPoll::Ready)
        } else {
            (send, HandlerPoll::Keep)
        }
    }
}

/// One deferred mutation: a registration carries the handler, a removal
/// does not.
pub type PendingOp = (u32, Option<SessionHandler>);

/// A handler list without every entry registered under this id.
pub open spec fn remove_id(hs: Seq<(u32, SessionHandler)>, id: u32) -> Seq<(u32, SessionHandler)>
    decreases hs.len(),
{
    if hs.len() == 0 {
        hs
    } else {
        let rest = remove_id(hs.drop_last(), id);
        if hs.last().0 != id {
            rest.push(hs.last())
        } else {
            rest
        }
    }
}

/// A nonempty list holds an id exactly when its front part does or its last
/// entry carries it.
proof fn lemma_has_handler_split(hs: Seq<(u32, SessionHandler)>, id: u32)
    requires
        hs.len() > 0,
    ensures
        has_handler(hs, id) == (has_handler(hs.drop_last(), id) || hs.last().0 == id),
{
    if has_handler(hs, id) {
        let i = choose|i: int| 0 <= i < hs.len() && (#[trigger] hs[i]).0 == id;
        if i < hs.len() - 1 {
            assert((#[trigger] hs.drop_last()[i]).0 == id);
        }
    }
    if has_handler(hs.drop_last(), id) {
        let i = choose|i: int|
            0 <= i < hs.drop_last().len() && (#[trigger] hs.drop_last()[i]).0 == id;
        assert((#[trigger] hs[i]).0 == id);
    }
    if hs.last().0 == id {
        assert((#[trigger] hs[hs.len() - 1]).0 == id);
    }
}

/// Removing one id leaves no entry under it.
proof fn lemma_remove_id_gone(hs: Seq<(u32, SessionHandler)>, id: u32)
    ensures
        !has_handler(remove_id(hs, id), id),
    decreases hs.len(),
{
    if hs.len() > 0 {
        lemma_remove_id_gone(hs.drop_last(), id);
        let rest = remove_id(hs.drop_last(), id);
        if hs.last().0 != id {
            lemma_has_handler_split(rest.push(hs.last()), id);
            assert(rest.push(hs.last()).drop_last() =~= rest);
        }
    }
}

/// Removing one id does not change whether another id is present.
proof fn lemma_remove_id_foreign(hs: Seq<(u32, SessionHandler)>, removed: u32, id: u32)
    requires
        removed != id,
    ensures
        has_handler(remove_id(hs, removed), id) == has_handler(hs, id),
    decreases hs.len(),
{
    if hs.len() == 0 {
    } else {
        lemma_remove_id_foreign(hs.drop_last(), removed, id);
        lemma_has_handler_split(hs, id);
        let rest = remove_id(hs.drop_last(), removed);
        if hs.last().0 != removed {
            lemma_has_handler_split(rest.push(hs.last()), id);
            assert(rest.push(hs.last()).drop_last() =~= rest);
        } else {
            assert(hs.last().0 != id);
        }
    }
}

/// Applies one deferred mutation to a handler list.
pub open spec fn apply_op(hs: Seq<(u32, SessionHandler)>, op: PendingOp) -> Seq<
    (u32, SessionHandler),
> {
    match op.1 {
        Some(h) => hs.push((op.0, h)),
        None => remove_id(hs, op.0),
    }
}

/// Applies a queue of deferred mutations in order.
pub open spec fn apply_ops(hs: Seq<(u32, SessionHandler)>, ops: Seq<PendingOp>) -> Seq<
    (u32, SessionHandler),
>
    decreases ops.len(),
{
    if ops.len() == 0 {
        hs
    } else {
        apply_ops(apply_op(hs, ops[0]), ops.drop_first())
    }
}

/// Whether a handler list holds an entry with this id.
pub open spec fn has_handler(hs: Seq<(u32, SessionHandler)>, id: u32) -> bool {
    exists|i: int| 0 <= i < hs.len() && (#[trigger] hs[i]).0 == id
}

/// Mutations for other ids neither add nor drop this id's presence.
proof fn lemma_ops_keep_foreign(hs: Seq<(u32, SessionHandler)>, ops: Seq<PendingOp>, id: u32)
    requires
        forall|j: int| 0 <= j < ops.len() ==> (#[trigger] ops[j]).0 != id,
    ensures
        has_handler(apply_ops(hs, ops), id) == has_handler(hs, id),
    decreases ops.len(),
{
    if ops.len() > 0 {
        let hs1 = apply_op(hs, ops[0]);
        assert(has_handler(hs1, id) == has_handler(hs, id)) by {
            match ops[0].1 {
                Some(h) => {
                    lemma_has_handler_split(hs.push((ops[0].0, h)), id);
                    assert(hs.push((ops[0].0, h)).drop_last() =~= hs);
                },
                None => {
                    lemma_remove_id_foreign(hs, ops[0].0, id);
                },
            }
        }
        lemma_ops_keep_foreign(hs1, ops.drop_first(), id);
    }
}

/// A handler registered while the registry was iterated is present after
/// the queue commits, as long as no later queued mutation touches its id:
/// deferral postpones a registration, it never loses one.
pub proof fn lemma_deferred_register_visible(
    hs: Seq<(u32, SessionHandler)>,
    ops: Seq<PendingOp>,
    k: int,
)
    requires
        0 <= k < ops.len(),
        ops[k].1 is Some,
        forall|j: int| k < j < ops.len() ==> (#[trigger] ops[j]).0 != ops[k].0,
    ensures
        has_handler(apply_ops(hs, ops), ops[k].0),
    decreases ops.len(),
{
    if k == 0 {
        let hs1 = apply_op(hs, ops[0]);
        assert(has_handler(hs1, ops[0].0)) by {
            assert((#[trigger] hs1[hs.len() as int]).0 == ops[0].0);
        }
        lemma_ops_keep_foreign(hs1, ops.drop_first(), ops[0].0);
    } else {
        lemma_deferred_register_visible(apply_op(hs, ops[0]), ops.drop_first(), k - 1);
        assert(ops.drop_first()[k - 1] == ops[k]);
    }
}

/// A handler removed while the registry was iterated is gone after the
/// queue commits, as long as no later queued mutation re-registers its id.
pub proof fn lemma_deferred_remove_final(
    hs: Seq<(u32, SessionHandler)>,
    ops: Seq<PendingOp>,
    k: int,
)
    requires
        0 <= k < ops.len(),
        ops[k].1 is None,
        forall|j: int| k < j < ops.len() ==> (#[trigger] ops[j]).0 != ops[k].0,
    ensures
        !has_handler(apply_ops(hs, ops), ops[k].0),
    decreases ops.len(),
{
    if k == 0 {
        let id = ops[0].0;
        let hs1 = apply_op(hs, ops[0]);
        assert(!has_handler(hs1, id)) by {
            lemma_remove_id_gone(hs, id);
        }
        lemma_ops_keep_foreign(hs1, ops.drop_first(), id);
    } else {
        lemma_deferred_remove_final(apply_op(hs, ops[0]), ops.drop_first(), k - 1);
        assert(ops.drop_first()[k - 1] == ops[k]);
    }
}

/// Drops every entry registered under this id from the list, keeping the
/// order of the rest.
fn remove_entries(handlers: &mut Vec<(u32, SessionHandler)>, id: u32)
    ensures
        final(handlers)@ == remove_id(old(handlers)@, id),
{
    let ghost hs = old(handlers)@;
    let mut kept: Vec<(u32, SessionHandler)> = Vec::new();
    while handlers.len() > 0
        invariant
            handlers@.len() <= hs.len(),
            handlers@ =~= hs.skip(hs.len() - handlers@.len()),
            kept@ == remove_id(hs.take(hs.len() - handlers@.len()), id),
        decreases handlers@.len(),
    {
        let ghost k = hs.len() - handlers@.len();
        let entry = handlers.remove(0);
        if entry.0 != id {
            kept.push(entry);
        }
        proof {
            assert(entry == hs[k]);
            assert(handlers@ =~= hs.skip(k + 1));
            assert(hs.take(k + 1).drop_last() =~= hs.take(k));
            assert(hs.take(k + 1).last() == hs[k]);
            assert(kept@ == remove_id(hs.take(k + 1), id));
        }
    }
    proof {
        assert(hs.take(hs.len() as int) =~= hs);
    }
    core::mem::swap(handlers, &mut kept);
}

/// The registry of packet handlers: a list in registration order, a
/// monotonic id counter, and the queue of mutations deferred while the list
/// is being iterated.
pub struct PacketHandlerRegistry {
    handlers: Vec<(u32, SessionHandler)>,
    handler_index: u32,
    iterating: bool,
    pending: Vec<(u32, Option<SessionHandler>)>,
}

impl PacketHandlerRegistry {
    /// The registered handlers, in registration order.
    pub closed spec fn spec_handlers(&self) -> Seq<(u32, SessionHandler)> {
        self.handlers@
    }

    /// The mutations deferred while iterating.
    pub closed spec fn spec_pending(&self) -> Seq<PendingOp> {
        self.pending@
    }

    /// Whether the list is currently being iterated.
    pub closed spec fn spec_iterating(&self) -> bool {
        self.iterating
    }

    /// The last id handed out.
    pub closed spec fn spec_index(&self) -> u32 {
        self.handler_index
    }

    /// Outside an iteration the queue is empty; the id counter has not
    /// wrapped around.
    pub open spec fn wf(&self) -> bool {
        &&& (!self.spec_iterating() ==> self.spec_pending().len() == 0)
        &&& self.spec_index() < u32::MAX
    }

    pub fn new() -> (r: PacketHandlerRegistry)
        ensures
            r.wf(),
            r.spec_handlers() == Seq::<(u32, SessionHandler)>::empty(),
            r.spec_pending() == Seq::<PendingOp>::empty(),
            !r.spec_iterating(),
            r.spec_index() == 0,
    {
        PacketHandlerRegistry {
            handlers: Vec::new(),
            handler_index: 0,
            iterating: false,
            pending: Vec::new(),
        }
    }

    /// How many handlers are registered.
    pub fn handler_count(&self) -> (r: usize)
        ensures
            r == self.spec_handlers().len(),
    {
        self.handlers.len()
    }

    /// Registers a handler under a fresh monotonic id. While the list is
    /// iterated the insertion is deferred, so the running dispatch never
    /// observes the new handler; it is committed when the iteration ends.
    pub fn register_handler(&mut self, handler: SessionHandler) -> (id: u32)
        requires
            old(self).wf(),
            old(self).spec_index() < u32::MAX - 1,
        ensures
            final(self).wf(),
            id == old(self).spec_index() + 1,
            final(self).spec_index() == id,
            final(self).spec_iterating() == old(self).spec_iterating(),
            old(self).spec_iterating() ==> {
                &&& final(self).spec_handlers() == old(self).spec_handlers()
                &&& final(self).spec_pending() == old(self).spec_pending().push(
                    (id, Some(handler)),
                )
            },
            !old(self).spec_iterating() ==> {
                &&& final(self).spec_handlers() == old(self).spec_handlers().push((id, handler))
                &&& final(self).spec_pending() == old(self).spec_pending()
            },
    {
        let id = self.handler_index + 1;
        self.handler_index = id;
        if self.iterating {
            self.pending.push((id, Some(handler)));
        } else {
            self.handlers.push((id, handler));
        }
        id
    }

    /// Removes the handler with this id. While the list is iterated the
    /// removal is deferred, so the running dispatch still observes the
    /// handler for the current packet; it is gone once the queue commits.
    pub fn remove_handler(&mut self, handler_id: u32)
        requires
            old(self).wf(),
        ensures
            final(self).wf(),
            final(self).spec_index() == old(self).spec_index(),
            final(self).spec_iterating() == old(self).spec_iterating(),
            old(self).spec_iterating() ==> {
                &&& final(self).spec_handlers() == old(self).spec_handlers()
                &&& final(self).spec_pending() == old(self).spec_pending().push(
                    (handler_id, None),
                )
            },
            !old(self).spec_iterating() ==> {
                &&& final(self).spec_handlers() == remove_id(old(self).spec_handlers(), handler_id)
                &&& final(self).spec_pending() == old(self).spec_pending()
            },
    {
        if self.iterating {
            self.pending.push((handler_id, None));
            return ;
        }
        remove_entries(&mut self.handlers, handler_id);
    }

    /// Takes the handler list out for iteration and locks the registry:
    /// every mutation until `end_iteration` goes to the queue.
    pub fn begin_iteration(&mut self) -> (snapshot: Vec<(u32, SessionHandler)>)
        requires
            old(self).wf(),
            !old(self).spec_iterating(),
        ensures
            final(self).wf(),
            final(self).spec_iterating(),
            snapshot@ == old(self).spec_handlers(),
            final(self).spec_handlers() == Seq::<(u32, SessionHandler)>::empty(),
            final(self).spec_pending() == Seq::<PendingOp>::empty(),
            final(self).spec_index() == old(self).spec_index(),
    {
        self.iterating = true;
        let mut snapshot: Vec<(u32, SessionHandler)> = Vec::new();
        core::mem::swap(&mut snapshot, &mut self.handlers);
        snapshot
    }

    /// Puts the (possibly rewritten) handler list back, commits the deferred
    /// queue in order, and unlocks the registry.
    pub fn end_iteration(&mut self, rewritten: Vec<(u32, SessionHandler)>)
        requires
            old(self).wf(),
            old(self).spec_iterating(),
        ensures
            final(self).wf(),
            !final(self).spec_iterating(),
            final(self).spec_handlers() == apply_ops(rewritten@, old(self).spec_pending()),
            final(self).spec_pending() == Seq::<PendingOp>::empty(),
            final(self).spec_index() == old(self).spec_index(),
    {
        self.handlers = rewritten;
        self.iterating = false;
        let mut ops: Vec<(u32, Option<SessionHandler>)> = Vec::new();
        core::mem::swap(&mut ops, &mut self.pending);
        let ghost all_ops = ops@;
        let ghost target = apply_ops(rewritten@, all_ops);
        while ops.len() > 0
            invariant
                ops@.len() <= all_ops.len(),
                ops@ =~= all_ops.skip(all_ops.len() - ops@.len()),
                !self.iterating,
                self.pending@ == Seq::<PendingOp>::empty(),
                self.handler_index == old(self).handler_index,
                apply_ops(self.handlers@, ops@) == target,
            decreases ops@.len(),
        {
            let ghost before = ops@;
            let ghost hs_before = self.handlers@;
            let op = ops.remove(0);
            proof {
                assert(before[0] == op);
                assert(ops@ =~= before.drop_first());
                assert(apply_ops(hs_before, before) == apply_ops(
                    apply_op(hs_before, op),
                    before.drop_first(),
                ));
            }
            match op.1 {
                Some(h) => {
                    self.handlers.push((op.0, h));
                    proof {
                        assert(self.handlers@ == apply_op(hs_before, op));
                    }
                },
                None => {
                    remove_entries(&mut self.handlers, op.0);
                    proof {
                        assert(self.handlers@ == apply_op(hs_before, op));
                    }
                },
            }
        }
    }
}

} // verus!
