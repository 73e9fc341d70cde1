//! The per-client resource loading pipeline: batches of resources are
//! registered with the client one at a time, each described by a JSON
//! document and acknowledged through a callback id.
//!
//! At most one registration is in flight; when it is acknowledged the next
//! enqueued batch goes out. The JSON documents are prepared outside the
//! core, from the stage lists of the server's resource registry.

use vstd::prelude::*;

use crate::error::ProtocolError;
use crate::packets::{Packet, PacketModel, ResourceLoaderRegisterResources};
use crate::resources::ResourceStage;

verus! {

/// Where one load request stands.
#[derive(Debug)]
pub enum LoadRequestState {
    /// Waiting for its turn; holds the document to send.
    Enqueued(String),
    /// Sent to the client, not yet acknowledged.
    Pending,
    /// Acknowledged by the client.
    Finished,
}

/// The mathematical shape of a request state.
pub enum LoadStateModel {
    Enqueued(Seq<char>),
    Pending,
    Finished,
}

/// The model of one request state.
pub open spec fn load_state_model(st: LoadRequestState) -> LoadStateModel {
    match st {
        LoadRequestState::Enqueued(json) => LoadStateModel::Enqueued(json@),
        LoadRequestState::Pending => LoadStateModel::Pending,
        LoadRequestState::Finished => LoadStateModel::Finished,
    }
}

/// One batch of resources to register with the client.
#[derive(Debug)]
pub struct LoadRequest {
    pub id: u32,
    pub stage: ResourceStage,
    pub state: LoadRequestState,
}

/// A request as contracts see it.
pub struct LoadRequestModel {
    pub id: u32,
    pub stage: ResourceStage,
    pub state: LoadStateModel,
}

/// The models of a request list, in order.
pub open spec fn requests_model(rs: Seq<LoadRequest>) -> Seq<LoadRequestModel> {
    Seq::new(
        rs.len(),
        |i: int| LoadRequestModel { id: rs[i].id, stage: rs[i].stage, state: load_state_model(rs[i].state) },
    )
}

/// The first request still waiting for its turn, if any.
pub open spec fn first_enqueued(rs: Seq<LoadRequestModel>) -> Option<int>
    decreases rs.len(),
{
    if rs.len() == 0 {
        None
    } else if rs[0].state is Enqueued {
        Some(0int)
    } else {
        match first_enqueued(rs.drop_first()) {
            Some(i) => Some(i + 1),
            None => None,
        }
    }
}

/// The first request registered under a callback id, if any.
pub open spec fn find_request(rs: Seq<LoadRequestModel>, id: u32) -> Option<int>
    decreases rs.len(),
{
    if rs.len() == 0 {
        None
    } else if rs[0].id == id {
        Some(0int)
    } else {
        match find_request(rs.drop_first(), id) {
            Some(i) => Some(i + 1),
            None => None,
        }
    }
}

/// Drives the client's resource loading, one batch in flight at a time.
pub struct ClientResources {
    requests: Vec<LoadRequest>,
    request_id: u32,
    request_pending: bool,
}

impl ClientResources {
    /// The requests, as models, in creation order.
    pub closed spec fn spec_requests(&self) -> Seq<LoadRequestModel> {
        requests_model(self.requests@)
    }

    /// The last callback id handed out.
    pub closed spec fn spec_request_id(&self) -> u32 {
        self.request_id
    }

    /// Whether a registration is in flight.
    pub closed spec fn spec_request_pending(&self) -> bool {
        self.request_pending
    }

    /// While nothing is in flight, nothing waits either: every state change
    /// immediately sends the next enqueued batch.
    pub open spec fn wf(&self) -> bool {
        !self.spec_request_pending() ==> first_enqueued(self.spec_requests()) is None
    }

    pub fn new() -> (r: ClientResources)
        ensures
            r.wf(),
            r.spec_requests() == Seq::<LoadRequestModel>::empty(),
            r.spec_request_id() == 0,
            !r.spec_request_pending(),
    {
        let r = ClientResources { requests: Vec::new(), request_id: 0, request_pending: false };
        proof {
            assert(r.spec_requests() =~= Seq::<LoadRequestModel>::empty());
        }
        r
    }

    /// Whether the batch for a stage has been acknowledged.
    pub fn resources_loaded(&self, stage: ResourceStage) -> (r: bool)
        ensures
            r == exists|i: int|
                0 <= i < self.spec_requests().len() && (#[trigger] self.spec_requests()[i]).stage
                    == stage && self.spec_requests()[i].state is Finished,
    {
        let mut i: usize = 0;
        while i < self.requests.len()
            invariant
                i <= self.requests@.len(),
                forall|j: int|
                    0 <= j < i ==> !((#[trigger] self.spec_requests()[j]).stage == stage
                        && self.spec_requests()[j].state is Finished),
            decreases self.requests@.len() - i,
        {
            let finished = match &self.requests[i].state {
                LoadRequestState::Finished => true,
                _ => false,
            };
            if finished && self.requests[i].stage == stage {
                proof {
                    assert((self.spec_requests()[i as int]).stage == stage
                        && self.spec_requests()[i as int].state is Finished);
                }
                return true;
            }
            i = i + 1;
        }
        false
    }

    /// Enqueues the batch for a stage, described by the given document, and
    /// sends it at once when nothing else is in flight. Hands back the
    /// batch's callback id and the registration packet, if one went out.
    pub fn enqueue_load_request(&mut self, stage: ResourceStage, json: String) -> (r: (
        u32,
        Option<Packet>,
    ))
        requires
            old(self).wf(),
            old(self).spec_request_id() < u32::MAX,
        ensures
            final(self).wf(),
            r.0 == old(self).spec_request_id() + 1,
            final(self).spec_request_id() == r.0,
            final(self).spec_requests().len() == old(self).spec_requests().len() + 1,
            forall|i: int|
                0 <= i < old(self).spec_requests().len() ==> #[trigger] final(self).spec_requests()[i]
                    == old(self).spec_requests()[i],
            final(self).spec_requests().last().id == r.0,
            final(self).spec_requests().last().stage == stage,
            if old(self).spec_request_pending() {
                &&& final(self).spec_requests().last().state == LoadStateModel::Enqueued(json@)
                &&& r.1 is None
                &&& final(self).spec_request_pending()
            } else {
                &&& final(self).spec_requests().last().state is Pending
                &&& r.1 matches Some(p) && p.model()
                    == PacketModel::ResourceLoaderRegisterResources(r.0 as i32, json@)
                &&& final(self).spec_request_pending()
            },
    {
        self.request_id = self.request_id + 1;
        let request_id = self.request_id;
        let ghost before = self.spec_requests();
        if self.request_pending {
            self.requests.push(
                LoadRequest { id: request_id, stage, state: LoadRequestState::Enqueued(json) },
            );
            proof {
                assert(self.spec_requests().drop_last() =~= before);
            }
            (request_id, None)
        } else {
            // Nothing waits and nothing is in flight: this batch goes out
            // right away.
            let packet = Packet::ResourceLoaderRegisterResources(
                ResourceLoaderRegisterResources {
                    callback_id: request_id as i32,
                    json,
                },
            );
            self.requests.push(
                LoadRequest { id: request_id, stage, state: LoadRequestState::Pending },
            );
            self.request_pending = true;
            proof {
                assert(self.spec_requests().drop_last() =~= before);
            }
            (request_id, Some(packet))
        }
    }

    /// Reacts to one inbound packet: the acknowledgement of the in-flight
    /// batch finishes it and sends the next enqueued one. An acknowledgement
    /// for an unknown callback id, or for a batch that is not in flight, is
    /// a protocol violation.
    pub fn on_packet(&mut self, packet: &Packet) -> (r: Result<Option<Packet>, ProtocolError>)
        requires
            old(self).wf(),
        ensures
            final(self).wf(),
            final(self).spec_request_id() == old(self).spec_request_id(),
            match packet {
                Packet::ResourceLoaderResourcesRegistered(p) => match find_request(
                    old(self).spec_requests(),
                    p.callback_id as u32,
                ) {
                    Some(i) => if old(self).spec_requests()[i].state is Pending {
                        &&& r is Ok
                        &&& final(self).spec_requests()[i].state is Finished
                        &&& final(self).spec_requests().len() == old(self).spec_requests().len()
                    } else {
                        &&& r is Err
                        &&& final(self).spec_requests() == old(self).spec_requests()
                    },
                    None => r is Err && final(self).spec_requests() == old(self).spec_requests(),
                },
                _ => r == Ok::<Option<Packet>, ProtocolError>(None) && final(self).spec_requests()
                    == old(self).spec_requests(),
            },
    {
        let callback_id = match packet {
            Packet::ResourceLoaderResourcesRegistered(p) => p.callback_id as u32,
            _ => {
                return Ok(None);
            },
        };
        let index = match self.find_request_index(callback_id) {
            Some(i) => i,
            None => {
                return Err(ProtocolError::GenericError);
            },
        };
        let pending = match &self.requests[index].state {
            LoadRequestState::Pending => true,
            _ => false,
        };
        if !pending {
            return Err(ProtocolError::GenericError);
        }
        let ghost before = self.spec_requests();
        let id = self.requests[index].id;
        let stage = self.requests[index].stage;
        self.requests.set(index, LoadRequest { id, stage, state: LoadRequestState::Finished });
        self.request_pending = false;
        proof {
            assert(forall|j: int|
                0 <= j < before.len() && j != index ==> (#[trigger] self.spec_requests()[j]).state
                    == before[j].state);
        }
        let ghost mid = self.spec_requests();
        let sent = self.try_send_next_load_request();
        proof {
            lemma_first_enqueued_props(mid);
        }
        Ok(sent)
    }

    /// Sends the first enqueued batch when nothing is in flight.
    pub fn try_send_next_load_request(&mut self) -> (r: Option<Packet>)
        ensures
            final(self).wf(),
            final(self).spec_request_id() == old(self).spec_request_id(),
            final(self).spec_requests().len() == old(self).spec_requests().len(),
            old(self).spec_request_pending() ==> r is None && final(self).spec_requests() == old(
                self,
            ).spec_requests() && final(self).spec_request_pending(),
            !old(self).spec_request_pending() ==> match first_enqueued(
                old(self).spec_requests(),
            ) {
                Some(i) => {
                    &&& r matches Some(p) && (old(self).spec_requests()[i].state matches
                        LoadStateModel::Enqueued(json) ==> p.model()
                        == PacketModel::ResourceLoaderRegisterResources(
                        old(self).spec_requests()[i].id as i32,
                        json,
                    ))
                    &&& final(self).spec_requests()[i].state is Pending
                    &&& final(self).spec_requests()[i].id == old(self).spec_requests()[i].id
                    &&& final(self).spec_requests()[i].stage == old(self).spec_requests()[i].stage
                    &&& forall|j: int|
                        0 <= j < old(self).spec_requests().len() && j != i
                            ==> #[trigger] final(self).spec_requests()[j] == old(
                            self,
                        ).spec_requests()[j]
                    &&& final(self).spec_request_pending()
                },
                None => r is None && final(self).spec_requests() == old(self).spec_requests()
                    && !final(self).spec_request_pending(),
            },
    {
        if self.request_pending {
            return None;
        }
        let ghost before = self.spec_requests();
        let mut i: usize = 0;
        while i < self.requests.len()
            invariant
                i <= self.requests@.len(),
                self.spec_requests() == before,
                before == old(self).spec_requests(),
                !old(self).spec_request_pending(),
                self.request_id == old(self).request_id,
                !self.request_pending,
                forall|j: int| 0 <= j < i ==> !((#[trigger] before[j]).state is Enqueued),
            decreases self.requests@.len() - i,
        {
            let json = match &self.requests[i].state {
                LoadRequestState::Enqueued(json) => Some(json.clone()),
                _ => None,
            };
            match json {
                Some(json) => {
                    proof {
                        lemma_first_enqueued_here(before, i as int);
                    }
                    let id = self.requests[i].id;
                    let stage = self.requests[i].stage;
                    self.requests.set(
                        i,
                        LoadRequest { id, stage, state: LoadRequestState::Pending },
                    );
                    self.request_pending = true;
                    proof {
                        assert(forall|j: int|
                            0 <= j < before.len() && j != i ==> (#[trigger] self.spec_requests()[j])
                                == before[j]);
                    }
                    return Some(
                        Packet::ResourceLoaderRegisterResources(
                            ResourceLoaderRegisterResources { callback_id: id as i32, json },
                        ),
                    );
                },
                None => {},
            }
            i = i + 1;
        }
        proof {
            lemma_first_enqueued_none(before);
        }
        None
    }

    /// The index of the first request under a callback id, if any.
    fn find_request_index(&self, id: u32) -> (r: Option<usize>)
        ensures
            match r {
                Some(i) => {
                    &&& find_request(self.spec_requests(), id) == Some(i as int)
                    &&& i < self.spec_requests().len()
                    &&& self.spec_requests()[i as int].id == id
                },
                None => find_request(self.spec_requests(), id) is None,
            },
    {
        let ghost rs = self.spec_requests();
        let mut i: usize = 0;
        while i < self.requests.len()
            invariant
                i <= self.requests@.len(),
                rs == self.spec_requests(),
                forall|j: int| 0 <= j < i ==> (#[trigger] rs[j]).id != id,
            decreases self.requests@.len() - i,
        {
            if self.requests[i].id == id {
                proof {
                    lemma_find_request_here(rs, id, i as int);
                }
                return Some(i);
            }
            i = i + 1;
        }
        proof {
            lemma_find_request_none(rs, id);
        }
        None
    }
}

/// The first enqueued index names an enqueued entry inside the list.
proof fn lemma_first_enqueued_props(rs: Seq<LoadRequestModel>)
    ensures
        first_enqueued(rs) matches Some(i) ==> 0 <= i < rs.len() && rs[i].state is Enqueued,
    decreases rs.len(),
{
    if rs.len() > 0 && !(rs[0].state is Enqueued) {
        lemma_first_enqueued_props(rs.drop_first());
    }
}

/// When every entry before `k` is not enqueued and entry `k` is, `k` is the
/// first enqueued index.
proof fn lemma_first_enqueued_here(rs: Seq<LoadRequestModel>, k: int)
    requires
        0 <= k < rs.len(),
        rs[k].state is Enqueued,
        forall|j: int| 0 <= j < k ==> !((#[trigger] rs[j]).state is Enqueued),
    ensures
        first_enqueued(rs) == Some(k),
    decreases k,
{
    if k == 0 {
    } else {
        assert(rs.drop_first()[k - 1].state is Enqueued);
        assert(forall|j: int|
            0 <= j < k - 1 ==> !((#[trigger] rs.drop_first()[j]).state is Enqueued));
        lemma_first_enqueued_here(rs.drop_first(), k - 1);
    }
}

/// When no entry is enqueued, there is no first enqueued index.
proof fn lemma_first_enqueued_none(rs: Seq<LoadRequestModel>)
    requires
        forall|j: int| 0 <= j < rs.len() ==> !((#[trigger] rs[j]).state is Enqueued),
    ensures
        first_enqueued(rs) is None,
    decreases rs.len(),
{
    if rs.len() > 0 {
        assert(forall|j: int|
            0 <= j < rs.len() - 1 ==> !((#[trigger] rs.drop_first()[j]).state is Enqueued));
        lemma_first_enqueued_none(rs.drop_first());
    }
}

/// When every entry before `k` has another id and entry `k` has this one,
/// `k` is the first index under the id.
proof fn lemma_find_request_here(rs: Seq<LoadRequestModel>, id: u32, k: int)
    requires
        0 <= k < rs.len(),
        rs[k].id == id,
        forall|j: int| 0 <= j < k ==> (#[trigger] rs[j]).id != id,
    ensures
        find_request(rs, id) == Some(k),
    decreases k,
{
    if k == 0 {
    } else {
        assert(rs.drop_first()[k - 1].id == id);
        assert(forall|j: int| 0 <= j < k - 1 ==> (#[trigger] rs.drop_first()[j]).id != id);
        lemma_find_request_here(rs.drop_first(), id, k - 1);
    }
}

/// When no entry carries the id, there is no index under it.
proof fn lemma_find_request_none(rs: Seq<LoadRequestModel>, id: u32)
    requires
        forall|j: int| 0 <= j < rs.len() ==> (#[trigger] rs[j]).id != id,
    ensures
        find_request(rs, id) is None,
    decreases rs.len(),
{
    if rs.len() > 0 {
        assert(forall|j: int| 0 <= j < rs.len() - 1 ==> (#[trigger] rs.drop_first()[j]).id != id);
        lemma_find_request_none(rs.drop_first(), id);
    }
}

} // verus!
