//! The server-side captcha provider: which locations require a captcha,
//! which are solved, and the packets exchanged to ask and answer.
//!
//! The provider never reads assets itself; the caller hands it the captcha
//! image and the expected code, and it hands back the packets to send.

use vstd::prelude::*;

use crate::custom::CaptchaLocation;
use crate::handler::clone_bytes;
use crate::packets::{
    CaptchaCaptchaFailed, CaptchaCaptchaValidated, CaptchaParameters, CaptchaShow, Packet,
};

verus! {

/// Where one location stands.
#[derive(Debug)]
pub enum SolveState {
    /// A captcha is required but none has been issued.
    Invalid,
    /// A captcha was issued; this is the code that solves it.
    Pending(String),
    /// The issued captcha was solved.
    Solved,
}

/// The mathematical shape of a solve state: the pending code as characters.
pub enum SolveStateModel {
    Invalid,
    Pending(Seq<char>),
    Solved,
}

/// The model of one solve state.
pub open spec fn solve_model(st: SolveState) -> SolveStateModel {
    match st {
        SolveState::Invalid => SolveStateModel::Invalid,
        SolveState::Pending(code) => SolveStateModel::Pending(code@),
        SolveState::Solved => SolveStateModel::Solved,
    }
}

/// The provider's state as contracts see it: location and state, in order.
pub type CaptchaStates = Seq<(CaptchaLocation, SolveStateModel)>;

/// The models of the stored states, in order.
pub open spec fn states_model(s: Seq<(CaptchaLocation, SolveState)>) -> CaptchaStates {
    Seq::new(s.len(), |i: int| (s[i].0, solve_model(s[i].1)))
}

/// The state stored for a location: the first entry under the key.
pub open spec fn lookup(m: CaptchaStates, loc: CaptchaLocation) -> Option<SolveStateModel>
    decreases m.len(),
{
    if m.len() == 0 {
        None
    } else if m[0].0 == loc {
        Some(m[0].1)
    } else {
        lookup(m.drop_first(), loc)
    }
}

/// The states without every entry under the key, keeping the rest in order.
pub open spec fn remove_key(m: CaptchaStates, loc: CaptchaLocation) -> CaptchaStates
    decreases m.len(),
{
    if m.len() == 0 {
        m
    } else {
        let rest = remove_key(m.drop_last(), loc);
        if m.last().0 == loc {
            rest
        } else {
            rest.push(m.last())
        }
    }
}

/// Setting a key: every old entry under it is dropped and the new state is
/// appended.
pub open spec fn set_key(m: CaptchaStates, loc: CaptchaLocation, st: SolveStateModel)
    -> CaptchaStates {
    remove_key(m, loc).push((loc, st))
}

/// Issues captchas per location and tracks their solve states.
pub struct CaptchaProvider {
    client_initialized: bool,
    solve_states: Vec<(CaptchaLocation, SolveState)>,
}

impl CaptchaProvider {
    /// The stored states, as models.
    pub closed spec fn spec_states(&self) -> CaptchaStates {
        states_model(self.solve_states@)
    }

    /// Whether the initial captcha parameters were already sent.
    pub closed spec fn spec_client_initialized(&self) -> bool {
        self.client_initialized
    }

    /// A fresh provider: captchas are required for registration and client
    /// startup, and nothing has been issued yet.
    pub fn new() -> (r: CaptchaProvider)
        ensures
            !r.spec_client_initialized(),
            r.spec_states() == seq![
                (CaptchaLocation::RegisterForm, SolveStateModel::Invalid),
                (CaptchaLocation::ClientStartup, SolveStateModel::Invalid),
            ],
    {
        let mut solve_states: Vec<(CaptchaLocation, SolveState)> = Vec::new();
        solve_states.push((CaptchaLocation::RegisterForm, SolveState::Invalid));
        solve_states.push((CaptchaLocation::ClientStartup, SolveState::Invalid));
        let r = CaptchaProvider { client_initialized: false, solve_states };
        proof {
            assert(r.spec_states() =~= seq![
                (CaptchaLocation::RegisterForm, SolveStateModel::Invalid),
                (CaptchaLocation::ClientStartup, SolveStateModel::Invalid),
            ]);
        }
        r
    }

    /// Replaces whatever is stored for a location.
    fn set_state(&mut self, location: CaptchaLocation, state: SolveState)
        ensures
            final(self).spec_states() == set_key(
                old(self).spec_states(),
                location,
                solve_model(state),
            ),
            final(self).spec_client_initialized() == old(self).spec_client_initialized(),
    {
        let ghost hs = self.solve_states@;
        let mut kept: Vec<(CaptchaLocation, SolveState)> = Vec::new();
        while self.solve_states.len() > 0
            invariant
                self.solve_states@.len() <= hs.len(),
                self.solve_states@ =~= hs.skip(hs.len() - self.solve_states@.len()),
                states_model(kept@) == remove_key(
                    states_model(hs.take(hs.len() - self.solve_states@.len())),
                    location,
                ),
                self.client_initialized == old(self).client_initialized,
            decreases self.solve_states@.len(),
        {
            let ghost k = hs.len() - self.solve_states@.len();
            let entry = self.solve_states.remove(0);
            let keep = entry.0 != location;
            if keep {
                kept.push(entry);
            }
            proof {
                assert(entry == hs[k]);
                assert(self.solve_states@ =~= hs.skip(k + 1));
                assert(states_model(hs.take(k + 1)).drop_last() =~= states_model(hs.take(k)));
                assert(states_model(hs.take(k + 1)).last() == (hs[k].0, solve_model(hs[k].1)));
                assert(states_model(kept@) =~= remove_key(
                    states_model(hs.take(k + 1)),
                    location,
                ));
            }
        }
        kept.push((location, state));
        self.solve_states = kept;
        proof {
            assert(hs.take(hs.len() as int) =~= hs);
            assert(states_model(hs.take(hs.len() as int)) =~= states_model(hs));
            assert(self.spec_states() =~= set_key(states_model(hs), location, solve_model(state)));
        }
    }

    /// Requires a captcha for a location; whatever was issued is discarded.
    pub fn require_for(&mut self, location: CaptchaLocation)
        ensures
            final(self).spec_states() == set_key(
                old(self).spec_states(),
                location,
                SolveStateModel::Invalid,
            ),
            final(self).spec_client_initialized() == old(self).spec_client_initialized(),
    {
        self.set_state(location, SolveState::Invalid);
    }

    /// Whether a captcha is required for a location.
    pub fn required_for(&self, location: CaptchaLocation) -> (r: bool)
        ensures
            r == (lookup(self.spec_states(), location) is Some),
    {
        proof {
            assert(self.spec_states().skip(0) =~= self.spec_states());
        }
        let mut i: usize = 0;
        while i < self.solve_states.len()
            invariant
                i <= self.solve_states@.len(),
                lookup(self.spec_states(), location) is Some <==> lookup(
                    self.spec_states().skip(i as int),
                    location,
                ) is Some,
            decreases self.solve_states@.len() - i,
        {
            proof {
                assert(self.spec_states().skip(i as int)[0] == self.spec_states()[i as int]);
                assert(self.spec_states().skip(i as int).drop_first() =~= self.spec_states().skip(
                    i + 1,
                ));
            }
            if self.solve_states[i].0 == location {
                return true;
            }
            i = i + 1;
        }
        false
    }

    /// Tests whether the captcha for a location has been solved, and
    /// invalidates it so that one solve answers one challenge. A location
    /// that requires no captcha counts as solved.
    pub fn solved_for(&mut self, location: CaptchaLocation) -> (r: bool)
        ensures
            r == match lookup(old(self).spec_states(), location) {
                None => true,
                Some(st) => st is Solved,
            },
            final(self).spec_client_initialized() == old(self).spec_client_initialized(),
            match lookup(old(self).spec_states(), location) {
                Some(st) => if st is Solved {
                    final(self).spec_states() == set_key(
                        old(self).spec_states(),
                        location,
                        SolveStateModel::Invalid,
                    )
                } else {
                    final(self).spec_states() == old(self).spec_states()
                },
                None => final(self).spec_states() == old(self).spec_states(),
            },
    {
        match self.find_state(location) {
            None => true,
            Some(i) => {
                let solved = match &self.solve_states[i].1 {
                    SolveState::Solved => true,
                    _ => false,
                };
                if solved {
                    self.invalidate_for(location);
                    true
                } else {
                    false
                }
            },
        }
    }

    /// Invalidates whatever is stored for a location; a location that
    /// requires no captcha stays untouched.
    pub fn invalidate_for(&mut self, location: CaptchaLocation)
        ensures
            final(self).spec_client_initialized() == old(self).spec_client_initialized(),
            match lookup(old(self).spec_states(), location) {
                Some(_) => final(self).spec_states() == set_key(
                    old(self).spec_states(),
                    location,
                    SolveStateModel::Invalid,
                ),
                None => final(self).spec_states() == old(self).spec_states(),
            },
    {
        match self.find_state(location) {
            Some(_) => {
                self.set_state(location, SolveState::Invalid);
            },
            None => {},
        }
    }

    /// The index of the first entry for a location, if any.
    fn find_state(&self, location: CaptchaLocation) -> (r: Option<usize>)
        ensures
            match r {
                Some(i) => {
                    &&& i < self.spec_states().len()
                    &&& self.spec_states()[i as int].0 == location
                    &&& lookup(self.spec_states(), location) == Some(
                        self.spec_states()[i as int].1,
                    )
                },
                None => lookup(self.spec_states(), location) is None,
            },
    {
        proof {
            assert(self.spec_states().skip(0) =~= self.spec_states());
        }
        let mut i: usize = 0;
        while i < self.solve_states.len()
            invariant
                i <= self.solve_states@.len(),
                lookup(self.spec_states(), location) == lookup(
                    self.spec_states().skip(i as int),
                    location,
                ),
                forall|j: int| 0 <= j < i ==> (#[trigger] self.spec_states()[j]).0 != location,
            decreases self.solve_states@.len() - i,
        {
            proof {
                assert(self.spec_states().skip(i as int)[0] == self.spec_states()[i as int]);
                assert(self.spec_states().skip(i as int).drop_first() =~= self.spec_states().skip(
                    i + 1,
                ));
            }
            if self.solve_states[i].0 == location {
                return Some(i);
            }
            i = i + 1;
        }
        None
    }

    /// Issues a fresh captcha for a location and remembers its code: sends
    /// the image as a first challenge or as a replacement for a failed one.
    pub fn send_new_captcha(
        &mut self,
        location: CaptchaLocation,
        is_show: bool,
        captcha_data: &Vec<u8>,
        code: String,
    ) -> (r: Packet)
        ensures
            final(self).spec_states() == set_key(
                old(self).spec_states(),
                location,
                SolveStateModel::Pending(code@),
            ),
            final(self).spec_client_initialized() == old(self).spec_client_initialized(),
            is_show ==> r.model() == crate::packets::PacketModel::CaptchaShow(
                location,
                captcha_data@,
            ),
            !is_show ==> r.model() == crate::packets::PacketModel::CaptchaCaptchaFailed(
                location,
                captcha_data@,
            ),
    {
        let data = clone_bytes(captcha_data);
        let packet = if is_show {
            Packet::CaptchaShow(CaptchaShow { location, captcha_data: data })
        } else {
            Packet::CaptchaCaptchaFailed(CaptchaCaptchaFailed { location, new_captcha: data })
        };
        self.set_state(location, SolveState::Pending(code));
        proof {
            assert(crate::codec::models_of(captcha_data@) =~= captcha_data@);
        }
        packet
    }

    /// Reacts to one inbound packet: a request for a captcha issues one, a
    /// solve attempt is checked against the stored code and answered with
    /// either a validation or a fresh challenge.
    pub fn on_packet(
        &mut self,
        packet: &Packet,
        captcha_data: &Vec<u8>,
        code: String,
    ) -> (r: Vec<Packet>)
        ensures
            final(self).spec_client_initialized() == old(self).spec_client_initialized(),
            match packet {
                Packet::CaptchaRequestLocation(p) => {
                    &&& final(self).spec_states() == set_key(
                        old(self).spec_states(),
                        p.location,
                        SolveStateModel::Pending(code@),
                    )
                    &&& r@.len() == 1
                    &&& r@[0].model() == crate::packets::PacketModel::CaptchaShow(
                        p.location,
                        captcha_data@,
                    )
                },
                Packet::CaptchaValidateCaptcha(p) => match lookup(
                    old(self).spec_states(),
                    p.location,
                ) {
                    None => {
                        &&& final(self).spec_states() == old(self).spec_states()
                        &&& r@.len() == 1
                        &&& r@[0].model() == crate::packets::PacketModel::CaptchaCaptchaValidated(
                            p.location,
                        )
                    },
                    Some(st) => match st {
                        SolveStateModel::Invalid => {
                            &&& final(self).spec_states() == set_key(
                                old(self).spec_states(),
                                p.location,
                                SolveStateModel::Pending(code@),
                            )
                            &&& r@.len() == 1
                            &&& r@[0].model()
                                == crate::packets::PacketModel::CaptchaCaptchaFailed(
                                p.location,
                                captcha_data@,
                            )
                        },
                        SolveStateModel::Pending(expected) => if expected == p.code@ {
                            &&& final(self).spec_states() == set_key(
                                old(self).spec_states(),
                                p.location,
                                SolveStateModel::Solved,
                            )
                            &&& r@.len() == 1
                            &&& r@[0].model()
                                == crate::packets::PacketModel::CaptchaCaptchaValidated(
                                p.location,
                            )
                        } else {
                            &&& final(self).spec_states() == set_key(
                                old(self).spec_states(),
                                p.location,
                                SolveStateModel::Pending(code@),
                            )
                            &&& r@.len() == 1
                            &&& r@[0].model()
                                == crate::packets::PacketModel::CaptchaCaptchaFailed(
                                p.location,
                                captcha_data@,
                            )
                        },
                        SolveStateModel::Solved => {
                            &&& final(self).spec_states() == old(self).spec_states()
                            &&& r@.len() == 0
                        },
                    },
                },
                _ => final(self).spec_states() == old(self).spec_states() && r@.len() == 0,
            },
    {
        let mut out: Vec<Packet> = Vec::new();
        match packet {
            Packet::CaptchaRequestLocation(p) => {
                let sent = self.send_new_captcha(p.location, true, captcha_data, code);
                out.push(sent);
            },
            Packet::CaptchaValidateCaptcha(p) => {
                match self.find_state(p.location) {
                    None => {
                        out.push(
                            Packet::CaptchaCaptchaValidated(
                                CaptchaCaptchaValidated { location: p.location },
                            ),
                        );
                    },
                    Some(i) => {
                        let verdict: u8 = match &self.solve_states[i].1 {
                            SolveState::Invalid => 0,
                            SolveState::Pending(expected) => if *expected == p.code {
                                1
                            } else {
                                2
                            },
                            SolveState::Solved => 3,
                        };
                        if verdict == 0 || verdict == 2 {
                            let sent = self.send_new_captcha(p.location, false, captcha_data, code);
                            out.push(sent);
                        } else if verdict == 1 {
                            self.set_state(p.location, SolveState::Solved);
                            out.push(
                                Packet::CaptchaCaptchaValidated(
                                    CaptchaCaptchaValidated { location: p.location },
                                ),
                            );
                        }
                    },
                }
            },
            _ => {},
        }
        out
    }

    /// Announces, exactly once, which locations require a captcha.
    pub fn poll(&mut self) -> (r: Vec<Packet>)
        ensures
            final(self).spec_states() == old(self).spec_states(),
            final(self).spec_client_initialized(),
            old(self).spec_client_initialized() ==> r@.len() == 0,
            !old(self).spec_client_initialized() ==> r@.len() == 1 && r@[0].model()
                == crate::packets::PacketModel::CaptchaParameters(
                Seq::new(old(self).spec_states().len(), |i: int| old(self).spec_states()[i].0),
            ),
    {
        let mut out: Vec<Packet> = Vec::new();
        if self.client_initialized {
            return out;
        }
        self.client_initialized = true;
        let mut init_params: Vec<CaptchaLocation> = Vec::new();
        let mut i: usize = 0;
        while i < self.solve_states.len()
            invariant
                i <= self.solve_states@.len(),
                init_params@ =~= Seq::new(i as nat, |j: int| self.spec_states()[j].0),
                self.client_initialized,
                self.spec_states() == old(self).spec_states(),
            decreases self.solve_states@.len() - i,
        {
            let loc = self.solve_states[i].0;
            init_params.push(loc);
            proof {
                assert(init_params@ =~= Seq::new((i + 1) as nat, |j: int| self.spec_states()[j].0));
            }
            i = i + 1;
        }
        let ghost params = init_params@;
        out.push(Packet::CaptchaParameters(CaptchaParameters { init_params }));
        proof {
            assert(crate::codec::models_of(params) =~= params);
        }
        out
    }
}

} // verus!
