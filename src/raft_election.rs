//! Raft leader election over a cluster of servers, each holding its term,
//! vote and role packed into one word: `term(40) | voted_for(22) | state(2)`.

use vstd::arithmetic::power2::{lemma2_to64_rest, lemma_pow2_strictly_increases, lemma_pow2_unfold, pow2};
use vstd::prelude::*;

verus! {

/// Server identifier.
pub type ServerId = u64;

/// Election term.
pub type Term = u64;

/// Role of a server.
#[derive(Debug, Clone, Copy, PartialEq, Eq, Structural)]
pub enum ServerState {
    Follower,
    Candidate,
    Leader,
}

/// Why an election step was refused.
#[derive(Debug, Clone, Copy, PartialEq, Eq, Structural)]
pub enum RaftError {
    NotCandidate,
    AlreadyVoted,
    StaleTerm,
    ClusterTooSmall,
    ServerNotFound,
}

/// A candidate's request for votes.
#[derive(Debug, Clone, Copy, PartialEq, Eq, Structural)]
pub struct VoteRequest {
    pub term: Term,
    pub candidate_id: ServerId,
}

/// A server's answer to a vote request.
#[derive(Debug, Clone, Copy, PartialEq, Eq, Structural)]
pub struct VoteResponse {
    pub term: Term,
    pub vote_granted: bool,
    pub voter_id: ServerId,
}

/// A leader's heartbeat.
#[derive(Debug, Clone, Copy, PartialEq, Eq, Structural)]
pub struct Heartbeat {
    pub term: Term,
    pub leader_id: ServerId,
}

pub const TERM_MODULUS: u64 = 1_099_511_627_776;

pub const VOTED_MODULUS: u64 = 4_194_304;

/// Bits below the term: the vote and the role.
pub const TERM_SHIFT_FACTOR: u64 = 16_777_216;

/// The two-bit code of a role.
pub open spec fn state_code(s: ServerState) -> u64 {
    match s {
        ServerState::Follower => 0,
        ServerState::Candidate => 1,
        ServerState::Leader => 2,
    }
}

/// The vote field: zero for none, else the identifier plus one, wrapped to 22 bits.
pub open spec fn vote_code(v: Option<ServerId>) -> u64 {
    match v {
        None => 0,
        Some(id) => ((id as int + 1) % VOTED_MODULUS as int) as u64,
    }
}

/// The packed word of a term, vote and role; the term wraps to 40 bits.
pub open spec fn pack(term: u64, voted: Option<ServerId>, state: ServerState) -> u64 {
    ((term % TERM_MODULUS) * TERM_SHIFT_FACTOR + vote_code(voted) * 4 + state_code(state)) as u64
}

/// The term of a packed word.
pub open spec fn term_of(p: u64) -> u64 {
    (p / TERM_SHIFT_FACTOR) % TERM_MODULUS
}

/// The vote of a packed word.
pub open spec fn voted_of(p: u64) -> Option<ServerId> {
    let v = (p / 4) % VOTED_MODULUS;
    if v == 0 { None } else { Some((v - 1) as u64) }
}

/// The role of a packed word; the unused code reads as follower.
pub open spec fn state_of(p: u64) -> ServerState {
    if p % 4 == 1 {
        ServerState::Candidate
    } else if p % 4 == 2 {
        ServerState::Leader
    } else {
        ServerState::Follower
    }
}

fn pack_exec(term: u64, voted: Option<ServerId>, state: ServerState) -> (r: u64)
    ensures
        r == pack(term, voted, state),
{
    let t = term % TERM_MODULUS;
    let v: u64 = match voted {
        None => 0,
        Some(id) => if id == u64::MAX { 0 } else { (id + 1) % VOTED_MODULUS },
    };
    assert((u64::MAX as int + 1) % (VOTED_MODULUS as int) == 0);
    let s: u64 = match state {
        ServerState::Follower => 0,
        ServerState::Candidate => 1,
        ServerState::Leader => 2,
    };
    proof {
        assert(t * TERM_SHIFT_FACTOR <= (TERM_MODULUS - 1) * TERM_SHIFT_FACTOR) by (nonlinear_arith)
            requires
                t < TERM_MODULUS,
        ;
    }
    t * TERM_SHIFT_FACTOR + v * 4 + s
}

fn term_exec(p: u64) -> (r: u64)
    ensures
        r == term_of(p),
{
    (p / TERM_SHIFT_FACTOR) % TERM_MODULUS
}

fn voted_exec(p: u64) -> (r: Option<ServerId>)
    ensures
        r == voted_of(p),
{
    let v = (p / 4) % VOTED_MODULUS;
    if v == 0 { None } else { Some(v - 1) }
}

fn state_exec(p: u64) -> (r: ServerState)
    ensures
        r == state_of(p),
{
    if p % 4 == 1 {
        ServerState::Candidate
    } else if p % 4 == 2 {
        ServerState::Leader
    } else {
        ServerState::Follower
    }
}

/// Number of one bits of `v`.
pub open spec fn ones(v: u64) -> nat
    decreases v,
{
    if v == 0 { 0 } else { (v % 2) as nat + ones(v / 2) }
}

fn count_ones_exec(v: u64) -> (r: u64)
    ensures
        r == ones(v),
{
    let mut x = v;
    let mut n: u64 = 0;
    proof {
        lemma_ones_le(v);
    }
    while x > 0
        invariant
            ones(v) == n + ones(x),
            ones(v) <= v,
        decreases x,
    {
        n = n + x % 2;
        x = x / 2;
    }
    n
}

fn two_to_exec(b: u64) -> (r: u64)
    requires
        b < 64,
    ensures
        r == pow2(b as nat),
{
    let mut p: u64 = 1;
    let mut i: u64 = 0;
    proof {
        lemma2_to64_rest();
        assert(pow2(0) == 1) by {
            vstd::arithmetic::power2::lemma2_to64();
        }
    }
    while i < b
        invariant
            i <= b < 64,
            p == pow2(i as nat),
            pow2(63) == 0x8000000000000000,
        decreases b - i,
    {
        proof {
            lemma_pow2_unfold((i + 1) as nat);
            if i + 1 < 63 {
                lemma_pow2_strictly_increases((i + 1) as nat, 63);
            }
        }
        p = p * 2;
        i = i + 1;
    }
    p
}

/// `ones(x)` never exceeds `x`.
proof fn lemma_ones_le(x: u64)
    ensures
        ones(x) <= x,
    decreases x,
{
    if x > 0 {
        lemma_ones_le(x / 2);
    }
}

/// Vote mask `m` with bit `b` set.
pub open spec fn with_bit(m: u64, b: nat) -> u64 {
    m | (pow2(b) as u64)
}

/// One server: identifier, packed word, and the mask of votes it received.
#[derive(Debug, Clone, Copy, PartialEq, Eq, Structural)]
pub struct ServerSlot {
    pub id: ServerId,
    pub packed: u64,
    pub votes: u64,
}

/// The position of server `id` in `slots`.
pub open spec fn slot_of(slots: Seq<ServerSlot>, id: ServerId) -> Option<int> {
    if exists|i: int| 0 <= i < slots.len() && slots[i].id == id {
        Some(choose|i: int| 0 <= i < slots.len() && slots[i].id == id)
    } else {
        None
    }
}

/// The identifiers are distinct, at most 64 of them.
pub open spec fn slots_wf(slots: Seq<ServerSlot>) -> bool {
    &&& 0 < slots.len() <= 64
    &&& forall|i: int, j: int| 0 <= i < j < slots.len() ==> slots[i].id != slots[j].id
}

/// The slot with a new packed word and vote mask.
pub open spec fn slot_with(slot: ServerSlot, packed: u64, votes: u64) -> ServerSlot {
    ServerSlot { id: slot.id, packed, votes }
}

/// `timeout`: become candidate for the next term, voting for oneself (or
/// leader at once, alone in the cluster).
pub open spec fn timeout_step(slots: Seq<ServerSlot>, id: ServerId) -> (Result<VoteRequest, RaftError>, Seq<ServerSlot>) {
    match slot_of(slots, id) {
        None => (Err(RaftError::ServerNotFound), slots),
        Some(i) => {
            let term = (term_of(slots[i].packed) + 1) as u64;
            let role = if slots.len() == 1 { ServerState::Leader } else { ServerState::Candidate };
            (
                Ok(VoteRequest { term, candidate_id: id }),
                slots.update(i, slot_with(slots[i], pack(term, Some(id), role), pow2(i as nat) as u64)),
            )
        },
    }
}

/// `handle_vote_request`: a newer term makes the server a follower with no
/// vote; the vote is granted when the term is current and the server has not
/// voted for someone else.
pub open spec fn vote_request_step(slots: Seq<ServerSlot>, id: ServerId, req: VoteRequest) -> (
    Result<VoteResponse, RaftError>,
    Seq<ServerSlot>,
) {
    match slot_of(slots, id) {
        None => (Err(RaftError::ServerNotFound), slots),
        Some(i) => {
            let p = slots[i].packed;
            let newer = req.term > term_of(p);
            let term = if newer { req.term } else { term_of(p) };
            let voted = if newer { None } else { voted_of(p) };
            let state = if newer { ServerState::Follower } else { state_of(p) };
            let granted = req.term >= term && (voted is None || voted == Some(req.candidate_id));
            let voted2 = if granted { Some(req.candidate_id) } else { voted };
            let np = pack(term, voted2, state);
            let resp = VoteResponse { term, vote_granted: granted, voter_id: id };
            if np == p {
                (Ok(resp), slots)
            } else {
                let votes = if state == ServerState::Follower && state_of(p) != ServerState::Follower {
                    0
                } else {
                    slots[i].votes
                };
                (Ok(resp), slots.update(i, slot_with(slots[i], np, votes)))
            }
        },
    }
}

/// `handle_vote_response`: a newer term makes the candidate a follower; a
/// granted vote in the current term is counted, and a quorum makes it leader.
pub open spec fn vote_response_step(slots: Seq<ServerSlot>, cand: ServerId, resp: VoteResponse) -> (
    Result<bool, RaftError>,
    Seq<ServerSlot>,
) {
    match slot_of(slots, cand) {
        None => (Err(RaftError::ServerNotFound), slots),
        Some(i) => {
            let p = slots[i].packed;
            let term = term_of(p);
            let state = state_of(p);
            if resp.term > term {
                (Ok(false), slots.update(i, slot_with(slots[i], pack(resp.term, None, ServerState::Follower), 0)))
            } else if state != ServerState::Candidate || resp.term != term {
                (Ok(state == ServerState::Leader && resp.term == term), slots)
            } else if resp.vote_granted && slot_of(slots, resp.voter_id) is Some {
                let b = slot_of(slots, resp.voter_id)->Some_0;
                let mask = with_bit(slots[i].votes, b as nat);
                if ones(mask) >= slots.len() / 2 + 1 {
                    let leader = pack(term, Some(cand), ServerState::Leader);
                    (
                        Ok(state_of(leader) == ServerState::Leader && term_of(leader) == term),
                        slots.update(i, slot_with(slots[i], leader, mask)),
                    )
                } else {
                    (Ok(false), slots.update(i, slot_with(slots[i], p, mask)))
                }
            } else {
                (Ok(false), slots)
            }
        },
    }
}

/// `handle_heartbeat`: a heartbeat of the current or a newer term makes the
/// server a follower of that term (keeping its vote only in the same term).
pub open spec fn heartbeat_step(slots: Seq<ServerSlot>, id: ServerId, hb: Heartbeat) -> (Result<(), RaftError>, Seq<ServerSlot>) {
    match slot_of(slots, id) {
        None => (Err(RaftError::ServerNotFound), slots),
        Some(i) => {
            let p = slots[i].packed;
            if hb.term >= term_of(p) {
                let voted = if hb.term > term_of(p) { None } else { voted_of(p) };
                (Ok(()), slots.update(i, slot_with(slots[i], pack(hb.term, voted, ServerState::Follower), 0)))
            } else {
                (Ok(()), slots)
            }
        },
    }
}

/// The role of server `id`, if it exists.
pub open spec fn role_of(slots: Seq<ServerSlot>, id: ServerId) -> Option<ServerState> {
    match slot_of(slots, id) {
        Some(i) => Some(state_of(slots[i].packed)),
        None => None,
    }
}

/// The election loop from slot `j`: ask each other server in order for its
/// vote and count the answer, stopping at a win or an error.
pub open spec fn election_from(slots: Seq<ServerSlot>, cand: ServerId, req: VoteRequest, j: int) -> (
    Result<bool, RaftError>,
    Seq<ServerSlot>,
)
    decreases slots.len() - j,
{
    if j < 0 || j >= slots.len() {
        (Ok(role_of(slots, cand) == Some(ServerState::Leader)), slots)
    } else if slots[j].id == cand {
        election_from(slots, cand, req, j + 1)
    } else {
        let (r1, s1) = vote_request_step(slots, slots[j].id, req);
        match r1 {
            Err(e) => (Err(e), s1),
            Ok(resp) => {
                let (r2, s2) = vote_response_step(s1, cand, resp);
                match r2 {
                    Err(e) => (Err(e), s2),
                    Ok(won) => if won {
                        (Ok(true), s2)
                    } else if s2.len() == slots.len() {
                        election_from(s2, cand, req, j + 1)
                    } else {
                        (Ok(false), s2)
                    },
                }
            },
        }
    }
}

/// Leader election on a cluster, run one step at a time.
pub struct RaftElection {
    slots: Vec<ServerSlot>,
}

impl View for RaftElection {
    type V = Seq<ServerSlot>;

    closed spec fn view(&self) -> Seq<ServerSlot> {
        self.slots@
    }
}

/// The distinct values of `ids`, in order of first appearance.
pub open spec fn distinct_ids(ids: Seq<ServerId>) -> Seq<ServerId>
    decreases ids.len(),
{
    if ids.len() == 0 {
        seq![]
    } else {
        let d = distinct_ids(ids.drop_last());
        if d.contains(ids.last()) { d } else { d.push(ids.last()) }
    }
}

proof fn lemma_slot_of(slots: Seq<ServerSlot>, i: int)
    requires
        slots_wf(slots),
        0 <= i < slots.len(),
    ensures
        slot_of(slots, slots[i].id) == Some(i),
{
}

proof fn lemma_update_keeps_ids(slots: Seq<ServerSlot>, i: int, s: ServerSlot, id: ServerId)
    requires
        slots_wf(slots),
        0 <= i < slots.len(),
        s.id == slots[i].id,
    ensures
        slots_wf(slots.update(i, s)),
        slot_of(slots.update(i, s), id) == slot_of(slots, id),
{
    let t = slots.update(i, s);
    assert forall|k: int| 0 <= k < slots.len() implies t[k].id == slots[k].id by {}
    if exists|k: int| 0 <= k < slots.len() && slots[k].id == id {
        let k = choose|k: int| 0 <= k < slots.len() && slots[k].id == id;
        lemma_slot_of(slots, k);
        lemma_slot_of(t, k);
    }
}

impl RaftElection {
    /// Well formed: distinct identifiers, between one and 64 of them.
    pub closed spec fn wf(&self) -> bool {
        slots_wf(self.slots@)
    }

    fn find(&self, id: ServerId) -> (r: Option<usize>)
        requires
            self.wf(),
        ensures
            match r {
                Some(i) => slot_of(self@, id) == Some(i as int),
                None => slot_of(self@, id) is None,
            },
    {
        let mut i: usize = 0;
        while i < self.slots.len()
            invariant
                i <= self.slots@.len(),
                slots_wf(self.slots@),
                forall|k: int| 0 <= k < i ==> self.slots@[k].id != id,
            decreases self.slots@.len() - i,
        {
            if self.slots[i].id == id {
                proof {
                    lemma_slot_of(self.slots@, i as int);
                }
                return Some(i);
            }
            i = i + 1;
        }
        None
    }

    /// A cluster of the distinct servers in `server_ids` (one to 64 of
    /// them): every one a follower in term 0 with no vote.
    pub fn new(server_ids: &[ServerId]) -> (r: Self)
        requires
            0 < server_ids@.len(),
            distinct_ids(server_ids@).len() <= 64,
        ensures
            r.wf(),
            r@.len() == distinct_ids(server_ids@).len(),
            forall|i: int|
                0 <= i < r@.len() ==> (#[trigger] r@[i]) == (ServerSlot { id: distinct_ids(server_ids@)[i], packed: 0, votes: 0 }),
    {
        let mut slots: Vec<ServerSlot> = Vec::new();
        let mut ids: Vec<ServerId> = Vec::new();
        let mut i: usize = 0;
        while i < server_ids.len()
            invariant
                i <= server_ids@.len(),
                ids@ == distinct_ids(server_ids@.take(i as int)),
                slots@.len() == ids@.len(),
                ids@.no_duplicates(),
                forall|k: int| 0 <= k < slots@.len() ==> (#[trigger] slots@[k]) == (ServerSlot { id: ids@[k], packed: 0, votes: 0 }),
            decreases server_ids@.len() - i,
        {
            let id = server_ids[i];
            assert(server_ids@.take(i + 1).drop_last() =~= server_ids@.take(i as int));
            if !crate::stack::vec_contains(&ids, id) {
                ids.push(id);
                slots.push(ServerSlot { id, packed: 0, votes: 0 });
            }
            i = i + 1;
        }
        assert(server_ids@.take(server_ids@.len() as int) =~= server_ids@);
        proof {
            lemma_distinct_nonempty(server_ids@);
        }
        RaftElection { slots }
    }

    /// Number of servers.
    pub fn cluster_size(&self) -> (r: usize)
        ensures
            r == self@.len(),
    {
        self.slots.len()
    }

    /// Votes needed to win: a strict majority.
    pub fn quorum_size(&self) -> (r: usize)
        ensures
            r == self@.len() / 2 + 1,
    {
        self.slots.len() / 2 + 1
    }

    /// The role of `server_id`, if it is in the cluster.
    pub fn get_state(&self, server_id: ServerId) -> (r: Option<ServerState>)
        requires
            self.wf(),
        ensures
            r == role_of(self@, server_id),
    {
        match self.find(server_id) {
            Some(i) => Some(state_exec(self.slots[i].packed)),
            None => None,
        }
    }

    /// The term of `server_id`, if it is in the cluster.
    pub fn get_term(&self, server_id: ServerId) -> (r: Option<Term>)
        requires
            self.wf(),
        ensures
            r == match slot_of(self@, server_id) {
                Some(i) => Some(term_of(self@[i].packed)),
                None => None,
            },
    {
        match self.find(server_id) {
            Some(i) => Some(term_exec(self.slots[i].packed)),
            None => None,
        }
    }

    /// A leader, if there is one: the first in cluster order.
    pub fn get_leader(&self) -> (r: Option<ServerId>)
        ensures
            match r {
                Some(id) => exists|i: int|
                    0 <= i < self@.len() && self@[i].id == id && state_of(self@[i].packed) == ServerState::Leader
                        && forall|k: int| 0 <= k < i ==> state_of(#[trigger] self@[k].packed) != ServerState::Leader,
                None => forall|k: int| 0 <= k < self@.len() ==> state_of(#[trigger] self@[k].packed) != ServerState::Leader,
            },
    {
        let mut i: usize = 0;
        while i < self.slots.len()
            invariant
                i <= self.slots@.len(),
                forall|k: int| 0 <= k < i ==> state_of(#[trigger] self.slots@[k].packed) != ServerState::Leader,
            decreases self.slots@.len() - i,
        {
            if state_exec(self.slots[i].packed) == ServerState::Leader {
                return Some(self.slots[i].id);
            }
            i = i + 1;
        }
        None
    }

    /// Start an election: the next term, a vote for oneself, and the request
    /// to send to the others.
    pub fn timeout(&mut self, server_id: ServerId) -> (r: Result<VoteRequest, RaftError>)
        requires
            old(self).wf(),
        ensures
            final(self).wf(),
            (r, final(self)@) == timeout_step(old(self)@, server_id),
            final(self)@.len() == old(self)@.len(),
    {
        let i = match self.find(server_id) {
            Some(i) => i,
            None => {
                return Err(RaftError::ServerNotFound);
            },
        };
        let slot = self.slots[i];
        let term = term_exec(slot.packed) + 1;
        let role = if self.slots.len() == 1 { ServerState::Leader } else { ServerState::Candidate };
        let new_slot = ServerSlot { id: slot.id, packed: pack_exec(term, Some(server_id), role), votes: two_to_exec(i as u64) };
        proof {
            lemma_update_keeps_ids(self.slots@, i as int, new_slot, server_id);
        }
        self.slots.set(i, new_slot);
        Ok(VoteRequest { term, candidate_id: server_id })
    }

    /// Answer a vote request.
    pub fn handle_vote_request(&mut self, server_id: ServerId, request: &VoteRequest) -> (r: Result<VoteResponse, RaftError>)
        requires
            old(self).wf(),
        ensures
            final(self).wf(),
            (r, final(self)@) == vote_request_step(old(self)@, server_id, *request),
            final(self)@.len() == old(self)@.len(),
    {
        let i = match self.find(server_id) {
            Some(i) => i,
            None => {
                return Err(RaftError::ServerNotFound);
            },
        };
        let slot = self.slots[i];
        let p = slot.packed;
        let newer = request.term > term_exec(p);
        let term = if newer { request.term } else { term_exec(p) };
        let voted = if newer { None } else { voted_exec(p) };
        let state = if newer { ServerState::Follower } else { state_exec(p) };
        let granted = request.term >= term && (voted.is_none() || voted == Some(request.candidate_id));
        let voted2 = if granted { Some(request.candidate_id) } else { voted };
        let np = pack_exec(term, voted2, state);
        let resp = VoteResponse { term, vote_granted: granted, voter_id: server_id };
        if np == p {
            return Ok(resp);
        }
        let votes = if state == ServerState::Follower && state_exec(p) != ServerState::Follower { 0 } else { slot.votes };
        let new_slot = ServerSlot { id: slot.id, packed: np, votes };
        proof {
            lemma_update_keeps_ids(self.slots@, i as int, new_slot, server_id);
        }
        self.slots.set(i, new_slot);
        Ok(resp)
    }

    /// Count a vote response; whether the candidate is now leader of the
    /// response's term.
    pub fn handle_vote_response(&mut self, candidate_id: ServerId, response: &VoteResponse) -> (r: Result<bool, RaftError>)
        requires
            old(self).wf(),
        ensures
            final(self).wf(),
            (r, final(self)@) == vote_response_step(old(self)@, candidate_id, *response),
            final(self)@.len() == old(self)@.len(),
    {
        let i = match self.find(candidate_id) {
            Some(i) => i,
            None => {
                return Err(RaftError::ServerNotFound);
            },
        };
        let slot = self.slots[i];
        let p = slot.packed;
        let term = term_exec(p);
        let state = state_exec(p);
        if response.term > term {
            let new_slot = ServerSlot { id: slot.id, packed: pack_exec(response.term, None, ServerState::Follower), votes: 0 };
            proof {
                lemma_update_keeps_ids(self.slots@, i as int, new_slot, candidate_id);
            }
            self.slots.set(i, new_slot);
            return Ok(false);
        }
        if state != ServerState::Candidate || response.term != term {
            return Ok(state == ServerState::Leader && response.term == term);
        }
        if response.vote_granted {
            if let Some(b) = self.find(response.voter_id) {
                let bit = two_to_exec(b as u64);
                let mask = slot.votes | bit;
                if count_ones_exec(mask) >= (self.slots.len() / 2 + 1) as u64 {
                    let leader = pack_exec(term, Some(candidate_id), ServerState::Leader);
                    let new_slot = ServerSlot { id: slot.id, packed: leader, votes: mask };
                    proof {
                        lemma_update_keeps_ids(self.slots@, i as int, new_slot, candidate_id);
                    }
                    self.slots.set(i, new_slot);
                    return Ok(state_exec(leader) == ServerState::Leader && term_exec(leader) == term);
                }
                let new_slot = ServerSlot { id: slot.id, packed: p, votes: mask };
                proof {
                    lemma_update_keeps_ids(self.slots@, i as int, new_slot, candidate_id);
                }
                self.slots.set(i, new_slot);
                return Ok(false);
            }
        }
        Ok(false)
    }

    /// Follow a heartbeat of the current or a newer term.
    pub fn handle_heartbeat(&mut self, server_id: ServerId, heartbeat: &Heartbeat) -> (r: Result<(), RaftError>)
        requires
            old(self).wf(),
        ensures
            final(self).wf(),
            (r, final(self)@) == heartbeat_step(old(self)@, server_id, *heartbeat),
            final(self)@.len() == old(self)@.len(),
    {
        let i = match self.find(server_id) {
            Some(i) => i,
            None => {
                return Err(RaftError::ServerNotFound);
            },
        };
        let slot = self.slots[i];
        let p = slot.packed;
        if heartbeat.term >= term_exec(p) {
            let voted = if heartbeat.term > term_exec(p) { None } else { voted_exec(p) };
            let new_slot = ServerSlot { id: slot.id, packed: pack_exec(heartbeat.term, voted, ServerState::Follower), votes: 0 };
            proof {
                lemma_update_keeps_ids(self.slots@, i as int, new_slot, server_id);
            }
            self.slots.set(i, new_slot);
        }
        Ok(())
    }

    /// The heartbeat of leader `leader_id`; an error when it is absent or
    /// not a leader.
    pub fn create_heartbeat(&self, leader_id: ServerId) -> (r: Result<Heartbeat, RaftError>)
        requires
            self.wf(),
        ensures
            r == match slot_of(self@, leader_id) {
                None => Err(RaftError::ServerNotFound),
                Some(i) => if state_of(self@[i].packed) != ServerState::Leader {
                    Err(RaftError::NotCandidate)
                } else {
                    Ok(Heartbeat { term: term_of(self@[i].packed), leader_id })
                },
            },
    {
        let i = match self.find(leader_id) {
            Some(i) => i,
            None => {
                return Err(RaftError::ServerNotFound);
            },
        };
        let p = self.slots[i].packed;
        if state_exec(p) != ServerState::Leader {
            return Err(RaftError::NotCandidate);
        }
        Ok(Heartbeat { term: term_exec(p), leader_id })
    }

    /// A whole election for `candidate_id`: time out, then ask the other
    /// servers in cluster order until it wins; whether it ends as leader.
    pub fn run_election(&mut self, candidate_id: ServerId) -> (r: Result<bool, RaftError>)
        requires
            old(self).wf(),
        ensures
            final(self).wf(),
            (r, final(self)@) == ({
                let (r0, s0) = timeout_step(old(self)@, candidate_id);
                match r0 {
                    Err(e) => (Err(e), s0),
                    Ok(req) => if role_of(s0, candidate_id) == Some(ServerState::Leader) {
                        (Ok(true), s0)
                    } else {
                        election_from(s0, candidate_id, req, 0)
                    },
                }
            }),
    {
        let request = match self.timeout(candidate_id) {
            Ok(req) => req,
            Err(e) => {
                return Err(e);
            },
        };
        if self.get_state(candidate_id) == Some(ServerState::Leader) {
            return Ok(true);
        }
        self.run_from(candidate_id, request, 0)
    }

    /// The election loop from slot `j` on.
    fn run_from(&mut self, candidate_id: ServerId, request: VoteRequest, j: usize) -> (r: Result<bool, RaftError>)
        requires
            old(self).wf(),
            j <= old(self)@.len(),
        ensures
            final(self).wf(),
            (r, final(self)@) == election_from(old(self)@, candidate_id, request, j as int),
        decreases old(self)@.len() - j,
    {
        if j >= self.slots.len() {
            return Ok(self.get_state(candidate_id) == Some(ServerState::Leader));
        }
        let other = self.slots[j].id;
        if other == candidate_id {
            return self.run_from(candidate_id, request, j + 1);
        }
        let n = self.slots.len();
        let response = match self.handle_vote_request(other, &request) {
            Ok(resp) => resp,
            Err(e) => {
                return Err(e);
            },
        };
        let won = match self.handle_vote_response(candidate_id, &response) {
            Ok(w) => w,
            Err(e) => {
                return Err(e);
            },
        };
        if won {
            return Ok(true);
        }
        self.run_from(candidate_id, request, j + 1)
    }
}

proof fn lemma_distinct_nonempty(ids: Seq<ServerId>)
    requires
        ids.len() > 0,
    ensures
        distinct_ids(ids).len() > 0,
    decreases ids.len(),
{
    if ids.len() > 1 {
        lemma_distinct_nonempty(ids.drop_last());
    }
}

} // verus!
