//! A simulation: one page table, fed page requests one token at a time, and
//! the count of requests and faults that gives its hit rate.
use crate::algorithms::fifo::FifoState;
use crate::algorithms::lru::LruState;
use crate::algorithms::optimal::OptimalState;
use crate::algorithms::second_chance::SecondChanceState;
use crate::algorithms::{Fifo, Lru, Optimal, SecondChance};
use crate::error::Error;
use crate::parse::{parse_u64, u64_of};
use std::sync::Arc;
use vstd::prelude::*;

verus! {

/// The page-replacement policies that a simulation can run.
#[derive(Debug, Clone, Copy, PartialEq, Eq, Structural)]
pub enum AlgorithmKind {
    Fifo,
    Lru,
    SecondChance,
    Optimal,
}

/// The policy that a name selects: `fifo`, `lru`, `second_chance` or `sc`,
/// `optimal`; no other name selects one.
pub open spec fn algorithm_named(name: Seq<char>) -> Option<AlgorithmKind> {
    if name == "fifo"@ {
        Some(AlgorithmKind::Fifo)
    } else if name == "lru"@ {
        Some(AlgorithmKind::Lru)
    } else if name == "second_chance"@ || name == "sc"@ {
        Some(AlgorithmKind::SecondChance)
    } else if name == "optimal"@ {
        Some(AlgorithmKind::Optimal)
    } else {
        None
    }
}

/// Relies on `<str as PartialEq>::eq`: two strings are equal exactly when
/// they hold the same characters.
#[verifier::external_body]
fn same_text(a: &str, b: &str) -> (r: bool)
    ensures
        r == (a@ == b@),
{
    a == b
}

impl AlgorithmKind {
    /// The policy that `name` selects, if any.
    pub fn from_name(name: &str) -> (r: Option<AlgorithmKind>)
        ensures
            r == algorithm_named(name@),
    {
        if same_text(name, "fifo") {
            Some(AlgorithmKind::Fifo)
        } else if same_text(name, "lru") {
            Some(AlgorithmKind::Lru)
        } else if same_text(name, "second_chance") || same_text(name, "sc") {
            Some(AlgorithmKind::SecondChance)
        } else if same_text(name, "optimal") {
            Some(AlgorithmKind::Optimal)
        } else {
            None
        }
    }
}

/// The abstract state of a page table of any of the four policies.
pub ghost enum PolicyState {
    Fifo(FifoState),
    Lru(LruState),
    Optimal(OptimalState),
    SecondChance(SecondChanceState),
}

impl PolicyState {
    /// A table of `size` empty slots of policy `kind`; the optimal policy
    /// reads its future requests from `trace`.
    pub open spec fn empty(kind: AlgorithmKind, size: nat, trace: Seq<u64>) -> PolicyState {
        match kind {
            AlgorithmKind::Fifo => PolicyState::Fifo(FifoState::empty(size)),
            AlgorithmKind::Lru => PolicyState::Lru(LruState::empty(size)),
            AlgorithmKind::SecondChance => PolicyState::SecondChance(SecondChanceState::empty(size)),
            AlgorithmKind::Optimal => PolicyState::Optimal(OptimalState::empty(size, trace)),
        }
    }

    /// A request for `page` faults.
    pub open spec fn faults(self, page: u64) -> bool {
        match self {
            PolicyState::Fifo(s) => s.faults(page),
            PolicyState::Lru(s) => s.faults(page),
            PolicyState::Optimal(s) => s.faults(page),
            PolicyState::SecondChance(s) => s.faults(page),
        }
    }

    /// The state after a request for `page`.
    pub open spec fn after(self, page: u64) -> PolicyState {
        match self {
            PolicyState::Fifo(s) => PolicyState::Fifo(s.after(page)),
            PolicyState::Lru(s) => PolicyState::Lru(s.after(page)),
            PolicyState::Optimal(s) => PolicyState::Optimal(s.after(page)),
            PolicyState::SecondChance(s) => PolicyState::SecondChance(s.after(page)),
        }
    }
}

/// A page table of one of the four policies.
#[derive(Debug)]
pub enum AlgorithmType {
    Fifo(Fifo),
    Lru(Lru),
    Optimal(Optimal),
    SecondChance(SecondChance),
}

impl View for AlgorithmType {
    type V = PolicyState;

    open spec fn view(&self) -> PolicyState {
        match self {
            AlgorithmType::Fifo(t) => PolicyState::Fifo(t@),
            AlgorithmType::Lru(t) => PolicyState::Lru(t@),
            AlgorithmType::Optimal(t) => PolicyState::Optimal(t@),
            AlgorithmType::SecondChance(t) => PolicyState::SecondChance(t@),
        }
    }
}

impl AlgorithmType {
    /// The table inside is well formed.
    pub open spec fn wf(&self) -> bool {
        match self {
            AlgorithmType::Fifo(t) => t.wf(),
            AlgorithmType::Lru(t) => t.wf(),
            AlgorithmType::Optimal(t) => t.wf(),
            AlgorithmType::SecondChance(t) => t.wf(),
        }
    }

    /// Handles a request for `page` with whichever policy this is; returns
    /// true when it faults.
    pub fn handle_page_request(&mut self, page: u64) -> (fault: bool)
        requires
            old(self).wf(),
            old(self)@ is Lru ==> old(self)@->Lru_0.clock < u64::MAX,
        ensures
            final(self).wf(),
            fault == old(self)@.faults(page),
            final(self)@ == old(self)@.after(page),
    {
        match self {
            AlgorithmType::Fifo(t) => t.handle_page_request(page),
            AlgorithmType::Lru(t) => t.handle_page_request(page),
            AlgorithmType::Optimal(t) => t.handle_page_request(page),
            AlgorithmType::SecondChance(t) => t.handle_page_request(page),
        }
    }
}

/// The page that a trace token requests: a decimal number above 0 that fits
/// in 64 bits. Any other token requests nothing.
pub open spec fn request_of(token: Seq<char>) -> Option<u64> {
    match u64_of(token) {
        Some(n) => if n > 0 {
            Some(n)
        } else {
            None
        },
        None => None,
    }
}

/// The abstract state of a simulation: its page table, and how many
/// requests it has handled and how many of them faulted.
pub ghost struct SimulationState {
    pub policy: PolicyState,
    pub requests: nat,
    pub misses: nat,
}

impl SimulationState {
    /// A simulation that has handled nothing yet.
    pub open spec fn initial(kind: AlgorithmKind, size: nat, trace: Seq<u64>) -> SimulationState {
        SimulationState { policy: PolicyState::empty(kind, size, trace), requests: 0, misses: 0 }
    }

    /// What submitting `token` gives: `None` when it requests no page,
    /// else whether the request faulted.
    pub open spec fn outcome(self, token: Seq<char>) -> Option<bool> {
        match request_of(token) {
            Some(page) => Some(self.policy.faults(page)),
            None => None,
        }
    }

    /// The state after submitting `token`: unchanged when it requests no
    /// page; else one more request, one more miss if it faulted, and the
    /// page table after the request.
    pub open spec fn submit(self, token: Seq<char>) -> SimulationState {
        match request_of(token) {
            Some(page) => SimulationState {
                policy: self.policy.after(page),
                requests: self.requests + 1,
                misses: if self.policy.faults(page) {
                    self.misses + 1
                } else {
                    self.misses
                },
            },
            None => self,
        }
    }

    /// The state after submitting each of `tokens` in order.
    pub open spec fn replay(self, tokens: Seq<Seq<char>>) -> SimulationState
        decreases tokens.len(),
    {
        if tokens.len() == 0 {
            self
        } else {
            self.replay(tokens.drop_last()).submit(tokens.last())
        }
    }

    /// Whether each request among `tokens` faulted, in order; tokens that
    /// request no page have no entry.
    pub open spec fn faults_of(self, tokens: Seq<Seq<char>>) -> Seq<bool>
        decreases tokens.len(),
    {
        if tokens.len() == 0 {
            Seq::empty()
        } else {
            let before = self.replay(tokens.drop_last());
            let earlier = self.faults_of(tokens.drop_last());
            match before.outcome(tokens.last()) {
                Some(fault) => earlier.push(fault),
                None => earlier,
            }
        }
    }
}

/// The characters of each line.
pub open spec fn tokens_of(lines: Seq<String>) -> Seq<Seq<char>> {
    lines.map_values(|l: String| l@)
}

/// The pages that `tokens` request, in order; tokens that request no page
/// are left out.
pub open spec fn requests_in(tokens: Seq<Seq<char>>) -> Seq<u64>
    decreases tokens.len(),
{
    if tokens.len() == 0 {
        Seq::empty()
    } else {
        match request_of(tokens.last()) {
            Some(page) => requests_in(tokens.drop_last()).push(page),
            None => requests_in(tokens.drop_last()),
        }
    }
}

/// The pages that `lines` request, in order: the trace that an optimal
/// table reads its future requests from.
pub fn parse_trace(lines: &Vec<String>) -> (r: Vec<u64>)
    ensures
        r@ == requests_in(tokens_of(lines@)),
{
    let ghost tokens = tokens_of(lines@);
    let mut r: Vec<u64> = Vec::new();
    let mut i: usize = 0;
    while i < lines.len()
        invariant
            i <= lines@.len(),
            tokens == tokens_of(lines@),
            r@ == requests_in(tokens.take(i as int)),
        decreases lines@.len() - i,
    {
        assert(tokens.take(i as int + 1).drop_last() =~= tokens.take(i as int));
        assert(tokens[i as int] == lines@[i as int]@);
        match parse_u64(lines[i].as_str()) {
            Some(page) => if page > 0 {
                r.push(page);
            },
            None => {},
        }
        i += 1;
    }
    assert(tokens.take(lines@.len() as int) =~= tokens);
    r
}

/// Replaying tokens keeps `misses <= requests` and never lowers `requests`.
proof fn lemma_replay_keeps_misses_within(s: SimulationState, tokens: Seq<Seq<char>>)
    requires
        s.misses <= s.requests,
    ensures
        s.replay(tokens).misses <= s.replay(tokens).requests,
        s.requests <= s.replay(tokens).requests,
    decreases tokens.len(),
{
    if tokens.len() > 0 {
        lemma_replay_keeps_misses_within(s, tokens.drop_last());
    }
}

/// Whatever the policy, the table size and the trace, a simulation never
/// counts more misses than requests, so its hits lie between none and all of
/// its requests.
pub proof fn lemma_misses_within_requests(
    kind: AlgorithmKind,
    size: nat,
    trace: Seq<u64>,
    tokens: Seq<Seq<char>>,
)
    requires
        size >= 1,
    ensures
        SimulationState::initial(kind, size, trace).replay(tokens).misses
            <= SimulationState::initial(kind, size, trace).replay(tokens).requests,
{
    lemma_replay_keeps_misses_within(SimulationState::initial(kind, size, trace), tokens);
}

/// Replaying the same tokens through the same policy and table size twice
/// gives the same final state, so the same counts and hit rate, and the same
/// faults in the same order: nothing in a simulation is left to chance.
pub proof fn lemma_replay_deterministic(
    kind: AlgorithmKind,
    size: nat,
    trace: Seq<u64>,
    tokens: Seq<Seq<char>>,
    first: SimulationState,
    second: SimulationState,
)
    requires
        first == SimulationState::initial(kind, size, trace),
        second == SimulationState::initial(kind, size, trace),
    ensures
        first.replay(tokens) == second.replay(tokens),
        first.faults_of(tokens) == second.faults_of(tokens),
{
}

/// Tokens none of which requests a page leave a simulation as it was, so a
/// fresh one still reports no hit rate.
pub proof fn lemma_no_valid_tokens(s: SimulationState, tokens: Seq<Seq<char>>)
    requires
        forall|i: int| 0 <= i < tokens.len() ==> request_of(#[trigger] tokens[i]) is None,
    ensures
        s.replay(tokens) == s,
        s.faults_of(tokens) == Seq::<bool>::empty(),
    decreases tokens.len(),
{
    if tokens.len() > 0 {
        let t = tokens.drop_last();
        assert forall|i: int| 0 <= i < t.len() implies request_of(#[trigger] t[i]) is None by {
            assert(t[i] == tokens[i]);
        }
        lemma_no_valid_tokens(s, t);
        assert(request_of(tokens[tokens.len() - 1]) is None);
    }
}

/// Hits and requests of a simulation that has handled at least one request;
/// the hit rate is `hits / requests`.
#[derive(Debug, Clone, Copy, PartialEq, Eq, Structural)]
pub struct HitRate {
    pub hits: u64,
    pub requests: u64,
}

/// A page table of one policy and the counts of what it has handled.
#[derive(Debug)]
pub struct Simulation {
    algorithm: AlgorithmType,
    num_requests: u64,
    num_misses: u64,
}

impl View for Simulation {
    type V = SimulationState;

    closed spec fn view(&self) -> SimulationState {
        SimulationState {
            policy: self.algorithm@,
            requests: self.num_requests as nat,
            misses: self.num_misses as nat,
        }
    }
}

/// The trace that an optimal table is given, empty when there is none.
pub open spec fn trace_of(page_requests: Option<Arc<Vec<u64>>>) -> Seq<u64> {
    match page_requests {
        Some(t) => t@,
        None => Seq::empty(),
    }
}

impl Simulation {
    /// The page table is well formed, no more requests missed than were
    /// handled, and an LRU clock has ticked once per request.
    pub closed spec fn wf(&self) -> bool {
        &&& self.algorithm.wf()
        &&& self.num_misses <= self.num_requests
        &&& (self.algorithm@ is Lru ==> self.algorithm@->Lru_0.clock == self.num_requests)
    }

    /// A simulation of a table of `table_size` slots under the policy that
    /// `algorithm` names. The optimal policy needs `page_requests`, the whole
    /// trace of valid requests in order. Fails on an unknown name, on a size
    /// of 0, and on the optimal policy without a trace, in that order.
    pub fn new(table_size: usize, algorithm: &str, page_requests: Option<Arc<Vec<u64>>>) -> (r: Result<
        Simulation,
        Error,
    >)
        ensures
            algorithm_named(algorithm@) is None ==> r == Err::<Simulation, Error>(
                Error::UnknownAlgorithm,
            ),
            algorithm_named(algorithm@) is Some && table_size == 0 ==> r == Err::<Simulation, Error>(
                Error::ZeroTableSize,
            ),
            algorithm_named(algorithm@) == Some(AlgorithmKind::Optimal) && table_size > 0
                && page_requests is None ==> r == Err::<Simulation, Error>(Error::MissingTrace),
            algorithm_named(algorithm@) is Some && table_size > 0 && (algorithm_named(algorithm@)
                == Some(AlgorithmKind::Optimal) ==> page_requests is Some) ==> r is Ok,
            r is Ok ==> r->Ok_0.wf() && r->Ok_0@ == SimulationState::initial(
                algorithm_named(algorithm@)->0,
                table_size as nat,
                trace_of(page_requests),
            ),
    {
        let kind = match AlgorithmKind::from_name(algorithm) {
            Some(kind) => kind,
            None => return Err(Error::UnknownAlgorithm),
        };
        if table_size == 0 {
            return Err(Error::ZeroTableSize);
        }
        let algorithm = match kind {
            AlgorithmKind::Fifo => AlgorithmType::Fifo(Fifo::new(table_size)),
            AlgorithmKind::Lru => AlgorithmType::Lru(Lru::new(table_size)),
            AlgorithmKind::SecondChance => AlgorithmType::SecondChance(SecondChance::new(table_size)),
            AlgorithmKind::Optimal => match Optimal::new(table_size, page_requests) {
                Ok(t) => AlgorithmType::Optimal(t),
                Err(e) => return Err(e),
            },
        };
        Ok(Simulation { algorithm, num_requests: 0, num_misses: 0 })
    }

    /// The page that `line` requests, if it requests one.
    pub fn parse_line(&self, line: &str) -> (r: Option<u64>)
        ensures
            r == request_of(line@),
    {
        match parse_u64(line) {
            Some(num) => if num == 0 {
                None
            } else {
                Some(num)
            },
            None => None,
        }
    }

    /// Submits one token of the trace: a token that requests no page is
    /// skipped and gives `None`; else the request is counted and handled,
    /// and the result says whether it faulted.
    pub fn page_request(&mut self, page_request: &str) -> (r: Option<bool>)
        requires
            old(self).wf(),
            old(self)@.requests < u64::MAX,
        ensures
            final(self).wf(),
            r == old(self)@.outcome(page_request@),
            final(self)@ == old(self)@.submit(page_request@),
    {
        let page = match self.parse_line(page_request) {
            Some(page) => page,
            None => return None,
        };
        self.num_requests = self.num_requests + 1;
        let fault = self.algorithm.handle_page_request(page);
        if fault {
            self.num_misses = self.num_misses + 1;
        }
        Some(fault)
    }

    /// Submits each line in order; returns whether each request faulted,
    /// lines that request no page left out.
    pub fn replay(&mut self, lines: &Vec<String>) -> (faults: Vec<bool>)
        requires
            old(self).wf(),
            old(self)@.requests + lines@.len() <= u64::MAX,
        ensures
            final(self).wf(),
            final(self)@ == old(self)@.replay(tokens_of(lines@)),
            faults@ == old(self)@.faults_of(tokens_of(lines@)),
    {
        let ghost start = self@;
        let ghost tokens = tokens_of(lines@);
        let mut faults: Vec<bool> = Vec::new();
        let mut i: usize = 0;
        while i < lines.len()
            invariant
                self.wf(),
                i <= lines@.len(),
                tokens == tokens_of(lines@),
                start.requests + lines@.len() <= u64::MAX,
                self@ == start.replay(tokens.take(i as int)),
                faults@ == start.faults_of(tokens.take(i as int)),
                self@.requests <= start.requests + i,
            decreases lines@.len() - i,
        {
            assert(tokens.take(i as int + 1).drop_last() =~= tokens.take(i as int));
            assert(tokens[i as int] == lines@[i as int]@);
            let outcome = self.page_request(lines[i].as_str());
            match outcome {
                Some(fault) => faults.push(fault),
                None => {},
            }
            i += 1;
        }
        assert(tokens.take(lines@.len() as int) =~= tokens);
        faults
    }

    /// Number of requests handled.
    pub fn num_requests(&self) -> (r: u64)
        ensures
            r == self@.requests,
    {
        self.num_requests
    }

    /// Number of requests that faulted.
    pub fn num_misses(&self) -> (r: u64)
        ensures
            r == self@.misses,
    {
        self.num_misses
    }

    /// Hits and requests so far; `None` while no request has been handled,
    /// where the hit rate is undefined.
    pub fn get_hit_rate(&self) -> (r: Option<HitRate>)
        requires
            self.wf(),
        ensures
            r is None <==> self@.requests == 0,
            r is Some ==> r->0.requests == self@.requests && r->0.hits == self@.requests
                - self@.misses,
            r is Some ==> 0 <= r->0.hits <= r->0.requests && r->0.requests > 0,
    {
        if self.num_requests == 0 {
            None
        } else {
            Some(HitRate { hits: self.num_requests - self.num_misses, requests: self.num_requests })
        }
    }
}

} // verus!
