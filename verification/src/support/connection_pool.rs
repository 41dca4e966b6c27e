//! The client's uplink to the exit server, and the rules by which it is
//! reached, kept alive and finally dropped.
//!
//! The uplink is built from a ticket that the server publishes over HTTP. The
//! client pings the server's keep-alive route while the uplink exists, and a
//! linger monitor drops the uplink once the pool has been its only holder for
//! a configured number of consecutive checks.

use vstd::prelude::*;
use vstd::string::*;
use crate::web::{KEEP_ALIVE_ROUTE, TICKET_ROUTE};

verus! {

#[verifier::external_type_specification]
#[verifier::external_body]
pub struct ExEndpoint(iroh::Endpoint);

#[verifier::external_type_specification]
#[verifier::external_body]
pub struct ExOpenBi<'a>(iroh::endpoint::OpenBi<'a>);

#[verifier::external_type_specification]
#[verifier::external_body]
pub struct ExSendStream(iroh::endpoint::SendStream);

#[verifier::external_type_specification]
#[verifier::external_body]
pub struct ExRecvStream(iroh::endpoint::RecvStream);

#[verifier::external_type_specification]
#[verifier::external_body]
pub struct ExConnectionError(iroh::endpoint::ConnectionError);

#[verifier::external_type_specification]
#[verifier::external_body]
pub struct ExEndpointTicket(iroh_tickets::endpoint::EndpointTicket);

#[verifier::external_type_specification]
#[verifier::external_body]
pub struct ExTicketParseError(iroh_tickets::ParseError);

/// A live connection to the exit server, together with the endpoint that owns it.
///
/// The connection is held as it is and only handed to iroh; both fields are
/// public so that the code that connects can assemble an uplink.
#[verifier::external_body]
pub struct Uplink {
    pub connection: iroh::endpoint::Connection,
    pub _endpoint: iroh::Endpoint,
}

impl Uplink {
    /// Starts opening a new bidirectional stream to the exit server.
    pub fn open_bi(&self) -> iroh::endpoint::OpenBi<'_> {
        uplink_open_bi(self)
    }
}

/// What the pool answers when it is asked for the uplink.
#[derive(Debug, Clone, Copy, PartialEq, Eq, Structural)]
pub enum PoolStep {
    /// Hand out again the uplink that the pool refers to, named by its identity.
    Reuse(u64),
    /// Build a new uplink.
    Build,
}

/// What happens to the pool: it is asked for the uplink, `alive` telling
/// whether the uplink it refers to is still held by anybody (a caller or the
/// linger task); or a new uplink, named by its identity, has been built.
pub enum PoolEvent {
    Get { alive: bool },
    Built(u64),
}

/// The answer to a request, given the uplink that the pool refers to.
pub open spec fn pool_answer(referent: Option<u64>, alive: bool) -> PoolStep {
    match referent {
        Some(u) => if alive {
            PoolStep::Reuse(u)
        } else {
            PoolStep::Build
        },
        None => PoolStep::Build,
    }
}

/// The uplink that the pool refers to after a run of events.
pub open spec fn referent_after(referent: Option<u64>, events: Seq<PoolEvent>) -> Option<u64>
    decreases events.len(),
{
    if events.len() == 0 {
        referent
    } else {
        match events.last() {
            PoolEvent::Built(u) => Some(u),
            PoolEvent::Get { .. } => referent_after(referent, events.drop_last()),
        }
    }
}

/// The answer to the `i`-th event of a run, when that event is a request.
pub open spec fn answer_at(referent: Option<u64>, events: Seq<PoolEvent>, i: int) -> Option<PoolStep> {
    match events[i] {
        PoolEvent::Get { alive } => Some(pool_answer(referent_after(referent, events.take(i)), alive)),
        PoolEvent::Built(_) => None,
    }
}

/// The pool's memory: the uplink that it last built, by identity. It does
/// not keep that uplink alive; whether the uplink is still held is told to
/// it at each request.
pub struct UplinkPool {
    referent: Option<u64>,
}

impl View for UplinkPool {
    type V = Option<u64>;

    closed spec fn view(&self) -> Option<u64> {
        self.referent
    }
}

impl UplinkPool {
    /// A pool that refers to no uplink yet.
    pub fn new() -> (pool: UplinkPool)
        ensures
            pool@ is None,
    {
        UplinkPool { referent: None }
    }

    /// The answer to a request: the uplink the pool refers to while it is
    /// still held, and a new one otherwise.
    pub fn get(&self, alive: bool) -> (step: PoolStep)
        ensures
            step == pool_answer(self@, alive),
            step == PoolStep::Build <==> (self@ is None || !alive),
    {
        match self.referent {
            Some(u) => if alive {
                PoolStep::Reuse(u)
            } else {
                PoolStep::Build
            },
            None => PoolStep::Build,
        }
    }

    /// Records the uplink that was just built: from now on the pool refers to it.
    pub fn record_built(&mut self, uplink: u64)
        ensures
            final(self)@ == Some(uplink),
    {
        self.referent = Some(uplink);
    }
}

/// Requests alone do not change which uplink the pool refers to.
proof fn lemma_requests_keep_referent(referent: Option<u64>, events: Seq<PoolEvent>)
    requires
        forall|i: int| 0 <= i < events.len() ==> (#[trigger] events[i]) is Get,
    ensures
        referent_after(referent, events) == referent,
    decreases events.len(),
{
    if events.len() > 0 {
        let rest = events.drop_last();
        assert forall|i: int| 0 <= i < rest.len() implies (#[trigger] rest[i]) is Get by {
            assert(rest[i] == events[i]);
        }
        lemma_requests_keep_referent(referent, rest);
    }
}

/// While the uplink that the pool refers to is held, by a caller or by the
/// linger task, every request hands that same uplink out again, and no new
/// one is built.
pub proof fn lemma_held_uplink_reused(u: u64, events: Seq<PoolEvent>)
    requires
        forall|i: int| 0 <= i < events.len() ==> #[trigger] events[i] == (PoolEvent::Get { alive: true }),
    ensures
        forall|i: int|
            0 <= i < events.len() ==> #[trigger] answer_at(Some(u), events, i) == Some(PoolStep::Reuse(u)),
        referent_after(Some(u), events) == Some(u),
{
    assert forall|i: int| 0 <= i < events.len() implies #[trigger] answer_at(Some(u), events, i) == Some(
        PoolStep::Reuse(u),
    ) by {
        let before = events.take(i);
        assert forall|j: int| 0 <= j < before.len() implies (#[trigger] before[j]) is Get by {
            assert(before[j] == events[j]);
        }
        lemma_requests_keep_referent(Some(u), before);
    }
    lemma_requests_keep_referent(Some(u), events);
}

/// Once an uplink has been built, it is the one handed out to every later
/// request for as long as it stays held, whatever the pool referred to before.
pub proof fn lemma_built_uplink_handed_out(referent: Option<u64>, u: u64, events: Seq<PoolEvent>)
    requires
        events.len() > 0,
        events[0] == PoolEvent::Built(u),
        forall|i: int| 1 <= i < events.len() ==> #[trigger] events[i] == (PoolEvent::Get { alive: true }),
    ensures
        forall|i: int|
            1 <= i < events.len() ==> #[trigger] answer_at(referent, events, i) == Some(PoolStep::Reuse(u)),
{
    assert(referent_after(referent, events.take(1)) == Some(u)) by {
        assert(events.take(1).drop_last() =~= Seq::<PoolEvent>::empty());
        assert(events.take(1).last() == events[0]);
    }
    assert forall|i: int| 1 <= i < events.len() implies #[trigger] answer_at(referent, events, i) == Some(
        PoolStep::Reuse(u),
    ) by {
        lemma_referent_after_built_prefix(referent, u, events, i);
    }
}

/// After the first event built `u`, requests that follow keep it as the referent.
proof fn lemma_referent_after_built_prefix(referent: Option<u64>, u: u64, events: Seq<PoolEvent>, i: int)
    requires
        1 <= i <= events.len(),
        events[0] == PoolEvent::Built(u),
        forall|j: int| 1 <= j < events.len() ==> #[trigger] events[j] == (PoolEvent::Get { alive: true }),
    ensures
        referent_after(referent, events.take(i)) == Some(u),
    decreases i,
{
    let prefix = events.take(i);
    if i == 1 {
        assert(prefix.drop_last() =~= Seq::<PoolEvent>::empty());
        assert(prefix.last() == events[0]);
    } else {
        lemma_referent_after_built_prefix(referent, u, events, i - 1);
        assert(prefix.drop_last() =~= events.take(i - 1));
        assert(prefix.last() == events[i - 1]);
    }
}

/// Calls `iroh::endpoint::Connection::open_bi` on the uplink's connection.
/// Nothing is claimed of the returned future.
#[verifier::external_body]
fn uplink_open_bi<'a>(uplink: &'a Uplink) -> iroh::endpoint::OpenBi<'a> {
    uplink.connection.open_bi()
}

/// The query of a keep-alive call: keep the server alive for
/// `KEEP_ALIVE_TIMEOUT_SECS` seconds.
pub const KEEP_ALIVE_QUERY: &'static str = "?time_out_secs=300";

/// The address from which the client fetches the server's ticket.
pub fn ticket_url(server_base: &str) -> (url: String)
    ensures
        url@ == server_base@ + TICKET_ROUTE@,
{
    let mut url = String::from_str(server_base);
    url.append(TICKET_ROUTE);
    url
}

/// The address the client calls to keep the server alive.
pub fn keep_alive_url(server_base: &str) -> (url: String)
    ensures
        url@ == server_base@ + KEEP_ALIVE_ROUTE@ + KEEP_ALIVE_QUERY@,
{
    let mut url = String::from_str(server_base);
    url.append(KEEP_ALIVE_ROUTE);
    url.append(KEEP_ALIVE_QUERY);
    url
}

/// Seconds between two keep-alive calls.
pub const KEEP_ALIVE_INTERVAL_SECS: u64 = 5;

/// Seconds the server is asked to stay alive by each keep-alive call.
pub const KEEP_ALIVE_TIMEOUT_SECS: u16 = 300;

/// Seconds between two checks of who holds the uplink.
pub const LINGER_CHECK_INTERVAL_SECS: u64 = 1;

/// How many idle checks the uplink survives when `LINGER_SECS` is not set.
pub const DEFAULT_LINGER_SECS: u16 = 10;

/// The prefix of every endpoint ticket's text form.
pub open spec fn ticket_kind() -> Seq<char> {
    "endpoint"@
}

/// The ticket that `EndpointTicket::from_str` decodes from the given text,
/// if it accepts it.
pub uninterp spec fn decoded_endpoint_ticket(text: Seq<char>) -> Option<
    iroh_tickets::endpoint::EndpointTicket,
>;

/// Calls `EndpointTicket::from_str` (`Ticket::decode_string`): the result is
/// the named decoding of the text. `decode_string` first strips the kind
/// `endpoint`, so text that does not start with it is refused.
#[verifier::external_body]
fn endpoint_ticket_from_str(text: &str) -> (parsed: Result<
    iroh_tickets::endpoint::EndpointTicket,
    iroh_tickets::ParseError,
>)
    ensures
        match parsed {
            Ok(ticket) => decoded_endpoint_ticket(text@) == Some(ticket),
            Err(_) => decoded_endpoint_ticket(text@) is None,
        },
        !ticket_kind().is_prefix_of(text@) ==> parsed is Err,
{
    <iroh_tickets::endpoint::EndpointTicket as std::str::FromStr>::from_str(text)
}

/// Reads the ticket that the server published, as the client receives it.
pub fn parse_ticket(text: &str) -> (parsed: Result<
    iroh_tickets::endpoint::EndpointTicket,
    iroh_tickets::ParseError,
>)
    ensures
        match parsed {
            Ok(ticket) => decoded_endpoint_ticket(text@) == Some(ticket),
            Err(_) => decoded_endpoint_ticket(text@) is None,
        },
        !ticket_kind().is_prefix_of(text@) ==> parsed is Err,
{
    endpoint_ticket_from_str(text)
}

/// Counts the consecutive one-second checks at which the pool was the only
/// holder of the uplink; the uplink is dropped once the count reaches `linger`.
pub struct LingerMonitor {
    dead_count: u16,
    linger: u16,
}

/// The monitor's abstract state: the run of idle checks so far and the limit.
pub struct LingerState {
    pub dead_count: nat,
    pub linger: nat,
}

impl View for LingerMonitor {
    type V = LingerState;

    closed spec fn view(&self) -> LingerState {
        LingerState { dead_count: self.dead_count as nat, linger: self.linger as nat }
    }
}

impl LingerState {
    pub open spec fn wf(self) -> bool {
        self.dead_count <= self.linger
    }

    /// The monitor stops, and the uplink is dropped, once the run reaches `linger`.
    pub open spec fn expired(self) -> bool {
        self.dead_count >= self.linger
    }

    /// One check: `holders` is the number of strong references to the uplink,
    /// the monitor's own included. A check after expiry changes nothing.
    pub open spec fn step(self, holders: nat) -> LingerState {
        if self.expired() {
            self
        } else if holders == 1 {
            LingerState { dead_count: self.dead_count + 1, linger: self.linger }
        } else {
            LingerState { dead_count: 0, linger: self.linger }
        }
    }

    /// The state after a sequence of checks.
    pub open spec fn run(self, checks: Seq<nat>) -> LingerState
        decreases checks.len(),
    {
        if checks.len() == 0 {
            self
        } else {
            self.run(checks.drop_last()).step(checks.last())
        }
    }
}

impl LingerMonitor {
    /// The run of idle checks never exceeds the limit.
    #[verifier::type_invariant]
    spec fn run_within_limit(self) -> bool {
        self.dead_count <= self.linger
    }

    /// A monitor that drops the uplink after `linger` consecutive idle checks.
    pub fn new(linger: u16) -> (monitor: LingerMonitor)
        ensures
            monitor@ == (LingerState { dead_count: 0, linger: linger as nat }),
            monitor@.wf(),
    {
        LingerMonitor { dead_count: 0, linger }
    }

    /// Whether the monitor still waits (the uplink is kept).
    pub fn is_lingering(&self) -> (waiting: bool)
        ensures
            waiting == !self@.expired(),
            self@.wf(),
    {
        proof {
            use_type_invariant(self);
        }
        self.dead_count < self.linger
    }

    /// Records one check at which the uplink had `holders` strong references.
    pub fn record_check(&mut self, holders: usize)
        ensures
            final(self)@ == old(self)@.step(holders as nat),
            final(self)@.wf(),
    {
        proof {
            use_type_invariant(&*self);
        }
        if self.dead_count < self.linger {
            if holders == 1 {
                self.dead_count = self.dead_count + 1;
            } else {
                self.dead_count = 0;
            }
        }
    }
}

/// The number of sole-holder checks (`1`) that end the sequence.
pub open spec fn trailing_idle(checks: Seq<nat>) -> nat
    decreases checks.len(),
{
    if checks.len() == 0 {
        0
    } else if checks.last() == 1 {
        trailing_idle(checks.drop_last()) + 1
    } else {
        0
    }
}

/// Whether the `n` checks from `start` on are all sole-holder checks.
pub open spec fn idle_run_at(checks: Seq<nat>, start: int, n: nat) -> bool {
    0 <= start && start + n <= checks.len() && forall|j: int|
        start <= j < start + n ==> #[trigger] checks[j] == 1
}

/// Whether the sequence holds `n` consecutive sole-holder checks somewhere.
pub open spec fn has_idle_run(checks: Seq<nat>, n: nat) -> bool {
    exists|start: int| #[trigger] idle_run_at(checks, start, n)
}

proof fn lemma_trailing_idle_run(checks: Seq<nat>, k: nat)
    requires
        k <= trailing_idle(checks),
    ensures
        k <= checks.len(),
        forall|j: int| checks.len() - k <= j < checks.len() ==> #[trigger] checks[j] == 1,
    decreases checks.len(),
{
    if k > 0 {
        let t = checks.drop_last();
        lemma_trailing_idle_run(t, (k - 1) as nat);
        assert forall|j: int| checks.len() - k <= j < checks.len() implies #[trigger] checks[j]
            == 1 by {
            if j < checks.len() - 1 {
                assert(checks[j] == t[j]);
            }
        }
    }
}

proof fn lemma_run_reaches_trailing(checks: Seq<nat>, k: nat)
    requires
        k <= checks.len(),
        forall|j: int| checks.len() - k <= j < checks.len() ==> #[trigger] checks[j] == 1,
    ensures
        k <= trailing_idle(checks),
    decreases checks.len(),
{
    if k > 0 {
        let t = checks.drop_last();
        assert forall|j: int| t.len() - (k - 1) <= j < t.len() implies #[trigger] t[j] == 1 by {
            assert(t[j] == checks[j]);
        }
        lemma_run_reaches_trailing(t, (k - 1) as nat);
    }
}

proof fn lemma_has_idle_run_push(checks: Seq<nat>, c: nat, n: nat)
    ensures
        has_idle_run(checks.push(c), n) <==> (has_idle_run(checks, n) || n <= trailing_idle(
            checks.push(c),
        )),
{
    let s = checks.push(c);
    if has_idle_run(s, n) {
        let start = choose|start: int| #[trigger] idle_run_at(s, start, n);
        if start + n <= checks.len() {
            assert forall|j: int| start <= j < start + n implies #[trigger] checks[j] == 1 by {
                assert(checks[j] == s[j]);
            }
            assert(idle_run_at(checks, start, n));
        } else {
            assert forall|j: int| s.len() - n <= j < s.len() implies #[trigger] s[j] == 1 by {}
            lemma_run_reaches_trailing(s, n);
        }
    }
    if has_idle_run(checks, n) {
        let start = choose|start: int| #[trigger] idle_run_at(checks, start, n);
        assert forall|j: int| start <= j < start + n implies #[trigger] s[j] == 1 by {
            assert(s[j] == checks[j]);
        }
        assert(idle_run_at(s, start, n));
    }
    if n <= trailing_idle(s) {
        lemma_trailing_idle_run(s, n);
        let start = s.len() - n;
        assert forall|j: int| start <= j < start + n implies #[trigger] s[j] == 1 by {}
        assert(idle_run_at(s, start, n));
    }
}

/// The uplink is dropped exactly when, at some point, the pool was its only
/// holder for `linger` consecutive checks; until then the monitor's count is
/// the length of the current run of such checks.
pub proof fn lemma_linger_expires_after_idle_run(linger: nat, checks: Seq<nat>)
    ensures
        (LingerState { dead_count: 0, linger }).run(checks).expired() <==> has_idle_run(
            checks,
            linger,
        ),
        !(LingerState { dead_count: 0, linger }).run(checks).expired() ==> (LingerState {
            dead_count: 0,
            linger,
        }).run(checks).dead_count == trailing_idle(checks),
        (LingerState { dead_count: 0, linger }).run(checks).linger == linger,
    decreases checks.len(),
{
    let init = LingerState { dead_count: 0, linger };
    if checks.len() == 0 {
        if linger == 0 {
            assert(idle_run_at(checks, 0, 0));
        }
    } else {
        let t = checks.drop_last();
        let c = checks.last();
        lemma_linger_expires_after_idle_run(linger, t);
        assert(t.push(c) =~= checks);
        lemma_has_idle_run_push(t, c, linger);
        if !init.run(t).expired() {
            assert(trailing_idle(checks) == if c == 1 {
                trailing_idle(t) + 1
            } else {
                0
            });
            if c != 1 {
                if has_idle_run(checks, linger) {
                    assert(linger <= trailing_idle(checks));
                }
            }
        }
    }
}

/// A check at which someone besides the pool holds the uplink starts the
/// idle run afresh: the uplink then survives at least `linger` more checks.
pub proof fn lemma_linger_use_resets(state: LingerState, holders: nat)
    requires
        state.wf(),
        !state.expired(),
        holders != 1,
    ensures
        state.step(holders).dead_count == 0,
        state.step(holders).linger == state.linger,
{
}

} // verus!
