//! The echo correlator: builds outbound echo requests, tracks in-flight
//! (identifier, sequence) pairs, matches inbound replies to them, and applies
//! the timeout and retry policy. A probe is live from the send until its
//! reply arrives or its attempts run out; no two live probes share an
//! identity.

use vstd::prelude::*;

use crate::checksum::{
    checksum, checksum_of, lemma_checksum_in_range, set_checksum, stored_checksum, with_checksum,
};
use crate::decode::{EchoRole, Observation};
use crate::headers::{icmp_set_identifier, icmp_set_sequence, icmp_set_type, ICMP_TYPE_ECHO_REQUEST};
use crate::types::{EchoIdentity, Ipv4Address};

verus! {

/// The timeout and retry policy a correlator runs under.
#[derive(Clone, Copy, PartialEq, Eq, Structural, Debug)]
pub struct ProbeConfig {
    /// Milliseconds without a reply after which a probe has expired.
    pub timeout_ms: u64,
    /// How many sends one probe is allowed in all, the first included.
    pub max_attempts: u8,
}

impl Default for ProbeConfig {
    /// One attempt and a one-second window, matching the capture read
    /// timeout: an expired probe is reported, not resent.
    fn default() -> (c: Self)
        ensures
            c.timeout_ms == 1000,
            c.max_attempts == 1,
    {
        ProbeConfig { timeout_ms: 1000, max_attempts: 1 }
    }
}

/// One in-flight probe.
#[derive(Clone, Copy, PartialEq, Eq, Structural, Debug)]
pub struct PendingProbe {
    pub identity: EchoIdentity,
    pub destination: Ipv4Address,
    /// Millisecond timestamp of the latest send.
    pub sent_at: u64,
    pub attempts_made: u8,
}

/// How a probe ended.
#[derive(Clone, Copy, PartialEq, Eq, Structural, Debug)]
pub enum ProbeOutcome {
    Replied { round_trip: u64, source: Ipv4Address },
    TimedOut,
}

/// Why a probe could not be recorded.
#[derive(Clone, Copy, PartialEq, Eq, Structural, Debug)]
pub enum ProbeError {
    /// A live probe already carries this identity.
    DuplicateIdentity,
}

/// An echo sighting the decode pipeline hands to the correlator.
#[derive(Clone, Copy, PartialEq, Eq, Structural, Debug)]
pub struct EchoEvent {
    pub role: EchoRole,
    pub identity: EchoIdentity,
    pub source: Ipv4Address,
    pub destination: Ipv4Address,
}

/// What one sweep of the live table found: identities that ran out of
/// attempts and identities re-sent, each in table order.
pub struct TickReport {
    pub timed_out: Vec<EchoIdentity>,
    pub retried: Vec<EchoIdentity>,
}

/// The echo event a terminal observation carries, if it carries one.
pub open spec fn spec_echo_event_of(obs: Observation) -> Option<EchoEvent> {
    match obs {
        Observation::EchoObserved { role, identity, source, destination } => Some(
            EchoEvent { role, identity, source, destination },
        ),
        _ => None,
    }
}

/// Picks the echo sighting out of a terminal observation, if there is one.
pub fn echo_event_of(obs: &Observation) -> (r: Option<EchoEvent>)
    ensures
        r == spec_echo_event_of(*obs),
{
    match *obs {
        Observation::EchoObserved { role, identity, source, destination } => Some(
            EchoEvent { role, identity, source, destination },
        ),
        _ => None,
    }
}

/// Whether some live probe carries this identity.
pub open spec fn has_live(s: Seq<PendingProbe>, identity: EchoIdentity) -> bool {
    exists|i: int| 0 <= i < s.len() && s[i].identity == identity
}

/// No two probes of the table share an identity.
pub open spec fn distinct_identities(s: Seq<PendingProbe>) -> bool {
    forall|i: int, j: int|
        0 <= i < j < s.len() ==> s[i].identity != s[j].identity
}

/// Milliseconds from `then` to `now`, zero where the clock went backwards.
pub open spec fn spec_elapsed(now: u64, then: u64) -> u64 {
    if now >= then {
        (now - then) as u64
    } else {
        0
    }
}

/// A probe has expired when more than the timeout has passed since its
/// latest send.
pub open spec fn spec_expired(p: PendingProbe, now: u64, timeout_ms: u64) -> bool {
    now > p.sent_at + timeout_ms
}

/// The probe as a retry leaves it: re-sent now, one more attempt made.
pub open spec fn spec_retried_probe(p: PendingProbe, now: u64) -> PendingProbe {
    PendingProbe {
        identity: p.identity,
        destination: p.destination,
        sent_at: now,
        attempts_made: (p.attempts_made + 1) as u8,
    }
}

/// The live table a sweep at `now` leaves behind: unexpired probes kept as
/// they are, expired ones with attempts left re-sent, the rest removed.
pub open spec fn spec_tick_remaining(s: Seq<PendingProbe>, now: u64, c: ProbeConfig) -> Seq<
    PendingProbe,
>
    decreases s.len(),
{
    if s.len() == 0 {
        Seq::empty()
    } else {
        let rest = spec_tick_remaining(s.drop_last(), now, c);
        let p = s.last();
        if !spec_expired(p, now, c.timeout_ms) {
            rest.push(p)
        } else if p.attempts_made < c.max_attempts {
            rest.push(spec_retried_probe(p, now))
        } else {
            rest
        }
    }
}

/// The identities a sweep at `now` reports as timed out, in table order.
pub open spec fn spec_tick_timed_out(s: Seq<PendingProbe>, now: u64, c: ProbeConfig) -> Seq<
    EchoIdentity,
>
    decreases s.len(),
{
    if s.len() == 0 {
        Seq::empty()
    } else {
        let rest = spec_tick_timed_out(s.drop_last(), now, c);
        let p = s.last();
        if spec_expired(p, now, c.timeout_ms) && p.attempts_made >= c.max_attempts {
            rest.push(p.identity)
        } else {
            rest
        }
    }
}

/// The identities a sweep at `now` re-sends, in table order.
pub open spec fn spec_tick_retried(s: Seq<PendingProbe>, now: u64, c: ProbeConfig) -> Seq<
    EchoIdentity,
>
    decreases s.len(),
{
    if s.len() == 0 {
        Seq::empty()
    } else {
        let rest = spec_tick_retried(s.drop_last(), now, c);
        let p = s.last();
        if spec_expired(p, now, c.timeout_ms) && p.attempts_made < c.max_attempts {
            rest.push(p.identity)
        } else {
            rest
        }
    }
}

/// How often an identity stands in a report.
pub open spec fn count_identity(ids: Seq<EchoIdentity>, identity: EchoIdentity) -> int
    decreases ids.len(),
{
    if ids.len() == 0 {
        0
    } else {
        count_identity(ids.drop_last(), identity) + if ids.last() == identity {
            1int
        } else {
            0int
        }
    }
}

/// The echo request before its checksum is computed: type eight, code zero,
/// the identity big-endian, eight bytes of zero payload, checksum field zero.
pub open spec fn spec_echo_request_zeroed(identity: EchoIdentity) -> Seq<u8> {
    seq![
        8u8,
        0u8,
        0u8,
        0u8,
        (identity.identifier / 256) as u8,
        (identity.identifier % 256) as u8,
        (identity.sequence / 256) as u8,
        (identity.sequence % 256) as u8,
        0u8,
        0u8,
        0u8,
        0u8,
        0u8,
        0u8,
        0u8,
        0u8,
    ]
}

/// The echo request as it goes on the wire: the zero-field request with its
/// own checksum written into the checksum field.
pub open spec fn spec_echo_request(identity: EchoIdentity) -> Seq<u8> {
    with_checksum(
        spec_echo_request_zeroed(identity),
        checksum_of(spec_echo_request_zeroed(identity)) as u16,
    )
}

/// Builds a well-formed echo request for this identity: an eight-byte echo
/// header, eight bytes of zero payload, and a checksum computed over the
/// whole message with the checksum field zeroed first.
pub fn build_echo_request(identity: EchoIdentity) -> (frame: Vec<u8>)
    ensures
        frame@ == spec_echo_request(identity),
        frame@.len() == 16,
{
    let mut frame: Vec<u8> = Vec::new();
    let mut i: usize = 0;
    while i < 16
        invariant
            i <= 16,
            frame@ =~= Seq::new(i as nat, |k: int| 0u8),
        decreases 16 - i,
    {
        frame.push(0u8);
        proof {
            assert(frame@ =~= Seq::new((i + 1) as nat, |k: int| 0u8));
        }
        i = i + 1;
    }
    // Sixteen bytes are there, so none of the setters can refuse.
    let _ = icmp_set_type(&mut frame, ICMP_TYPE_ECHO_REQUEST);
    let _ = icmp_set_identifier(&mut frame, identity.identifier);
    let _ = icmp_set_sequence(&mut frame, identity.sequence);
    proof {
        assert(frame@ =~= spec_echo_request_zeroed(identity));
    }
    let sum = checksum(frame.as_slice());
    set_checksum(&mut frame, sum);
    proof {
        lemma_checksum_in_range(spec_echo_request_zeroed(identity));
    }
    frame
}

/// Law: a built echo request carries a checksum that validates. The stored
/// field equals the checksum recomputed over the request with the field
/// zeroed again, which is how the receiving side checks it.
pub proof fn lemma_echo_request_validates(identity: EchoIdentity)
    ensures
        stored_checksum(spec_echo_request(identity)) == checksum_of(
            with_checksum(spec_echo_request(identity), 0),
        ),
{
    let zeroed = spec_echo_request_zeroed(identity);
    lemma_checksum_in_range(zeroed);
    let c = checksum_of(zeroed);
    vstd::arithmetic::div_mod::lemma_fundamental_div_mod(c, 256);
    assert(stored_checksum(spec_echo_request(identity)) == c);
    assert(with_checksum(spec_echo_request(identity), 0) =~= zeroed);
}

/// The live-probe table with its policy. Well-formedness: no two live
/// probes share an identity; every operation preserves it.
pub struct EchoCorrelator {
    pub pending: Vec<PendingProbe>,
    pub config: ProbeConfig,
}

impl EchoCorrelator {
    /// No two live probes share an identity.
    pub open spec fn wf(self) -> bool {
        distinct_identities(self.pending@)
    }

    /// An empty live table under the given policy.
    pub fn new(config: ProbeConfig) -> (c: EchoCorrelator)
        ensures
            c.wf(),
            c.pending@ == Seq::<PendingProbe>::empty(),
            c.config == config,
    {
        EchoCorrelator { pending: Vec::new(), config }
    }

    /// Whether a live probe carries this identity.
    pub fn is_live(&self, identity: EchoIdentity) -> (r: bool)
        ensures
            r == has_live(self.pending@, identity),
    {
        let n = self.pending.len();
        let mut i: usize = 0;
        while i < n
            invariant
                i <= n,
                n == self.pending@.len(),
                forall|k: int| 0 <= k < i ==> self.pending@[k].identity != identity,
            decreases n - i,
        {
            if self.pending[i].identity == identity {
                return true;
            }
            i = i + 1;
        }
        false
    }

    /// Takes the live probe with this identity out of the table, handing it
    /// back; the table is unchanged where none carries it.
    fn remove_live(&mut self, identity: EchoIdentity) -> (removed: Option<PendingProbe>)
        requires
            old(self).wf(),
        ensures
            final(self).wf(),
            final(self).config == old(self).config,
            has_live(old(self).pending@, identity) ==> (exists|i: int|
                0 <= i < old(self).pending@.len() && old(self).pending@[i].identity == identity
                    && final(self).pending@ == old(self).pending@.remove(i) && removed == Some(
                    old(self).pending@[i],
                )),
            !has_live(old(self).pending@, identity) ==> removed == None::<PendingProbe>
                && *final(self) == *old(self),
    {
        let n = self.pending.len();
        let mut i: usize = 0;
        while i < n
            invariant
                i <= n,
                n == self.pending@.len(),
                forall|k: int| 0 <= k < i ==> self.pending@[k].identity != identity,
                *self == *old(self),
                old(self).wf(),
            decreases n - i,
        {
            if self.pending[i].identity == identity {
                let probe = self.pending[i];
                self.pending.remove(i);
                proof {
                    lemma_distinct_after_remove(old(self).pending@, i as int);
                    assert(0 <= i < old(self).pending@.len() && old(self).pending@[
                        i as int
                    ].identity == identity && final(self).pending@ == old(self).pending@.remove(
                        i as int,
                    ) && Some(probe) == Some(old(self).pending@[i as int]));
                }
                return Some(probe);
            }
            i = i + 1;
        }
        None
    }

    /// Builds and records a probe: a well-formed echo request to hand to the
    /// transport, and a live table entry stamped `now` with one attempt
    /// made. Refused where the identity is already live, so that no two
    /// live probes ever share one.
    pub fn send_probe(&mut self, destination: Ipv4Address, identity: EchoIdentity, now: u64) -> (r:
        Result<Vec<u8>, ProbeError>)
        requires
            old(self).wf(),
        ensures
            final(self).wf(),
            final(self).config == old(self).config,
            has_live(old(self).pending@, identity) ==> r == Err::<Vec<u8>, ProbeError>(
                ProbeError::DuplicateIdentity,
            ) && *final(self) == *old(self),
            !has_live(old(self).pending@, identity) ==> final(self).pending@ == old(
                self,
            ).pending@.push(
                PendingProbe { identity, destination, sent_at: now, attempts_made: 1 },
            ) && (r matches Ok(frame) && frame@ == spec_echo_request(identity)),
    {
        if self.is_live(identity) {
            return Err(ProbeError::DuplicateIdentity);
        }
        let frame = build_echo_request(identity);
        let probe = PendingProbe { identity, destination, sent_at: now, attempts_made: 1 };
        self.pending.push(probe);
        proof {
            lemma_distinct_after_push(old(self).pending@, probe);
        }
        Ok(frame)
    }

    /// Forgets the live probe with this identity: the step a caller takes
    /// when the transport refused the send, so that a failed probe is not
    /// recorded.
    pub fn cancel_probe(&mut self, identity: EchoIdentity)
        requires
            old(self).wf(),
        ensures
            final(self).wf(),
            final(self).config == old(self).config,
            has_live(old(self).pending@, identity) ==> (exists|i: int|
                0 <= i < old(self).pending@.len() && old(self).pending@[i].identity == identity
                    && final(self).pending@ == old(self).pending@.remove(i)),
            !has_live(old(self).pending@, identity) ==> *final(self) == *old(self),
    {
        let _ = self.remove_live(identity);
    }

    /// Correlates one decoded sighting with the live table. A reply whose
    /// identity is live ends that probe with its round trip; anything else
    /// — a request, a reply nothing waits for, a duplicate of an already
    /// answered reply — is discarded silently and changes nothing.
    pub fn on_frame_observed(&mut self, event: EchoEvent, now: u64) -> (r: Option<ProbeOutcome>)
        requires
            old(self).wf(),
        ensures
            final(self).wf(),
            final(self).config == old(self).config,
            (event.role == EchoRole::Reply && has_live(old(self).pending@, event.identity)) ==> (
            exists|i: int|
                0 <= i < old(self).pending@.len() && old(self).pending@[i].identity
                    == event.identity && final(self).pending@ == old(self).pending@.remove(i) && r
                    == Some(
                    ProbeOutcome::Replied {
                        round_trip: spec_elapsed(now, old(self).pending@[i].sent_at),
                        source: event.source,
                    },
                )),
            !(event.role == EchoRole::Reply && has_live(old(self).pending@, event.identity))
                ==> r == None::<ProbeOutcome> && *final(self) == *old(self),
    {
        if event.role == EchoRole::Reply {
            match self.remove_live(event.identity) {
                Some(probe) => {
                    let round_trip: u64 = if now >= probe.sent_at {
                        now - probe.sent_at
                    } else {
                        0
                    };
                    Some(ProbeOutcome::Replied { round_trip, source: event.source })
                },
                None => None,
            }
        } else {
            None
        }
    }

    /// Sweeps the live table at `now`: an expired probe with attempts left
    /// is re-sent in place, one without is removed and reported timed out;
    /// everything else stays as it was, in order.
    pub fn tick(&mut self, now: u64) -> (report: TickReport)
        requires
            old(self).wf(),
        ensures
            final(self).wf(),
            final(self).config == old(self).config,
            final(self).pending@ == spec_tick_remaining(
                old(self).pending@,
                now,
                old(self).config,
            ),
            report.timed_out@ == spec_tick_timed_out(old(self).pending@, now, old(self).config),
            report.retried@ == spec_tick_retried(old(self).pending@, now, old(self).config),
    {
        let mut remaining: Vec<PendingProbe> = Vec::new();
        let mut timed_out: Vec<EchoIdentity> = Vec::new();
        let mut retried: Vec<EchoIdentity> = Vec::new();
        let n = self.pending.len();
        let mut i: usize = 0;
        proof {
            assert(self.pending@.take(0) =~= Seq::<PendingProbe>::empty());
        }
        while i < n
            invariant
                i <= n,
                n == self.pending@.len(),
                *self == *old(self),
                remaining@ == spec_tick_remaining(
                    self.pending@.take(i as int),
                    now,
                    self.config,
                ),
                timed_out@ == spec_tick_timed_out(self.pending@.take(i as int), now, self.config),
                retried@ == spec_tick_retried(self.pending@.take(i as int), now, self.config),
            decreases n - i,
        {
            let p = self.pending[i];
            proof {
                assert(self.pending@.take(i + 1).drop_last() =~= self.pending@.take(i as int));
                assert(self.pending@.take(i + 1).last() == self.pending@[i as int]);
            }
            let expired = now > p.sent_at && now - p.sent_at > self.config.timeout_ms;
            if !expired {
                remaining.push(p);
            } else if p.attempts_made < self.config.max_attempts {
                let updated = PendingProbe {
                    identity: p.identity,
                    destination: p.destination,
                    sent_at: now,
                    attempts_made: p.attempts_made + 1,
                };
                remaining.push(updated);
                retried.push(p.identity);
            } else {
                timed_out.push(p.identity);
            }
            i = i + 1;
        }
        proof {
            assert(self.pending@.take(n as int) =~= self.pending@);
            lemma_tick_remaining_distinct(self.pending@, now, self.config);
        }
        self.pending = remaining;
        TickReport { timed_out, retried }
    }
}

/// Removing an entry keeps the identities pairwise distinct.
pub proof fn lemma_distinct_after_remove(s: Seq<PendingProbe>, i: int)
    requires
        distinct_identities(s),
        0 <= i < s.len(),
    ensures
        distinct_identities(s.remove(i)),
{
    s.remove_ensures(i);
    assert forall|a: int, b: int|
        0 <= a < b < s.remove(i).len() implies s.remove(i)[a].identity != s.remove(
        i,
    )[b].identity by {
        let a0 = if a < i {
            a
        } else {
            a + 1
        };
        let b0 = if b < i {
            b
        } else {
            b + 1
        };
        assert(s.remove(i)[a] == s[a0]);
        assert(s.remove(i)[b] == s[b0]);
    }
}

/// Appending a probe whose identity is not live keeps the identities
/// pairwise distinct.
pub proof fn lemma_distinct_after_push(s: Seq<PendingProbe>, p: PendingProbe)
    requires
        distinct_identities(s),
        !has_live(s, p.identity),
    ensures
        distinct_identities(s.push(p)),
{
    assert forall|a: int, b: int|
        0 <= a < b < s.push(p).len() implies s.push(p)[a].identity != s.push(p)[b].identity by {
        if b == s.len() {
            assert(s.push(p)[a] == s[a]);
            assert(s.push(p)[b] == p);
        } else {
            assert(s.push(p)[a] == s[a]);
            assert(s.push(p)[b] == s[b]);
        }
    }
}

/// An identity no live probe carries is not in the table a sweep leaves.
pub proof fn lemma_tick_remaining_absent(
    s: Seq<PendingProbe>,
    now: u64,
    c: ProbeConfig,
    identity: EchoIdentity,
)
    requires
        !has_live(s, identity),
    ensures
        !has_live(spec_tick_remaining(s, now, c), identity),
    decreases s.len(),
{
    if s.len() > 0 {
        assert(!has_live(s.drop_last(), identity)) by {
            if has_live(s.drop_last(), identity) {
                let k = choose|k: int|
                    0 <= k < s.drop_last().len() && s.drop_last()[k].identity == identity;
                assert(s[k].identity == identity);
            }
        }
        lemma_tick_remaining_absent(s.drop_last(), now, c, identity);
        let rest = spec_tick_remaining(s.drop_last(), now, c);
        assert(s.last().identity != identity);
        if has_live(spec_tick_remaining(s, now, c), identity) {
            let k = choose|k: int|
                0 <= k < spec_tick_remaining(s, now, c).len() && spec_tick_remaining(
                    s,
                    now,
                    c,
                )[k].identity == identity;
            if k < rest.len() {
                assert(rest[k].identity == identity);
            }
        }
    }
}

/// The table a sweep leaves keeps the identities pairwise distinct.
pub proof fn lemma_tick_remaining_distinct(s: Seq<PendingProbe>, now: u64, c: ProbeConfig)
    requires
        distinct_identities(s),
    ensures
        distinct_identities(spec_tick_remaining(s, now, c)),
    decreases s.len(),
{
    if s.len() > 0 {
        assert(distinct_identities(s.drop_last()));
        lemma_tick_remaining_distinct(s.drop_last(), now, c);
        let rest = spec_tick_remaining(s.drop_last(), now, c);
        assert(!has_live(s.drop_last(), s.last().identity)) by {
            if has_live(s.drop_last(), s.last().identity) {
                let k = choose|k: int|
                    0 <= k < s.drop_last().len() && s.drop_last()[k].identity
                        == s.last().identity;
                assert(s[k].identity == s.last().identity);
            }
        }
        lemma_tick_remaining_absent(s.drop_last(), now, c, s.last().identity);
        let whole = spec_tick_remaining(s, now, c);
        assert forall|a: int, b: int|
            0 <= a < b < whole.len() implies whole[a].identity != whole[b].identity by {
            if b < rest.len() {
                assert(whole[a] == rest[a]);
                assert(whole[b] == rest[b]);
            } else {
                assert(whole[a] == rest[a]);
                assert(whole[b].identity == s.last().identity);
                assert(rest[a].identity != s.last().identity);
            }
        }
    }
}

/// A freshly recorded probe is live: what `send_probe` appends,
/// `on_frame_observed` will find.
pub proof fn lemma_live_after_push(s: Seq<PendingProbe>, p: PendingProbe)
    ensures
        has_live(s.push(p), p.identity),
{
    assert(s.push(p)[s.len() as int] == p);
}

/// Law (correlator exactness): a matching reply removes its probe's identity
/// from the live table, so an identical second reply event finds nothing and
/// is discarded.
pub proof fn lemma_reply_correlates_once(s: Seq<PendingProbe>, i: int)
    requires
        distinct_identities(s),
        0 <= i < s.len(),
    ensures
        !has_live(s.remove(i), s[i].identity),
{
    s.remove_ensures(i);
    if has_live(s.remove(i), s[i].identity) {
        let k = choose|k: int|
            0 <= k < s.remove(i).len() && s.remove(i)[k].identity == s[i].identity;
        let k0 = if k < i {
            k
        } else {
            k + 1
        };
        assert(s.remove(i)[k] == s[k0]);
        if k0 < i {
            assert(s[k0].identity != s[i].identity);
        } else {
            assert(s[i].identity != s[k0].identity);
        }
    }
}

/// A sweep reports no identity that no live probe carries.
pub proof fn lemma_timed_out_absent(
    s: Seq<PendingProbe>,
    now: u64,
    c: ProbeConfig,
    identity: EchoIdentity,
)
    requires
        !has_live(s, identity),
    ensures
        count_identity(spec_tick_timed_out(s, now, c), identity) == 0,
    decreases s.len(),
{
    if s.len() > 0 {
        assert(!has_live(s.drop_last(), identity)) by {
            if has_live(s.drop_last(), identity) {
                let k = choose|k: int|
                    0 <= k < s.drop_last().len() && s.drop_last()[k].identity == identity;
                assert(s[k].identity == identity);
            }
        }
        lemma_timed_out_absent(s.drop_last(), now, c, identity);
        let rest = spec_tick_timed_out(s.drop_last(), now, c);
        let p = s.last();
        assert(p.identity != identity);
        if spec_expired(p, now, c.timeout_ms) && p.attempts_made >= c.max_attempts {
            assert(rest.push(p.identity).drop_last() =~= rest);
        }
    }
}

/// Law (timeout path): an expired probe that is out of attempts is removed
/// from the live table by a sweep and its identity reported timed out
/// exactly once.
pub proof fn lemma_timeout_reported_once(s: Seq<PendingProbe>, now: u64, c: ProbeConfig, i: int)
    requires
        distinct_identities(s),
        0 <= i < s.len(),
        spec_expired(s[i], now, c.timeout_ms),
        s[i].attempts_made >= c.max_attempts,
    ensures
        count_identity(spec_tick_timed_out(s, now, c), s[i].identity) == 1,
        !has_live(spec_tick_remaining(s, now, c), s[i].identity),
    decreases s.len(),
{
    let id = s[i].identity;
    assert(distinct_identities(s.drop_last()));
    if i == s.len() - 1 {
        assert(!has_live(s.drop_last(), id)) by {
            if has_live(s.drop_last(), id) {
                let k = choose|k: int|
                    0 <= k < s.drop_last().len() && s.drop_last()[k].identity == id;
                assert(s[k].identity == id);
            }
        }
        lemma_timed_out_absent(s.drop_last(), now, c, id);
        let rest = spec_tick_timed_out(s.drop_last(), now, c);
        assert(spec_tick_timed_out(s, now, c) == rest.push(id));
        assert(rest.push(id).drop_last() =~= rest);
        assert(rest.push(id).last() == id);
        lemma_tick_remaining_absent(s.drop_last(), now, c, id);
        assert(spec_tick_remaining(s, now, c) == spec_tick_remaining(s.drop_last(), now, c));
    } else {
        assert(s.drop_last()[i] == s[i]);
        lemma_timeout_reported_once(s.drop_last(), now, c, i);
        let rest = spec_tick_timed_out(s.drop_last(), now, c);
        let p = s.last();
        assert(p.identity != id);
        if spec_expired(p, now, c.timeout_ms) && p.attempts_made >= c.max_attempts {
            assert(spec_tick_timed_out(s, now, c) == rest.push(p.identity));
            assert(rest.push(p.identity).drop_last() =~= rest);
            assert(rest.push(p.identity).last() == p.identity);
        }
        let remaining_rest = spec_tick_remaining(s.drop_last(), now, c);
        if has_live(spec_tick_remaining(s, now, c), id) {
            let k = choose|k: int|
                0 <= k < spec_tick_remaining(s, now, c).len() && spec_tick_remaining(
                    s,
                    now,
                    c,
                )[k].identity == id;
            if k < remaining_rest.len() {
                assert(remaining_rest[k].identity == id);
            }
        }
    }
}

} // verus!
