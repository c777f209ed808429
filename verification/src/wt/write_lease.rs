//! Owned payloads that the application lends to the driver for one write.

use vstd::prelude::*;

use crate::conn_close::{bump, bumped};
use crate::headers::copy_bytes;
use crate::wt::block_reasons::StreamSendBlockReasons;
use crate::wt::types::WebTransportSelectionError;

verus! {

/// How far the transport got with a lent payload.
#[derive(Clone, Copy, Debug, PartialEq, Eq, Structural)]
pub enum WebTransportStreamWriteLeaseProgress {
    /// The payload was never shown to the transport.
    NeverExposed,
    /// The transport saw the payload and took none of it.
    ExposedKnownZero,
    /// The transport took part of the payload.
    AcceptedPartial { accepted: usize },
    /// The transport took the whole payload.
    AcceptedComplete { accepted: usize, fin_accepted: bool },
    /// The transport saw the payload, and nobody learned what it took.
    Unknowable,
}

/// A payload that its owner lends for one write and gets back with the outcome.
pub trait WebTransportStreamWriteLease: Sized {
    type Error;

    /// The payload.
    spec fn payload(&self) -> Seq<u8>;

    /// How many bytes the owner says the payload has.
    spec fn declared_len(&self) -> usize;

    /// How many bytes of memory the lease keeps alive.
    spec fn memory(&self) -> usize;

    /// Whether the payload can be shown.
    spec fn is_available(&self) -> bool;

    /// How many bytes the owner says the payload has.
    fn payload_len(&self) -> (len: usize)
        ensures
            len == self.declared_len(),
    ;

    /// How many bytes of memory the lease keeps alive.
    fn retained_bytes(&self) -> (len: usize)
        ensures
            len == self.memory(),
    ;

    /// Shows the payload.
    fn as_slice(&mut self) -> (slice: Result<&[u8], Self::Error>)
        ensures
            slice is Ok <==> old(self).is_available(),
            slice matches Ok(bytes) ==> bytes@ == old(self).payload(),
            final(self).payload() == old(self).payload(),
            final(self).declared_len() == old(self).declared_len(),
            final(self).memory() == old(self).memory(),
            final(self).is_available() == old(self).is_available(),
    ;

    /// Tells the owner that nobody waits for the outcome any more.
    fn on_write_abandoned(&mut self, progress: WebTransportStreamWriteLeaseProgress)
        ensures
            final(self).payload() == old(self).payload(),
            final(self).declared_len() == old(self).declared_len(),
            final(self).memory() == old(self).memory(),
            final(self).is_available() == old(self).is_available(),
    ;
}

/// What happened to a [`MockWriteLease`].
#[derive(Clone, Debug, PartialEq, Eq)]
pub struct MockWriteLeaseLog {
    /// How often its payload was shown.
    pub exposures: usize,
    /// How far the writes had come that nobody waited for.
    pub abandonments: Vec<WebTransportStreamWriteLeaseProgress>,
}

/// Why a [`MockWriteLease`] does not show its payload.
#[derive(Clone, Copy, Debug, PartialEq, Eq, Structural)]
pub enum MockWriteLeaseError {
    Unavailable,
}

/// A lease that records what happens to it.
#[derive(Debug, PartialEq, Eq)]
pub struct MockWriteLease {
    pub id: u64,
    pub payload: Vec<u8>,
    pub declared_len: usize,
    pub retained_bytes: usize,
    pub fail_exposure: bool,
    pub log: MockWriteLeaseLog,
}

/// The value of a [`MockWriteLease`].
pub ghost struct LeaseState {
    pub id: u64,
    pub payload: Seq<u8>,
    pub declared_len: usize,
    pub retained_bytes: usize,
    pub fail_exposure: bool,
    pub exposures: usize,
    pub abandonments: Seq<WebTransportStreamWriteLeaseProgress>,
}

impl LeaseState {
    /// The lease after its payload was shown.
    pub open spec fn exposed(self) -> LeaseState {
        LeaseState { exposures: exposed_once_more(self.exposures), ..self }
    }

    /// The lease after its owner was told that nobody waits for the outcome.
    pub open spec fn told(self, progress: WebTransportStreamWriteLeaseProgress) -> LeaseState {
        LeaseState { abandonments: self.abandonments.push(progress), ..self }
    }
}

impl View for MockWriteLease {
    type V = LeaseState;

    open spec fn view(&self) -> LeaseState {
        LeaseState {
            id: self.id,
            payload: self.payload@,
            declared_len: self.declared_len,
            retained_bytes: self.retained_bytes,
            fail_exposure: self.fail_exposure,
            exposures: self.log.exposures,
            abandonments: self.log.abandonments@,
        }
    }
}

impl WebTransportStreamWriteLease for MockWriteLease {
    type Error = MockWriteLeaseError;

    open spec fn payload(&self) -> Seq<u8> {
        self.payload@
    }

    open spec fn declared_len(&self) -> usize {
        self.declared_len
    }

    open spec fn memory(&self) -> usize {
        self.retained_bytes
    }

    open spec fn is_available(&self) -> bool {
        !self.fail_exposure
    }

    fn payload_len(&self) -> (len: usize) {
        self.declared_len
    }

    fn retained_bytes(&self) -> (len: usize) {
        self.retained_bytes
    }

    fn as_slice(&mut self) -> (slice: Result<&[u8], MockWriteLeaseError>)
        ensures
            final(self)@ == (if old(self).fail_exposure {
                old(self)@
            } else {
                old(self)@.exposed()
            }),
            slice matches Err(error) ==> error == MockWriteLeaseError::Unavailable,
    {
        if self.fail_exposure {
            return Err(MockWriteLeaseError::Unavailable);
        }
        if self.log.exposures < usize::MAX {
            self.log.exposures = self.log.exposures + 1;
        }
        Ok(self.payload.as_slice())
    }

    fn on_write_abandoned(&mut self, progress: WebTransportStreamWriteLeaseProgress)
        ensures
            final(self)@ == old(self)@.told(progress),
    {
        self.log.abandonments.push(progress);
    }
}

/// A number of exposures after one more. It stops at its largest value.
pub open spec fn exposed_once_more(exposures: usize) -> usize {
    if exposures < usize::MAX {
        (exposures + 1) as usize
    } else {
        exposures
    }
}

/// A lease of `payload`, to which nothing has happened.
pub fn mock_write_lease(id: u64, payload: &[u8]) -> (lease: MockWriteLease)
    ensures
        lease@ == (LeaseState {
            id,
            payload: payload@,
            declared_len: payload@.len() as usize,
            retained_bytes: payload@.len() as usize,
            fail_exposure: false,
            exposures: 0,
            abandonments: Seq::empty(),
        }),
{
    MockWriteLease {
        id,
        payload: copy_bytes(payload),
        declared_len: payload.len(),
        retained_bytes: payload.len(),
        fail_exposure: false,
        log: MockWriteLeaseLog { exposures: 0, abandonments: Vec::new() },
    }
}

/// The decimal digits of a number, as text.
pub open spec fn decimal_text(n: nat) -> Seq<char>
    decreases n,
{
    if n < 10 {
        seq![(48 + n) as char]
    } else {
        decimal_text(n / 10).push((48 + n % 10) as char)
    }
}

fn digit_text(digit: u64) -> (text: &'static str)
    requires
        digit < 10,
    ensures
        text@ == seq![(48 + digit) as char],
{
    proof {
        reveal_strlit("0");
        reveal_strlit("1");
        reveal_strlit("2");
        reveal_strlit("3");
        reveal_strlit("4");
        reveal_strlit("5");
        reveal_strlit("6");
        reveal_strlit("7");
        reveal_strlit("8");
        reveal_strlit("9");
    }
    match digit {
        0 => "0",
        1 => "1",
        2 => "2",
        3 => "3",
        4 => "4",
        5 => "5",
        6 => "6",
        7 => "7",
        8 => "8",
        _ => "9",
    }
}

fn append_decimal(text: &mut String, n: u64)
    ensures
        final(text)@ == old(text)@ + decimal_text(n as nat),
    decreases n,
{
    if n >= 10 {
        append_decimal(text, n / 10);
    }
    text.append(digit_text(n % 10));
    assert(text@ =~= old(text)@ + decimal_text(n as nat));
}

impl LeaseState {
    /// What may be printed of a lease: how large it is, and none of its bytes.
    pub open spec fn description(self) -> Seq<char> {
        "MockWriteLease { id: "@ + decimal_text(self.id as nat) + ", payload_len: "@ + decimal_text(
            self.payload.len(),
        ) + ", declared_len: "@ + decimal_text(self.declared_len as nat) + ", retained_bytes: "@
            + decimal_text(self.retained_bytes as nat) + ", .. }"@
    }
}

impl MockWriteLease {
    /// What may be printed of the lease: how large it is, and none of its bytes.
    pub fn describe(&self) -> (text: String)
        ensures
            text@ == self@.description(),
    {
        let mut text = "MockWriteLease { id: ".to_owned();
        append_decimal(&mut text, self.id);
        text.append(", payload_len: ");
        append_decimal(&mut text, self.payload.len() as u64);
        text.append(", declared_len: ");
        append_decimal(&mut text, self.declared_len as u64);
        text.append(", retained_bytes: ");
        append_decimal(&mut text, self.retained_bytes as u64);
        text.append(", .. }");
        text
    }
}

/// A copy of what happened to a lease.
pub fn mock_write_lease_log(lease: &MockWriteLease) -> (log: MockWriteLeaseLog)
    ensures
        log.exposures == lease.log.exposures,
        log.abandonments@ == lease.log.abandonments@,
{
    let mut abandonments: Vec<WebTransportStreamWriteLeaseProgress> = Vec::new();
    let mut i: usize = 0;
    while i < lease.log.abandonments.len()
        invariant
            i <= lease.log.abandonments@.len(),
            abandonments@ == lease.log.abandonments@.take(i as int),
        decreases lease.log.abandonments@.len() - i,
    {
        abandonments.push(lease.log.abandonments[i]);
        i += 1;
        assert(abandonments@ =~= lease.log.abandonments@.take(i as int));
    }
    assert(lease.log.abandonments@.take(i as int) =~= lease.log.abandonments@);
    MockWriteLeaseLog { exposures: lease.log.exposures, abandonments }
}

/// Which bound a lease is over.
#[derive(Clone, Copy, Debug, PartialEq, Eq, Structural)]
pub enum WebTransportStreamWriteLeaseLimit {
    Payload,
    RetainedBytes,
}

/// What became of a lease that was offered.
#[derive(Clone, Copy, Debug, PartialEq, Eq, Structural)]
pub enum LeaseAdmission {
    Admitted,
    /// The lease is larger than any lease may be.
    TooLarge { limit: WebTransportStreamWriteLeaseLimit, max: usize, actual: usize },
    /// The command lane is full.
    QueueFull,
    /// The leases that are out leave no room.
    ResourceLimit,
    /// The command lane is closed.
    ConnectionClosed,
}

/// The leases that are out, and what became of all leases so far.
#[derive(Clone, Copy, Debug, PartialEq, Eq, Structural)]
pub struct LeaseLedger {
    /// How many bytes one payload can have.
    pub max_payload: usize,
    /// How many bytes of memory one lease can keep alive.
    pub max_retained_each: usize,
    /// How many leases can be out.
    pub max_leases: usize,
    /// How many bytes of memory all leases can keep alive.
    pub max_retained: usize,
    pub leases: usize,
    pub retained: usize,
    pub admitted_total: u64,
    pub queue_full_total: u64,
    pub resource_limit_total: u64,
    pub too_large_total: u64,
    pub abandoned_unexposed_total: u64,
    pub abandoned_zero_total: u64,
    pub abandoned_unknown_total: u64,
}

/// The product of two numbers, or the largest value.
pub open spec fn capped_product(a: usize, b: usize) -> usize {
    if a * b <= usize::MAX {
        (a * b) as usize
    } else {
        usize::MAX
    }
}

impl LeaseLedger {
    /// The ledger stays within its bounds.
    pub open spec fn wf(self) -> bool {
        self.leases <= self.max_leases && self.retained <= self.max_retained
    }

    /// The ledger of a lane with `capacity` places.
    pub open spec fn fresh(capacity: usize, max_payload: usize, max_retained_each: usize) -> Self {
        LeaseLedger {
            max_payload,
            max_retained_each,
            max_leases: capacity,
            max_retained: capped_product(capacity, max_retained_each),
            leases: 0,
            retained: 0,
            admitted_total: 0,
            queue_full_total: 0,
            resource_limit_total: 0,
            too_large_total: 0,
            abandoned_unexposed_total: 0,
            abandoned_zero_total: 0,
            abandoned_unknown_total: 0,
        }
    }

    /// The ledger of a lane with `capacity` places.
    pub fn new(capacity: usize, max_payload: usize, max_retained_each: usize) -> (ledger: Self)
        ensures
            ledger == LeaseLedger::fresh(capacity, max_payload, max_retained_each),
            ledger.wf(),
    {
        let max_retained: usize = match capacity.checked_mul(max_retained_each) {
            Some(product) => product,
            None => usize::MAX,
        };
        LeaseLedger {
            max_payload,
            max_retained_each,
            max_leases: capacity,
            max_retained,
            leases: 0,
            retained: 0,
            admitted_total: 0,
            queue_full_total: 0,
            resource_limit_total: 0,
            too_large_total: 0,
            abandoned_unexposed_total: 0,
            abandoned_zero_total: 0,
            abandoned_unknown_total: 0,
        }
    }

    /// What becomes of a lease. Its own size is judged first, then the lane,
    /// then the leases that are out.
    pub open spec fn judged(
        self,
        payload_len: usize,
        memory: usize,
        lane_open: bool,
        lane_has_room: bool,
    ) -> LeaseAdmission {
        if payload_len > self.max_payload {
            LeaseAdmission::TooLarge {
                limit: WebTransportStreamWriteLeaseLimit::Payload,
                max: self.max_payload,
                actual: payload_len,
            }
        } else if memory > self.max_retained_each {
            LeaseAdmission::TooLarge {
                limit: WebTransportStreamWriteLeaseLimit::RetainedBytes,
                max: self.max_retained_each,
                actual: memory,
            }
        } else if !lane_open {
            LeaseAdmission::ConnectionClosed
        } else if !lane_has_room {
            LeaseAdmission::QueueFull
        } else if self.leases >= self.max_leases || memory > self.max_retained - self.retained {
            LeaseAdmission::ResourceLimit
        } else {
            LeaseAdmission::Admitted
        }
    }

    /// The ledger after a lease was judged.
    pub open spec fn entered(self, admission: LeaseAdmission, memory: usize) -> LeaseLedger {
        match admission {
            LeaseAdmission::Admitted => LeaseLedger {
                leases: (self.leases + 1) as usize,
                retained: (self.retained + memory) as usize,
                admitted_total: bumped(self.admitted_total),
                ..self
            },
            LeaseAdmission::TooLarge { .. } => LeaseLedger {
                too_large_total: bumped(self.too_large_total),
                ..self
            },
            LeaseAdmission::QueueFull => LeaseLedger {
                queue_full_total: bumped(self.queue_full_total),
                ..self
            },
            LeaseAdmission::ResourceLimit => LeaseLedger {
                resource_limit_total: bumped(self.resource_limit_total),
                ..self
            },
            LeaseAdmission::ConnectionClosed => self,
        }
    }

    /// Offers a lease.
    pub fn offer(
        &mut self,
        payload_len: usize,
        memory: usize,
        lane_open: bool,
        lane_has_room: bool,
    ) -> (admission: LeaseAdmission)
        requires
            old(self).wf(),
        ensures
            admission == old(self).judged(payload_len, memory, lane_open, lane_has_room),
            *final(self) == old(self).entered(admission, memory),
            final(self).wf(),
    {
        if payload_len > self.max_payload {
            self.too_large_total = bump(self.too_large_total);
            LeaseAdmission::TooLarge {
                limit: WebTransportStreamWriteLeaseLimit::Payload,
                max: self.max_payload,
                actual: payload_len,
            }
        } else if memory > self.max_retained_each {
            self.too_large_total = bump(self.too_large_total);
            LeaseAdmission::TooLarge {
                limit: WebTransportStreamWriteLeaseLimit::RetainedBytes,
                max: self.max_retained_each,
                actual: memory,
            }
        } else if !lane_open {
            LeaseAdmission::ConnectionClosed
        } else if !lane_has_room {
            self.queue_full_total = bump(self.queue_full_total);
            LeaseAdmission::QueueFull
        } else if self.leases >= self.max_leases || memory > self.max_retained - self.retained {
            self.resource_limit_total = bump(self.resource_limit_total);
            LeaseAdmission::ResourceLimit
        } else {
            self.leases = self.leases + 1;
            self.retained = self.retained + memory;
            self.admitted_total = bump(self.admitted_total);
            LeaseAdmission::Admitted
        }
    }

    /// The ledger after the memory of a lease came back to its owner while its
    /// place is kept, as where a blocked write can be tried again.
    pub open spec fn memory_given_back(self, memory: usize) -> LeaseLedger {
        LeaseLedger {
            retained: if memory <= self.retained {
                (self.retained - memory) as usize
            } else {
                0
            },
            ..self
        }
    }

    /// The memory of a lease comes back to its owner, and its place is kept.
    pub fn give_memory_back(&mut self, memory: usize)
        requires
            old(self).wf(),
        ensures
            *final(self) == old(self).memory_given_back(memory),
            final(self).wf(),
    {
        self.retained = if memory <= self.retained {
            self.retained - memory
        } else {
            0
        };
    }

    /// The ledger after a lease came back to its owner.
    pub open spec fn given_back(self, memory: usize) -> LeaseLedger {
        LeaseLedger {
            leases: if self.leases > 0 {
                (self.leases - 1) as usize
            } else {
                0
            },
            retained: if memory <= self.retained {
                (self.retained - memory) as usize
            } else {
                0
            },
            ..self
        }
    }

    /// A lease comes back to its owner.
    pub fn give_back(&mut self, memory: usize)
        requires
            old(self).wf(),
        ensures
            *final(self) == old(self).given_back(memory),
            final(self).wf(),
    {
        self.leases = if self.leases > 0 {
            self.leases - 1
        } else {
            0
        };
        self.retained = if memory <= self.retained {
            self.retained - memory
        } else {
            0
        };
    }

    /// The ledger after a write was given up by whoever waited for it.
    pub open spec fn abandoned(self, progress: WebTransportStreamWriteLeaseProgress) -> LeaseLedger {
        match progress {
            WebTransportStreamWriteLeaseProgress::NeverExposed => LeaseLedger {
                abandoned_unexposed_total: bumped(self.abandoned_unexposed_total),
                ..self
            },
            WebTransportStreamWriteLeaseProgress::ExposedKnownZero => LeaseLedger {
                abandoned_zero_total: bumped(self.abandoned_zero_total),
                ..self
            },
            _ => LeaseLedger {
                abandoned_unknown_total: bumped(self.abandoned_unknown_total),
                ..self
            },
        }
    }

    /// Notes that nobody waits for a write any more.
    pub fn note_abandoned(&mut self, progress: WebTransportStreamWriteLeaseProgress)
        ensures
            *final(self) == old(self).abandoned(progress),
            old(self).wf() ==> final(self).wf(),
    {
        match progress {
            WebTransportStreamWriteLeaseProgress::NeverExposed => {
                self.abandoned_unexposed_total = bump(self.abandoned_unexposed_total);
            },
            WebTransportStreamWriteLeaseProgress::ExposedKnownZero => {
                self.abandoned_zero_total = bump(self.abandoned_zero_total);
            },
            _ => {
                self.abandoned_unknown_total = bump(self.abandoned_unknown_total);
            },
        }
    }
}

/// The right to try a blocked write again. It is good at the driver that gave it, and
/// only once.
#[derive(Clone, Copy, Debug, PartialEq, Eq, Structural)]
pub struct WebTransportStreamWriteRetry {
    /// The identity of the driver that gave it.
    pub driver: u64,
    /// The write that was blocked.
    pub op: u64,
}

/// What a write of a lent payload came to.
#[derive(Clone, Copy, Debug, PartialEq, Eq, Structural)]
pub enum LeaseVerdict {
    Accepted { accepted: usize, complete: bool, fin_accepted: bool },
    /// The transport takes nothing now. The write can be tried again under `retry`.
    Blocked { retry: WebTransportStreamWriteRetry, reasons: StreamSendBlockReasons },
    /// The peer refuses the stream, which has to be reset.
    ResetRequired { wire_error_code: u64, application_error_code: Option<u32> },
    /// This end has finished or reset the stream.
    Closed,
    Rejected(WebTransportSelectionError),
    /// The owner does not show the payload.
    LeaseError(MockWriteLeaseError),
    /// The payload is not as long as its owner says.
    InvalidLength { declared: usize, actual: usize },
    /// The lane is full.
    QueueFull,
    /// The leases that are out leave no room.
    ResourceLimit,
    /// One lease cannot be as large.
    TooLarge { limit: WebTransportStreamWriteLeaseLimit, max: usize, actual: usize },
}

impl LeaseVerdict {
    /// How far the transport got.
    pub open spec fn made(self) -> WebTransportStreamWriteLeaseProgress {
        match self {
            LeaseVerdict::Accepted { accepted, complete, fin_accepted } => if complete {
                WebTransportStreamWriteLeaseProgress::AcceptedComplete { accepted, fin_accepted }
            } else {
                WebTransportStreamWriteLeaseProgress::AcceptedPartial { accepted }
            },
            LeaseVerdict::Blocked { .. } | LeaseVerdict::ResetRequired { .. }
            | LeaseVerdict::InvalidLength { .. } =>
                WebTransportStreamWriteLeaseProgress::ExposedKnownZero,
            _ => WebTransportStreamWriteLeaseProgress::NeverExposed,
        }
    }

    /// How far the transport got, as far as the owner can know when nobody took
    /// the outcome.
    pub open spec fn made_unseen(self) -> WebTransportStreamWriteLeaseProgress {
        match self {
            LeaseVerdict::Accepted { .. } => WebTransportStreamWriteLeaseProgress::Unknowable,
            _ => self.made(),
        }
    }

    /// How far the transport got.
    pub fn progress(&self) -> (progress: WebTransportStreamWriteLeaseProgress)
        ensures
            progress == self.made(),
    {
        match *self {
            LeaseVerdict::Accepted { accepted, complete, fin_accepted } => if complete {
                WebTransportStreamWriteLeaseProgress::AcceptedComplete { accepted, fin_accepted }
            } else {
                WebTransportStreamWriteLeaseProgress::AcceptedPartial { accepted }
            },
            LeaseVerdict::Blocked { .. } | LeaseVerdict::ResetRequired { .. }
            | LeaseVerdict::InvalidLength { .. } =>
                WebTransportStreamWriteLeaseProgress::ExposedKnownZero,
            _ => WebTransportStreamWriteLeaseProgress::NeverExposed,
        }
    }

    /// How far the transport got, as far as the owner can know when nobody took
    /// the outcome.
    pub fn unseen_progress(&self) -> (progress: WebTransportStreamWriteLeaseProgress)
        ensures
            progress == self.made_unseen(),
    {
        match self {
            LeaseVerdict::Accepted { .. } => WebTransportStreamWriteLeaseProgress::Unknowable,
            _ => self.progress(),
        }
    }
}

/// What a write of a lent payload came to, with the lease.
#[derive(Debug, PartialEq, Eq)]
pub struct WebTransportStreamWriteLeaseOutcome {
    pub lease: MockWriteLease,
    pub fin: bool,
    pub verdict: LeaseVerdict,
}

/// The value of a [`WebTransportStreamWriteLeaseOutcome`].
pub ghost struct LeaseAnswer {
    pub lease: LeaseState,
    pub fin: bool,
    pub verdict: LeaseVerdict,
}

impl View for WebTransportStreamWriteLeaseOutcome {
    type V = LeaseAnswer;

    open spec fn view(&self) -> LeaseAnswer {
        LeaseAnswer { lease: self.lease@, fin: self.fin, verdict: self.verdict }
    }
}

/// The leases that are out stay within their bounds whatever is offered, and
/// only an admitted one takes a place or memory.
pub proof fn lemma_leases_stay_bounded(
    ledger: LeaseLedger,
    payload_len: usize,
    memory: usize,
    lane_open: bool,
    lane_has_room: bool,
)
    requires
        ledger.wf(),
    ensures
        ({
            let admission = ledger.judged(payload_len, memory, lane_open, lane_has_room);
            let next = ledger.entered(admission, memory);
            &&& next.wf()
            &&& next.max_leases == ledger.max_leases
            &&& next.max_retained == ledger.max_retained
            &&& (admission == LeaseAdmission::Admitted <==> next.leases != ledger.leases)
            &&& admission != LeaseAdmission::Admitted ==> next.retained == ledger.retained
                && next.admitted_total == ledger.admitted_total
            &&& admission == LeaseAdmission::Admitted ==> next.leases == ledger.leases + 1
                && next.retained == ledger.retained + memory && payload_len <= ledger.max_payload
                && memory <= ledger.max_retained_each && lane_open && lane_has_room
        }),
{
}

} // verus!
