//! The retry policy of the transport: how many attempts a request gets, when
//! the connection is replaced, and when to wait.
use vstd::prelude::*;

verus! {

/// Seconds that a single attempt may take, whatever the number of retries.
pub const REQUEST_TIMEOUT_SECS: u64 = 30;

/// Seconds to wait after a transport failure before the next attempt.
pub const RETRY_BACKOFF_SECS: u64 = 10;

/// How one attempt ended.
#[derive(Clone, Copy, Debug, PartialEq, Eq, Structural)]
pub enum Outcome {
    /// The request was sent and the response handler accepted the response.
    Success,
    /// The request could not be sent or timed out.
    TransportFailure,
    /// A response arrived and the response handler rejected it.
    ResponseFailure,
}

/// Where a request stands.
#[derive(Clone, Copy, Debug, PartialEq, Eq, Structural)]
pub enum Phase {
    /// The next attempt is to be made.
    Sending,
    /// An attempt succeeded; its result is the request's result.
    Succeeded,
    /// No attempt is left; the last error seen is the request's result.
    Failed,
}

/// What the driver of a request does after an attempt.
#[derive(Clone, Copy, Debug, PartialEq, Eq, Structural)]
pub struct Directive {
    /// Discard the connection and open a fresh one.
    pub replace_connection: bool,
    /// Seconds to wait before going on.
    pub backoff_secs: u64,
    /// Where the request stands now.
    pub next: Phase,
}

/// The state of one request, as the retry policy sees it.
pub struct RetryModel {
    pub limit: int,
    pub attempts: int,
    pub replacements: int,
    pub phase: Phase,
}

impl RetryModel {
    /// A request that has `limit` attempts and has made none. With no attempt
    /// to make it has failed already.
    pub open spec fn begin(limit: int) -> RetryModel {
        RetryModel {
            limit,
            attempts: 0,
            replacements: 0,
            phase: if limit > 0 {
                Phase::Sending
            } else {
                Phase::Failed
            },
        }
    }

    /// What holds of every request: no more attempts than the limit, no more
    /// replacements than attempts, and an attempt left while sending.
    pub open spec fn wf(self) -> bool {
        &&& 0 <= self.replacements <= self.attempts
        &&& self.attempts <= self.limit || (self.limit < 0 && self.attempts == 0)
        &&& self.phase == Phase::Sending ==> self.attempts < self.limit
        &&& self.phase == Phase::Succeeded ==> self.attempts >= 1
    }

    /// The request after an attempt that ended in `outcome`. Outcomes reported
    /// when no attempt was due change nothing.
    pub open spec fn record(self, outcome: Outcome) -> RetryModel {
        if self.phase != Phase::Sending {
            self
        } else {
            let attempts = self.attempts + 1;
            match outcome {
                Outcome::Success => RetryModel { attempts, phase: Phase::Succeeded, ..self },
                Outcome::TransportFailure => RetryModel {
                    attempts,
                    replacements: self.replacements + 1,
                    phase: if attempts < self.limit {
                        Phase::Sending
                    } else {
                        Phase::Failed
                    },
                    ..self
                },
                Outcome::ResponseFailure => RetryModel {
                    attempts,
                    phase: if attempts < self.limit {
                        Phase::Sending
                    } else {
                        Phase::Failed
                    },
                    ..self
                },
            }
        }
    }

    /// What the driver does after an attempt that ended in `outcome`: after a
    /// transport failure it replaces the connection, and waits if another
    /// attempt follows; after a rejected response it goes on at once on the
    /// same connection.
    pub open spec fn directive(self, outcome: Outcome) -> Directive {
        let after = self.record(outcome);
        let failed_to_send = self.phase == Phase::Sending && outcome == Outcome::TransportFailure;
        Directive {
            replace_connection: failed_to_send,
            backoff_secs: if failed_to_send && after.phase == Phase::Sending {
                RETRY_BACKOFF_SECS
            } else {
                0
            },
            next: after.phase,
        }
    }

    /// The request after the attempts whose outcomes are `outcomes`, in order.
    pub open spec fn run(self, outcomes: Seq<Outcome>) -> RetryModel
        decreases outcomes.len(),
    {
        if outcomes.len() == 0 {
            self
        } else {
            self.run(outcomes.drop_last()).record(outcomes.last())
        }
    }
}

/// How many of `outcomes` are transport failures.
pub open spec fn transport_failures(outcomes: Seq<Outcome>) -> nat {
    outcomes.filter(|o: Outcome| o == Outcome::TransportFailure).len()
}

/// The transport's configuration: how many attempts each request gets.
#[derive(Clone, Copy, Debug)]
pub struct Client {
    num_retries: i32,
}

/// One request in progress.
#[derive(Debug)]
pub struct Retry {
    limit: i32,
    attempts: i32,
    replacements: i32,
    phase: Phase,
}

impl View for Retry {
    type V = RetryModel;

    closed spec fn view(&self) -> RetryModel {
        RetryModel {
            limit: self.limit as int,
            attempts: self.attempts as int,
            replacements: self.replacements as int,
            phase: self.phase,
        }
    }
}

impl Client {
    /// The number of attempts that each request gets.
    pub closed spec fn limit(&self) -> int {
        self.num_retries as int
    }

    /// A transport whose requests get `num_retries` attempts each.
    pub fn new(num_retries: i32) -> (client: Client)
        ensures
            client.limit() == num_retries,
    {
        Client { num_retries }
    }

    /// The number of attempts that each request gets.
    pub fn num_retries(&self) -> (n: i32)
        ensures
            n == self.limit(),
    {
        self.num_retries
    }

    /// Starts a request.
    pub fn begin(&self) -> (retry: Retry)
        ensures
            retry@ == RetryModel::begin(self.limit()),
            retry@.wf(),
    {
        Retry {
            limit: self.num_retries,
            attempts: 0,
            replacements: 0,
            phase: if self.num_retries > 0 {
                Phase::Sending
            } else {
                Phase::Failed
            },
        }
    }
}

impl Retry {
    #[verifier::type_invariant]
    spec fn consistent(&self) -> bool {
        self@.wf()
    }

    /// Where the request stands.
    pub fn phase(&self) -> (phase: Phase)
        ensures
            phase == self@.phase,
    {
        self.phase
    }

    /// How many attempts were made.
    pub fn attempts(&self) -> (n: i32)
        ensures
            n == self@.attempts,
    {
        self.attempts
    }

    /// How many times the connection was replaced.
    pub fn replacements(&self) -> (n: i32)
        ensures
            n == self@.replacements,
    {
        self.replacements
    }

    /// Takes note of how an attempt ended and says what to do next.
    pub fn record(&mut self, outcome: Outcome) -> (directive: Directive)
        ensures
            final(self)@.wf(),
            final(self)@ == old(self)@.record(outcome),
            directive == old(self)@.directive(outcome),
    {
        proof {
            use_type_invariant(&*self);
        }
        match self.phase {
            Phase::Sending => {
                let attempts = self.attempts + 1;
                let failed_to_send = match outcome {
                    Outcome::TransportFailure => true,
                    _ => false,
                };
                let next = match outcome {
                    Outcome::Success => Phase::Succeeded,
                    _ => if attempts < self.limit {
                        Phase::Sending
                    } else {
                        Phase::Failed
                    },
                };
                let replacements = if failed_to_send {
                    self.replacements + 1
                } else {
                    self.replacements
                };
                let wait = match next {
                    Phase::Sending => failed_to_send,
                    _ => false,
                };
                *self = Retry { limit: self.limit, attempts, replacements, phase: next };
                Directive {
                    replace_connection: failed_to_send,
                    backoff_secs: if wait {
                        RETRY_BACKOFF_SECS
                    } else {
                        0
                    },
                    next,
                }
            },
            Phase::Succeeded => Directive {
                replace_connection: false,
                backoff_secs: 0,
                next: Phase::Succeeded,
            },
            Phase::Failed => Directive { replace_connection: false, backoff_secs: 0, next: Phase::Failed },
        }
    }
}

/// A request whose attempts all fail but the last, with fewer failures than
/// the limit, succeeds on that last attempt, having made one attempt per
/// outcome and replaced the connection once per transport failure.
pub proof fn succeeds_after_failures(limit: int, failures: Seq<Outcome>)
    requires
        failures.len() < limit,
        forall|i: int| 0 <= i < failures.len() ==> failures[i] != Outcome::Success,
    ensures
        RetryModel::begin(limit).run(failures).phase == Phase::Sending,
        RetryModel::begin(limit).run(failures.push(Outcome::Success)).phase == Phase::Succeeded,
        RetryModel::begin(limit).run(failures.push(Outcome::Success)).attempts == failures.len() + 1,
        RetryModel::begin(limit).run(failures.push(Outcome::Success)).replacements
            == transport_failures(failures),
{
    lemma_failures_counted(limit, failures);
    assert(failures.push(Outcome::Success).drop_last() =~= failures);
}

/// A request whose attempts all fail gives up exactly when the limit is
/// reached, and until then has replaced the connection once per transport
/// failure.
pub proof fn gives_up_at_the_limit(limit: int, failures: Seq<Outcome>)
    requires
        0 < limit,
        failures.len() == limit,
        forall|i: int| 0 <= i < failures.len() ==> failures[i] != Outcome::Success,
    ensures
        RetryModel::begin(limit).run(failures).phase == Phase::Failed,
        RetryModel::begin(limit).run(failures).attempts == limit,
        RetryModel::begin(limit).run(failures).replacements == transport_failures(failures),
        RetryModel::begin(limit).run(failures.drop_last()).directive(failures.last()).backoff_secs
            == 0,
{
    lemma_failures_counted(limit, failures);
}

/// After failures only, a request has made one attempt per failure, up to the
/// limit, and replaced the connection once per transport failure.
pub proof fn lemma_failures_counted(limit: int, failures: Seq<Outcome>)
    requires
        failures.len() <= limit,
        forall|i: int| 0 <= i < failures.len() ==> failures[i] != Outcome::Success,
    ensures
        RetryModel::begin(limit).run(failures).limit == limit,
        RetryModel::begin(limit).run(failures).attempts == failures.len(),
        RetryModel::begin(limit).run(failures).replacements == transport_failures(failures),
        RetryModel::begin(limit).run(failures).phase == if failures.len() < limit {
            Phase::Sending
        } else {
            Phase::Failed
        },
    decreases failures.len(),
{
    reveal(Seq::filter);
    if failures.len() > 0 {
        lemma_failures_counted(limit, failures.drop_last());
    }
}

} // verus!
