//! The context that owns one transport and one query manager, and the
//! decisions of the facade: start, stop, register a query, react to what
//! the transport delivers, and wait for a query.
use vstd::prelude::*;
use vstd::utf8::encode_utf8;
use crate::querier::{
    answered_by, completion_kept, processed, retired, MdnsError, Querier,
};
use crate::wire::{answer_names_of, labels_fit};

verus! {

/// The timeout, in milliseconds, of a query that the facade registers.
pub const QUERY_TIMEOUT_MS: u64 = 1000;

/// How long, in milliseconds, a caller waits for a query without news.
pub const WAIT_BOUND_MS: u64 = 5000;

/// Relies on `dns_parser::QueryType::A`: the type of an address record.
#[verifier::external_body]
fn address_record_type() -> (r: dns_parser::QueryType) {
    dns_parser::QueryType::A
}

/// At most one transport and at most one query manager.
pub struct Objects<T> {
    pub service: Option<T>,
    pub querier: Option<Querier>,
}

/// The query manager, where there is one, is well formed.
pub open spec fn objects_wf<T>(o: Objects<T>) -> bool {
    o.querier matches Some(q) ==> q.wf()
}

/// From `old` to `new` a start left exactly one transport and one query
/// manager: those already there are kept, and a new manager has no query.
pub open spec fn initialized<T>(old: Objects<T>, new: Objects<T>) -> bool {
    &&& new.service is Some
    &&& new.querier matches Some(q) && q.wf()
    &&& old.service is Some ==> new.service == old.service
    &&& old.querier is Some ==> new.querier == old.querier
    &&& old.querier is None ==> new.querier->0.pending().len() == 0
        && new.querier->0.completed().len() == 0
}

/// From `old` to `new` a stop took the transport out and kept the rest.
pub open spec fn shut_down<T>(old: Objects<T>, new: Objects<T>, taken: Option<T>) -> bool {
    &&& taken == old.service
    &&& new.service is None
    &&& new.querier == old.querier
}

/// What the reaction to the datagram `data` does from `old` to `new` and
/// hands back in `r`: a packet in `r` is to be sent through the transport.
/// No bytes is a housekeeping tick: the manager's pass, whose packet is
/// sent only where a transport is registered. Other bytes are a response
/// for the manager to match.
pub open spec fn dispatched<T>(
    old: Objects<T>,
    new: Objects<T>,
    data: Seq<u8>,
    r: Result<Option<Vec<u8>>, MdnsError>,
) -> bool {
    &&& new.service == old.service
    &&& match old.querier {
        None => new.querier is None && r == Ok::<Option<Vec<u8>>, MdnsError>(None),
        Some(q) => new.querier matches Some(q2) && q2.wf() && completion_kept(q, q2) && if data.len()
            == 0 {
            exists|now: u64, p: Option<Vec<u8>>|
                #[trigger] processed(q, q2, p, now) && r == Ok::<Option<Vec<u8>>, MdnsError>(
                    if old.service is Some {
                        p
                    } else {
                        None
                    },
                )
        } else {
            match answer_names_of(data) {
                None => r == Err::<Option<Vec<u8>>, MdnsError>(MdnsError::MalformedResponse) && q2
                    == q,
                Some(names) => r == Ok::<Option<Vec<u8>>, MdnsError>(None) && retired(
                    q,
                    q2,
                    answered_by(names),
                ),
            }
        },
    }
}

/// What a caller that waits for a query does next.
#[derive(Debug, Clone, Copy, PartialEq, Eq, Structural)]
pub enum WaitStep {
    /// The query has completed.
    Completed,
    /// The last wait ran out with no news: give up.
    TimedOut,
    /// Wait for the next notification.
    Wait,
}

/// The next step of a caller that waits for a query, given what the
/// manager says of it and whether its last wait ran out: a completed query
/// ends the wait, else a wait that ran out gives up, else it waits again.
/// An id that the manager does not know never completes.
pub fn wait_step(status: Result<bool, MdnsError>, timed_out: bool) -> (r: WaitStep)
    ensures
        status == Ok::<bool, MdnsError>(true) ==> r == WaitStep::Completed,
        status != Ok::<bool, MdnsError>(true) && timed_out ==> r == WaitStep::TimedOut,
        status != Ok::<bool, MdnsError>(true) && !timed_out ==> r == WaitStep::Wait,
{
    match status {
        Ok(true) => WaitStep::Completed,
        _ => if timed_out {
            WaitStep::TimedOut
        } else {
            WaitStep::Wait
        },
    }
}

impl<T> Objects<T> {
    /// No transport and no query manager.
    pub fn new() -> (r: Objects<T>)
        ensures
            r.service is None,
            r.querier is None,
    {
        Objects { service: None, querier: None }
    }

    /// Starts what is missing: a transport made by `create`, called only
    /// where none is registered, and an empty query manager.
    pub fn init_with<F: FnOnce() -> T>(&mut self, create: F)
        requires
            objects_wf(*old(self)),
            create.requires(()),
        ensures
            initialized(*old(self), *final(self)),
            old(self).service is None ==> create.ensures((), final(self).service->0),
    {
        if self.service.is_none() {
            self.service = Some(create());
        }
        if self.querier.is_none() {
            self.querier = Some(Querier::new());
        }
    }

    /// Takes the transport out, for the caller to stop; the query manager
    /// stays.
    pub fn deinit(&mut self) -> (r: Option<T>)
        ensures
            shut_down(*old(self), *final(self), r),
    {
        self.service.take()
    }

    /// Registers a query for the address of `name`, with the facade's
    /// timeout, and returns its id; `None` where no manager is there.
    pub fn query(&mut self, name: String) -> (r: Option<usize>)
        requires
            objects_wf(*old(self)),
            labels_fit(encode_utf8(name@)),
            old(self).querier matches Some(q) ==> q.completed().len() < usize::MAX,
        ensures
            objects_wf(*final(self)),
            final(self).service == old(self).service,
            old(self).querier is None ==> r is None && final(self).querier is None,
            old(self).querier matches Some(q) ==> {
                &&& final(self).querier matches Some(q2)
                &&& r == Some(q.completed().len() as usize)
                &&& q2.completed() == q.completed().push(false)
                &&& q2.pending().drop_last() == q.pending()
                &&& q2.pending().len() == q.pending().len() + 1
                &&& q2.pending().last().name@ == name@
                &&& q2.pending().last().timeout == QUERY_TIMEOUT_MS
                &&& !q2.pending().last().unicast
            },
    {
        match &mut self.querier {
            Some(q) => {
                let id = q.add(
                    name,
                    String::new(),
                    "_http._tcp".to_string(),
                    address_record_type(),
                    false,
                    QUERY_TIMEOUT_MS,
                );
                Some(id)
            },
            None => None,
        }
    }

    /// Reacts to what the transport delivered: see `dispatched`.
    pub fn dispatch(&mut self, data: &[u8]) -> (r: Result<Option<Vec<u8>>, MdnsError>)
        requires
            objects_wf(*old(self)),
        ensures
            objects_wf(*final(self)),
            dispatched(*old(self), *final(self), data@, r),
    {
        let has_service = self.service.is_some();
        let taken = self.querier.take();
        match taken {
            None => Ok(None),
            Some(q) => {
                let mut q = q;
                let ghost before = q;
                let r = if data.len() == 0 {
                    let p = q.process();
                    proof {
                        let now = choose|now: u64| processed(before, q, p, now);
                        assert(processed(before, q, p, now));
                    }
                    if has_service {
                        Ok(p)
                    } else {
                        Ok(None)
                    }
                } else {
                    match q.parse(data) {
                        Ok(()) => Ok(None),
                        Err(e) => Err(e),
                    }
                };
                self.querier = Some(q);
                assert(dispatched(*old(self), *self, data@, r));
                r
            },
        }
    }
}

/// A second start right after a first changes nothing: one transport and
/// one query manager stay, the same ones.
pub proof fn lemma_init_idempotent<T>(a: Objects<T>, b: Objects<T>, c: Objects<T>)
    requires
        initialized(a, b),
        initialized(b, c),
    ensures
        c == b,
        c.service is Some,
        c.querier is Some,
{
}

/// After a stop nothing is sent: a datagram or a tick that arrives then
/// hands back no packet, since no transport is registered.
pub proof fn lemma_no_send_after_deinit<T>(
    a: Objects<T>,
    b: Objects<T>,
    taken: Option<T>,
    c: Objects<T>,
    data: Seq<u8>,
    r: Result<Option<Vec<u8>>, MdnsError>,
)
    requires
        shut_down(a, b, taken),
        dispatched(b, c, data, r),
    ensures
        !(r matches Ok(Some(_))),
        c.service is None,
{
}

} // verus!
