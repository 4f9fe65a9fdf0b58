//! The queries that wait for an answer: their creation, their matching
//! against responses, their expiry, and the flag that marks each one done.
use vstd::prelude::*;
use vstd::utf8::{encode_utf8, encode_utf8_decode_utf8};
use vstd::string::StringSliceAdditionalSpecFns;
use crate::wire::{create_a_query, decode_answer_names, labels_fit, query_packet, answer_names_of, texts};

verus! {

#[verifier::external_type_specification]
#[verifier::external_body]
pub struct ExInstant(std::time::Instant);

#[verifier::external_type_specification]
#[verifier::external_body]
pub struct ExQueryType(dns_parser::QueryType);

/// Relies on `Instant::now`: a reading of the monotonic clock.
pub assume_specification[ std::time::Instant::now ]() -> std::time::Instant;

/// Relies on `Instant::elapsed` and `Duration::as_millis`: the whole
/// milliseconds since `origin`, a reading of the clock.
#[verifier::external_body]
fn millis_since(origin: &std::time::Instant) -> (r: u64) {
    origin.elapsed().as_millis() as u64
}

/// What the query manager reports to its callers.
#[derive(Debug, Clone, Copy, PartialEq, Eq, Structural)]
pub enum MdnsError {
    /// A received datagram does not decode as a DNS message.
    MalformedResponse,
    /// No query was ever created with the id asked about.
    UnknownQueryId,
}

/// One outstanding request for the address of a host name. Times are in
/// milliseconds of the manager's clock.
#[derive(Debug)]
pub struct Query {
    pub name: String,
    pub service: String,
    pub proto: String,
    pub query_type: dns_parser::QueryType,
    pub unicast: bool,
    pub timeout: u64,
    pub added_at: u64,
    pub packet: Vec<u8>,
    pub id: usize,
}

/// The time that has passed for `q` at the clock reading `now`; a reading
/// before its creation counts as none.
pub open spec fn elapsed(q: Query, now: u64) -> int {
    if now >= q.added_at {
        now - q.added_at
    } else {
        0
    }
}

/// Whether `q` has run out of time at `now`.
pub open spec fn expired(q: Query, now: u64) -> bool {
    elapsed(q, now) >= q.timeout
}

/// The queries that have run out of time at `now`.
pub open spec fn expired_at(now: u64) -> spec_fn(Query) -> bool {
    |q: Query| expired(q, now)
}

/// The queries whose name is one of `names`.
pub open spec fn answered_by(names: Seq<Seq<char>>) -> spec_fn(Query) -> bool {
    |q: Query| names.contains(q.name@)
}

/// The ids of `qs` grow strictly from first to last.
pub open spec fn ids_increasing(qs: Seq<Query>) -> bool {
    forall|i: int, j: int| 0 <= i < j < qs.len() ==> #[trigger] qs[i].id < #[trigger] qs[j].id
}

/// `q` holds what `add` was given, the time `added_at`, the id `id`, and
/// the query message for its name.
pub open spec fn made(
    q: Query,
    name: Seq<char>,
    service: Seq<char>,
    proto: Seq<char>,
    query_type: dns_parser::QueryType,
    unicast: bool,
    timeout: u64,
    added_at: u64,
    id: usize,
) -> bool {
    &&& q.name@ == name
    &&& q.service@ == service
    &&& q.proto@ == proto
    &&& q.query_type == query_type
    &&& q.unicast == unicast
    &&& q.timeout == timeout
    &&& q.added_at == added_at
    &&& q.packet@ == query_packet(encode_utf8(name))
    &&& q.id == id
}

/// Tracks the pending queries, in order of creation, and a completion flag
/// for every query ever created, indexed by its id.
pub struct Querier {
    queries: Vec<Query>,
    completed: Vec<bool>,
    origin: std::time::Instant,
}

impl Querier {
    /// The pending queries, oldest first.
    pub closed spec fn pending(&self) -> Seq<Query> {
        self.queries@
    }

    /// The completion flag of each id created so far.
    pub closed spec fn completed(&self) -> Seq<bool> {
        self.completed@
    }

    /// Pending queries have distinct ids, in order, each created and not
    /// complete, and each carries the query message for its name; a created
    /// query that is not complete is pending.
    pub open spec fn wf(&self) -> bool {
        &&& ids_increasing(self.pending())
        &&& forall|id: int|
            0 <= id < self.completed().len() && !#[trigger] self.completed()[id] ==> self.is_pending(id)
        &&& forall|i: int|
            0 <= i < self.pending().len() ==> {
                let q = #[trigger] self.pending()[i];
                &&& q.id < self.completed().len()
                &&& !self.completed()[q.id as int]
                &&& q.packet@ == query_packet(encode_utf8(q.name@))
            }
    }

    /// Some pending query has the id `id`.
    pub open spec fn is_pending(&self, id: int) -> bool {
        exists|i: int| 0 <= i < self.pending().len() && #[trigger] self.pending()[i].id == id
    }

    /// The query with id `id` was created and has completed.
    pub open spec fn is_complete(&self, id: int) -> bool {
        0 <= id < self.completed().len() && self.completed()[id]
    }
}

/// The queries that `gone` does not pick out.
pub open spec fn spared(gone: spec_fn(Query) -> bool) -> spec_fn(Query) -> bool {
    |q: Query| !gone(q)
}

/// From `old` to `new` the queries that `gone` picks out left the pending
/// list, which keeps its order, and their flags were set; nothing else moved.
pub open spec fn retired(old: Querier, new: Querier, gone: spec_fn(Query) -> bool) -> bool {
    &&& new.pending() == old.pending().filter(spared(gone))
    &&& new.completed().len() == old.completed().len()
    &&& forall|id: int|
        0 <= id < old.completed().len() ==> #[trigger] new.completed()[id] == (old.completed()[id]
            || exists|i: int|
            0 <= i < old.pending().len() && #[trigger] old.pending()[i].id == id && gone(
                old.pending()[i],
            ))
}

/// Every id of `old` is an id of `new`, and no flag that was set in `old`
/// is clear in `new`.
pub open spec fn completion_kept(old: Querier, new: Querier) -> bool {
    &&& old.completed().len() <= new.completed().len()
    &&& forall|id: int|
        0 <= id < old.completed().len() && old.completed()[id] ==> #[trigger] new.completed()[id]
}

/// What one housekeeping pass at clock reading `now` does: the expired
/// queries retire, and the packet handed back is that of the newest query
/// still pending, if any is.
pub open spec fn processed(old: Querier, new: Querier, r: Option<Vec<u8>>, now: u64) -> bool {
    &&& retired(old, new, expired_at(now))
    &&& (r is None <==> new.pending().len() == 0)
    &&& (r matches Some(p) ==> p@ == new.pending().last().packet@)
}

/// Whether the same text is in `a` and `b`.
fn same_text(a: &str, b: &str) -> (r: bool)
    ensures
        r == (a@ == b@),
{
    let x = a.as_bytes();
    let y = b.as_bytes();
    proof {
        encode_utf8_decode_utf8(a@);
        encode_utf8_decode_utf8(b@);
    }
    if x.len() != y.len() {
        return false;
    }
    let mut i: usize = 0;
    while i < x.len()
        invariant
            x@ == a.spec_bytes(),
            y@ == b.spec_bytes(),
            x@.len() == y@.len(),
            i <= x@.len(),
            forall|k: int| 0 <= k < i ==> x@[k] == y@[k],
        decreases x.len() - i,
    {
        if x[i] != y[i] {
            return false;
        }
        i = i + 1;
    }
    assert(x@ =~= y@);
    true
}

/// Whether `name` is one of `names`.
fn name_in(name: &String, names: &Vec<String>) -> (r: bool)
    ensures
        r == texts(names@).contains(name@),
{
    let mut j: usize = 0;
    while j < names.len()
        invariant
            j <= names@.len(),
            forall|k: int| 0 <= k < j ==> texts(names@)[k] != name@,
        decreases names.len() - j,
    {
        if same_text(names[j].as_str(), name.as_str()) {
            assert(texts(names@)[j as int] == name@);
            return true;
        }
        j = j + 1;
    }
    false
}

/// Whether `q` has run out of time at `now`.
fn is_expired(q: &Query, now: u64) -> (r: bool)
    ensures
        r == expired(*q, now),
{
    let passed: u64 = if now >= q.added_at {
        now - q.added_at
    } else {
        0
    };
    passed >= q.timeout
}

/// A query of `old` stays pending and not complete in `new` when `gone`
/// spares it, and is complete and no longer pending when `gone` picks it.
pub proof fn lemma_retired_query(old: Querier, new: Querier, gone: spec_fn(Query) -> bool, i: int)
    requires
        old.wf(),
        new.wf(),
        retired(old, new, gone),
        0 <= i < old.pending().len(),
    ensures
        gone(old.pending()[i]) ==> !new.is_pending(old.pending()[i].id as int) && new.is_complete(
            old.pending()[i].id as int,
        ),
        !gone(old.pending()[i]) ==> new.is_pending(old.pending()[i].id as int) && !new.is_complete(
            old.pending()[i].id as int,
        ),
{
    let q = old.pending()[i];
    let id = q.id as int;
    assert(old.pending()[i].id == id);
    if gone(q) {
        assert(new.completed()[id]);
        if new.is_pending(id) {
            let k = choose|k: int| 0 <= k < new.pending().len() && #[trigger] new.pending()[k].id == id;
            assert(!new.completed()[new.pending()[k].id as int]);
        }
    } else {
        old.pending().lemma_filter_contains(spared(gone), i);
        assert(new.pending().contains(q));
        let k = choose|k: int| 0 <= k < new.pending().len() && new.pending()[k] == q;
        assert(new.pending()[k].id == id);
        if new.completed()[id] {
            let j = choose|j: int|
                0 <= j < old.pending().len() && #[trigger] old.pending()[j].id == id && gone(
                    old.pending()[j],
                );
            if j < i {
                assert(old.pending()[j].id < old.pending()[i].id);
            } else if j > i {
                assert(old.pending()[i].id < old.pending()[j].id);
            }
        }
    }
}

/// In a well-formed manager a created query is complete exactly when it is
/// no longer pending.
pub proof fn lemma_complete_iff_not_pending(q: Querier, id: int)
    requires
        q.wf(),
        0 <= id < q.completed().len(),
    ensures
        q.is_complete(id) <==> !q.is_pending(id),
{
    if q.is_pending(id) {
        let k = choose|k: int| 0 <= k < q.pending().len() && #[trigger] q.pending()[k].id == id;
        assert(!q.completed()[q.pending()[k].id as int]);
    } else {
        assert(q.completed()[id]);
    }
}

/// A retirement keeps every set flag set.
pub proof fn lemma_retired_keeps_completion(old: Querier, new: Querier, gone: spec_fn(Query) -> bool)
    requires
        retired(old, new, gone),
    ensures
        completion_kept(old, new),
{
}

/// Once a completion flag is seen set it stays set: what holds from `a` to
/// `b` and from `b` to `c` holds from `a` to `c`.
pub proof fn lemma_completion_monotone(a: Querier, b: Querier, c: Querier)
    requires
        completion_kept(a, b),
        completion_kept(b, c),
    ensures
        completion_kept(a, c),
        forall|id: int| #[trigger] a.is_complete(id) ==> c.is_complete(id),
{
    assert forall|id: int| #[trigger] a.is_complete(id) implies c.is_complete(id) by {
        assert(b.completed()[id]);
    }
}

/// Filtering with a predicate that holds of every element changes nothing.
proof fn lemma_filter_all<A>(s: Seq<A>, keep: spec_fn(A) -> bool)
    requires
        forall|i: int| 0 <= i < s.len() ==> keep(#[trigger] s[i]),
    ensures
        s.filter(keep) == s,
    decreases s.len(),
{
    reveal(Seq::filter);
    if s.len() > 0 {
        lemma_filter_all(s.drop_last(), keep);
        assert(s.drop_last().push(s.last()) =~= s);
    }
}

impl Querier {
    /// A manager with no query.
    pub fn new() -> (r: Querier)
        ensures
            r.wf(),
            r.pending().len() == 0,
            r.completed().len() == 0,
    {
        Querier { queries: Vec::new(), completed: Vec::new(), origin: std::time::Instant::now() }
    }

    /// Drops the pending queries that `gone` picks out, which `doomed`
    /// marks by position, and sets their completion flags.
    fn retire(&mut self, gone: Ghost<spec_fn(Query) -> bool>, doomed: &Vec<bool>)
        requires
            old(self).wf(),
            doomed@.len() == old(self).pending().len(),
            forall|i: int| 0 <= i < doomed@.len() ==> doomed@[i] == gone@(old(self).pending()[i]),
        ensures
            final(self).wf(),
            retired(*old(self), *final(self), gone@),
            final(self).origin == old(self).origin,
    {
        let ghost old_q = self.queries@;
        let ghost old_c = self.completed@;
        let ghost g = gone@;
        let ghost keep = spared(g);
        let ghost origin = self.origin;
        let n: usize = self.queries.len();
        let mut rest: Vec<Query> = Vec::new();
        std::mem::swap(&mut self.queries, &mut rest);
        let mut i: usize = 0;
        while rest.len() > 0
            invariant
                self.origin == origin,
                g == gone@,
                keep == spared(g),
                n == old_q.len(),
                i + rest@.len() == n,
                doomed@.len() == old_q.len(),
                forall|k: int| 0 <= k < doomed@.len() ==> doomed@[k] == g(old_q[k]),
                rest@ == old_q.subrange(i as int, old_q.len() as int),
                self.queries@ == old_q.subrange(0, i as int).filter(keep),
                self.completed@.len() == old_c.len(),
                ids_increasing(old_q),
                forall|k: int|
                    0 <= k < old_q.len() ==> {
                        let q = #[trigger] old_q[k];
                        &&& q.id < old_c.len()
                        &&& !old_c[q.id as int]
                        &&& q.packet@ == query_packet(encode_utf8(q.name@))
                    },
                ids_increasing(self.queries@),
                forall|k: int, j: int|
                    0 <= k < self.queries@.len() && i <= j < old_q.len() ==> #[trigger] self.queries@[k].id
                        < #[trigger] old_q[j].id,
                forall|k: int|
                    0 <= k < self.queries@.len() ==> {
                        let q = #[trigger] self.queries@[k];
                        &&& q.id < old_c.len()
                        &&& !self.completed@[q.id as int]
                        &&& q.packet@ == query_packet(encode_utf8(q.name@))
                    },
                forall|j: int| i <= j < old_q.len() ==> !self.completed@[#[trigger] old_q[j].id as int],
                forall|id: int|
                    0 <= id < old_c.len() ==> #[trigger] self.completed@[id] == (old_c[id] || exists|j: int|
                        0 <= j < i && #[trigger] old_q[j].id == id && g(old_q[j])),
            decreases rest.len(),
        {
            let q = rest.remove(0);
            proof {
                assert(q == old_q[i as int]);
                let next = old_q.subrange(0, i + 1);
                assert(next.drop_last() =~= old_q.subrange(0, i as int));
                assert(next.last() == q);
                reveal(Seq::filter);
                assert(next.len() > 0);
                assert(keep(next.last()) == !doomed@[i as int]);
                assert(next.filter(keep) == (if doomed@[i as int] {
                    old_q.subrange(0, i as int).filter(keep)
                } else {
                    old_q.subrange(0, i as int).filter(keep).push(q)
                }));
                assert(rest@ =~= old_q.subrange(i + 1, old_q.len() as int));
            }
            let ghost before_c = self.completed@;
            let ghost before_k = self.queries@;
            if doomed[i] {
                let qid = q.id;
                self.completed.set(qid, true);
                proof {
                    assert forall|k: int| 0 <= k < self.queries@.len() implies !self.completed@[#[trigger] self.queries@[k].id as int] by {
                        assert(self.queries@[k].id < old_q[i as int].id);
                    }
                    assert forall|j: int| i + 1 <= j < old_q.len() implies !self.completed@[#[trigger] old_q[j].id as int] by {
                        assert(old_q[i as int].id < old_q[j].id);
                    }
                    assert forall|id: int| 0 <= id < old_c.len() implies #[trigger] self.completed@[id] == (old_c[id] || exists|j: int|
                        0 <= j < i + 1 && #[trigger] old_q[j].id == id && g(old_q[j])) by {
                        if id == qid {
                            assert(old_q[i as int].id == id && g(old_q[i as int]));
                        } else {
                            if exists|j: int| 0 <= j < i + 1 && #[trigger] old_q[j].id == id && g(old_q[j]) {
                                let j = choose|j: int| 0 <= j < i + 1 && #[trigger] old_q[j].id == id && g(old_q[j]);
                                assert(j != i);
                            }
                        }
                    }
                }
            } else {
                self.queries.push(q);
                proof {
                    assert forall|k: int, j: int|
                        0 <= k < self.queries@.len() && i + 1 <= j < old_q.len() implies #[trigger] self.queries@[k].id
                            < #[trigger] old_q[j].id by {
                        if k == self.queries@.len() - 1 {
                            assert(old_q[i as int].id < old_q[j].id);
                        } else {
                            assert(before_k[k].id < old_q[j].id);
                        }
                    }
                    assert forall|k1: int, k2: int| 0 <= k1 < k2 < self.queries@.len() implies #[trigger] self.queries@[k1].id < #[trigger] self.queries@[k2].id by {
                        if k2 == self.queries@.len() - 1 {
                            assert(before_k[k1].id < old_q[i as int].id);
                        } else {
                            assert(before_k[k1].id < before_k[k2].id);
                        }
                    }
                    assert forall|id: int| 0 <= id < old_c.len() implies #[trigger] self.completed@[id] == (old_c[id] || exists|j: int|
                        0 <= j < i + 1 && #[trigger] old_q[j].id == id && g(old_q[j])) by {
                        if exists|j: int| 0 <= j < i + 1 && #[trigger] old_q[j].id == id && g(old_q[j]) {
                            let j = choose|j: int| 0 <= j < i + 1 && #[trigger] old_q[j].id == id && g(old_q[j]);
                            assert(j != i);
                        }
                    }
                }
            }
            i = i + 1;
        }
        proof {
            assert(old_q.subrange(0, old_q.len() as int) =~= old_q);
            assert forall|id: int| 0 <= id < self.completed@.len() && !#[trigger] self.completed@[id] implies self.is_pending(id) by {
                assert(!old(self).completed()[id]);
                assert(old(self).is_pending(id));
                let j = choose|j: int| 0 <= j < old_q.len() && #[trigger] old_q[j].id == id;
                assert(!g(old_q[j]));
                old_q.lemma_filter_contains(keep, j);
                assert(self.queries@.contains(old_q[j]));
                let k = choose|k: int| 0 <= k < self.queries@.len() && self.queries@[k] == old_q[j];
                assert(self.pending()[k].id == id);
            }
        }
    }
}

impl Querier {
    /// Creates a query for the address of `name`, with the clock reading
    /// `now`, and returns its id: the number of queries created before it.
    /// Its completion flag starts clear.
    pub fn add_at(
        &mut self,
        name: String,
        service: String,
        proto: String,
        query_type: dns_parser::QueryType,
        unicast: bool,
        timeout: u64,
        now: u64,
    ) -> (id: usize)
        requires
            old(self).wf(),
            labels_fit(encode_utf8(name@)),
            old(self).completed().len() < usize::MAX,
        ensures
            final(self).wf(),
            id == old(self).completed().len(),
            final(self).completed() == old(self).completed().push(false),
            final(self).pending().len() == old(self).pending().len() + 1,
            final(self).pending().drop_last() == old(self).pending(),
            made(final(self).pending().last(), name@, service@, proto@, query_type, unicast, timeout, now, id),
            completion_kept(*old(self), *final(self)),
    {
        let id = self.completed.len();
        let packet = create_a_query(name.as_str());
        let query = Query { name, service, proto, query_type, unicast, timeout, added_at: now, packet, id };
        self.queries.push(query);
        self.completed.push(false);
        proof {
            assert(self.queries@.drop_last() =~= old(self).queries@);
            assert forall|x: int| 0 <= x < self.completed@.len() && !#[trigger] self.completed@[x] implies self.is_pending(x) by {
                if x == id {
                    assert(self.pending()[self.queries@.len() - 1].id == x);
                } else {
                    assert(old(self).is_pending(x));
                    let j = choose|j: int| 0 <= j < old(self).pending().len() && #[trigger] old(self).pending()[j].id == x;
                    assert(self.pending()[j].id == x);
                }
            }
            assert forall|i: int, j: int| 0 <= i < j < self.queries@.len() implies #[trigger] self.queries@[i].id < #[trigger] self.queries@[j].id by {
                if j < self.queries@.len() - 1 {
                    assert(old(self).queries@[i].id < old(self).queries@[j].id);
                } else {
                    assert(old(self).queries@[i].id < old(self).completed@.len());
                }
            }
        }
        id
    }

    /// Creates a query for the address of `name`, stamped with the time on
    /// the manager's clock, and returns its id: the number of queries
    /// created before it. Its completion flag starts clear.
    pub fn add(
        &mut self,
        name: String,
        service: String,
        proto: String,
        query_type: dns_parser::QueryType,
        unicast: bool,
        timeout: u64,
    ) -> (id: usize)
        requires
            old(self).wf(),
            labels_fit(encode_utf8(name@)),
            old(self).completed().len() < usize::MAX,
        ensures
            final(self).wf(),
            id == old(self).completed().len(),
            final(self).completed() == old(self).completed().push(false),
            final(self).pending().len() == old(self).pending().len() + 1,
            final(self).pending().drop_last() == old(self).pending(),
            made(
                final(self).pending().last(),
                name@,
                service@,
                proto@,
                query_type,
                unicast,
                timeout,
                final(self).pending().last().added_at,
                id,
            ),
            completion_kept(*old(self), *final(self)),
    {
        let now = millis_since(&self.origin);
        self.add_at(name, service, proto, query_type, unicast, timeout, now)
    }

    /// One housekeeping pass at the clock reading `now`: every query whose
    /// elapsed time has reached its timeout leaves the pending list and is
    /// marked complete; the others stay, unmarked. Returns the packet of
    /// the newest query still pending, to send again, or `None` when none
    /// is.
    pub fn process_at(&mut self, now: u64) -> (r: Option<Vec<u8>>)
        requires
            old(self).wf(),
        ensures
            final(self).wf(),
            processed(*old(self), *final(self), r, now),
            completion_kept(*old(self), *final(self)),
            forall|i: int|
                0 <= i < old(self).pending().len() ==> {
                    let q = #[trigger] old(self).pending()[i];
                    &&& expired(q, now) ==> !final(self).is_pending(q.id as int)
                        && final(self).is_complete(q.id as int)
                    &&& !expired(q, now) ==> final(self).is_pending(q.id as int)
                        && !final(self).is_complete(q.id as int)
                },
    {
        let mut doomed: Vec<bool> = Vec::new();
        let mut i: usize = 0;
        while i < self.queries.len()
            invariant
                i <= self.queries@.len(),
                doomed@.len() == i,
                forall|k: int| 0 <= k < i ==> doomed@[k] == expired_at(now)(self.queries@[k]),
            decreases self.queries.len() - i,
        {
            doomed.push(is_expired(&self.queries[i], now));
            i = i + 1;
        }
        self.retire(Ghost(expired_at(now)), &doomed);
        proof {
            lemma_retired_keeps_completion(*old(self), *self, expired_at(now));
            assert forall|i: int| 0 <= i < old(self).pending().len() implies {
                let q = #[trigger] old(self).pending()[i];
                &&& expired(q, now) ==> !self.is_pending(q.id as int) && self.is_complete(q.id as int)
                &&& !expired(q, now) ==> self.is_pending(q.id as int) && !self.is_complete(q.id as int)
            } by {
                lemma_retired_query(*old(self), *self, expired_at(now), i);
            }
        }
        let n = self.queries.len();
        if n == 0 {
            None
        } else {
            Some(self.queries[n - 1].packet.clone())
        }
    }

    /// One housekeeping pass at the time on the manager's clock: see
    /// `process_at`, which it is for some reading of that clock.
    pub fn process(&mut self) -> (r: Option<Vec<u8>>)
        requires
            old(self).wf(),
        ensures
            final(self).wf(),
            exists|now: u64| processed(*old(self), *final(self), r, now),
            completion_kept(*old(self), *final(self)),
    {
        let now = millis_since(&self.origin);
        let r = self.process_at(now);
        assert(processed(*old(self), *self, r, now));
        r
    }

    /// Completes every pending query whose name is one of `names`, the
    /// owner names of the answers of a response: it leaves the pending list
    /// and is marked complete. The other queries stay, unmarked.
    pub fn apply_answers(&mut self, names: &Vec<String>)
        requires
            old(self).wf(),
        ensures
            final(self).wf(),
            retired(*old(self), *final(self), answered_by(texts(names@))),
            completion_kept(*old(self), *final(self)),
            forall|i: int|
                0 <= i < old(self).pending().len() ==> {
                    let q = #[trigger] old(self).pending()[i];
                    &&& texts(names@).contains(q.name@) ==> !final(self).is_pending(q.id as int)
                        && final(self).is_complete(q.id as int)
                    &&& !texts(names@).contains(q.name@) ==> final(self).is_pending(q.id as int)
                        && !final(self).is_complete(q.id as int)
                },
            (forall|i: int| 0 <= i < old(self).pending().len()
                ==> !texts(names@).contains(#[trigger] old(self).pending()[i].name@))
                ==> final(self).pending() == old(self).pending() && final(self).completed() == old(
                self,
            ).completed(),
    {
        let mut doomed: Vec<bool> = Vec::new();
        let mut i: usize = 0;
        while i < self.queries.len()
            invariant
                i <= self.queries@.len(),
                doomed@.len() == i,
                forall|k: int| 0 <= k < i ==> doomed@[k] == answered_by(texts(names@))(self.queries@[k]),
            decreases self.queries.len() - i,
        {
            doomed.push(name_in(&self.queries[i].name, names));
            i = i + 1;
        }
        self.retire(Ghost(answered_by(texts(names@))), &doomed);
        proof {
            let gone = answered_by(texts(names@));
            lemma_retired_keeps_completion(*old(self), *self, gone);
            assert forall|i: int| 0 <= i < old(self).pending().len() implies {
                let q = #[trigger] old(self).pending()[i];
                &&& texts(names@).contains(q.name@) ==> !self.is_pending(q.id as int) && self.is_complete(q.id as int)
                &&& !texts(names@).contains(q.name@) ==> self.is_pending(q.id as int) && !self.is_complete(q.id as int)
            } by {
                lemma_retired_query(*old(self), *self, gone, i);
            }
            if forall|i: int| 0 <= i < old(self).pending().len()
                ==> !texts(names@).contains(#[trigger] old(self).pending()[i].name@) {
                assert forall|i: int| 0 <= i < old(self).pending().len() implies spared(gone)(#[trigger] old(self).pending()[i]) by {}
                lemma_filter_all(old(self).pending(), spared(gone));
                assert forall|id: int| 0 <= id < old(self).completed().len() implies #[trigger] self.completed()[id] == old(self).completed()[id] by {
                    if exists|j: int| 0 <= j < old(self).pending().len() && #[trigger] old(self).pending()[j].id == id && gone(old(self).pending()[j]) {
                        let j = choose|j: int| 0 <= j < old(self).pending().len() && #[trigger] old(self).pending()[j].id == id && gone(old(self).pending()[j]);
                        assert(!texts(names@).contains(old(self).pending()[j].name@));
                    }
                }
                assert(self.completed() =~= old(self).completed());
            }
        }
    }

    /// Reads a received datagram as a DNS response and completes every
    /// pending query whose name is the owner name of one of its answers.
    /// A datagram that does not decode changes nothing and gives
    /// `MalformedResponse`.
    pub fn parse(&mut self, data: &[u8]) -> (r: Result<(), MdnsError>)
        requires
            old(self).wf(),
        ensures
            final(self).wf(),
            completion_kept(*old(self), *final(self)),
            match answer_names_of(data@) {
                None => r == Err::<(), MdnsError>(MdnsError::MalformedResponse) && *final(self) == *old(self),
                Some(names) => r == Ok::<(), MdnsError>(()) && retired(*old(self), *final(self), answered_by(names)),
            },
    {
        match decode_answer_names(data) {
            Ok(names) => {
                self.apply_answers(&names);
                Ok(())
            },
            Err(_) => Err(MdnsError::MalformedResponse),
        }
    }

    /// Whether the query with id `id` has completed; `UnknownQueryId` when
    /// no query was ever created with that id. It never blocks: a caller
    /// that wants to wait asks again after each notification.
    pub fn completion(&self, id: usize) -> (r: Result<bool, MdnsError>)
        ensures
            id < self.completed().len() ==> r == Ok::<bool, MdnsError>(self.completed()[id as int]),
            id >= self.completed().len() ==> r == Err::<bool, MdnsError>(MdnsError::UnknownQueryId),
    {
        if id < self.completed.len() {
            Ok(self.completed[id])
        } else {
            Err(MdnsError::UnknownQueryId)
        }
    }

    /// How many queries were ever created.
    pub fn created(&self) -> (r: usize)
        ensures
            r == self.completed().len(),
    {
        self.completed.len()
    }

    /// How many queries are pending.
    pub fn pending_count(&self) -> (r: usize)
        ensures
            r == self.pending().len(),
    {
        self.queries.len()
    }

    /// The packet of the pending query with id `id`, if one is pending.
    pub fn packet_of(&self, id: usize) -> (r: Option<Vec<u8>>)
        requires
            self.wf(),
        ensures
            r is Some <==> self.is_pending(id as int),
            forall|i: int| 0 <= i < self.pending().len() && #[trigger] self.pending()[i].id == id
                ==> (r matches Some(p) && p@ == self.pending()[i].packet@),
    {
        let mut i: usize = 0;
        while i < self.queries.len()
            invariant
                self.wf(),
                i <= self.queries@.len(),
                forall|k: int| 0 <= k < i ==> self.queries@[k].id != id,
            decreases self.queries.len() - i,
        {
            if self.queries[i].id == id {
                let p = self.queries[i].packet.clone();
                proof {
                    assert(self.pending()[i as int].id == id);
                    assert forall|k: int| 0 <= k < self.pending().len() && #[trigger] self.pending()[k].id == id implies k == i by {
                        if k < i { } else if k > i {
                            assert(self.queries@[i as int].id < self.queries@[k].id);
                        }
                    }
                }
                return Some(p);
            }
            i = i + 1;
        }
        None
    }
}

} // verus!
