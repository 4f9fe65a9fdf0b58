//! The DNS messages that travel on the wire: the query this library sends,
//! and what it reads out of a response.
use vstd::prelude::*;
use vstd::string::StringSliceAdditionalSpecFns;

verus! {

/// The byte that separates the labels of a dotted name.
pub const DOT: u8 = 0x2e;

/// A label of a question name must be shorter than this many bytes.
pub const LABEL_LIMIT: usize = 63;

/// Above this many bytes a built message has its flags word rewritten.
pub const UDP_MESSAGE_LIMIT: usize = 512;

/// The labels of a dotted name, split at every dot byte; an empty name, and
/// the text after a trailing dot, give an empty label.
pub open spec fn name_labels(b: Seq<u8>) -> Seq<Seq<u8>>
    decreases b.len(),
{
    if b.len() == 0 {
        seq![Seq::<u8>::empty()]
    } else if b.last() == DOT {
        name_labels(b.drop_last()).push(Seq::<u8>::empty())
    } else {
        let ls = name_labels(b.drop_last());
        ls.update(ls.len() - 1, ls.last().push(b.last()))
    }
}

/// Every label of the name is shorter than the label limit.
pub open spec fn labels_fit(b: Seq<u8>) -> bool {
    forall|k: int|
        0 <= k < name_labels(b).len() ==> #[trigger] name_labels(b)[k].len() < LABEL_LIMIT
}

/// Each label as a length byte followed by its bytes.
pub open spec fn encode_labels(ls: Seq<Seq<u8>>) -> Seq<u8>
    decreases ls.len(),
{
    if ls.len() == 0 {
        Seq::<u8>::empty()
    } else {
        encode_labels(ls.drop_last()) + seq![ls.last().len() as u8] + ls.last()
    }
}

/// A name in a question: its labels, then a zero byte.
pub open spec fn encoded_name(b: Seq<u8>) -> Seq<u8> {
    encode_labels(name_labels(b)).push(0u8)
}

/// The question section of a query for the address record of `b`:
/// the name, type A (1) and class IN (1) without the unicast bit.
pub open spec fn a_question(b: Seq<u8>) -> Seq<u8> {
    encoded_name(b) + seq![0u8, 1u8, 0u8, 1u8]
}

/// The query message for the address record of the name with bytes `b`:
/// transaction id 0, a standard query with recursion desired, one question
/// and no other record. A message over the UDP limit has its flags word
/// cleared, as the builder leaves it.
pub open spec fn query_packet(b: Seq<u8>) -> Seq<u8> {
    let question = a_question(b);
    let flags: u8 = if 12 + question.len() > UDP_MESSAGE_LIMIT { 0u8 } else { 1u8 };
    seq![0u8, 0u8, flags, 0u8, 0u8, 1u8, 0u8, 0u8, 0u8, 0u8, 0u8, 0u8] + question
}

/// The text of each string.
pub open spec fn texts(v: Seq<String>) -> Seq<Seq<char>> {
    v.map_values(|s: String| s@)
}

/// The owner names of the answer records of a response, in order, or
/// `None` where the bytes do not decode as a DNS message.
pub uninterp spec fn answer_names_of(data: Seq<u8>) -> Option<Seq<Seq<char>>>;

#[verifier::external_type_specification]
#[verifier::external_body]
pub struct ExDnsError(dns_parser::Error);

/// Relies on `dns_parser::Builder`: `new_query(0, true)`, then
/// `add_question(name, false, A, IN)`, then `build`, whose `Err` holds the
/// same bytes (with the flags word cleared) when they pass 512. The builder
/// asserts that each label is shorter than 63 bytes.
#[verifier::external_body]
pub(crate) fn create_a_query(name: &str) -> (r: Vec<u8>)
    requires
        labels_fit(name.spec_bytes()),
    ensures
        r@ == query_packet(name.spec_bytes()),
{
    let mut builder = dns_parser::Builder::new_query(0, true);
    builder.add_question(name, false, dns_parser::QueryType::A, dns_parser::QueryClass::IN);
    match builder.build() {
        Ok(packet) => packet,
        Err(packet) => packet,
    }
}

/// Relies on `dns_parser::Packet::parse` and the `Display` of its names:
/// whether the bytes decode, and the owner names of the answers, follow
/// from the bytes alone. A message shorter than its 12-byte header does
/// not decode.
#[verifier::external_body]
pub(crate) fn decode_answer_names(data: &[u8]) -> (r: Result<Vec<String>, dns_parser::Error>)
    ensures
        r is Ok <==> answer_names_of(data@) is Some,
        r matches Ok(v) ==> answer_names_of(data@) == Some(texts(v@)),
        data@.len() < 12 ==> r is Err,
{
    match dns_parser::Packet::parse(data) {
        Ok(packet) => Ok(packet.answers.iter().map(|a| a.name.to_string()).collect()),
        Err(e) => Err(e),
    }
}

/// Whether every label of `name` is shorter than 63 bytes, which the query
/// builder needs.
pub fn name_fits(name: &str) -> (r: bool)
    ensures
        r == labels_fit(name.spec_bytes()),
{
    let b = name.as_bytes();
    let mut run: usize = 0;
    let mut ok = true;
    let mut i: usize = 0;
    while i < b.len()
        invariant
            i <= b@.len(),
            b@ == name.spec_bytes(),
            run == name_labels(b@.subrange(0, i as int)).last().len(),
            run <= i,
            ok == labels_fit(b@.subrange(0, i as int)),
        decreases b.len() - i,
    {
        let ghost pre = b@.subrange(0, i as int);
        let ghost next = b@.subrange(0, i + 1);
        assert(next.drop_last() =~= pre);
        assert(next.last() == b@[i as int]);
        let ghost old_ls = name_labels(pre);
        let ghost ls = name_labels(next);
        if b[i] == DOT {
            run = 0;
            assert(ls == old_ls.push(Seq::<u8>::empty()));
            assert(ok == labels_fit(next)) by {
                if ok {
                    assert forall|k: int| 0 <= k < ls.len() implies #[trigger] ls[k].len() < LABEL_LIMIT by {
                        if k < old_ls.len() {
                            assert(ls[k] == old_ls[k]);
                        }
                    }
                } else {
                    let k = choose|k: int| 0 <= k < old_ls.len() && !(old_ls[k].len() < LABEL_LIMIT);
                    assert(ls[k] == old_ls[k]);
                }
            }
        } else {
            run = run + 1;
            assert((ok && run < LABEL_LIMIT) == labels_fit(next)) by {
                lemma_labels_nonempty(pre);
                let last = old_ls.len() - 1;
                assert(ls == old_ls.update(last, old_ls.last().push(b@[i as int])));
                assert(ls[last].len() == run);
                if ok && run < LABEL_LIMIT {
                    assert forall|k: int| 0 <= k < ls.len() implies #[trigger] ls[k].len() < LABEL_LIMIT by {
                        if k != last {
                            assert(ls[k] == old_ls[k]);
                        }
                    }
                } else if !ok {
                    let k = choose|k: int| 0 <= k < old_ls.len() && !(old_ls[k].len() < LABEL_LIMIT);
                    if k != last {
                        assert(ls[k] == old_ls[k]);
                    } else {
                        assert(ls[k].len() > old_ls[k].len());
                    }
                    assert(!(ls[k].len() < LABEL_LIMIT));
                } else {
                    assert(!(ls[last].len() < LABEL_LIMIT));
                }
            }
            ok = ok && run < LABEL_LIMIT;
        }
        assert(ls.last().len() == run) by {
            lemma_labels_nonempty(pre);
        }
        i = i + 1;
    }
    assert(b@.subrange(0, b@.len() as int) =~= b@);
    ok
}

/// A name has at least one label.
pub proof fn lemma_labels_nonempty(b: Seq<u8>)
    ensures
        name_labels(b).len() >= 1,
    decreases b.len(),
{
    if b.len() > 0 {
        lemma_labels_nonempty(b.drop_last());
    }
}

/// The query message for `b` declares one question and no answer,
/// authority or additional record; its header is followed by the question
/// section, which is the encoded name, type A (1) and class IN (1).
pub proof fn lemma_query_packet_shape(b: Seq<u8>)
    ensures
        query_packet(b).len() == 12 + encoded_name(b).len() + 4,
        query_packet(b)[0] == 0 && query_packet(b)[1] == 0,
        query_packet(b)[4] == 0 && query_packet(b)[5] == 1,
        forall|k: int| 6 <= k < 12 ==> query_packet(b)[k] == 0,
        query_packet(b).subrange(12, query_packet(b).len() as int) == a_question(b),
        a_question(b).subrange(0, encoded_name(b).len() as int) == encoded_name(b),
        a_question(b).subrange(encoded_name(b).len() as int, a_question(b).len() as int) == seq![
            0u8,
            1u8,
            0u8,
            1u8,
        ],
{
    let p = query_packet(b);
    let q = a_question(b);
    assert(p.subrange(12, p.len() as int) =~= q);
    assert(q.subrange(0, encoded_name(b).len() as int) =~= encoded_name(b));
    assert(q.subrange(encoded_name(b).len() as int, q.len() as int) =~= seq![0u8, 1u8, 0u8, 1u8]);
}

} // verus!
