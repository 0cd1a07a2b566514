//! Captive-portal DNS answers: parsing the question section of a query
//! and building an A-record response that points every name at one IP.
//! Receiving and sending the UDP datagrams is the host's business.

use vstd::prelude::*;

verus! {

/// Where the QNAME of a query's question section ends, scanning the
/// length-prefixed labels from `pos`: one past the zero terminator, or
/// the end of the query when labels run past it.
pub open spec fn qname_end(q: Seq<u8>, pos: int) -> int
    decreases q.len() - pos,
{
    if pos < 0 || pos >= q.len() {
        pos
    } else if q[pos] == 0 {
        pos + 1
    } else if pos + 1 + q[pos] > q.len() {
        q.len() as int
    } else {
        qname_end(q, pos + 1 + q[pos])
    }
}

/// Where the question section ends: QNAME, then 2 bytes of QTYPE and 2
/// of QCLASS, clamped to the query's length.
pub open spec fn spec_question_end(q: Seq<u8>) -> int {
    let e = qname_end(q, 12) + 4;
    if e <= q.len() {
        e
    } else {
        q.len() as int
    }
}

proof fn lemma_qname_end_bounds(q: Seq<u8>, pos: int)
    requires
        0 <= pos <= q.len(),
    ensures
        pos <= qname_end(q, pos) <= q.len() + 1,
    decreases q.len() - pos,
{
    if pos < q.len() && q[pos] != 0 && pos + 1 + q[pos] <= q.len() {
        lemma_qname_end_bounds(q, pos + 1 + q[pos]);
    }
}

/// Find where the question section ends in a DNS query: the byte offset
/// after QNAME, QTYPE and QCLASS, clamped to the query's length.
pub fn find_question_end(query: &[u8]) -> (r: usize)
    requires
        12 <= query@.len(),
        query@.len() + 260 <= usize::MAX,
    ensures
        r as int == spec_question_end(query@),
        12 <= r <= query@.len(),
{
    let len = query.len();
    let mut pos: usize = 12;
    let mut terminated = false;
    while pos < len && !terminated
        invariant
            12 <= pos,
            len == query@.len(),
            len + 260 <= usize::MAX,
            !terminated ==> pos <= len,
            !terminated ==> qname_end(query@, 12) == qname_end(query@, pos as int),
            terminated ==> qname_end(query@, 12) == pos,
            terminated ==> 13 <= pos <= len,
        decreases len - pos, (if terminated {
            0int
        } else {
            1int
        }),
    {
        let label_len = query[pos] as usize;
        if label_len == 0 {
            pos = pos + 1;
            terminated = true;
        } else {
            if pos + 1 + label_len > len {
                pos = len;
                terminated = true;
                proof {
                    assert(qname_end(query@, 12) == len);
                }
            } else {
                pos = pos + 1 + label_len;
            }
        }
    }
    proof {
        if !terminated {
            assert(pos == len);
            assert(qname_end(query@, pos as int) == pos);
        }
        lemma_qname_end_bounds(query@, 12);
    }
    let e = pos + 4;
    if e <= len {
        e
    } else {
        len
    }
}

/// The bytes of an A-record response to a query: the query's id, fixed
/// response flags and counts, the query's question section, and one
/// answer holding the IP with a 60-second TTL.
pub open spec fn spec_response(q: Seq<u8>, ip: Seq<u8>) -> Seq<u8> {
    q.subrange(0, 2) + seq![0x81u8, 0x80, 0x00, 0x01, 0x00, 0x01, 0x00, 0x00, 0x00, 0x00]
        + q.subrange(12, spec_question_end(q)) + seq![
        0xC0u8,
        0x0C,
        0x00,
        0x01,
        0x00,
        0x01,
        0x00,
        0x00,
        0x00,
        0x3C,
        0x00,
        0x04,
    ] + ip
}

/// Build a DNS A-record response pointing all queries to the given IP.
pub fn build_response(query: &[u8], ip: &[u8; 4]) -> (r: Vec<u8>)
    requires
        12 <= query@.len(),
        query@.len() + 260 <= usize::MAX,
    ensures
        r@ == spec_response(query@, ip@),
{
    let question_end = find_question_end(query);
    let mut resp: Vec<u8> = Vec::new();

    // header: transaction id, then response flags and section counts
    resp.push(query[0]);
    resp.push(query[1]);
    resp.push(0x81);
    resp.push(0x80);
    resp.push(0x00);
    resp.push(0x01);
    resp.push(0x00);
    resp.push(0x01);
    resp.push(0x00);
    resp.push(0x00);
    resp.push(0x00);
    resp.push(0x00);
    proof {
        assert(resp@ =~= query@.subrange(0, 2) + seq![
            0x81u8,
            0x80,
            0x00,
            0x01,
            0x00,
            0x01,
            0x00,
            0x00,
            0x00,
            0x00,
        ]);
    }

    // question section, copied from the query
    let ghost header = resp@;
    let mut j: usize = 12;
    while j < question_end
        invariant
            12 <= j <= question_end,
            question_end <= query@.len(),
            resp@ == header + query@.subrange(12, j as int),
        decreases question_end - j,
    {
        resp.push(query[j]);
        proof {
            assert(resp@ =~= header + query@.subrange(12, j + 1 as int));
        }
        j += 1;
    }

    // answer: name pointer to the question, type A, class IN, TTL 60,
    // then the four address bytes
    resp.push(0xC0);
    resp.push(0x0C);
    resp.push(0x00);
    resp.push(0x01);
    resp.push(0x00);
    resp.push(0x01);
    resp.push(0x00);
    resp.push(0x00);
    resp.push(0x00);
    resp.push(0x3C);
    resp.push(0x00);
    resp.push(0x04);
    resp.push(ip[0]);
    resp.push(ip[1]);
    resp.push(ip[2]);
    resp.push(ip[3]);
    proof {
        assert(ip@ =~= seq![ip@[0], ip@[1], ip@[2], ip@[3]]);
        assert(resp@ =~= spec_response(query@, ip@));
    }
    resp
}

} // verus!
