//! The captive-DNS response policy: answer a single-question A/IN query
//! for the portal's own host name with the access point's address, refuse
//! everything else with the fitting response code, and reply to every
//! well-formed datagram.

use vstd::prelude::*;

use crate::frame::{spec_parse_end, spec_parse_ok, Answer, DnsFrame};
use crate::header::{
    read_header, spec_header_of_bytes, spec_query_class_value, spec_query_kind_value,
    spec_response_code_value, DnsHeader, HeaderKind, OpCode, QueryClass, QueryKind, ResponseCode,
};
use crate::name::{
    lemma_encode_parts_len, lemma_name_length_bound, lemma_name_rec_bounds, lemma_text_len,
    spec_encode_labels, spec_lower_seq, spec_name, spec_name_matches, spec_name_text,
};
use crate::question::{
    spec_question_class, spec_question_end, spec_question_kind, spec_questions_end, Question,
};
use crate::{spec_u16_be, spec_u32_be};

verus! {

/// Whether the header announces a message this responder serves: a query
/// with opcode `QUERY` and exactly one question.
pub open spec fn spec_policy_accepts(h: DnsHeader) -> bool {
    &&& h.question_count == 1
    &&& h.spec_kind() == HeaderKind::Query
    &&& h.spec_opcode() == OpCode::Query
}

/// The single question of an accepted query.
pub open spec fn spec_first_question(req: Seq<u8>) -> Question
    recommends
        spec_question_end(req, 12).is_some(),
{
    Question { start: 12, end: spec_question_end(req, 12).unwrap() as usize }
}

/// Whether the single question asks for an A record in class IN.
pub open spec fn spec_question_is_a_in(req: Seq<u8>) -> bool {
    &&& spec_question_kind(req, spec_first_question(req)) == QueryKind::A
    &&& spec_question_class(req, spec_first_question(req)) == QueryClass::IN
}

/// Whether the single question's name is the portal host name.
pub open spec fn spec_question_matches(req: Seq<u8>, host: Seq<u8>) -> bool {
    spec_name_matches(spec_name(req, 12).unwrap().0, host)
}

/// A header-only reply: the request's id and recursion-desired bit echoed,
/// the response bit set, the given response code, no records.
pub open spec fn spec_error_response(req: Seq<u8>, resp: DnsFrame, bits: u8) -> bool {
    let h = spec_header_of_bytes(req);
    let rh = spec_header_of_bytes(resp.spec_bytes());
    &&& resp.wf()
    &&& resp.len == 12
    &&& rh.id == h.id
    &&& rh.spec_kind() == HeaderKind::Response
    &&& rh.spec_recursion_desired() == h.spec_recursion_desired()
    &&& rh.spec_response_code_bits() == bits
    &&& rh.question_count == 0
    &&& rh.answer_count == 0
    &&& rh.name_server_count == 0
    &&& rh.additional_records_count == 0
}

/// The positive reply: `NoError`, the question echoed with its name
/// written as inline labels, and one A/IN answer whose resource data is
/// the four address bytes. The reply parses back: its one question reads
/// as the same labels, as does the answer's name, and its final four
/// bytes are the address.
pub open spec fn spec_answer_response(
    req: Seq<u8>,
    host: Seq<u8>,
    ip: Seq<u8>,
    resp: DnsFrame,
) -> bool {
    let h = spec_header_of_bytes(req);
    let labels = spec_name(req, 12).unwrap().0;
    let enc = spec_encode_labels(labels);
    let rh = spec_header_of_bytes(resp.spec_bytes());
    &&& resp.wf()
    &&& rh.id == h.id
    &&& rh.spec_kind() == HeaderKind::Response
    &&& rh.spec_recursion_desired() == h.spec_recursion_desired()
    &&& rh.spec_response_code_bits() == 0
    &&& rh.question_count == 1
    &&& rh.answer_count == 1
    &&& resp.len as int == 12 + 2 * enc.len() + 18
    &&& resp.spec_bytes().subrange(12, resp.len as int) == enc + spec_u16_be(1) + spec_u16_be(1)
        + enc + spec_u16_be(1) + spec_u16_be(1) + spec_u32_be(60) + spec_u16_be(4) + ip
    &&& spec_parse_ok(resp.spec_bytes())
    &&& spec_parse_end(resp.spec_bytes()) == 12 + enc.len() + 4
    &&& spec_name(resp.spec_bytes(), 12 + enc.len() as int + 4) == Some(
        (labels, 12 + 2 * enc.len() as int + 4),
    )
    &&& resp.spec_bytes().subrange(resp.len - 4, resp.len as int) == ip
}

/// What the responder replies to a well-formed request: `NotImplemented`
/// unless the message is a single-question query with opcode `QUERY`;
/// `NotImplemented` for a question that is not A/IN; `NonExistentDomain`
/// for any name but the portal host; the address for the portal host.
pub open spec fn spec_response_ok(
    req: Seq<u8>,
    host: Seq<u8>,
    ip: Seq<u8>,
    resp: DnsFrame,
) -> bool {
    let h = spec_header_of_bytes(req);
    if !spec_policy_accepts(h) {
        spec_error_response(req, resp, 4)
    } else if !spec_question_is_a_in(req) {
        spec_error_response(req, resp, 4)
    } else if !spec_question_matches(req, host) {
        spec_error_response(req, resp, 3)
    } else {
        spec_answer_response(req, host, ip, resp)
    }
}

/// Build a header-only reply with the given response code.
fn error_response(id: u16, recursion_desired: bool, code: ResponseCode) -> (r: DnsFrame)
    requires
        spec_response_code_value(code) < 16,
    ensures
        ({
            let rh = spec_header_of_bytes(r.spec_bytes());
            &&& r.wf()
            &&& r.len == 12
            &&& rh.id == id
            &&& rh.spec_kind() == HeaderKind::Response
            &&& rh.spec_recursion_desired() == recursion_desired
            &&& rh.spec_response_code_bits() == spec_response_code_value(code)
            &&& rh.question_count == 0
            &&& rh.answer_count == 0
            &&& rh.name_server_count == 0
            &&& rh.additional_records_count == 0
        }),
{
    let hdr = DnsHeader::builder().id(id).kind(HeaderKind::Response).recursion_desired(
        recursion_desired,
    ).response_code(code).build();
    let frame = DnsFrame::builder(DnsFrame::buffer()).header(hdr).build();
    proof {
        crate::header::lemma_header_bytes_round_trip(hdr);
        assert(frame.spec_bytes() =~= crate::header::spec_header_bytes(hdr));
    }
    frame
}

/// Decide and build the reply to a parsed request. Every request gets a
/// reply; only the portal host's A/IN question gets an answer record.
pub fn handle_request(request: &DnsFrame, ip: &[u8; 4], host: &[u8]) -> (r: DnsFrame)
    requires
        request.wf(),
        spec_questions_end(
            request.buf@,
            12,
            spec_header_of_bytes(request.buf@).question_count as nat,
        ) == Some(request.len as int),
        host@.len() <= 239,
    ensures
        spec_response_ok(request.buf@, host@, ip@, r),
{
    let ghost req = request.buf@;
    let h = request.header();
    let id = h.id();
    let rd = h.recursion_desired();
    let accepts = h.question_count() == 1 && matches!(h.kind(), HeaderKind::Query) && matches!(
        h.opcode(),
        OpCode::Query,
    );
    if !accepts {
        return error_response(id, rd, ResponseCode::NotImplemented);
    }
    let mut qs = request.questions();
    let q_opt = qs.next(request.buf.as_slice());
    let q = match q_opt {
        Some(q) => q,
        None => {
            proof {
                assert(false);
            }
            return error_response(id, rd, ResponseCode::NotImplemented);
        },
    };
    proof {
        assert(q == spec_first_question(req));
    }
    let a_in = matches!(q.kind(request.buf.as_slice()), QueryKind::A) && matches!(
        q.class(request.buf.as_slice()),
        QueryClass::IN,
    );
    if !a_in {
        return error_response(id, rd, ResponseCode::NotImplemented);
    }
    let name = q.name(request.buf.as_slice());
    if !name.matches(request.buf.as_slice(), host) {
        return error_response(id, rd, ResponseCode::NonExistentDomain);
    }
    // The matched name is at most as long as the portal host's text, so
    // the whole reply fits the 512-byte buffer: 2 * (len + 2) + 34 <= 512.
    let ghost labels = spec_name(req, 12).unwrap().0;
    let ghost enc = spec_encode_labels(labels);
    proof {
        lemma_name_rec_bounds(req, 12, 12, true, 0);
        lemma_encode_parts_len(labels);
        if labels.len() > 0 {
            lemma_text_len(labels);
            assert(spec_lower_seq(spec_name_text(labels)).len() == spec_lower_seq(host@).len());
        }
        assert(enc.len() <= host@.len() + 2);
    }
    let mut hdr = DnsHeader::builder().id(id).kind(HeaderKind::Response).recursion_desired(
        rd,
    ).response_code(ResponseCode::NoError).build();
    hdr.set_question_count(1);
    let mut resp = DnsFrame::builder(DnsFrame::buffer()).header(hdr).build();
    proof {
        crate::header::lemma_header_bytes_round_trip(hdr);
        assert(resp.spec_bytes() =~= crate::header::spec_header_bytes(hdr));
    }
    let ghost s0 = resp.spec_bytes();
    resp.add_name(request.buf.as_slice(), &name);
    let kind = QueryKind::A;
    let class = QueryClass::IN;
    resp.add_kind(&kind);
    resp.add_class(&class);
    let ghost s3 = resp.spec_bytes();
    let mut rdata: Vec<u8> = Vec::new();
    rdata.push(ip[0]);
    rdata.push(ip[1]);
    rdata.push(ip[2]);
    rdata.push(ip[3]);
    proof {
        assert(rdata@ =~= ip@);
        assert(spec_header_of_bytes(s3) == hdr) by {
            assert forall|j: int| 0 <= j < 12 implies s3[j] == s0[j] by {}
        }
    }
    let answer = Answer { name, kind, class, ttl: 60, rdata };
    resp.add_answer(request.buf.as_slice(), &answer);
    proof {
        let kb = spec_u16_be(1);
        let len3: int = 12 + enc.len() as int + 4;
        assert(s0.len() == 12);
        assert(s3 =~= s0 + enc + kb + kb);
        assert(spec_query_kind_value(QueryKind::A) == 1);
        assert(spec_query_class_value(QueryClass::IN) == 1);
        let ans_app = enc + kb + kb + spec_u32_be(60) + spec_u16_be(4) + ip@;
        assert(resp.spec_bytes().subrange(len3, resp.len as int) =~= ans_app);
        assert(resp.spec_bytes().subrange(12, len3) =~= enc + kb + kb) by {
            assert(s3.subrange(12, len3) =~= enc + kb + kb);
        }
        lemma_answer_response(req, host@, ip@, resp, hdr);
    }
    resp
}

/// The built reply satisfies `spec_answer_response`: its body bytes are
/// exactly the echoed question and the one answer, and they parse back to
/// the same labels and the address bytes.
proof fn lemma_answer_response(req: Seq<u8>, host: Seq<u8>, ip: Seq<u8>, resp: DnsFrame, hdr: DnsHeader)
    requires
        spec_name(req, 12).is_some(),
        spec_name_matches(spec_name(req, 12).unwrap().0, host),
        host.len() <= 239,
        ip.len() == 4,
        hdr.id == spec_header_of_bytes(req).id,
        hdr.spec_kind() == HeaderKind::Response,
        hdr.spec_recursion_desired() == spec_header_of_bytes(req).spec_recursion_desired(),
        hdr.spec_response_code_bits() == 0,
        hdr.question_count == 1,
        resp.wf(),
        ({
            let labels = spec_name(req, 12).unwrap().0;
            let enc = spec_encode_labels(labels);
            &&& resp.len as int == 12 + 2 * enc.len() + 18
            &&& resp.spec_bytes().subrange(12, 12 + enc.len() as int + 4) == enc + spec_u16_be(1)
                + spec_u16_be(1)
            &&& resp.spec_bytes().subrange(12 + enc.len() as int + 4, resp.len as int) == enc
                + spec_u16_be(1) + spec_u16_be(1) + spec_u32_be(60) + spec_u16_be(4) + ip
            &&& spec_header_of_bytes(resp.spec_bytes()) == (DnsHeader {
                answer_count: 1,
                ..hdr
            })
        }),
    ensures
        spec_answer_response(req, host, ip, resp),
{
    let labels = spec_name(req, 12).unwrap().0;
    let enc = spec_encode_labels(labels);
    let s = resp.spec_bytes();
    let qend: int = 12 + enc.len() as int + 4;
    let piece1 = enc + spec_u16_be(1) + spec_u16_be(1);
    let piece2 = enc + spec_u16_be(1) + spec_u16_be(1) + spec_u32_be(60) + spec_u16_be(4) + ip;
    let appended = enc + spec_u16_be(1) + spec_u16_be(1) + enc + spec_u16_be(1) + spec_u16_be(1)
        + spec_u32_be(60) + spec_u16_be(4) + ip;
    lemma_name_rec_bounds(req, 12, 12, true, 0);
    lemma_name_length_bound(req, 12);
    lemma_encode_parts_len(labels);
    assert(s.len() == resp.len);
    assert(s.subrange(12, resp.len as int) =~= appended) by {
        assert forall|j: int| 0 <= j < resp.len - 12 implies s.subrange(12, resp.len as int)[j]
            == appended[j] by {
            assert(appended =~= piece1 + piece2);
            if j < piece1.len() {
                assert(s.subrange(12, qend)[j] == piece1[j]);
            } else {
                assert(s.subrange(qend, resp.len as int)[j - piece1.len()] == piece2[j
                    - piece1.len()]);
            }
        }
    }
    assert(s.subrange(12, 12 + enc.len() as int) =~= enc) by {
        assert forall|j: int| 0 <= j < enc.len() implies s.subrange(12, 12 + enc.len() as int)[j]
            == enc[j] by {
            assert(s.subrange(12, qend)[j] == piece1[j]);
            assert(piece1[j] == enc[j]);
        }
    }
    crate::name::lemma_encode_parses(s, 12, 12, true, 0, labels);
    assert(spec_question_end(s, 12) == Some(qend));
    assert(spec_questions_end(s, qend, 0nat) == Some(qend));
    assert(spec_questions_end(s, 12, 1nat) == Some(qend));
    assert(spec_header_of_bytes(s).question_count == 1);
    assert(spec_parse_ok(s));
    assert(spec_parse_end(s) == qend);
    assert(s.subrange(qend, qend + enc.len() as int) =~= enc) by {
        assert forall|j: int| 0 <= j < enc.len() implies s.subrange(
            qend,
            qend + enc.len() as int,
        )[j] == enc[j] by {
            assert(s.subrange(qend, resp.len as int)[j] == piece2[j]);
            assert(piece2[j] == enc[j]);
        }
    }
    crate::name::lemma_encode_parses(s, qend, qend, true, 0, labels);
    assert(s.subrange(resp.len - 4, resp.len as int) =~= ip) by {
        assert forall|j: int| 0 <= j < 4 implies s.subrange(resp.len - 4, resp.len as int)[j]
            == ip[j] by {
            assert(s.subrange(qend, resp.len as int)[piece2.len() - 4 + j] == piece2[piece2.len()
                - 4 + j]);
            assert(piece2[piece2.len() - 4 + j] == ip[j]);
        }
    }
}

/// Reply to one received datagram. A datagram shorter than a header or
/// longer than the 512-byte limit is dropped; a well-formed one gets the
/// policy's reply; one whose questions are malformed gets a header-only
/// `FormatError` reply.
pub fn handle_datagram(datagram: Vec<u8>, ip: &[u8; 4], host: &[u8]) -> (r: Option<DnsFrame>)
    requires
        host@.len() <= 239,
    ensures
        (r is Some) == (12 <= datagram@.len() <= 512),
        r is Some ==> spec_parse_ok(datagram@) ==> spec_response_ok(
            datagram@,
            host@,
            ip@,
            r.unwrap(),
        ),
        r is Some ==> !spec_parse_ok(datagram@) ==> spec_error_response(datagram@, r.unwrap(), 1),
{
    if datagram.len() < 12 || datagram.len() > 512 {
        return None;
    }
    let h = read_header(datagram.as_slice());
    match DnsFrame::parse(datagram) {
        Ok(frame) => Some(handle_request(&frame, ip, host)),
        Err(_) => Some(error_response(h.id, h.recursion_desired(), ResponseCode::FormatError)),
    }
}

} // verus!
