use captive_portal::frame::DnsFrame;
use captive_portal::header::{
    DnsHeader, HeaderKind, OpCode, QueryClass, QueryKind, ResponseCode,
};
use captive_portal::name::{name_matches_host, read_name, Name};

const IP: [u8; 4] = [192, 168, 4, 1];
const HOST: &[u8] = b"captive.apple.com";

/// Build a DNS query: a 12-byte header followed by the given question
/// sections (each already encoded), with the declared question count.
fn build_message(id: u16, flags0: u8, question_count: u16, questions: &[&[u8]]) -> Vec<u8> {
    let mut v = Vec::new();
    v.extend_from_slice(&id.to_be_bytes());
    v.push(flags0);
    v.push(0);
    v.extend_from_slice(&question_count.to_be_bytes());
    v.extend_from_slice(&[0, 0, 0, 0, 0, 0]);
    for q in questions {
        v.extend_from_slice(q);
    }
    v
}

/// Encode a question: dotted name as inline labels, then type and class.
fn encode_question(name: &str, qtype: u16, qclass: u16) -> Vec<u8> {
    let mut v = Vec::new();
    for label in name.split('.') {
        v.push(label.len() as u8);
        v.extend_from_slice(label.as_bytes());
    }
    v.push(0);
    v.extend_from_slice(&qtype.to_be_bytes());
    v.extend_from_slice(&qclass.to_be_bytes());
    v
}

fn respond(query: Vec<u8>) -> DnsFrame {
    let frame = DnsFrame::parse(query).expect("query should parse");
    captive_portal::responder::handle_request(&frame, &IP, HOST)
}

#[test]
fn round_trip_matching_query() {
    let q = encode_question("captive.apple.com", 1, 1);
    let query = build_message(0x1234, 0x01, 1, &[&q]);
    let resp = respond(query);
    let bytes = resp.as_bytes().to_vec();
    let parsed = DnsFrame::parse(bytes).expect("response should parse");
    let h = parsed.header();
    assert_eq!(h.id(), 0x1234);
    assert_eq!(h.kind(), HeaderKind::Response);
    assert_eq!(h.answer_count(), 1);
    assert_eq!(h.question_count(), 1);
    assert!(h.recursion_desired());
    assert_eq!(h.response_code(), ResponseCode::NoError);
    let all = resp.as_bytes();
    assert_eq!(&all[all.len() - 4..], &IP);
}

#[test]
fn round_trip_echoes_question() {
    let q = encode_question("captive.apple.com", 1, 1);
    let query = build_message(7, 0x00, 1, &[&q]);
    let resp = respond(query);
    let bytes = resp.as_bytes().to_vec();
    let parsed = DnsFrame::parse(bytes).expect("response should parse");
    let mut qs = parsed.questions();
    let question = qs.next(parsed.buf.as_slice()).expect("one question");
    assert_eq!(question.kind(parsed.buf.as_slice()), QueryKind::A);
    assert_eq!(question.class(parsed.buf.as_slice()), QueryClass::IN);
    let name = question.name(parsed.buf.as_slice());
    assert!(name.matches(parsed.buf.as_slice(), HOST));
    assert!(qs.next(parsed.buf.as_slice()).is_none());
}

#[test]
fn answer_name_parses_back() {
    let q = encode_question("captive.apple.com", 1, 1);
    let query = build_message(11, 0x00, 1, &[&q]);
    let resp = respond(query);
    let bytes = resp.as_bytes().to_vec();
    let parsed = DnsFrame::parse(bytes).expect("response should parse");
    // Parsing stops after the question section, so the parsed length is
    // where the answer record begins.
    let answer_start = parsed.as_bytes().len();
    let mut i = answer_start;
    assert!(read_name(parsed.buf.as_slice(), &mut i));
    assert!(name_matches_host(parsed.buf.as_slice(), answer_start, HOST));
    // Type, class, TTL and a 4-byte length-prefixed address follow.
    let rest = &resp.as_bytes()[i..];
    assert_eq!(rest, &[0, 1, 0, 1, 0, 0, 0, 60, 0, 4, 192, 168, 4, 1]);
}

#[test]
fn extend_appends_to_the_message() {
    let hdr = DnsHeader::builder().id(1).build();
    let mut frame = DnsFrame::builder(DnsFrame::buffer()).header(hdr).build();
    frame.extend(&[0xDE, 0xAD, 0xBE]);
    let bytes = frame.as_bytes();
    assert_eq!(bytes.len(), 15);
    assert_eq!(&bytes[12..], &[0xDE, 0xAD, 0xBE]);
}

#[test]
fn policy_matches_case_insensitively() {
    let q = encode_question("CAPTIVE.Apple.COM", 1, 1);
    let query = build_message(9, 0x00, 1, &[&q]);
    let resp = respond(query);
    assert_eq!(resp.header().response_code(), ResponseCode::NoError);
    assert_eq!(resp.header().answer_count(), 1);
}

#[test]
fn policy_other_name_gets_nxdomain() {
    let q = encode_question("example.com", 1, 1);
    let query = build_message(3, 0x00, 1, &[&q]);
    let resp = respond(query);
    let h = resp.header();
    assert_eq!(h.id(), 3);
    assert_eq!(h.kind(), HeaderKind::Response);
    assert_eq!(h.response_code(), ResponseCode::NonExistentDomain);
    assert_eq!(h.answer_count(), 0);
    assert_eq!(resp.as_bytes().len(), 12);
}

#[test]
fn policy_two_questions_not_implemented() {
    let q1 = encode_question("captive.apple.com", 1, 1);
    let q2 = encode_question("example.com", 1, 1);
    let query = build_message(4, 0x00, 2, &[&q1, &q2]);
    let resp = respond(query);
    assert_eq!(resp.header().response_code(), ResponseCode::NotImplemented);
    assert_eq!(resp.header().answer_count(), 0);
    assert_eq!(resp.as_bytes().len(), 12);
}

#[test]
fn policy_wrong_opcode_not_implemented() {
    let q = encode_question("captive.apple.com", 1, 1);
    // Opcode 1 (inverse query) in bits 3..7 of the first flags byte.
    let query = build_message(5, 0x08, 1, &[&q]);
    let resp = respond(query);
    assert_eq!(resp.header().response_code(), ResponseCode::NotImplemented);
    assert_eq!(resp.as_bytes().len(), 12);
}

#[test]
fn policy_response_kind_not_implemented() {
    let q = encode_question("captive.apple.com", 1, 1);
    // The QR bit set: a response, not a query.
    let query = build_message(5, 0x80, 1, &[&q]);
    let resp = respond(query);
    assert_eq!(resp.header().response_code(), ResponseCode::NotImplemented);
}

#[test]
fn policy_txt_question_not_implemented() {
    let q = encode_question("captive.apple.com", 16, 1);
    let query = build_message(6, 0x00, 1, &[&q]);
    let resp = respond(query);
    assert_eq!(resp.header().response_code(), ResponseCode::NotImplemented);
    assert_eq!(resp.header().answer_count(), 0);
}

#[test]
fn self_pointer_is_rejected() {
    // The question name at offset 12 is a pointer aiming at offset 12.
    let q: &[u8] = &[0xC0, 0x0C, 0, 1, 0, 1];
    let query = build_message(8, 0x00, 1, &[&q]);
    assert!(DnsFrame::parse(query).is_err());
}

#[test]
fn pointer_chain_is_rejected() {
    // The id bytes hold a pointer; the name at 12 aims at offset 0,
    // forming a pointer-to-pointer chain.
    let q: &[u8] = &[0xC0, 0x00, 0, 1, 0, 1];
    let query = build_message(0xC00C, 0x00, 1, &[&q]);
    assert!(DnsFrame::parse(query).is_err());
}

#[test]
fn forward_pointer_is_rejected() {
    // A pointer must aim strictly backwards; offset 20 is ahead of it.
    let q: &[u8] = &[0xC0, 0x14, 0, 1, 0, 1, 0, 0];
    let query = build_message(8, 0x00, 1, &[&q]);
    assert!(DnsFrame::parse(query).is_err());
}

#[test]
fn malformed_query_gets_format_error() {
    let q: &[u8] = &[0xC0, 0x0C, 0, 1, 0, 1];
    let query = build_message(0xBEEF, 0x01, 1, &[&q]);
    let resp = captive_portal::responder::handle_datagram(query, &IP, HOST)
        .expect("a malformed but header-bearing datagram gets a reply");
    let h = resp.header();
    assert_eq!(h.id(), 0xBEEF);
    assert_eq!(h.kind(), HeaderKind::Response);
    assert!(h.recursion_desired());
    assert_eq!(h.response_code(), ResponseCode::FormatError);
    assert_eq!(resp.as_bytes().len(), 12);
}

#[test]
fn short_datagram_is_dropped() {
    assert!(captive_portal::responder::handle_datagram(vec![0; 11], &IP, HOST).is_none());
    assert!(captive_portal::responder::handle_datagram(vec![0; 513], &IP, HOST).is_none());
    assert!(captive_portal::responder::handle_datagram(vec![0; 12], &IP, HOST).is_some());
}

#[test]
fn name_longer_than_255_bytes_is_rejected() {
    // Five 63-byte labels decode to 315 bytes, over the 255-byte bound.
    let mut name = Vec::new();
    for _ in 0..5 {
        name.push(63u8);
        name.extend_from_slice(&[b'a'; 63]);
    }
    name.push(0);
    name.extend_from_slice(&[0, 1, 0, 1]);
    let query = build_message(1, 0x00, 1, &[&name]);
    assert!(DnsFrame::parse(query).is_err());
}

#[test]
fn name_of_exactly_255_bytes_is_accepted() {
    // Four 63-byte labels and one 3-byte label decode to 255 bytes.
    let mut name = Vec::new();
    for _ in 0..4 {
        name.push(63u8);
        name.extend_from_slice(&[b'a'; 63]);
    }
    name.push(3);
    name.extend_from_slice(b"abc");
    name.push(0);
    name.extend_from_slice(&[0, 1, 0, 1]);
    let query = build_message(1, 0x00, 1, &[&name]);
    assert!(DnsFrame::parse(query).is_ok());
}

#[test]
fn truncated_label_is_rejected() {
    // The label claims 5 bytes but only 2 follow.
    let q: &[u8] = &[5, b'a', b'b'];
    let query = build_message(1, 0x00, 1, &[&q]);
    assert!(DnsFrame::parse(query).is_err());
}

#[test]
fn missing_type_and_class_is_rejected() {
    let q: &[u8] = &[1, b'a', 0, 0, 1];
    let query = build_message(1, 0x00, 1, &[&q]);
    assert!(DnsFrame::parse(query).is_err());
}

#[test]
fn read_name_follows_one_pointer() {
    // Bytes 0..12 are a header whose id starts a 3-byte label chain used
    // as a pointer target below.
    let mut buf = vec![2, b'h', b'i', 0, 0, 0, 0, 0, 0, 0, 0, 0];
    buf.extend_from_slice(&[3, b'w', b'w', b'w', 0xC0, 0x00]);
    let mut i = 12usize;
    assert!(read_name(&buf, &mut i));
    assert_eq!(i, 18);
    assert!(name_matches_host(&buf, 12, b"www.hi"));
    assert!(!name_matches_host(&buf, 12, b"www.h"));
    assert!(!name_matches_host(&buf, 12, b"www.hit"));
}

#[test]
fn read_name_rejects_cursor_past_end() {
    let buf = vec![0u8; 4];
    let mut i = 9usize;
    assert!(!read_name(&buf, &mut i));
    assert_eq!(i, 9);
}

#[test]
fn name_matching_is_exact_per_label() {
    let buf = vec![7, b'e', b'x', b'a', b'm', b'p', b'l', b'e', 3, b'c', b'o', b'm', 0];
    assert!(name_matches_host(&buf, 0, b"example.com"));
    assert!(name_matches_host(&buf, 0, b"EXAMPLE.COM"));
    assert!(!name_matches_host(&buf, 0, b"example.co"));
    assert!(!name_matches_host(&buf, 0, b"example"));
    assert!(!name_matches_host(&buf, 0, b"examples.com"));
    assert!(!name_matches_host(&buf, 0, b""));
}

#[test]
fn root_name_matches_empty_host() {
    let buf = vec![0u8];
    assert!(name_matches_host(&buf, 0, b""));
    assert!(!name_matches_host(&buf, 0, b"a"));
}

#[test]
fn name_struct_carries_its_range() {
    let n = Name { start: 12, end: 31 };
    assert_eq!(n.start, 12);
    assert_eq!(n.end, 31);
}

#[test]
fn header_accessors_round_trip() {
    let mut h = DnsHeader::builder().build();
    assert_eq!(h.kind(), HeaderKind::Query);
    assert_eq!(h.opcode(), OpCode::Query);
    assert_eq!(h.response_code(), ResponseCode::NoError);
    h.set_id(0xABCD);
    assert_eq!(h.id(), 0xABCD);
    h.set_kind(HeaderKind::Response);
    assert_eq!(h.kind(), HeaderKind::Response);
    h.set_opcode(OpCode::Update);
    assert_eq!(h.opcode(), OpCode::Update);
    assert_eq!(h.kind(), HeaderKind::Response);
    h.set_recursion_desired(true);
    assert!(h.recursion_desired());
    h.set_recursion_available(true);
    assert!(h.recursion_available());
    h.set_response_code(ResponseCode::Refused);
    assert_eq!(h.response_code(), ResponseCode::Refused);
    assert!(h.recursion_available());
    h.set_question_count(2);
    h.set_answer_count(3);
    h.set_name_server_count(4);
    h.set_additional_records_count(5);
    assert_eq!(h.question_count(), 2);
    assert_eq!(h.answer_count(), 3);
    assert_eq!(h.name_server_count(), 4);
    assert_eq!(h.additional_records_count(), 5);
    assert_eq!(h.opcode(), OpCode::Update);
    assert!(!h.authoritative_answer());
    assert!(!h.truncated());
}

#[test]
fn header_builder_sets_fields() {
    let h = DnsHeader::builder()
        .id(77)
        .kind(HeaderKind::Response)
        .recursion_available(true)
        .response_code(ResponseCode::NonExistentDomain)
        .build();
    assert_eq!(h.id(), 77);
    assert_eq!(h.kind(), HeaderKind::Response);
    assert!(h.recursion_available());
    assert_eq!(h.response_code(), ResponseCode::NonExistentDomain);
    assert_eq!(h.question_count(), 0);
}

#[test]
fn header_parses_from_wire_bytes() {
    let bytes = build_message(0x0102, 0x81, 1, &[]);
    let h = captive_portal::header::read_header(&bytes);
    assert_eq!(h.id(), 0x0102);
    assert_eq!(h.kind(), HeaderKind::Response);
    assert!(h.recursion_desired());
    assert_eq!(h.question_count(), 1);
}

#[test]
fn query_kind_codes() {
    assert_eq!(QueryKind::from_u16(1), QueryKind::A);
    assert_eq!(QueryKind::from_u16(16), QueryKind::TXT);
    assert_eq!(QueryKind::from_u16(255), QueryKind::ALL);
    assert_eq!(QueryKind::from_u16(999), QueryKind::Reserved);
    assert_eq!(QueryKind::A.as_u16(), 1);
    assert_eq!(QueryKind::A.to_be_bytes(), [0, 1]);
    assert_eq!(QueryKind::MAILB.to_be_bytes(), [0, 254]);
}

#[test]
fn query_class_codes() {
    assert_eq!(QueryClass::from_u16(1), QueryClass::IN);
    assert_eq!(QueryClass::from_u16(4), QueryClass::HS);
    assert_eq!(QueryClass::from_u16(77), QueryClass::Reserved);
    assert_eq!(QueryClass::IN.to_be_bytes(), [0, 1]);
}

#[test]
fn response_codes_round_trip() {
    assert_eq!(ResponseCode::from_u16(0), ResponseCode::NoError);
    assert_eq!(ResponseCode::from_u16(1), ResponseCode::FormatError);
    assert_eq!(ResponseCode::from_u16(3), ResponseCode::NonExistentDomain);
    assert_eq!(ResponseCode::from_u16(4), ResponseCode::NotImplemented);
    assert_eq!(ResponseCode::from_u16(21), ResponseCode::BadAlg);
    assert_eq!(ResponseCode::from_u16(30), ResponseCode::Reserved(30));
    assert_eq!(ResponseCode::Reserved(30).as_u16(), 30);
    assert_eq!(ResponseCode::NotImplemented.as_u16(), 4);
}

#[test]
fn question_accessors_read_the_wire() {
    let q = encode_question("a.bc", 16, 3);
    let query = build_message(2, 0x00, 1, &[&q]);
    let frame = DnsFrame::parse(query).unwrap();
    let mut qs = frame.questions();
    let question = qs.next(frame.buf.as_slice()).unwrap();
    assert_eq!(question.kind(frame.buf.as_slice()), QueryKind::TXT);
    assert_eq!(question.class(frame.buf.as_slice()), QueryClass::CH);
    assert_eq!(question.as_bytes(frame.buf.as_slice()), &q[..]);
    assert!(qs.next(frame.buf.as_slice()).is_none());
}

#[test]
fn parse_reports_question_extent() {
    let q = encode_question("abc.de", 1, 1);
    let query = build_message(2, 0x00, 1, &[&q]);
    let total = query.len();
    let frame = DnsFrame::parse(query).unwrap();
    assert_eq!(frame.as_bytes().len(), total);
}

#[test]
fn fresh_buffer_is_zeroed() {
    let buf = DnsFrame::buffer();
    assert_eq!(buf.len(), 512);
    assert!(buf.iter().all(|&b| b == 0));
}
