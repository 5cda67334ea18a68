//! The 12-byte DNS message header: transaction id, flags bitfield
//! (query/response bit, opcode, AA/TC/RD/RA bits, response code) and the
//! four 16-bit record counts, with accessors for every field.

use vstd::prelude::*;

use crate::{u16_from_bytes, u16_hi, u16_lo, u16_of_bytes};

verus! {

/// Whether a message is a query or a response (the header QR bit).
#[derive(Clone, Copy, Debug, PartialEq, Eq, Structural)]
pub enum HeaderKind {
    Query,
    Response,
}

/// A DNS operation code (4 bits of the flags field).
#[derive(Clone, Copy, Debug, PartialEq, Eq, Structural)]
pub enum OpCode {
    Query,
    InverseQuery,
    Status,
    Notify,
    Update,
    Reserved(u8),
}

/// A DNS response code (4 bits of the flags field).
#[derive(Clone, Copy, Debug, PartialEq, Eq, Structural)]
pub enum ResponseCode {
    NoError,
    FormatError,
    ServerFailure,
    NonExistentDomain,
    NotImplemented,
    Refused,
    ExistentDomain,
    ExistentRrSet,
    NonExistentRrSet,
    NotAuthoritative,
    NotZone,
    BadOptVersionOrBadSignature,
    BadKey,
    BadTime,
    BadMode,
    BadName,
    BadAlg,
    Reserved(u16),
}

/// The numeric value of an operation code.
pub open spec fn spec_opcode_value(op: OpCode) -> u8 {
    match op {
        OpCode::Query => 0,
        OpCode::InverseQuery => 1,
        OpCode::Status => 2,
        OpCode::Notify => 4,
        OpCode::Update => 5,
        OpCode::Reserved(n) => n,
    }
}

/// The operation code denoted by a 4-bit value.
pub open spec fn spec_opcode_of(n: u8) -> OpCode {
    if n == 0 {
        OpCode::Query
    } else if n == 1 {
        OpCode::InverseQuery
    } else if n == 2 {
        OpCode::Status
    } else if n == 4 {
        OpCode::Notify
    } else if n == 5 {
        OpCode::Update
    } else {
        OpCode::Reserved(n)
    }
}

/// The numeric value of a response code.
pub open spec fn spec_response_code_value(r: ResponseCode) -> u16 {
    match r {
        ResponseCode::NoError => 0,
        ResponseCode::FormatError => 1,
        ResponseCode::ServerFailure => 2,
        ResponseCode::NonExistentDomain => 3,
        ResponseCode::NotImplemented => 4,
        ResponseCode::Refused => 5,
        ResponseCode::ExistentDomain => 6,
        ResponseCode::ExistentRrSet => 7,
        ResponseCode::NonExistentRrSet => 8,
        ResponseCode::NotAuthoritative => 9,
        ResponseCode::NotZone => 10,
        ResponseCode::BadOptVersionOrBadSignature => 16,
        ResponseCode::BadKey => 17,
        ResponseCode::BadTime => 18,
        ResponseCode::BadMode => 19,
        ResponseCode::BadName => 20,
        ResponseCode::BadAlg => 21,
        ResponseCode::Reserved(n) => n,
    }
}

/// The response code denoted by a numeric value.
pub open spec fn spec_response_code_of(n: u16) -> ResponseCode {
    if n == 0 {
        ResponseCode::NoError
    } else if n == 1 {
        ResponseCode::FormatError
    } else if n == 2 {
        ResponseCode::ServerFailure
    } else if n == 3 {
        ResponseCode::NonExistentDomain
    } else if n == 4 {
        ResponseCode::NotImplemented
    } else if n == 5 {
        ResponseCode::Refused
    } else if n == 6 {
        ResponseCode::ExistentDomain
    } else if n == 7 {
        ResponseCode::ExistentRrSet
    } else if n == 8 {
        ResponseCode::NonExistentRrSet
    } else if n == 9 {
        ResponseCode::NotAuthoritative
    } else if n == 10 {
        ResponseCode::NotZone
    } else if n == 16 {
        ResponseCode::BadOptVersionOrBadSignature
    } else if n == 17 {
        ResponseCode::BadKey
    } else if n == 18 {
        ResponseCode::BadTime
    } else if n == 19 {
        ResponseCode::BadMode
    } else if n == 20 {
        ResponseCode::BadName
    } else if n == 21 {
        ResponseCode::BadAlg
    } else {
        ResponseCode::Reserved(n)
    }
}

impl ResponseCode {
    /// The response code denoted by a numeric value.
    pub fn from_u16(n: u16) -> (r: ResponseCode)
        ensures
            r == spec_response_code_of(n),
    {
        match n {
            0u16 => ResponseCode::NoError,
            1u16 => ResponseCode::FormatError,
            2u16 => ResponseCode::ServerFailure,
            3u16 => ResponseCode::NonExistentDomain,
            4u16 => ResponseCode::NotImplemented,
            5u16 => ResponseCode::Refused,
            6u16 => ResponseCode::ExistentDomain,
            7u16 => ResponseCode::ExistentRrSet,
            8u16 => ResponseCode::NonExistentRrSet,
            9u16 => ResponseCode::NotAuthoritative,
            10u16 => ResponseCode::NotZone,
            16u16 => ResponseCode::BadOptVersionOrBadSignature,
            17u16 => ResponseCode::BadKey,
            18u16 => ResponseCode::BadTime,
            19u16 => ResponseCode::BadMode,
            20u16 => ResponseCode::BadName,
            21u16 => ResponseCode::BadAlg,
            _ => ResponseCode::Reserved(n),
        }
    }

    /// The numeric value of this response code.
    pub fn as_u16(&self) -> (r: u16)
        ensures
            r == spec_response_code_value(*self),
    {
        match *self {
            ResponseCode::NoError => 0,
            ResponseCode::FormatError => 1,
            ResponseCode::ServerFailure => 2,
            ResponseCode::NonExistentDomain => 3,
            ResponseCode::NotImplemented => 4,
            ResponseCode::Refused => 5,
            ResponseCode::ExistentDomain => 6,
            ResponseCode::ExistentRrSet => 7,
            ResponseCode::NonExistentRrSet => 8,
            ResponseCode::NotAuthoritative => 9,
            ResponseCode::NotZone => 10,
            ResponseCode::BadOptVersionOrBadSignature => 16,
            ResponseCode::BadKey => 17,
            ResponseCode::BadTime => 18,
            ResponseCode::BadMode => 19,
            ResponseCode::BadName => 20,
            ResponseCode::BadAlg => 21,
            ResponseCode::Reserved(n) => n,
        }
    }
}

/// The kind of record a question asks for (the question QTYPE field).
#[derive(Clone, Copy, Debug, PartialEq, Eq, Structural)]
pub enum QueryKind {
    A,
    NS,
    MD,
    MF,
    CNAME,
    SOA,
    MB,
    MG,
    MR,
    NULL,
    WKS,
    PTR,
    HINFO,
    MINFO,
    MX,
    TXT,
    AXFR,
    MAILA,
    MAILB,
    ALL,
    Reserved,
}

/// The numeric value of a query kind.
pub open spec fn spec_query_kind_value(k: QueryKind) -> u16 {
    match k {
        QueryKind::A => 1,
        QueryKind::NS => 2,
        QueryKind::MD => 3,
        QueryKind::MF => 4,
        QueryKind::CNAME => 5,
        QueryKind::SOA => 6,
        QueryKind::MB => 7,
        QueryKind::MG => 8,
        QueryKind::MR => 9,
        QueryKind::NULL => 10,
        QueryKind::WKS => 11,
        QueryKind::PTR => 12,
        QueryKind::HINFO => 13,
        QueryKind::MINFO => 14,
        QueryKind::MX => 15,
        QueryKind::TXT => 16,
        QueryKind::AXFR => 252,
        QueryKind::MAILA => 253,
        QueryKind::MAILB => 254,
        QueryKind::ALL => 255,
        QueryKind::Reserved => 256,
    }
}

/// The query kind denoted by a numeric value.
pub open spec fn spec_query_kind_of(n: u16) -> QueryKind {
    if n == 1 {
        QueryKind::A
    } else if n == 2 {
        QueryKind::NS
    } else if n == 3 {
        QueryKind::MD
    } else if n == 4 {
        QueryKind::MF
    } else if n == 5 {
        QueryKind::CNAME
    } else if n == 6 {
        QueryKind::SOA
    } else if n == 7 {
        QueryKind::MB
    } else if n == 8 {
        QueryKind::MG
    } else if n == 9 {
        QueryKind::MR
    } else if n == 10 {
        QueryKind::NULL
    } else if n == 11 {
        QueryKind::WKS
    } else if n == 12 {
        QueryKind::PTR
    } else if n == 13 {
        QueryKind::HINFO
    } else if n == 14 {
        QueryKind::MINFO
    } else if n == 15 {
        QueryKind::MX
    } else if n == 16 {
        QueryKind::TXT
    } else if n == 252 {
        QueryKind::AXFR
    } else if n == 253 {
        QueryKind::MAILA
    } else if n == 254 {
        QueryKind::MAILB
    } else if n == 255 {
        QueryKind::ALL
    } else {
        QueryKind::Reserved
    }
}

impl QueryKind {
    /// The query kind denoted by a numeric value.
    pub fn from_u16(n: u16) -> (r: QueryKind)
        ensures
            r == spec_query_kind_of(n),
    {
        match n {
            1u16 => QueryKind::A,
            2u16 => QueryKind::NS,
            3u16 => QueryKind::MD,
            4u16 => QueryKind::MF,
            5u16 => QueryKind::CNAME,
            6u16 => QueryKind::SOA,
            7u16 => QueryKind::MB,
            8u16 => QueryKind::MG,
            9u16 => QueryKind::MR,
            10u16 => QueryKind::NULL,
            11u16 => QueryKind::WKS,
            12u16 => QueryKind::PTR,
            13u16 => QueryKind::HINFO,
            14u16 => QueryKind::MINFO,
            15u16 => QueryKind::MX,
            16u16 => QueryKind::TXT,
            252u16 => QueryKind::AXFR,
            253u16 => QueryKind::MAILA,
            254u16 => QueryKind::MAILB,
            255u16 => QueryKind::ALL,
            _ => QueryKind::Reserved,
        }
    }

    /// The numeric value of this query kind.
    pub fn as_u16(&self) -> (r: u16)
        ensures
            r == spec_query_kind_value(*self),
    {
        match *self {
            QueryKind::A => 1,
            QueryKind::NS => 2,
            QueryKind::MD => 3,
            QueryKind::MF => 4,
            QueryKind::CNAME => 5,
            QueryKind::SOA => 6,
            QueryKind::MB => 7,
            QueryKind::MG => 8,
            QueryKind::MR => 9,
            QueryKind::NULL => 10,
            QueryKind::WKS => 11,
            QueryKind::PTR => 12,
            QueryKind::HINFO => 13,
            QueryKind::MINFO => 14,
            QueryKind::MX => 15,
            QueryKind::TXT => 16,
            QueryKind::AXFR => 252,
            QueryKind::MAILA => 253,
            QueryKind::MAILB => 254,
            QueryKind::ALL => 255,
            QueryKind::Reserved => 256,
        }
    }

    /// The big-endian wire encoding of this query kind.
    pub fn to_be_bytes(&self) -> (r: [u8; 2])
        ensures
            r@.len() == 2,
            r@[0] == spec_query_kind_value(*self) / 256,
            r@[1] == spec_query_kind_value(*self) % 256,
    {
        let n = self.as_u16();
        [u16_hi(n), u16_lo(n)]
    }
}

/// The class a question asks about (the question QCLASS field).
#[derive(Clone, Copy, Debug, PartialEq, Eq, Structural)]
pub enum QueryClass {
    IN,
    CS,
    CH,
    HS,
    Reserved,
}

/// The numeric value of a query class.
pub open spec fn spec_query_class_value(c: QueryClass) -> u16 {
    match c {
        QueryClass::IN => 1,
        QueryClass::CS => 2,
        QueryClass::CH => 3,
        QueryClass::HS => 4,
        QueryClass::Reserved => 5,
    }
}

/// The query class denoted by a numeric value.
pub open spec fn spec_query_class_of(n: u16) -> QueryClass {
    if n == 1 {
        QueryClass::IN
    } else if n == 2 {
        QueryClass::CS
    } else if n == 3 {
        QueryClass::CH
    } else if n == 4 {
        QueryClass::HS
    } else {
        QueryClass::Reserved
    }
}

impl QueryClass {
    /// The query class denoted by a numeric value.
    pub fn from_u16(n: u16) -> (r: QueryClass)
        ensures
            r == spec_query_class_of(n),
    {
        match n {
            1u16 => QueryClass::IN,
            2u16 => QueryClass::CS,
            3u16 => QueryClass::CH,
            4u16 => QueryClass::HS,
            _ => QueryClass::Reserved,
        }
    }

    /// The numeric value of this query class.
    pub fn as_u16(&self) -> (r: u16)
        ensures
            r == spec_query_class_value(*self),
    {
        match *self {
            QueryClass::IN => 1,
            QueryClass::CS => 2,
            QueryClass::CH => 3,
            QueryClass::HS => 4,
            QueryClass::Reserved => 5,
        }
    }

    /// The big-endian wire encoding of this query class.
    pub fn to_be_bytes(&self) -> (r: [u8; 2])
        ensures
            r@.len() == 2,
            r@[0] == spec_query_class_value(*self) / 256,
            r@[1] == spec_query_class_value(*self) % 256,
    {
        let n = self.as_u16();
        [u16_hi(n), u16_lo(n)]
    }
}

/// A DNS header, held as its decoded fields. The two flags bytes are kept
/// raw, exactly as they stand on the wire, so that re-encoding a parsed
/// header reproduces the original bytes bit for bit.
#[derive(Clone, Copy, Debug, PartialEq, Eq, Structural)]
pub struct DnsHeader {
    pub id: u16,
    pub flags0: u8,
    pub flags1: u8,
    pub question_count: u16,
    pub answer_count: u16,
    pub name_server_count: u16,
    pub additional_records_count: u16,
}

impl DnsHeader {
    /// The message kind encoded in the first flags byte.
    pub open spec fn spec_kind(self) -> HeaderKind {
        if self.flags0 & 0x80u8 == 0u8 {
            HeaderKind::Query
        } else {
            HeaderKind::Response
        }
    }

    /// The 4-bit opcode encoded in the first flags byte.
    pub open spec fn spec_opcode_bits(self) -> u8 {
        (self.flags0 >> 3u8) & 0x0Fu8
    }

    /// The opcode encoded in the first flags byte.
    pub open spec fn spec_opcode(self) -> OpCode {
        spec_opcode_of(self.spec_opcode_bits())
    }

    /// The authoritative-answer bit.
    pub open spec fn spec_authoritative_answer(self) -> bool {
        self.flags0 & 0x04u8 != 0u8
    }

    /// The truncation bit.
    pub open spec fn spec_truncated(self) -> bool {
        self.flags0 & 0x02u8 != 0u8
    }

    /// The recursion-desired bit.
    pub open spec fn spec_recursion_desired(self) -> bool {
        self.flags0 & 0x01u8 != 0u8
    }

    /// The recursion-available bit.
    pub open spec fn spec_recursion_available(self) -> bool {
        self.flags1 & 0x80u8 != 0u8
    }

    /// The 4-bit response code encoded in the second flags byte.
    pub open spec fn spec_response_code_bits(self) -> u8 {
        self.flags1 & 0x0Fu8
    }

    /// The response code encoded in the second flags byte.
    pub open spec fn spec_response_code(self) -> ResponseCode {
        spec_response_code_of(self.spec_response_code_bits() as u16)
    }

    /// The transaction id.
    pub fn id(&self) -> (r: u16)
        ensures
            r == self.id,
    {
        self.id
    }

    /// Set the transaction id.
    pub fn set_id(&mut self, id: u16)
        ensures
            *final(self) == (DnsHeader { id, ..*old(self) }),
    {
        self.id = id;
    }

    /// Whether the message is a query or a response.
    pub fn kind(&self) -> (r: HeaderKind)
        ensures
            r == self.spec_kind(),
    {
        if self.flags0 & 0x80u8 == 0u8 {
            HeaderKind::Query
        } else {
            HeaderKind::Response
        }
    }

    /// Set the query/response bit, leaving every other flag unchanged.
    pub fn set_kind(&mut self, kind: HeaderKind)
        ensures
            final(self).spec_kind() == kind,
            final(self).spec_opcode() == old(self).spec_opcode(),
            final(self).spec_authoritative_answer() == old(self).spec_authoritative_answer(),
            final(self).spec_truncated() == old(self).spec_truncated(),
            final(self).spec_recursion_desired() == old(self).spec_recursion_desired(),
            final(self).id == old(self).id,
            final(self).flags1 == old(self).flags1,
            final(self).question_count == old(self).question_count,
            final(self).answer_count == old(self).answer_count,
            final(self).name_server_count == old(self).name_server_count,
            final(self).additional_records_count == old(self).additional_records_count,
    {
        let f = self.flags0;
        match kind {
            HeaderKind::Query => {
                self.flags0 = f & 0x7Fu8;
                assert((f & 0x7F) & 0x80 == 0
                    && ((f & 0x7F) >> 3) & 0x0F == (f >> 3) & 0x0F
                    && (f & 0x7F) & 0x04 == f & 0x04
                    && (f & 0x7F) & 0x02 == f & 0x02
                    && (f & 0x7F) & 0x01 == f & 0x01) by (bit_vector);
            },
            HeaderKind::Response => {
                self.flags0 = f | 0x80u8;
                assert((f | 0x80) & 0x80 != 0
                    && ((f | 0x80) >> 3) & 0x0F == (f >> 3) & 0x0F
                    && (f | 0x80) & 0x04 == f & 0x04
                    && (f | 0x80) & 0x02 == f & 0x02
                    && (f | 0x80) & 0x01 == f & 0x01) by (bit_vector);
            },
        }
    }

    /// The opcode.
    pub fn opcode(&self) -> (r: OpCode)
        ensures
            r == self.spec_opcode(),
    {
        match (self.flags0 >> 3u8) & 0x0Fu8 {
            0u8 => OpCode::Query,
            1u8 => OpCode::InverseQuery,
            2u8 => OpCode::Status,
            4u8 => OpCode::Notify,
            5u8 => OpCode::Update,
            n => OpCode::Reserved(n),
        }
    }

    /// Set the 4-bit opcode, leaving every other flag unchanged.
    pub fn set_opcode(&mut self, opcode: OpCode)
        requires
            spec_opcode_value(opcode) < 16,
        ensures
            final(self).spec_opcode_bits() == spec_opcode_value(opcode),
            final(self).spec_kind() == old(self).spec_kind(),
            final(self).spec_authoritative_answer() == old(self).spec_authoritative_answer(),
            final(self).spec_truncated() == old(self).spec_truncated(),
            final(self).spec_recursion_desired() == old(self).spec_recursion_desired(),
            final(self).id == old(self).id,
            final(self).flags1 == old(self).flags1,
            final(self).question_count == old(self).question_count,
            final(self).answer_count == old(self).answer_count,
            final(self).name_server_count == old(self).name_server_count,
            final(self).additional_records_count == old(self).additional_records_count,
    {
        let f = self.flags0;
        let v: u8 = match opcode {
            OpCode::Query => 0,
            OpCode::InverseQuery => 1,
            OpCode::Status => 2,
            OpCode::Notify => 4,
            OpCode::Update => 5,
            OpCode::Reserved(n) => n,
        };
        self.flags0 = (f & 0x87u8) | (v << 3u8);
        assert(v < 16 ==> ((f & 0x87) | (v << 3)) >> 3 & 0x0F == v
            && ((f & 0x87) | (v << 3)) & 0x80 == f & 0x80
            && ((f & 0x87) | (v << 3)) & 0x04 == f & 0x04
            && ((f & 0x87) | (v << 3)) & 0x02 == f & 0x02
            && ((f & 0x87) | (v << 3)) & 0x01 == f & 0x01) by (bit_vector);
    }

    /// The authoritative-answer bit.
    pub fn authoritative_answer(&self) -> (r: bool)
        ensures
            r == self.spec_authoritative_answer(),
    {
        self.flags0 & 0x04u8 != 0u8
    }

    /// The truncation bit.
    pub fn truncated(&self) -> (r: bool)
        ensures
            r == self.spec_truncated(),
    {
        self.flags0 & 0x02u8 != 0u8
    }

    /// The recursion-desired bit.
    pub fn recursion_desired(&self) -> (r: bool)
        ensures
            r == self.spec_recursion_desired(),
    {
        self.flags0 & 0x01u8 != 0u8
    }

    /// Set the recursion-desired bit, leaving every other flag unchanged.
    pub fn set_recursion_desired(&mut self, recursion_desired: bool)
        ensures
            final(self).spec_recursion_desired() == recursion_desired,
            final(self).spec_kind() == old(self).spec_kind(),
            final(self).spec_opcode() == old(self).spec_opcode(),
            final(self).spec_authoritative_answer() == old(self).spec_authoritative_answer(),
            final(self).spec_truncated() == old(self).spec_truncated(),
            final(self).id == old(self).id,
            final(self).flags1 == old(self).flags1,
            final(self).question_count == old(self).question_count,
            final(self).answer_count == old(self).answer_count,
            final(self).name_server_count == old(self).name_server_count,
            final(self).additional_records_count == old(self).additional_records_count,
    {
        let f = self.flags0;
        if recursion_desired {
            self.flags0 = f | 0x01u8;
            assert((f | 0x01) & 0x01 != 0
                && (f | 0x01) & 0x80 == f & 0x80
                && ((f | 0x01) >> 3) & 0x0F == (f >> 3) & 0x0F
                && (f | 0x01) & 0x04 == f & 0x04
                && (f | 0x01) & 0x02 == f & 0x02) by (bit_vector);
        } else {
            self.flags0 = f & 0xFEu8;
            assert((f & 0xFE) & 0x01 == 0
                && (f & 0xFE) & 0x80 == f & 0x80
                && ((f & 0xFE) >> 3) & 0x0F == (f >> 3) & 0x0F
                && (f & 0xFE) & 0x04 == f & 0x04
                && (f & 0xFE) & 0x02 == f & 0x02) by (bit_vector);
        }
    }

    /// The recursion-available bit.
    pub fn recursion_available(&self) -> (r: bool)
        ensures
            r == self.spec_recursion_available(),
    {
        self.flags1 & 0x80u8 != 0u8
    }

    /// Set the recursion-available bit, leaving the response code unchanged.
    pub fn set_recursion_available(&mut self, recursion_available: bool)
        ensures
            final(self).spec_recursion_available() == recursion_available,
            final(self).spec_response_code_bits() == old(self).spec_response_code_bits(),
            final(self).id == old(self).id,
            final(self).flags0 == old(self).flags0,
            final(self).question_count == old(self).question_count,
            final(self).answer_count == old(self).answer_count,
            final(self).name_server_count == old(self).name_server_count,
            final(self).additional_records_count == old(self).additional_records_count,
    {
        let f = self.flags1;
        if recursion_available {
            self.flags1 = f | 0x80u8;
            assert((f | 0x80) & 0x80 != 0 && (f | 0x80) & 0x0F == f & 0x0F) by (bit_vector);
        } else {
            self.flags1 = f & 0x7Fu8;
            assert((f & 0x7F) & 0x80 == 0 && (f & 0x7F) & 0x0F == f & 0x0F) by (bit_vector);
        }
    }

    /// The response code.
    pub fn response_code(&self) -> (r: ResponseCode)
        ensures
            r == self.spec_response_code(),
    {
        ResponseCode::from_u16((self.flags1 & 0x0Fu8) as u16)
    }

    /// Set the 4-bit response code, leaving the other flags unchanged.
    pub fn set_response_code(&mut self, response_code: ResponseCode)
        requires
            spec_response_code_value(response_code) < 16,
        ensures
            final(self).spec_response_code_bits() == spec_response_code_value(response_code),
            final(self).spec_recursion_available() == old(self).spec_recursion_available(),
            final(self).id == old(self).id,
            final(self).flags0 == old(self).flags0,
            final(self).question_count == old(self).question_count,
            final(self).answer_count == old(self).answer_count,
            final(self).name_server_count == old(self).name_server_count,
            final(self).additional_records_count == old(self).additional_records_count,
    {
        let f = self.flags1;
        let v: u8 = response_code.as_u16() as u8;
        self.flags1 = (f & 0xF0u8) | v;
        assert(v < 16 ==> ((f & 0xF0) | v) & 0x0F == v
            && ((f & 0xF0) | v) & 0x80 == f & 0x80) by (bit_vector);
    }

    /// The number of questions the header declares.
    pub fn question_count(&self) -> (r: u16)
        ensures
            r == self.question_count,
    {
        self.question_count
    }

    /// Set the declared question count.
    pub fn set_question_count(&mut self, question_count: u16)
        ensures
            *final(self) == (DnsHeader { question_count, ..*old(self) }),
    {
        self.question_count = question_count;
    }

    /// The number of answer records the header declares.
    pub fn answer_count(&self) -> (r: u16)
        ensures
            r == self.answer_count,
    {
        self.answer_count
    }

    /// Set the declared answer count.
    pub fn set_answer_count(&mut self, answer_count: u16)
        ensures
            *final(self) == (DnsHeader { answer_count, ..*old(self) }),
    {
        self.answer_count = answer_count;
    }

    /// The number of authority records the header declares.
    pub fn name_server_count(&self) -> (r: u16)
        ensures
            r == self.name_server_count,
    {
        self.name_server_count
    }

    /// Set the declared authority record count.
    pub fn set_name_server_count(&mut self, name_server_count: u16)
        ensures
            *final(self) == (DnsHeader { name_server_count, ..*old(self) }),
    {
        self.name_server_count = name_server_count;
    }

    /// The number of additional records the header declares.
    pub fn additional_records_count(&self) -> (r: u16)
        ensures
            r == self.additional_records_count,
    {
        self.additional_records_count
    }

    /// Set the declared additional record count.
    pub fn set_additional_records_count(&mut self, additional_records_count: u16)
        ensures
            *final(self) == (DnsHeader { additional_records_count, ..*old(self) }),
    {
        self.additional_records_count = additional_records_count;
    }

    /// A builder for a zeroed header.
    pub fn builder() -> (r: DnsHeaderBuilder)
        ensures
            r.0 == spec_zero_header(),
    {
        DnsHeaderBuilder::new()
    }
}

/// The all-zero header: a query with opcode `QUERY`, no flags set,
/// response code `NoError` and every count zero.
pub open spec fn spec_zero_header() -> DnsHeader {
    DnsHeader {
        id: 0,
        flags0: 0,
        flags1: 0,
        question_count: 0,
        answer_count: 0,
        name_server_count: 0,
        additional_records_count: 0,
    }
}

/// The 12 bytes a header occupies on the wire, big-endian fields in
/// the order id, flags, question, answer, authority, additional counts.
pub open spec fn spec_header_bytes(h: DnsHeader) -> Seq<u8> {
    seq![
        (h.id / 256) as u8,
        (h.id % 256) as u8,
        h.flags0,
        h.flags1,
        (h.question_count / 256) as u8,
        (h.question_count % 256) as u8,
        (h.answer_count / 256) as u8,
        (h.answer_count % 256) as u8,
        (h.name_server_count / 256) as u8,
        (h.name_server_count % 256) as u8,
        (h.additional_records_count / 256) as u8,
        (h.additional_records_count % 256) as u8,
    ]
}

/// The header read back from the first 12 bytes of a message.
pub open spec fn spec_header_of_bytes(b: Seq<u8>) -> DnsHeader
    recommends
        b.len() >= 12,
{
    DnsHeader {
        id: u16_of_bytes(b[0], b[1]),
        flags0: b[2],
        flags1: b[3],
        question_count: u16_of_bytes(b[4], b[5]),
        answer_count: u16_of_bytes(b[6], b[7]),
        name_server_count: u16_of_bytes(b[8], b[9]),
        additional_records_count: u16_of_bytes(b[10], b[11]),
    }
}

/// Encoding a header and reading it back yields the same header.
pub proof fn lemma_header_bytes_round_trip(h: DnsHeader)
    ensures
        spec_header_bytes(h).len() == 12,
        spec_header_of_bytes(spec_header_bytes(h)) == h,
{
    assert(u16_of_bytes((h.id / 256) as u8, (h.id % 256) as u8) == h.id);
    assert(u16_of_bytes((h.question_count / 256) as u8, (h.question_count % 256) as u8)
        == h.question_count);
    assert(u16_of_bytes((h.answer_count / 256) as u8, (h.answer_count % 256) as u8)
        == h.answer_count);
    assert(u16_of_bytes((h.name_server_count / 256) as u8, (h.name_server_count % 256) as u8)
        == h.name_server_count);
    assert(u16_of_bytes(
        (h.additional_records_count / 256) as u8,
        (h.additional_records_count % 256) as u8,
    ) == h.additional_records_count);
}

/// Read a header from the first 12 bytes of a message.
pub fn read_header(buf: &[u8]) -> (r: DnsHeader)
    requires
        buf@.len() >= 12,
    ensures
        r == spec_header_of_bytes(buf@),
{
    DnsHeader {
        id: u16_from_bytes(buf[0], buf[1]),
        flags0: buf[2],
        flags1: buf[3],
        question_count: u16_from_bytes(buf[4], buf[5]),
        answer_count: u16_from_bytes(buf[6], buf[7]),
        name_server_count: u16_from_bytes(buf[8], buf[9]),
        additional_records_count: u16_from_bytes(buf[10], buf[11]),
    }
}

/// Builder for a response header, starting from the all-zero header.
pub struct DnsHeaderBuilder(pub DnsHeader);

impl DnsHeaderBuilder {
    /// A builder holding the all-zero header.
    pub fn new() -> (r: Self)
        ensures
            r.0 == spec_zero_header(),
    {
        DnsHeaderBuilder(DnsHeader {
            id: 0,
            flags0: 0,
            flags1: 0,
            question_count: 0,
            answer_count: 0,
            name_server_count: 0,
            additional_records_count: 0,
        })
    }

    /// Set the transaction id.
    pub fn id(self, id: u16) -> (r: Self)
        ensures
            r.0 == (DnsHeader { id, ..self.0 }),
    {
        let mut h = self.0;
        h.set_id(id);
        DnsHeaderBuilder(h)
    }

    /// Set the query/response bit.
    pub fn kind(self, kind: HeaderKind) -> (r: Self)
        ensures
            r.0.spec_kind() == kind,
            r.0.spec_opcode() == self.0.spec_opcode(),
            r.0.spec_authoritative_answer() == self.0.spec_authoritative_answer(),
            r.0.spec_truncated() == self.0.spec_truncated(),
            r.0.spec_recursion_desired() == self.0.spec_recursion_desired(),
            r.0.id == self.0.id,
            r.0.flags1 == self.0.flags1,
            r.0.question_count == self.0.question_count,
            r.0.answer_count == self.0.answer_count,
            r.0.name_server_count == self.0.name_server_count,
            r.0.additional_records_count == self.0.additional_records_count,
    {
        let mut h = self.0;
        h.set_kind(kind);
        DnsHeaderBuilder(h)
    }

    /// Set the recursion-desired bit.
    pub fn recursion_desired(self, recursion_desired: bool) -> (r: Self)
        ensures
            r.0.spec_recursion_desired() == recursion_desired,
            r.0.spec_kind() == self.0.spec_kind(),
            r.0.spec_opcode() == self.0.spec_opcode(),
            r.0.spec_authoritative_answer() == self.0.spec_authoritative_answer(),
            r.0.spec_truncated() == self.0.spec_truncated(),
            r.0.id == self.0.id,
            r.0.flags1 == self.0.flags1,
            r.0.question_count == self.0.question_count,
            r.0.answer_count == self.0.answer_count,
            r.0.name_server_count == self.0.name_server_count,
            r.0.additional_records_count == self.0.additional_records_count,
    {
        let mut h = self.0;
        h.set_recursion_desired(recursion_desired);
        DnsHeaderBuilder(h)
    }

    /// Set the recursion-available bit.
    pub fn recursion_available(self, recursion_available: bool) -> (r: Self)
        ensures
            r.0.spec_recursion_available() == recursion_available,
            r.0.spec_response_code_bits() == self.0.spec_response_code_bits(),
            r.0.id == self.0.id,
            r.0.flags0 == self.0.flags0,
            r.0.question_count == self.0.question_count,
            r.0.answer_count == self.0.answer_count,
            r.0.name_server_count == self.0.name_server_count,
            r.0.additional_records_count == self.0.additional_records_count,
    {
        let mut h = self.0;
        h.set_recursion_available(recursion_available);
        DnsHeaderBuilder(h)
    }

    /// Set the 4-bit response code.
    pub fn response_code(self, response_code: ResponseCode) -> (r: Self)
        requires
            spec_response_code_value(response_code) < 16,
        ensures
            r.0.spec_response_code_bits() == spec_response_code_value(response_code),
            r.0.spec_recursion_available() == self.0.spec_recursion_available(),
            r.0.id == self.0.id,
            r.0.flags0 == self.0.flags0,
            r.0.question_count == self.0.question_count,
            r.0.answer_count == self.0.answer_count,
            r.0.name_server_count == self.0.name_server_count,
            r.0.additional_records_count == self.0.additional_records_count,
    {
        let mut h = self.0;
        h.set_response_code(response_code);
        DnsHeaderBuilder(h)
    }

    /// The finished header.
    pub fn build(self) -> (r: DnsHeader)
        ensures
            r == self.0,
    {
        self.0
    }
}

} // verus!
