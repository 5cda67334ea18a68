//! A DNS message frame over a caller-supplied fixed-capacity buffer:
//! parsing an inbound query and appending the parts of an outbound
//! response. Every append is bounded by the buffer's capacity, which the
//! caller establishes once; no append can write past it.

use vstd::prelude::*;

use crate::header::{
    read_header, spec_header_bytes, spec_header_of_bytes, spec_query_class_value,
    spec_query_kind_value, DnsHeader,
};
use crate::name::{
    lemma_encode_parts_append, lemma_encode_parts_len, lemma_encode_parts_push,
    lemma_name_rec_bounds, read_label, spec_encode_labels, spec_encode_parts, spec_labels_total,
    spec_name, spec_name_rec, Label, Name,
};
use crate::question::{read_question, spec_questions_end, Questions};
use crate::{spec_u16_be, spec_u32_be, u16_from_bytes, u16_hi, u16_lo};

verus! {

/// An answer record to append to a response: a name occurrence in the
/// request buffer, the record type, class and time-to-live, and the raw
/// resource data (four address bytes for an A record).
pub struct Answer {
    pub name: Name,
    pub kind: crate::header::QueryKind,
    pub class: crate::header::QueryClass,
    pub ttl: u32,
    pub rdata: Vec<u8>,
}

/// A DNS message standing in a fixed-capacity buffer: the first `len`
/// bytes of `buf` are the message.
pub struct DnsFrame {
    pub buf: Vec<u8>,
    pub len: usize,
}

/// Builder for an outbound frame: holds the buffer while the header is
/// written.
pub struct DnsFrameBuilder {
    pub buf: Vec<u8>,
    pub len: usize,
}

/// Whether all `n` questions a message header declares parse, one after
/// the other, within the message.
pub open spec fn spec_parse_ok(bytes: Seq<u8>) -> bool {
    &&& 12 <= bytes.len() <= 512
    &&& spec_questions_end(
        bytes,
        12,
        spec_header_of_bytes(bytes).question_count as nat,
    ).is_some()
}

/// The position just past the last question of a parsed message.
pub open spec fn spec_parse_end(bytes: Seq<u8>) -> int
    recommends
        spec_parse_ok(bytes),
{
    spec_questions_end(bytes, 12, spec_header_of_bytes(bytes).question_count as nat).unwrap()
}

impl DnsFrame {
    /// A frame is a header and body within its buffer's capacity, and the
    /// buffer never outgrows the 512-byte datagram limit.
    pub open spec fn wf(self) -> bool {
        12 <= self.len <= self.buf@.len() <= 512
    }

    /// The message bytes: the filled prefix of the buffer.
    pub open spec fn spec_bytes(self) -> Seq<u8> {
        self.buf@.take(self.len as int)
    }

    /// A fresh zeroed 512-byte message buffer, the traditional non-EDNS0
    /// UDP DNS limit.
    pub fn buffer() -> (r: Vec<u8>)
        ensures
            r@.len() == 512,
            forall|i: int| 0 <= i < 512 ==> r@[i] == 0u8,
    {
        let v: Vec<u8> = vec![0u8; 512];
        v
    }

    /// Start building an outbound frame in `buf`, zeroing its header
    /// bytes.
    pub fn builder(buf: Vec<u8>) -> (r: DnsFrameBuilder)
        requires
            12 <= buf@.len() <= 512,
        ensures
            r.buf@.len() == buf@.len(),
            r.len == 12,
            forall|i: int| 0 <= i < 12 ==> r.buf@[i] == 0u8,
            forall|i: int| 12 <= i < buf@.len() ==> r.buf@[i] == buf@[i],
    {
        let mut b = buf;
        let mut i: usize = 0;
        while i < 12
            invariant
                12 <= b@.len() <= 512,
                i <= 12,
                b@.len() == buf@.len(),
                forall|k: int| 0 <= k < i ==> b@[k] == 0u8,
                forall|k: int| i <= k < buf@.len() ==> b@[k] == buf@[k],
            decreases 12 - i,
        {
            b.set(i, 0u8);
            i = i + 1;
        }
        DnsFrameBuilder { buf: b, len: 12 }
    }

    /// Parse an inbound message: read the header, then decode as many
    /// questions as it declares. Rejected when the input is shorter than a
    /// header or longer than a datagram, or any declared question is
    /// malformed or truncated.
    pub fn parse(buffer: Vec<u8>) -> (r: Result<DnsFrame, ()>)
        ensures
            (r is Ok) == spec_parse_ok(buffer@),
            r is Ok ==> ({
                let f = r.unwrap();
                &&& f.buf@ == buffer@
                &&& f.len as int == spec_parse_end(buffer@)
                &&& f.wf()
            }),
    {
        if buffer.len() < 12 || buffer.len() > 512 {
            return Err(());
        }
        let h = read_header(buffer.as_slice());
        let qd = h.question_count;
        let mut i: usize = 12;
        let mut k: u16 = 0;
        while k < qd
            invariant
                12 <= buffer@.len() <= 512,
                h == spec_header_of_bytes(buffer@),
                qd == h.question_count,
                k <= qd,
                12 <= i <= buffer@.len(),
                spec_questions_end(buffer@, 12, k as nat) == Some(i as int),
            decreases qd - k,
        {
            let ghost i0 = i;
            let ok = read_question(buffer.as_slice(), &mut i);
            if !ok {
                proof {
                    crate::question::lemma_questions_end_split(buffer@, 12, k as nat, qd as nat);
                    assert(spec_questions_end(buffer@, i0 as int, (qd - k) as nat).is_none());
                }
                return Err(());
            }
            proof {
                crate::question::lemma_questions_end_split(
                    buffer@,
                    12,
                    k as nat,
                    (k + 1) as nat,
                );
                assert(spec_questions_end(buffer@, i as int, 0nat) == Some(i as int));
                assert(spec_questions_end(buffer@, i0 as int, 1nat) == Some(i as int));
                crate::question::lemma_question_bounds(
                    buffer@,
                    crate::question::Question { start: i0, end: i },
                );
            }
            k = k + 1;
        }
        Ok(DnsFrame { buf: buffer, len: i })
    }

    /// The message's header, read back from its first 12 bytes.
    pub fn header(&self) -> (r: DnsHeader)
        requires
            self.wf(),
        ensures
            r == spec_header_of_bytes(self.spec_bytes()),
            r == spec_header_of_bytes(self.buf@),
    {
        proof {
            assert forall|j: int| 0 <= j < 12 implies self.spec_bytes()[j] == self.buf@[j] by {}
        }
        read_header(self.buf.as_slice())
    }

    /// The message bytes.
    pub fn as_bytes(&self) -> (r: &[u8])
        requires
            self.wf(),
        ensures
            r@ == self.spec_bytes(),
    {
        let s = self.buf.as_slice();
        let r = &s[0..self.len];
        proof {
            assert(r@ =~= self.spec_bytes());
        }
        r
    }

    /// A cursor over the questions the header declares, starting at the
    /// first. The cursor reads from the frame's full buffer, the same
    /// bytes `parse` validated.
    pub fn questions(&self) -> (r: Questions)
        requires
            self.wf(),
            spec_questions_end(
                self.buf@,
                12,
                spec_header_of_bytes(self.buf@).question_count as nat,
            ).is_some(),
        ensures
            r.question_count == spec_header_of_bytes(self.buf@).question_count,
            r.current_question == 0,
            r.buf_i == 12,
            crate::question::spec_questions_wf(self.buf@, r),
    {
        let h = self.header();
        Questions { question_count: h.question_count as usize, current_question: 0, buf_i: 12 }
    }

    /// Append one byte to the message.
    fn push_byte(&mut self, b: u8)
        requires
            old(self).wf(),
            old(self).len < old(self).buf@.len(),
        ensures
            final(self).wf(),
            final(self).buf@.len() == old(self).buf@.len(),
            final(self).len == old(self).len + 1,
            final(self).spec_bytes() == old(self).spec_bytes().push(b),
    {
        self.buf.set(self.len, b);
        self.len = self.len + 1;
        proof {
            assert(self.spec_bytes() =~= old(self).spec_bytes().push(b));
        }
    }

    /// Append a run of bytes to the message.
    pub fn extend(&mut self, bytes: &[u8])
        requires
            old(self).wf(),
            old(self).len + bytes@.len() <= old(self).buf@.len(),
        ensures
            final(self).wf(),
            final(self).buf@.len() == old(self).buf@.len(),
            final(self).len == old(self).len + bytes@.len(),
            final(self).spec_bytes() == old(self).spec_bytes() + bytes@,
    {
        let ghost bytes0 = self.spec_bytes();
        let ghost cap = self.buf@.len();
        let ghost len0 = self.len;
        let n = bytes.len();
        let mut j: usize = 0;
        while j < n
            invariant
                j <= n,
                n == bytes@.len(),
                self.wf(),
                self.buf@.len() == cap,
                len0 + n <= cap,
                self.len == len0 + j,
                self.spec_bytes() == bytes0 + bytes@.take(j as int),
            decreases n - j,
        {
            self.push_byte(bytes[j]);
            proof {
                assert(bytes0 + bytes@.take(j + 1 as int) =~= (bytes0 + bytes@.take(j as int)).push(
                    bytes@[j as int],
                ));
            }
            j = j + 1;
        }
        proof {
            assert(bytes@.take(n as int) =~= bytes@);
        }
    }

    /// Append `n` bytes of `src` starting at `from`.
    fn append_src(&mut self, src: &[u8], from: usize, n: usize)
        requires
            old(self).wf(),
            src@.len() < 65536,
            from + n <= src@.len(),
            old(self).len + n <= old(self).buf@.len(),
        ensures
            final(self).wf(),
            final(self).buf@.len() == old(self).buf@.len(),
            final(self).len == old(self).len + n,
            final(self).spec_bytes() == old(self).spec_bytes() + src@.subrange(
                from as int,
                from + n as int,
            ),
    {
        let ghost bytes0 = self.spec_bytes();
        let ghost cap = self.buf@.len();
        let ghost len0 = self.len;
        let mut j: usize = 0;
        while j < n
            invariant
                j <= n,
                src@.len() < 65536,
                from + n <= src@.len(),
                self.wf(),
                self.buf@.len() == cap,
                len0 + n <= cap,
                self.len == len0 + j,
                self.spec_bytes() == bytes0 + src@.subrange(from as int, from + j as int),
            decreases n - j,
        {
            self.push_byte(src[from + j]);
            proof {
                assert(bytes0 + src@.subrange(from as int, from + j + 1 as int) =~= (bytes0
                    + src@.subrange(from as int, from + j as int)).push(src@[from + j]));
            }
            j = j + 1;
        }
    }

    /// Append the name at `name.start` in `src` as inline labels: each
    /// label it decodes to, length-prefixed, closed by a zero byte.
    /// Compression pointers are resolved; the appended bytes hold none.
    pub fn add_name(&mut self, src: &[u8], name: &Name)
        requires
            src@.len() < 65536,
            spec_name(src@, name.start as int).is_some(),
            old(self).wf(),
            old(self).len + spec_encode_labels(
                spec_name(src@, name.start as int).unwrap().0,
            ).len() <= old(self).buf@.len(),
        ensures
            final(self).wf(),
            final(self).buf@.len() == old(self).buf@.len(),
            final(self).len as int == old(self).len + spec_encode_labels(
                spec_name(src@, name.start as int).unwrap().0,
            ).len(),
            final(self).spec_bytes() == old(self).spec_bytes() + spec_encode_labels(
                spec_name(src@, name.start as int).unwrap().0,
            ),
    {
        let start = name.start;
        let ghost full = spec_name(src@, start as int).unwrap().0;
        let ghost bytes0 = self.spec_bytes();
        let ghost cap = self.buf@.len();
        let ghost len0 = self.len;
        proof {
            lemma_name_rec_bounds(src@, start as int, start as int, true, 0);
            lemma_encode_parts_len(full);
        }
        let mut pos: usize = start;
        let mut followed: bool = false;
        let mut total: u16 = 0;
        let ghost mut done: Seq<Seq<u8>> = Seq::<Seq<u8>>::empty();
        loop
            invariant
                src@.len() < 65536,
                total <= 255,
                spec_name(src@, start as int).is_some(),
                full == spec_name(src@, start as int).unwrap().0,
                ({
                    let cur = spec_name_rec(
                        src@,
                        pos as int,
                        start as int,
                        !followed,
                        total as int,
                    );
                    &&& cur.is_some()
                    &&& full == done + cur.unwrap().0
                }),
                self.wf(),
                self.buf@.len() == cap,
                12 <= len0,
                bytes0.len() == len0,
                len0 + spec_encode_labels(full).len() <= cap,
                self.len as int == len0 + spec_encode_parts(done).len(),
                self.spec_bytes() == bytes0 + spec_encode_parts(done),
            ensures
                full == done,
                self.wf(),
                self.buf@.len() == cap,
                self.len as int == len0 + spec_encode_parts(done).len(),
                self.spec_bytes() == bytes0 + spec_encode_parts(done),
            decreases (if followed { 0int } else { 1int }), 256 - total,
        {
            let ghost cur = spec_name_rec(src@, pos as int, start as int, !followed, total as int);
            let ghost cur_labels = cur.unwrap().0;
            proof {
                lemma_encode_parts_append(done, cur_labels);
                lemma_encode_parts_len(done);
                lemma_encode_parts_len(cur_labels);
            }
            let mut p = pos;
            match read_label(src, &mut p) {
                None => {
                    proof {
                        assert(false);
                    }
                    break ;
                },
                Some(Label::Pointer(ptr)) => {
                    if followed || (ptr as usize) >= pos || (ptr as usize) == start {
                        proof {
                            assert(false);
                        }
                        break ;
                    }
                    followed = true;
                    pos = ptr as usize;
                },
                Some(Label::Part(len)) => {
                    if len == 0 {
                        proof {
                            assert(cur_labels =~= Seq::<Seq<u8>>::empty());
                            assert(full =~= done);
                        }
                        break ;
                    }
                    let llen = len as usize;
                    let ghost l = src@.subrange(pos + 1 as int, pos + 1 + llen as int);
                    let ghost rest = spec_name_rec(
                        src@,
                        (pos + 1 + llen) as int,
                        start as int,
                        !followed,
                        (total + len as u16) as int,
                    ).unwrap().0;
                    proof {
                        assert(cur_labels == seq![l] + rest);
                        assert(cur_labels[0] == l);
                        assert(cur_labels.skip(1) =~= rest);
                        assert(l.len() == llen);
                        lemma_encode_parts_len(rest);
                        assert(spec_encode_parts(cur_labels) == seq![l.len() as u8] + l
                            + spec_encode_parts(rest));
                        assert(spec_labels_total(cur_labels) == l.len() + spec_labels_total(rest));
                    }
                    self.push_byte(len);
                    self.append_src(src, pos + 1, llen);
                    proof {
                        lemma_encode_parts_push(done, l);
                        assert(self.spec_bytes() =~= bytes0 + spec_encode_parts(done.push(l)));
                        assert(done.push(l) + rest =~= done + cur_labels);
                        done = done.push(l);
                    }
                    total = total + (len as u16);
                    pos = p;
                },
            }
        }
        proof {
            lemma_encode_parts_len(done);
        }
        self.push_byte(0u8);
        proof {
            assert(self.spec_bytes() =~= bytes0 + spec_encode_labels(full));
        }
    }

    /// Append the record type's two big-endian bytes.
    pub fn add_kind(&mut self, kind: &crate::header::QueryKind)
        requires
            old(self).wf(),
            old(self).len + 2 <= old(self).buf@.len(),
        ensures
            final(self).wf(),
            final(self).buf@.len() == old(self).buf@.len(),
            final(self).len == old(self).len + 2,
            final(self).spec_bytes() == old(self).spec_bytes() + spec_u16_be(
                spec_query_kind_value(*kind),
            ),
    {
        let v = kind.as_u16();
        self.push_byte(u16_hi(v));
        self.push_byte(u16_lo(v));
        proof {
            assert(self.spec_bytes() =~= old(self).spec_bytes() + spec_u16_be(v));
        }
    }

    /// Append the record class's two big-endian bytes.
    pub fn add_class(&mut self, class: &crate::header::QueryClass)
        requires
            old(self).wf(),
            old(self).len + 2 <= old(self).buf@.len(),
        ensures
            final(self).wf(),
            final(self).buf@.len() == old(self).buf@.len(),
            final(self).len == old(self).len + 2,
            final(self).spec_bytes() == old(self).spec_bytes() + spec_u16_be(
                spec_query_class_value(*class),
            ),
    {
        let v = class.as_u16();
        self.push_byte(u16_hi(v));
        self.push_byte(u16_lo(v));
        proof {
            assert(self.spec_bytes() =~= old(self).spec_bytes() + spec_u16_be(v));
        }
    }

    /// Append the time-to-live's four big-endian bytes.
    pub fn add_ttl(&mut self, ttl: u32)
        requires
            old(self).wf(),
            old(self).len + 4 <= old(self).buf@.len(),
        ensures
            final(self).wf(),
            final(self).buf@.len() == old(self).buf@.len(),
            final(self).len == old(self).len + 4,
            final(self).spec_bytes() == old(self).spec_bytes() + spec_u32_be(ttl),
    {
        self.push_byte((ttl / 0x1000000) as u8);
        self.push_byte(((ttl / 0x10000) % 256) as u8);
        self.push_byte(((ttl / 256) % 256) as u8);
        self.push_byte((ttl % 256) as u8);
        proof {
            assert(self.spec_bytes() =~= old(self).spec_bytes() + spec_u32_be(ttl));
        }
    }

    /// Append resource data: its two-byte big-endian length, then its
    /// bytes.
    pub fn add_rdata(&mut self, data: &[u8])
        requires
            old(self).wf(),
            data@.len() <= 65535,
            old(self).len + 2 + data@.len() <= old(self).buf@.len(),
        ensures
            final(self).wf(),
            final(self).buf@.len() == old(self).buf@.len(),
            final(self).len == old(self).len + 2 + data@.len(),
            final(self).spec_bytes() == old(self).spec_bytes() + spec_u16_be(data@.len() as u16)
                + data@,
    {
        let n = data.len() as u16;
        self.push_byte(u16_hi(n));
        self.push_byte(u16_lo(n));
        self.extend(data);
        proof {
            assert(old(self).spec_bytes().push((n / 256) as u8).push((n % 256) as u8) + data@ =~= old(
                self,
            ).spec_bytes() + spec_u16_be(n) + data@);
        }
    }

    /// Append one answer record — name, type, class, time-to-live and
    /// length-prefixed resource data — and raise the header's answer count
    /// by exactly one. The header's other fields and the message body
    /// already written stay as they were.
    pub fn add_answer(&mut self, src: &[u8], answer: &Answer)
        requires
            src@.len() < 65536,
            spec_name(src@, answer.name.start as int).is_some(),
            old(self).wf(),
            answer.rdata@.len() <= 65535,
            old(self).len + spec_encode_labels(
                spec_name(src@, answer.name.start as int).unwrap().0,
            ).len() + 10 + answer.rdata@.len() <= old(self).buf@.len(),
            spec_header_of_bytes(old(self).spec_bytes()).answer_count < 65535,
        ensures
            final(self).wf(),
            final(self).buf@.len() == old(self).buf@.len(),
            ({
                let labels = spec_name(src@, answer.name.start as int).unwrap().0;
                let appended = spec_encode_labels(labels) + spec_u16_be(
                    spec_query_kind_value(answer.kind),
                ) + spec_u16_be(spec_query_class_value(answer.class)) + spec_u32_be(answer.ttl)
                    + spec_u16_be(answer.rdata@.len() as u16) + answer.rdata@;
                &&& final(self).len == old(self).len + appended.len()
                &&& final(self).spec_bytes().subrange(old(self).len as int, final(self).len as int)
                    == appended
                &&& final(self).spec_bytes().subrange(12, old(self).len as int) == old(
                    self,
                ).spec_bytes().subrange(12, old(self).len as int)
                &&& spec_header_of_bytes(final(self).spec_bytes()) == (DnsHeader {
                    answer_count: (spec_header_of_bytes(old(self).spec_bytes()).answer_count
                        + 1) as u16,
                    ..spec_header_of_bytes(old(self).spec_bytes())
                })
            }),
    {
        let ghost len0 = self.len;
        let ghost bytes0 = self.spec_bytes();
        let ghost labels = spec_name(src@, answer.name.start as int).unwrap().0;
        let ghost appended = spec_encode_labels(labels) + spec_u16_be(
            spec_query_kind_value(answer.kind),
        ) + spec_u16_be(spec_query_class_value(answer.class)) + spec_u32_be(answer.ttl)
            + spec_u16_be(answer.rdata@.len() as u16) + answer.rdata@;
        self.add_name(src, &answer.name);
        self.add_kind(&answer.kind);
        self.add_class(&answer.class);
        self.add_ttl(answer.ttl);
        self.add_rdata(answer.rdata.as_slice());
        proof {
            assert(self.spec_bytes() =~= bytes0 + appended);
        }
        let ghost mid = self.spec_bytes();
        let an = u16_from_bytes(self.buf[6], self.buf[7]);
        proof {
            assert(self.buf@[6] == mid[6]);
            assert(self.buf@[7] == mid[7]);
            assert(mid[6] == bytes0[6]);
            assert(mid[7] == bytes0[7]);
        }
        let an1 = an + 1;
        self.buf.set(6, u16_hi(an1));
        self.buf.set(7, u16_lo(an1));
        proof {
            assert(self.spec_bytes() =~= mid.update(6, (an1 / 256) as u8).update(
                7,
                (an1 % 256) as u8,
            ));
            assert(self.spec_bytes().subrange(len0 as int, self.len as int) =~= appended);
            assert(self.spec_bytes().subrange(12, len0 as int) =~= bytes0.subrange(
                12,
                len0 as int,
            ));
            assert(spec_header_of_bytes(self.spec_bytes()) == (DnsHeader {
                answer_count: (spec_header_of_bytes(bytes0).answer_count + 1) as u16,
                ..spec_header_of_bytes(bytes0)
            }));
        }
    }
}

impl DnsFrameBuilder {
    /// Write the header's 12 wire bytes at the start of the buffer.
    pub fn header(self, header: DnsHeader) -> (r: Self)
        requires
            12 <= self.buf@.len() <= 512,
        ensures
            r.buf@.len() == self.buf@.len(),
            r.len == 12,
            r.buf@.subrange(0, 12) == spec_header_bytes(header),
            forall|i: int| 12 <= i < self.buf@.len() ==> r.buf@[i] == self.buf@[i],
    {
        let mut b = self.buf;
        b.set(0, u16_hi(header.id));
        b.set(1, u16_lo(header.id));
        b.set(2, header.flags0);
        b.set(3, header.flags1);
        b.set(4, u16_hi(header.question_count));
        b.set(5, u16_lo(header.question_count));
        b.set(6, u16_hi(header.answer_count));
        b.set(7, u16_lo(header.answer_count));
        b.set(8, u16_hi(header.name_server_count));
        b.set(9, u16_lo(header.name_server_count));
        b.set(10, u16_hi(header.additional_records_count));
        b.set(11, u16_lo(header.additional_records_count));
        proof {
            assert(b@.subrange(0, 12) =~= spec_header_bytes(header));
        }
        DnsFrameBuilder { buf: b, len: 12 }
    }

    /// The frame so far: the header and whatever was appended.
    pub fn build(self) -> (r: DnsFrame)
        ensures
            r.buf == self.buf,
            r.len == self.len,
    {
        DnsFrame { buf: self.buf, len: self.len }
    }
}

} // verus!
