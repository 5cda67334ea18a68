//! DNS name occurrences: inline label chains and RFC 1035 §4.1.4
//! compression pointers. The reader rejects self-referencing pointers,
//! pointer-to-pointer chains, forward pointers, truncated labels and names
//! whose decoded labels exceed 255 bytes, and terminates on every input.

use vstd::prelude::*;

verus! {

/// Whether a length-or-pointer byte starts a compression pointer
/// (both of its top bits set).
pub open spec fn spec_is_pointer(b: u8) -> bool {
    b & 0xC0u8 == 0xC0u8
}

/// The label length held in a length byte (its low six bits).
pub open spec fn spec_label_len(b: u8) -> int {
    (b & 0x3Fu8) as int
}

/// The 14-bit offset a compression pointer refers to.
pub open spec fn spec_pointer_target(b0: u8, b1: u8) -> int {
    (b0 & 0x3Fu8) * 256 + b1
}

/// Decode the name occurrence at `pos`: the sequence of its labels and the
/// position just past the occurrence (past the pointer if one was followed,
/// else past the terminating zero byte). `start` is the position where the
/// occurrence began, `can_follow` whether a compression pointer may still be
/// followed, and `total` the label bytes decoded so far.
///
/// `None` on any defect: a truncated label or pointer, a pointer after a
/// pointer was already followed, a pointer that does not aim strictly
/// backwards or aims at the occurrence's own start, or decoded labels
/// exceeding 255 bytes in all.
pub open spec fn spec_name_rec(
    buf: Seq<u8>,
    pos: int,
    start: int,
    can_follow: bool,
    total: int,
) -> Option<(Seq<Seq<u8>>, int)>
    decreases (if can_follow { 1int } else { 0int }), 256 - total,
{
    if total > 255 || total < 0 {
        None
    } else if !(0 <= pos < buf.len()) {
        None
    } else if spec_is_pointer(buf[pos]) {
        if pos + 1 >= buf.len() {
            None
        } else if !can_follow {
            None
        } else {
            let target = spec_pointer_target(buf[pos], buf[pos + 1]);
            if target >= pos || target == start {
                None
            } else {
                match spec_name_rec(buf, target, start, false, total) {
                    None => None,
                    Some(p) => Some((p.0, pos + 2)),
                }
            }
        }
    } else {
        let len = spec_label_len(buf[pos]);
        if len == 0 {
            Some((Seq::<Seq<u8>>::empty(), pos + 1))
        } else if total + len > 255 {
            None
        } else if pos + 1 + len > buf.len() {
            None
        } else {
            match spec_name_rec(buf, pos + 1 + len, start, can_follow, total + len) {
                None => None,
                Some(p) => Some((seq![buf.subrange(pos + 1, pos + 1 + len)] + p.0, p.1)),
            }
        }
    }
}

/// Decode the name occurrence starting at `start`.
pub open spec fn spec_name(buf: Seq<u8>, start: int) -> Option<(Seq<Seq<u8>>, int)> {
    spec_name_rec(buf, start, start, true, 0)
}

/// The number of label bytes a label sequence holds in all.
pub open spec fn spec_labels_total(labels: Seq<Seq<u8>>) -> int
    decreases labels.len(),
{
    if labels.len() == 0 {
        0
    } else {
        labels[0].len() + spec_labels_total(labels.skip(1))
    }
}

/// The wire bytes of a label sequence without the closing zero byte: each
/// label prefixed by its length byte.
pub open spec fn spec_encode_parts(labels: Seq<Seq<u8>>) -> Seq<u8>
    decreases labels.len(),
{
    if labels.len() == 0 {
        Seq::<u8>::empty()
    } else {
        seq![labels[0].len() as u8] + labels[0] + spec_encode_parts(labels.skip(1))
    }
}

/// The inline wire encoding of a label sequence: each label prefixed by its
/// length byte, closed by a zero byte.
pub open spec fn spec_encode_labels(labels: Seq<Seq<u8>>) -> Seq<u8> {
    spec_encode_parts(labels) + seq![0u8]
}

/// Encoding one more label appends its length byte and its bytes.
pub proof fn lemma_encode_parts_push(labels: Seq<Seq<u8>>, l: Seq<u8>)
    ensures
        spec_encode_parts(labels.push(l)) == spec_encode_parts(labels) + seq![l.len() as u8] + l,
    decreases labels.len(),
{
    if labels.len() == 0 {
        assert(labels.push(l).skip(1) =~= Seq::<Seq<u8>>::empty());
        assert(labels.push(l)[0] == l);
        assert(spec_encode_parts(Seq::<Seq<u8>>::empty()) == Seq::<u8>::empty());
        assert(spec_encode_parts(labels.push(l)) =~= spec_encode_parts(labels) + seq![
            l.len() as u8,
        ] + l);
    } else {
        lemma_encode_parts_push(labels.skip(1), l);
        assert(labels.push(l).skip(1) =~= labels.skip(1).push(l));
        assert(labels.push(l)[0] == labels[0]);
        assert(seq![labels[0].len() as u8] + labels[0] + (spec_encode_parts(labels.skip(1)) + seq![
            l.len() as u8,
        ] + l) =~= (seq![labels[0].len() as u8] + labels[0] + spec_encode_parts(labels.skip(1)))
            + seq![l.len() as u8] + l);
    }
}

/// The encoding of joined label sequences is the joined encodings.
pub proof fn lemma_encode_parts_append(a: Seq<Seq<u8>>, b: Seq<Seq<u8>>)
    ensures
        spec_encode_parts(a + b) == spec_encode_parts(a) + spec_encode_parts(b),
    decreases a.len(),
{
    if a.len() == 0 {
        assert(a + b =~= b);
        assert(spec_encode_parts(a) + spec_encode_parts(b) =~= spec_encode_parts(b));
    } else {
        lemma_encode_parts_append(a.skip(1), b);
        assert((a + b).skip(1) =~= a.skip(1) + b);
        assert((a + b)[0] == a[0]);
        assert(seq![a[0].len() as u8] + a[0] + (spec_encode_parts(a.skip(1)) + spec_encode_parts(b))
            =~= (seq![a[0].len() as u8] + a[0] + spec_encode_parts(a.skip(1)))
            + spec_encode_parts(b));
    }
}

/// A label sequence encodes into one byte per label plus its label bytes.
pub proof fn lemma_encode_parts_len(labels: Seq<Seq<u8>>)
    ensures
        spec_encode_parts(labels).len() == spec_labels_total(labels) + labels.len(),
    decreases labels.len(),
{
    if labels.len() > 0 {
        lemma_encode_parts_len(labels.skip(1));
    }
}

/// An inline label encoding standing in a buffer reads back as exactly
/// those labels, wherever it stands and whether or not a pointer may still
/// be followed.
pub proof fn lemma_encode_parses(
    buf: Seq<u8>,
    pos: int,
    start: int,
    can_follow: bool,
    total: int,
    labels: Seq<Seq<u8>>,
)
    requires
        0 <= total,
        total + spec_labels_total(labels) <= 255,
        forall|k: int| 0 <= k < labels.len() ==> 1 <= (#[trigger] labels[k]).len() <= 63,
        0 <= pos,
        pos + spec_encode_labels(labels).len() <= buf.len(),
        buf.subrange(pos, pos + spec_encode_labels(labels).len() as int) == spec_encode_labels(
            labels,
        ),
    ensures
        spec_name_rec(buf, pos, start, can_follow, total) == Some(
            (labels, pos + spec_encode_labels(labels).len()),
        ),
    decreases labels.len(),
{
    lemma_encode_parts_len(labels);
    let enc = spec_encode_labels(labels);
    assert(buf.subrange(pos, pos + enc.len() as int)[0] == buf[pos]);
    if labels.len() == 0 {
        assert(enc =~= seq![0u8]);
        assert(buf[pos] == 0u8);
        assert(0u8 & 0xC0u8 != 0xC0u8 && 0u8 & 0x3Fu8 == 0u8) by (bit_vector);
    } else {
        let l = labels[0];
        let rest = labels.skip(1);
        let n = l.len() as u8;
        let enc_rest = spec_encode_labels(rest);
        lemma_encode_parts_len(rest);
        assert(spec_labels_total(labels) == l.len() + spec_labels_total(rest));
        assert(enc =~= seq![n] + l + enc_rest);
        assert(buf[pos] == n);
        assert(n < 64 ==> (n & 0xC0u8 != 0xC0u8 && n & 0x3Fu8 == n)) by (bit_vector);
        assert(spec_label_len(buf[pos]) == l.len());
        assert forall|j: int| 0 <= j < l.len() implies buf[pos + 1 + j] == l[j] by {
            assert(buf.subrange(pos, pos + enc.len() as int)[1 + j] == buf[pos + 1 + j]);
            assert(enc[1 + j] == l[j]);
        }
        assert(buf.subrange(pos + 1, pos + 1 + l.len()) =~= l);
        assert forall|j: int| 0 <= j < enc_rest.len() implies buf[pos + 1 + l.len() + j]
            == enc_rest[j] by {
            assert(buf.subrange(pos, pos + enc.len() as int)[1 + l.len() + j] == buf[pos + 1
                + l.len() + j]);
            assert(enc[1 + l.len() + j] == enc_rest[j]);
        }
        assert(buf.subrange(
            pos + 1 + l.len(),
            pos + 1 + l.len() + enc_rest.len() as int,
        ) =~= enc_rest);
        lemma_encode_parses(buf, pos + 1 + l.len(), start, can_follow, total + l.len(), rest);
        assert(seq![buf.subrange(pos + 1, pos + 1 + spec_label_len(buf[pos]))] + rest =~= labels);
    }
}

/// The text of a name: its labels joined by dots.
pub open spec fn spec_name_text(labels: Seq<Seq<u8>>) -> Seq<u8>
    decreases labels.len(),
{
    if labels.len() == 0 {
        Seq::<u8>::empty()
    } else if labels.len() == 1 {
        labels[0]
    } else {
        labels[0] + seq![0x2Eu8] + spec_name_text(labels.skip(1))
    }
}

/// ASCII lower-casing of one byte.
pub open spec fn spec_lower(b: u8) -> u8 {
    if 0x41u8 <= b <= 0x5Au8 {
        (b + 0x20) as u8
    } else {
        b
    }
}

/// ASCII lower-casing of a byte sequence.
pub open spec fn spec_lower_seq(s: Seq<u8>) -> Seq<u8> {
    Seq::new(s.len(), |i: int| spec_lower(s[i]))
}

/// Whether a name's text equals a host name, ASCII case-insensitively.
pub open spec fn spec_name_matches(labels: Seq<Seq<u8>>, host: Seq<u8>) -> bool {
    spec_lower_seq(spec_name_text(labels)) == spec_lower_seq(host)
}

/// Bounds that hold of every accepted name occurrence: its labels carry at
/// most `255 - total` bytes in all, each label holds 1 to 63 bytes, there
/// are no more labels than label bytes, and the occurrence ends inside the
/// buffer, past where it began.
pub proof fn lemma_name_rec_bounds(buf: Seq<u8>, pos: int, start: int, can_follow: bool, total: int)
    requires
        spec_name_rec(buf, pos, start, can_follow, total).is_some(),
    ensures
        ({
            let labels = spec_name_rec(buf, pos, start, can_follow, total).unwrap().0;
            let end = spec_name_rec(buf, pos, start, can_follow, total).unwrap().1;
            &&& total + spec_labels_total(labels) <= 255
            &&& labels.len() <= spec_labels_total(labels)
            &&& forall|k: int| 0 <= k < labels.len() ==> 1 <= (#[trigger] labels[k]).len() <= 63
            &&& pos < end <= buf.len()
        }),
    decreases (if can_follow { 1int } else { 0int }), 256 - total,
{
    let b = buf[pos];
    if spec_is_pointer(b) {
        let target = spec_pointer_target(b, buf[pos + 1]);
        lemma_name_rec_bounds(buf, target, start, false, total);
    } else {
        let len = spec_label_len(b);
        assert(b & 0x3F < 64) by (bit_vector);
        if len == 0 {
        } else {
            let sub = spec_name_rec(buf, pos + 1 + len, start, can_follow, total + len).unwrap();
            lemma_name_rec_bounds(buf, pos + 1 + len, start, can_follow, total + len);
            let labels = spec_name_rec(buf, pos, start, can_follow, total).unwrap().0;
            assert(labels.skip(1) =~= sub.0);
            assert(labels[0] == buf.subrange(pos + 1, pos + 1 + len));
            assert(labels[0].len() == len);
            assert(spec_labels_total(labels) == len + spec_labels_total(sub.0));
        }
    }
}

/// The decoded label bytes of an accepted name never exceed 255 in all.
pub proof fn lemma_name_length_bound(buf: Seq<u8>, start: int)
    requires
        spec_name(buf, start).is_some(),
    ensures
        spec_labels_total(spec_name(buf, start).unwrap().0) <= 255,
        spec_name(buf, start).unwrap().0.len() <= 255,
{
    lemma_name_rec_bounds(buf, start, start, true, 0);
}

/// A name that opens with a compression pointer aiming at the name's own
/// start, or at another compression pointer, is rejected.
pub proof fn lemma_pointer_loop_rejected(buf: Seq<u8>, start: int)
    requires
        0 <= start,
        start + 1 < buf.len(),
        spec_is_pointer(buf[start]),
        ({
            let t = spec_pointer_target(buf[start], buf[start + 1]);
            t == start || (0 <= t < buf.len() && spec_is_pointer(buf[t]))
        }),
    ensures
        spec_name(buf, start).is_none(),
{
    let t = spec_pointer_target(buf[start], buf[start + 1]);
    if t < start && t != start {
        assert(spec_name_rec(buf, t, start, false, 0).is_none());
    }
}

/// A non-empty name's text holds its label bytes and one dot between each
/// pair of labels.
pub proof fn lemma_text_len(labels: Seq<Seq<u8>>)
    requires
        labels.len() > 0,
    ensures
        spec_name_text(labels).len() == spec_labels_total(labels) + labels.len() - 1,
    decreases labels.len(),
{
    if labels.len() == 1 {
        assert(spec_labels_total(labels.skip(1)) == 0);
    } else {
        lemma_text_len(labels.skip(1));
    }
}

/// One label read from the wire: a whole compression pointer, or one
/// length-prefixed label part.
pub enum Label {
    Pointer(u16),
    Part(u8),
}

/// Read one length-or-pointer byte at the cursor and advance past what it
/// prefixes: past both pointer bytes, or past the label's bytes. `None`,
/// with the cursor unmoved, when the buffer ends before the label does.
pub fn read_label(buf: &[u8], i: &mut usize) -> (r: Option<Label>)
    requires
        buf@.len() < 65536,
    ensures
        ({
            let p = *old(i) as int;
            if p >= buf@.len() {
                r is None && *final(i) == *old(i)
            } else if spec_is_pointer(buf@[p]) {
                if p + 1 < buf@.len() {
                    &&& r == Some(Label::Pointer((spec_pointer_target(buf@[p], buf@[p + 1])) as u16))
                    &&& *final(i) == *old(i) + 2
                } else {
                    r is None && *final(i) == *old(i)
                }
            } else if spec_label_len(buf@[p]) == 0 {
                r == Some(Label::Part(0u8)) && *final(i) == *old(i) + 1
            } else if p + 1 + spec_label_len(buf@[p]) <= buf@.len() {
                &&& r == Some(Label::Part((buf@[p] & 0x3Fu8)))
                &&& spec_label_len(buf@[p]) <= 63
                &&& *final(i) == *old(i) + 1 + spec_label_len(buf@[p])
            } else {
                r is None && *final(i) == *old(i)
            }
        }),
{
    let p = *i;
    if p >= buf.len() {
        return None;
    }
    let b = buf[p];
    if b & 0xC0u8 == 0xC0u8 {
        if p + 1 < buf.len() {
            let b1 = buf[p + 1];
            assert(b & 0x3F < 64) by (bit_vector);
            let target: u16 = (b & 0x3Fu8) as u16 * 256 + b1 as u16;
            *i = p + 2;
            Some(Label::Pointer(target))
        } else {
            None
        }
    } else {
        let len = b & 0x3Fu8;
        assert(b & 0x3F < 64) by (bit_vector);
        if len == 0 {
            *i = p + 1;
            Some(Label::Part(0))
        } else if p + 1 + (len as usize) <= buf.len() {
            *i = p + 1 + (len as usize);
            Some(Label::Part(len))
        } else {
            None
        }
    }
}

/// Walk the name occurrence at `start` and return the position just past
/// it, or `None` on any of the defects `spec_name_rec` rejects. The walk
/// follows at most one pointer and visits at most 255 label bytes, so it
/// terminates on every input.
fn name_scan(buf: &[u8], start: usize) -> (r: Option<usize>)
    requires
        buf@.len() < 65536,
    ensures
        r.is_some() == spec_name(buf@, start as int).is_some(),
        r.is_some() ==> r.unwrap() as int == spec_name(buf@, start as int).unwrap().1,
{
    let mut pos: usize = start;
    let mut followed: bool = false;
    let mut end: usize = 0;
    let mut total: u16 = 0;
    loop
        invariant
            buf@.len() < 65536,
            total <= 255,
            ({
                let cur = spec_name_rec(buf@, pos as int, start as int, !followed, total as int);
                let full = spec_name(buf@, start as int);
                &&& full.is_some() == cur.is_some()
                &&& (cur.is_some() ==> full.unwrap().1 == (if followed {
                    end as int
                } else {
                    cur.unwrap().1
                }))
            }),
        decreases (if followed { 0int } else { 1int }), 256 - total,
    {
        let ghost cur = spec_name_rec(buf@, pos as int, start as int, !followed, total as int);
        let mut p = pos;
        match read_label(buf, &mut p) {
            None => {
                assert(cur.is_none());
                return None;
            },
            Some(Label::Pointer(ptr)) => {
                if followed {
                    assert(cur.is_none());
                    return None;
                }
                let t = ptr as usize;
                if t >= pos || t == start {
                    assert(cur.is_none());
                    return None;
                }
                end = p;
                followed = true;
                pos = t;
            },
            Some(Label::Part(len)) => {
                if len == 0 {
                    assert(cur == Some((Seq::<Seq<u8>>::empty(), pos + 1 as int)));
                    if followed {
                        return Some(end);
                    } else {
                        return Some(p);
                    }
                }
                if total + (len as u16) > 255 {
                    assert(cur.is_none());
                    return None;
                }
                total = total + (len as u16);
                pos = p;
            },
        }
    }
}

/// The text a label sequence contributes after earlier labels were already
/// matched: nothing for no labels, the dotted text itself at the start of a
/// name, and a leading dot otherwise.
pub open spec fn spec_tail_text(labels: Seq<Seq<u8>>, first: bool) -> Seq<u8> {
    if labels.len() == 0 {
        Seq::<u8>::empty()
    } else if first {
        spec_name_text(labels)
    } else {
        seq![0x2Eu8] + spec_name_text(labels)
    }
}

/// Match a label sequence against `host` from position `hi` on, label by
/// label: a dot before every label but a name's first, then the label's
/// bytes, ASCII case-insensitively; the final label must end exactly at the
/// end of `host`.
pub open spec fn spec_match_rec(labels: Seq<Seq<u8>>, host: Seq<u8>, hi: int, first: bool) -> bool
    decreases labels.len(),
{
    if labels.len() == 0 {
        hi == host.len()
    } else {
        let l = labels[0];
        let hstart: int = if first {
            hi
        } else {
            hi + 1
        };
        &&& (!first ==> hi < host.len() && host[hi] == 0x2Eu8)
        &&& hstart + l.len() <= host.len()
        &&& spec_lower_seq(l) == spec_lower_seq(host.subrange(hstart, hstart + l.len()))
        &&& spec_match_rec(labels.skip(1), host, hstart + l.len(), false)
    }
}

/// Label-by-label matching from position `hi` is exactly case-folded
/// equality of the labels' remaining text with the rest of `host`.
pub proof fn lemma_match_rec_correct(labels: Seq<Seq<u8>>, host: Seq<u8>, hi: int, first: bool)
    requires
        0 <= hi <= host.len(),
        forall|k: int| 0 <= k < labels.len() ==> (#[trigger] labels[k]).len() >= 1,
    ensures
        spec_match_rec(labels, host, hi, first) == (spec_lower_seq(spec_tail_text(labels, first))
            == spec_lower_seq(host.subrange(hi, host.len() as int))),
    decreases labels.len(),
{
    let rest_host = host.subrange(hi, host.len() as int);
    if labels.len() == 0 {
        if hi == host.len() {
            assert(spec_lower_seq(spec_tail_text(labels, first)) =~= spec_lower_seq(rest_host));
        } else {
            assert(spec_lower_seq(rest_host).len() > 0);
        }
    } else {
        let l = labels[0];
        let rest = labels.skip(1);
        let hstart: int = if first {
            hi
        } else {
            hi + 1
        };
        let sep: int = hstart - hi;
        let tail = spec_tail_text(labels, first);
        let tt = spec_tail_text(rest, false);
        let sepseq: Seq<u8> = if first {
            Seq::<u8>::empty()
        } else {
            seq![0x2Eu8]
        };
        if rest.len() == 0 {
            assert(spec_name_text(labels) == l);
        } else {
            assert(spec_name_text(labels) == l + seq![0x2Eu8] + spec_name_text(rest));
        }
        assert(spec_name_text(labels) =~= l + tt);
        assert(tail =~= sepseq + l + tt);
        assert(tail.len() == sep + l.len() + tt.len());
        if !first && !(hi < host.len() && host[hi] == 0x2Eu8) {
            assert(!spec_match_rec(labels, host, hi, first));
            if hi == host.len() {
                assert(spec_lower_seq(tail).len() > 0);
                assert(spec_lower_seq(rest_host).len() == 0);
            } else {
                assert(tail[0] == 0x2Eu8);
                assert(spec_lower_seq(tail)[0] == 0x2Eu8);
                assert(rest_host[0] == host[hi]);
                assert(spec_lower(host[hi]) != 0x2Eu8);
                assert(spec_lower_seq(rest_host)[0] != 0x2Eu8);
            }
        } else if !(hstart + l.len() <= host.len()) {
            assert(!spec_match_rec(labels, host, hi, first));
            assert(spec_lower_seq(tail).len() > spec_lower_seq(rest_host).len());
        } else if spec_lower_seq(l) != spec_lower_seq(
            host.subrange(hstart, hstart + l.len()),
        ) {
            assert(!spec_match_rec(labels, host, hi, first));
            if spec_lower_seq(tail) == spec_lower_seq(rest_host) {
                let hsub = host.subrange(hstart, hstart + l.len());
                assert forall|j: int| 0 <= j < l.len() implies spec_lower_seq(l)[j]
                    == spec_lower_seq(hsub)[j] by {
                    assert(tail[sep + j] == l[j]);
                    assert(rest_host[sep + j] == host[hstart + j]);
                    assert(hsub[j] == host[hstart + j]);
                    assert(spec_lower_seq(tail)[sep + j] == spec_lower_seq(rest_host)[sep + j]);
                }
                assert(spec_lower_seq(l) =~= spec_lower_seq(hsub));
                assert(false);
            }
        } else {
            lemma_match_rec_correct(rest, host, hstart + l.len(), false);
            let rh2 = host.subrange(hstart + l.len(), host.len() as int);
            let hsub = host.subrange(hstart, hstart + l.len());
            if spec_lower_seq(tt) == spec_lower_seq(rh2) {
                assert(spec_lower_seq(tt).len() == tt.len());
                assert(spec_lower_seq(rh2).len() == rh2.len());
                assert(tt.len() == rh2.len());
                assert(rh2.len() == host.len() - hstart - l.len());
                assert(rest_host.len() == host.len() - hi);
                assert(tail.len() == rest_host.len());
                assert forall|k: int| 0 <= k < tail.len() implies spec_lower_seq(tail)[k]
                    == spec_lower_seq(rest_host)[k] by {
                    assert(rest_host[k] == host[hi + k]);
                    if k < sep {
                        assert(tail[k] == 0x2Eu8);
                        assert(host[hi + k] == 0x2Eu8);
                    } else if k < sep + l.len() {
                        assert(tail[k] == l[k - sep]);
                        assert(spec_lower_seq(l)[k - sep] == spec_lower_seq(hsub)[k - sep]);
                        assert(hsub[k - sep] == host[hstart + (k - sep)]);
                    } else {
                        assert(tail[k] == tt[k - sep - l.len()]);
                        assert(spec_lower_seq(tt)[k - sep - l.len()] == spec_lower_seq(rh2)[k - sep
                            - l.len()]);
                        assert(rh2[k - sep - l.len()] == host[hstart + l.len() + (k - sep
                            - l.len())]);
                    }
                }
                assert(spec_lower_seq(tail) =~= spec_lower_seq(rest_host));
            } else {
                if spec_lower_seq(tail) == spec_lower_seq(rest_host) {
                    assert(spec_lower_seq(tail).len() == tail.len());
                    assert(spec_lower_seq(rest_host).len() == rest_host.len());
                    assert(tail.len() == rest_host.len());
                    assert(tt.len() == rh2.len());
                    assert forall|k: int| 0 <= k < tt.len() implies spec_lower_seq(tt)[k]
                        == spec_lower_seq(rh2)[k] by {
                        assert(tail[sep + l.len() + k] == tt[k]);
                        assert(rest_host[sep + l.len() + k] == host[hstart + l.len() + k]);
                        assert(rh2[k] == host[hstart + l.len() + k]);
                        assert(spec_lower_seq(tail)[sep + l.len() + k] == spec_lower_seq(
                            rest_host,
                        )[sep + l.len() + k]);
                    }
                    assert(spec_lower_seq(tt) =~= spec_lower_seq(rh2));
                    assert(false);
                }
            }
        }
    }
}

/// ASCII lower-casing of one byte.
fn lower_byte(b: u8) -> (r: u8)
    ensures
        r == spec_lower(b),
{
    if 0x41u8 <= b && b <= 0x5Au8 {
        b + 0x20
    } else {
        b
    }
}

/// Compare `llen` bytes of a label in `buf` against part of `host`, ASCII
/// case-insensitively.
fn label_eq_fold(buf: &[u8], lpos: usize, llen: usize, host: &[u8], hpos: usize) -> (r: bool)
    requires
        buf@.len() < 65536,
        host@.len() < 65536,
        lpos + llen <= buf@.len(),
        hpos + llen <= host@.len(),
    ensures
        r == (spec_lower_seq(buf@.subrange(lpos as int, lpos + llen as int)) == spec_lower_seq(
            host@.subrange(hpos as int, hpos + llen as int),
        )),
{
    let ghost ls = buf@.subrange(lpos as int, lpos + llen as int);
    let ghost hs = host@.subrange(hpos as int, hpos + llen as int);
    let mut j: usize = 0;
    while j < llen
        invariant
            buf@.len() < 65536,
            host@.len() < 65536,
            lpos + llen <= buf@.len(),
            hpos + llen <= host@.len(),
            j <= llen,
            ls == buf@.subrange(lpos as int, lpos + llen as int),
            hs == host@.subrange(hpos as int, hpos + llen as int),
            forall|t: int| 0 <= t < j ==> spec_lower(ls[t]) == spec_lower(hs[t]),
        decreases llen - j,
    {
        let a = lower_byte(buf[lpos + j]);
        let c = lower_byte(host[hpos + j]);
        if a != c {
            proof {
                assert(ls[j as int] == buf@[lpos + j]);
                assert(hs[j as int] == host@[hpos + j]);
                assert(spec_lower_seq(ls)[j as int] != spec_lower_seq(hs)[j as int]);
            }
            return false;
        }
        j = j + 1;
    }
    proof {
        assert(spec_lower_seq(ls) =~= spec_lower_seq(hs));
    }
    true
}

/// A DNS name occurrence: the index range it occupies in its message
/// buffer. The name's bytes are never copied out of the message.
#[derive(Clone, Copy, Debug, PartialEq, Eq, Structural)]
pub struct Name {
    pub start: usize,
    pub end: usize,
}

impl Name {
    /// Whether this name's decoded text equals `host`, compared label by
    /// label, ASCII case-insensitively, without copying the name.
    pub fn matches(&self, buf: &[u8], host: &[u8]) -> (r: bool)
        requires
            buf@.len() < 65536,
            host@.len() < 65536,
            spec_name(buf@, self.start as int).is_some(),
        ensures
            r == spec_name_matches(spec_name(buf@, self.start as int).unwrap().0, host@),
    {
        name_matches_host(buf, self.start, host)
    }
}

/// Whether the name at `start` decodes to text equal to `host`, ASCII
/// case-insensitively.
pub fn name_matches_host(buf: &[u8], start: usize, host: &[u8]) -> (r: bool)
    requires
        buf@.len() < 65536,
        host@.len() < 65536,
        spec_name(buf@, start as int).is_some(),
    ensures
        r == spec_name_matches(spec_name(buf@, start as int).unwrap().0, host@),
{
    let ghost full_labels = spec_name(buf@, start as int).unwrap().0;
    proof {
        lemma_name_rec_bounds(buf@, start as int, start as int, true, 0);
        lemma_match_rec_correct(full_labels, host@, 0, true);
        assert(host@.subrange(0, host@.len() as int) =~= host@);
    }
    let mut pos: usize = start;
    let mut followed: bool = false;
    let mut total: u16 = 0;
    let mut hi: usize = 0;
    let mut first: bool = true;
    loop
        invariant
            buf@.len() < 65536,
            host@.len() < 65536,
            total <= 255,
            hi <= host@.len(),
            spec_name(buf@, start as int).is_some(),
            full_labels == spec_name(buf@, start as int).unwrap().0,
            ({
                let cur = spec_name_rec(buf@, pos as int, start as int, !followed, total as int);
                &&& cur.is_some()
                &&& spec_match_rec(full_labels, host@, 0, true) == spec_match_rec(
                    cur.unwrap().0,
                    host@,
                    hi as int,
                    first,
                )
            }),
            spec_name_matches(full_labels, host@) == spec_match_rec(full_labels, host@, 0, true),
        decreases (if followed { 0int } else { 1int }), 256 - total,
    {
        let ghost cur = spec_name_rec(buf@, pos as int, start as int, !followed, total as int);
        let ghost cur_labels = cur.unwrap().0;
        let mut p = pos;
        match read_label(buf, &mut p) {
            None => {
                proof {
                    assert(false);
                }
                return false;
            },
            Some(Label::Pointer(ptr)) => {
                if followed || (ptr as usize) >= pos || (ptr as usize) == start {
                    proof {
                        assert(false);
                    }
                    return false;
                }
                followed = true;
                pos = ptr as usize;
            },
            Some(Label::Part(len)) => {
                if len == 0 {
                    proof {
                        assert(cur_labels =~= Seq::<Seq<u8>>::empty());
                    }
                    return hi == host.len();
                }
                let llen = len as usize;
                let ghost l = buf@.subrange(pos + 1 as int, pos + 1 + llen as int);
                let ghost rest = spec_name_rec(
                    buf@,
                    (pos + 1 + llen) as int,
                    start as int,
                    !followed,
                    (total + len as u16) as int,
                ).unwrap().0;
                proof {
                    assert(cur_labels == seq![l] + rest);
                    assert(cur_labels[0] == l);
                    assert(cur_labels.skip(1) =~= rest);
                    assert(l.len() == llen);
                }
                let mut hstart = hi;
                if !first {
                    if hi >= host.len() || host[hi] != 0x2Eu8 {
                        return false;
                    }
                    hstart = hi + 1;
                }
                if llen > host.len() - hstart {
                    return false;
                }
                if !label_eq_fold(buf, pos + 1, llen, host, hstart) {
                    return false;
                }
                total = total + (len as u16);
                hi = hstart + llen;
                first = false;
                pos = p;
            },
        }
    }
}

/// Decode one name occurrence, advancing the cursor past it on success.
/// `false` on any malformed name; the cursor is then unmoved.
pub fn read_name(buf: &[u8], i: &mut usize) -> (r: bool)
    requires
        buf@.len() < 65536,
    ensures
        r == spec_name(buf@, *old(i) as int).is_some(),
        r ==> *final(i) as int == spec_name(buf@, *old(i) as int).unwrap().1,
        !r ==> *final(i) == *old(i),
{
    match name_scan(buf, *i) {
        Some(end) => {
            *i = end;
            true
        },
        None => false,
    }
}

} // verus!
