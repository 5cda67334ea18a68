//! DNS questions: a name followed by a 16-bit query type and a 16-bit
//! query class, and a restartable cursor over the questions of a message.

use vstd::prelude::*;

use crate::header::{spec_query_class_of, spec_query_kind_of, QueryClass, QueryKind};
use crate::name::{lemma_name_rec_bounds, read_name, spec_name, Name};
use crate::u16_of_bytes;

verus! {

/// The position just past the question starting at `pos`: past its name,
/// query type and query class. `None` when the name is malformed or the
/// type and class bytes are missing.
pub open spec fn spec_question_end(buf: Seq<u8>, pos: int) -> Option<int> {
    match spec_name(buf, pos) {
        None => None,
        Some(p) => if p.1 + 4 <= buf.len() {
            Some(p.1 + 4)
        } else {
            None
        },
    }
}

/// The position just past `n` consecutive questions starting at `pos`.
pub open spec fn spec_questions_end(buf: Seq<u8>, pos: int, n: nat) -> Option<int>
    decreases n,
{
    if n == 0 {
        Some(pos)
    } else {
        match spec_question_end(buf, pos) {
            None => None,
            Some(q) => spec_questions_end(buf, q, (n - 1) as nat),
        }
    }
}

/// Walking `n` questions is walking the first `k` and then the rest.
pub proof fn lemma_questions_end_split(buf: Seq<u8>, pos: int, k: nat, n: nat)
    requires
        k <= n,
    ensures
        spec_questions_end(buf, pos, n) == (match spec_questions_end(buf, pos, k) {
            None => None::<int>,
            Some(m) => spec_questions_end(buf, m, (n - k) as nat),
        }),
    decreases k,
{
    if k > 0 {
        match spec_question_end(buf, pos) {
            None => {},
            Some(q) => {
                lemma_questions_end_split(buf, q, (k - 1) as nat, (n - 1) as nat);
            },
        }
    }
}

/// Skip the four query type and query class bytes, if they are there.
pub fn read_query_class_and_kind(buf: &[u8], i: &mut usize) -> (r: bool)
    requires
        buf@.len() < 65536,
        *old(i) <= buf@.len(),
    ensures
        r == (*old(i) + 4 <= buf@.len()),
        r ==> *final(i) == *old(i) + 4,
        !r ==> *final(i) == *old(i),
{
    if buf.len() - *i >= 4 {
        *i = *i + 4;
        true
    } else {
        false
    }
}

/// Decode one question, advancing the cursor past it on success. `false`
/// on a malformed or truncated question; the cursor is then unmoved.
pub fn read_question(buf: &[u8], i: &mut usize) -> (r: bool)
    requires
        buf@.len() < 65536,
    ensures
        r == spec_question_end(buf@, *old(i) as int).is_some(),
        r ==> *final(i) as int == spec_question_end(buf@, *old(i) as int).unwrap(),
        !r ==> *final(i) == *old(i),
{
    let saved = *i;
    if read_name(buf, i) {
        proof {
            lemma_name_rec_bounds(buf@, saved as int, saved as int, true, 0);
        }
        if read_query_class_and_kind(buf, i) {
            true
        } else {
            *i = saved;
            false
        }
    } else {
        false
    }
}

/// A question occurrence: the index range it occupies in its message
/// buffer, name first, the four type and class bytes last.
#[derive(Clone, Copy, Debug, PartialEq, Eq, Structural)]
pub struct Question {
    pub start: usize,
    pub end: usize,
}

/// Whether `q` is exactly the question occurrence starting at `q.start`.
pub open spec fn spec_question_wf(buf: Seq<u8>, q: Question) -> bool {
    spec_question_end(buf, q.start as int) == Some(q.end as int)
}

/// The query kind a question asks for.
pub open spec fn spec_question_kind(buf: Seq<u8>, q: Question) -> QueryKind
    recommends
        spec_question_wf(buf, q),
{
    spec_query_kind_of(u16_of_bytes(buf[q.end - 4], buf[q.end - 3]))
}

/// The query class a question asks about.
pub open spec fn spec_question_class(buf: Seq<u8>, q: Question) -> QueryClass
    recommends
        spec_question_wf(buf, q),
{
    spec_query_class_of(u16_of_bytes(buf[q.end - 2], buf[q.end - 1]))
}

/// Bounds every well-formed question occurrence obeys.
pub proof fn lemma_question_bounds(buf: Seq<u8>, q: Question)
    requires
        spec_question_wf(buf, q),
    ensures
        q.start + 5 <= q.end <= buf.len(),
        spec_name(buf, q.start as int).is_some(),
        spec_name(buf, q.start as int).unwrap().1 == q.end - 4,
{
    lemma_name_rec_bounds(buf, q.start as int, q.start as int, true, 0);
}

impl Question {
    /// The question's name occurrence.
    pub fn name(&self, buf: &[u8]) -> (r: Name)
        requires
            spec_question_wf(buf@, *self),
        ensures
            r.start == self.start,
            r.end == self.end - 4,
            spec_name(buf@, r.start as int).is_some(),
    {
        proof {
            lemma_question_bounds(buf@, *self);
        }
        Name { start: self.start, end: self.end - 4 }
    }

    /// The question's query kind, read from its two type bytes.
    pub fn kind(&self, buf: &[u8]) -> (r: QueryKind)
        requires
            spec_question_wf(buf@, *self),
        ensures
            r == spec_question_kind(buf@, *self),
    {
        proof {
            lemma_question_bounds(buf@, *self);
        }
        let b0 = buf[self.end - 4];
        let b1 = buf[self.end - 3];
        QueryKind::from_u16(crate::u16_from_bytes(b0, b1))
    }

    /// The question's query class, read from its two class bytes.
    pub fn class(&self, buf: &[u8]) -> (r: QueryClass)
        requires
            spec_question_wf(buf@, *self),
        ensures
            r == spec_question_class(buf@, *self),
    {
        proof {
            lemma_question_bounds(buf@, *self);
        }
        let b0 = buf[self.end - 2];
        let b1 = buf[self.end - 1];
        QueryClass::from_u16(crate::u16_from_bytes(b0, b1))
    }

    /// The question's raw bytes.
    pub fn as_bytes<'a>(&self, buf: &'a [u8]) -> (r: &'a [u8])
        requires
            spec_question_wf(buf@, *self),
        ensures
            r@ == buf@.subrange(self.start as int, self.end as int),
    {
        proof {
            lemma_question_bounds(buf@, *self);
        }
        &buf[self.start..self.end]
    }
}

/// A restartable cursor over the questions of a parsed message: each call
/// of `next` decodes one more question.
#[derive(Clone, Copy, Debug, PartialEq, Eq, Structural)]
pub struct Questions {
    pub question_count: usize,
    pub current_question: usize,
    pub buf_i: usize,
}

/// Whether the cursor stands at a question boundary with all remaining
/// questions well-formed.
pub open spec fn spec_questions_wf(buf: Seq<u8>, qs: Questions) -> bool {
    &&& qs.current_question <= qs.question_count
    &&& spec_questions_end(
        buf,
        qs.buf_i as int,
        (qs.question_count - qs.current_question) as nat,
    ).is_some()
}

impl Questions {
    /// Decode the next question, or `None` when all declared questions
    /// were already returned.
    pub fn next(&mut self, buf: &[u8]) -> (r: Option<Question>)
        requires
            buf@.len() < 65536,
            spec_questions_wf(buf@, *old(self)),
        ensures
            spec_questions_wf(buf@, *final(self)),
            (r is Some) == (old(self).current_question < old(self).question_count),
            r is Some ==> ({
                let q = r.unwrap();
                &&& q.start == old(self).buf_i
                &&& spec_question_wf(buf@, q)
                &&& final(self).buf_i == q.end
                &&& final(self).current_question == old(self).current_question + 1
                &&& final(self).question_count == old(self).question_count
            }),
            r is None ==> *final(self) == *old(self),
    {
        if self.current_question >= self.question_count {
            return None;
        }
        let mut i = self.buf_i;
        let ok = read_question(buf, &mut i);
        if !ok {
            proof {
                assert(false);
            }
            return None;
        }
        let q = Question { start: self.buf_i, end: i };
        self.current_question = self.current_question + 1;
        self.buf_i = i;
        Some(q)
    }
}

} // verus!
