//! Writing to a writer that may fail.
//!
//! The writes are made by the caller. What is decided here is what the writer is handed next, and
//! what is held and counted once it has answered. A write that fails leaves nothing behind, also
//! where the writer took some of its bytes.

use crate::output::{joined, law_writes_join, Output};
use vstd::prelude::*;
use vstd::utf8::encode_utf8;

verus! {

/// How many writes were taken before the first that failed.
pub open spec fn taken<E>(answers: Seq<Result<(), E>>) -> nat
    decreases answers.len(),
{
    if answers.len() == 0 || answers[0] is Err {
        0
    } else {
        1 + taken(answers.drop_first())
    }
}

/// Of `count` writes, one after the other, another is due: none failed, and not all were answered.
pub open spec fn another_is_due<E>(count: nat, answers: Seq<Result<(), E>>) -> bool {
    taken(answers) == answers.len() && answers.len() < count
}

/// The first failure, or the end of the answers, is where the writes that were taken end.
proof fn lemma_taken<E>(answers: Seq<Result<(), E>>, count: nat)
    requires
        count <= answers.len(),
        forall|i: int| 0 <= i < count ==> answers[i] is Ok,
    ensures
        taken(answers) >= count,
        count == answers.len() || answers[count as int] is Err ==> taken(answers) == count,
    decreases count,
{
    if count > 0 {
        let rest = answers.drop_first();
        assert forall|i: int| 0 <= i < count - 1 implies rest[i] is Ok by {
            assert(rest[i] == answers[i + 1]);
        }
        lemma_taken(rest, (count - 1) as nat);
        assert(answers[0] is Ok);
    }
}

/// Every write before the first failure was taken, and the next was not.
pub proof fn law_taken_ends_at_the_first_failure<E>(answers: Seq<Result<(), E>>)
    ensures
        taken(answers) <= answers.len(),
        forall|i: int| 0 <= i < taken(answers) ==> answers[i] is Ok,
        taken(answers) < answers.len() ==> answers[taken(answers) as int] is Err,
    decreases answers.len(),
{
    if answers.len() > 0 && answers[0] is Ok {
        let rest = answers.drop_first();
        law_taken_ends_at_the_first_failure(rest);
        assert forall|i: int| 0 <= i < taken(answers) implies answers[i] is Ok by {
            if i > 0 {
                assert(rest[i - 1] == answers[i]);
            }
        }
    }
}

/// After a write that failed no other is due, and no answer changes what was taken.
pub proof fn law_nothing_follows_a_failure<E>(
    count: nat,
    answers: Seq<Result<(), E>>,
    more: Seq<Result<(), E>>,
)
    requires
        taken(answers) < answers.len(),
    ensures
        taken(answers + more) == taken(answers),
        !another_is_due(count, answers + more),
{
    let all = answers + more;
    law_taken_ends_at_the_first_failure(answers);
    assert forall|i: int| 0 <= i < taken(answers) implies all[i] is Ok by {
        assert(all[i] == answers[i]);
    }
    assert(all[taken(answers) as int] == answers[taken(answers) as int]);
    lemma_taken(all, taken(answers));
}

/// Another write is due exactly if every write so far was taken and fewer were made than are to be.
pub proof fn law_another_write_is_due<E>(count: nat, answers: Seq<Result<(), E>>)
    ensures
        another_is_due(count, answers) <==> answers.len() < count && forall|i: int|
            0 <= i < answers.len() ==> answers[i] is Ok,
{
    law_taken_ends_at_the_first_failure(answers);
    if answers.len() < count && forall|i: int| 0 <= i < answers.len() ==> answers[i] is Ok {
        lemma_taken(answers, answers.len());
    }
}

/// What is left of some strings, one after the other, of which only the first were taken, is what
/// all of them begin with.
pub proof fn law_a_failure_leaves_a_prefix(strings: Seq<&str>, count: nat)
    requires
        count <= strings.len(),
    ensures
        joined(strings.take(count as int)).is_prefix_of(joined(strings)),
    decreases strings.len(),
{
    if count == strings.len() {
        assert(strings.take(count as int) =~= strings);
    } else {
        let fewer = strings.drop_last();
        law_a_failure_leaves_a_prefix(fewer, count);
        assert(fewer.take(count as int) =~= strings.take(count as int));
    }
}

/// A string and its bytes leave the same behind, whatever the writer answers: all of them, counted,
/// where they were taken, and nothing where the write failed.
pub proof fn law_strings_and_bytes_agree<E>(
    before: Output,
    after_string: Output,
    after_bytes: Output,
    s: Seq<char>,
    bytes: Seq<u8>,
    answer: Result<(), E>,
)
    requires
        bytes == encode_utf8(s),
        after_string.answered(before, encode_utf8(s), answer),
        after_bytes.answered(before, bytes, answer),
    ensures
        after_string.contents() == after_bytes.contents(),
        after_string.written() == after_bytes.written(),
        answer is Ok ==> {
            &&& after_bytes.contents() == before.contents() + bytes
            &&& after_bytes.written() == before.written() + bytes.len()
        },
        answer is Err ==> after_string == before && after_bytes == before,
{
}

/// Writing strings one by one, each with its answer, leaves what writing them together leaves.
pub proof fn law_writing_many_is_writing_each<E>(
    before: Output,
    now: Output,
    after: Output,
    strings: Seq<&str>,
    answers: Seq<Result<(), E>>,
    answer: Result<(), E>,
)
    requires
        another_is_due(strings.len(), answers),
        now.appended(before, joined(strings.take(answers.len() as int))),
        after.answered(now, encode_utf8(strings[answers.len() as int]@), answer),
    ensures
        after.appended(before, joined(strings.take(taken(answers.push(answer)) as int))),
{
    let all = answers.push(answer);
    let count = answers.len();
    law_taken_ends_at_the_first_failure(answers);
    assert forall|i: int| 0 <= i < count implies all[i] is Ok by {
        assert(all[i] == answers[i]);
    }
    if answer is Ok {
        lemma_taken(all, all.len());
        let more = strings.take((count + 1) as int);
        assert(more.drop_last() =~= strings.take(count as int));
        assert(more.last() == strings[count as int]);
        law_writes_join(
            before,
            now,
            after,
            joined(strings.take(count as int)),
            encode_utf8(strings[count as int]@),
        );
    } else {
        lemma_taken(all, count);
    }
}

/// Returns the string that the writer is handed next, given its answers so far: nothing once a
/// write failed or all strings were taken.
pub fn next_to_write<'a, const N: usize, E>(
    arr: [&'a str; N],
    answers: &Vec<Result<(), E>>,
) -> (r: Option<&'a str>)
    ensures
        r is Some <==> another_is_due(N as nat, answers@),
        r matches Some(s) ==> s == arr@[answers@.len() as int],
{
    let mut i: usize = 0;
    while i < answers.len()
        invariant
            i <= answers@.len(),
            forall|j: int| 0 <= j < i ==> answers@[j] is Ok,
        decreases answers@.len() - i,
    {
        if answers[i].is_err() {
            proof {
                lemma_taken(answers@, i as nat);
            }
            return None;
        }
        i = i + 1;
    }
    proof {
        lemma_taken(answers@, i as nat);
    }
    if i < N {
        Some(arr[i])
    } else {
        None
    }
}

impl Output {
    /// The writer was handed `text`, and this is what its answer left of `before`.
    pub open spec fn answered<E>(
        self,
        before: Output,
        text: Seq<u8>,
        answer: Result<(), E>,
    ) -> bool {
        match answer {
            Ok(_) => self.appended(before, text),
            Err(_) => self == before,
        }
    }

    /// Write the string to the output if the writer took it, and hand on the writer's answer.
    pub fn write_answered<E>(&mut self, s: &str, answer: Result<(), E>) -> (r: Result<(), E>)
        requires
            old(self).wf(),
        ensures
            r == answer,
            final(self).answered(*old(self), encode_utf8(s@), answer),
    {
        self.write_bytes_answered(s.as_bytes(), answer)
    }

    /// Write all bytes to the output if the writer took them, and hand on the writer's answer.
    pub fn write_bytes_answered<E>(&mut self, bytes: &[u8], answer: Result<(), E>) -> (r: Result<
        (),
        E,
    >)
        requires
            old(self).wf(),
        ensures
            r == answer,
            final(self).answered(*old(self), bytes@, answer),
    {
        if answer.is_ok() {
            self.write_bytes(bytes);
        }
        answer
    }

    /// Write the strings to the output (in order) up to the first that the writer did not take, and
    /// hand on its answer to that one.
    pub fn write_many_answered<const N: usize, E>(
        &mut self,
        arr: [&str; N],
        answers: Vec<Result<(), E>>,
    ) -> (r: Result<(), E>)
        requires
            old(self).wf(),
            !another_is_due(N as nat, answers@),
        ensures
            taken(answers@) >= N ==> {
                &&& r is Ok
                &&& final(self).appended(*old(self), joined(arr@))
            },
            taken(answers@) < N ==> {
                &&& r is Err
                &&& r == answers@[taken(answers@) as int]
                &&& final(self).appended(
                    *old(self),
                    joined(arr@.take(taken(answers@) as int)),
                )
            },
    {
        let mut rest: Vec<Result<(), E>> = answers;
        let mut i: usize = 0;
        assert(arr@.take(0) == Seq::<&str>::empty());
        while i < N
            invariant
                i <= N,
                arr@.len() == N,
                rest@ == answers@,
                !another_is_due(N as nat, answers@),
                i <= answers@.len(),
                forall|j: int| 0 <= j < i ==> answers@[j] is Ok,
                self.appended(*old(self), joined(arr@.take(i as int))),
            decreases N - i,
        {
            proof {
                lemma_taken(answers@, i as nat);
            }
            if rest[i].is_err() {
                return rest.remove(i);
            }
            let ghost before: Output = *self;
            self.write(arr[i]);
            i = i + 1;
            assert(arr@.take(i as int).drop_last() == arr@.take(i - 1));
            proof {
                law_writes_join(
                    *old(self),
                    before,
                    *self,
                    joined(arr@.take(i - 1)),
                    encode_utf8(arr@[i - 1]@),
                );
            }
        }
        assert(arr@.take(N as int) == arr@);
        proof {
            lemma_taken(answers@, i as nat);
        }
        Ok(())
    }
}

} // verus!
