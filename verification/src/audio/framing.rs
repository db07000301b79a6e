//! Cutting sample streams into fixed-size frames, and calls of a stateful engine
//! on the frames one after the other.

use vstd::prelude::*;

verus! {

/// A number of silent samples.
pub open spec fn silence(count: nat) -> Seq<i16> {
    Seq::new(count, |i: int| 0i16)
}

/// Number of samples in the complete blocks at the front of a stream.
pub open spec fn whole(count: nat, size: nat) -> nat {
    count / size * size
}

/// The complete blocks at the front of a stream.
pub open spec fn blocks(samples: Seq<i16>, size: nat) -> Seq<Seq<i16>> {
    Seq::new(
        samples.len() / size,
        |i: int| samples.subrange(i * size, i * size + size),
    )
}

/// The stream with silence appended up to a complete block.
pub open spec fn padded(samples: Seq<i16>, size: nat) -> Seq<i16> {
    if samples.len() % size == 0 {
        samples
    } else {
        samples + silence((size - samples.len() % size) as nat)
    }
}

/// Pieces of a stream put together in order.
pub open spec fn joined(parts: Seq<Seq<i16>>) -> Seq<i16>
    decreases parts.len(),
{
    if parts.len() == 0 {
        Seq::empty()
    } else {
        joined(parts.drop_last()) + parts.last()
    }
}

/// Calls that were made on a stateful engine, one after the other: the states
/// that the engine went through, from the one before the first call to the one
/// after the last, and the answers.
#[verifier::ext_equal]
pub struct Calls<S, O, E> {
    pub states: Seq<S>,
    pub answers: Seq<Result<O, E>>,
}

impl<S, O, E> Calls<S, O, E> {
    /// No calls on an engine in a state.
    pub open spec fn none(from: S) -> Self {
        Calls { states: seq![from], answers: Seq::empty() }
    }

    /// One more call, which left the engine in a state and gave an answer.
    pub open spec fn and(self, state: S, answer: Result<O, E>) -> Self {
        Calls { states: self.states.push(state), answers: self.answers.push(answer) }
    }

    /// State of the engine after the last call.
    pub open spec fn end(self) -> S {
        self.states.last()
    }

    /// Whether exactly one call was made on each input, in order, up to the
    /// first failure: each call starts in the state that the call before it
    /// left, every call before the last succeeded, and inputs stay unanswered
    /// only behind a failure.
    pub open spec fn is_run<I>(
        self,
        from: S,
        inputs: Seq<I>,
        step: spec_fn(S, I, S, Result<O, E>) -> bool,
    ) -> bool {
        &&& self.follows(from, inputs, step)
        &&& forall|i: int|
            0 <= i < self.answers.len() - 1 ==> (#[trigger] self.answers[i]) is Ok
        &&& self.answers.len() < inputs.len() ==> failed(self.answers)
    }

    /// Whether each of these is a call on the next input.
    pub open spec fn follows<I>(
        self,
        from: S,
        inputs: Seq<I>,
        step: spec_fn(S, I, S, Result<O, E>) -> bool,
    ) -> bool {
        &&& self.answers.len() <= inputs.len()
        &&& self.states.len() == self.answers.len() + 1
        &&& self.states[0] == from
        &&& forall|i: int|
            0 <= i < self.answers.len() ==> step(
                self.states[i],
                #[trigger] inputs[i],
                self.states[i + 1],
                self.answers[i],
            )
    }

    /// A run makes one call per input, up to and including the first failure;
    /// without inputs it makes none and leaves the engine as it is.
    pub proof fn law_run_makes_one_call_per_input<I>(
        self,
        from: S,
        inputs: Seq<I>,
        step: spec_fn(S, I, S, Result<O, E>) -> bool,
    )
        requires
            self.is_run(from, inputs, step),
        ensures
            self.answers.len() <= inputs.len(),
            !failed(self.answers) <==> (self.answers.len() == inputs.len() && forall|i: int|
                0 <= i < self.answers.len() ==> (#[trigger] self.answers[i]) is Ok),
            forall|i: int|
                0 <= i < self.answers.len() && (#[trigger] self.answers[i]) is Err
                    ==> self.answers.len() == i + 1,
            inputs.len() == 0 ==> self.end() == from,
    {
    }

    /// These calls and the ones made right after them.
    pub open spec fn followed_by(self, next: Self) -> Self {
        Calls { states: self.states + next.states.skip(1), answers: self.answers + next.answers }
    }

    /// It does not matter to an engine whether inputs come together or in two
    /// parts: a successful run on the first part and a run on the second part
    /// that starts where the first ended are one run on both.
    pub proof fn law_successive_runs_are_one_run<I>(
        self,
        next: Self,
        from: S,
        first: Seq<I>,
        second: Seq<I>,
        step: spec_fn(S, I, S, Result<O, E>) -> bool,
    )
        requires
            self.is_run(from, first, step),
            !failed(self.answers),
            next.is_run(self.end(), second, step),
        ensures
            self.followed_by(next).is_run(from, first + second, step),
            self.followed_by(next).end() == next.end(),
    {
        let all = self.followed_by(next);
        let inputs = first + second;
        let count = self.answers.len() as int;
        assert forall|i: int| 0 <= i < next.states.len() implies all.states[count + i]
            == #[trigger] next.states[i] by {}
        assert forall|i: int| 0 <= i < all.answers.len() implies step(
            all.states[i],
            #[trigger] inputs[i],
            all.states[i + 1],
            all.answers[i],
        ) by {
            if i < count {
                assert(inputs[i] == first[i]);
                assert(all.states[i] == self.states[i]);
                assert(all.states[i + 1] == self.states[i + 1]);
            } else {
                assert(inputs[i] == second[i - count]);
                assert(all.states[count + (i - count)] == next.states[i - count]);
                assert(all.states[count + (i - count + 1)] == next.states[i - count + 1]);
            }
        }
        assert forall|i: int| 0 <= i < all.answers.len() - 1 implies (
        #[trigger] all.answers[i]) is Ok by {
            if i == count - 1 {
                assert(all.answers[i] == self.answers.last());
            } else if i >= count {
                assert(all.answers[i] == next.answers[i - count]);
            }
        }
        if all.answers.len() < inputs.len() {
            assert(all.answers.last() == next.answers.last());
        }
        if next.answers.len() == 0 {
            assert(all.states =~= self.states);
        }
    }

    /// The first `count` of these calls.
    pub open spec fn first(self, count: int) -> Self {
        Calls { states: self.states.take(count + 1), answers: self.answers.take(count) }
    }

    /// These calls but for the first `count`.
    pub open spec fn rest(self, count: int) -> Self {
        Calls { states: self.states.skip(count), answers: self.answers.skip(count) }
    }

    /// A successful run on inputs that come in two parts is a successful run on
    /// the first part and one on the second part that starts where the first
    /// ended.
    pub proof fn law_run_is_two_successive_runs<I>(
        self,
        from: S,
        first: Seq<I>,
        second: Seq<I>,
        step: spec_fn(S, I, S, Result<O, E>) -> bool,
    )
        requires
            self.is_run(from, first + second, step),
            !failed(self.answers),
        ensures
            self.first(first.len() as int).is_run(from, first, step),
            !failed(self.first(first.len() as int).answers),
            self.rest(first.len() as int).is_run(
                self.first(first.len() as int).end(),
                second,
                step,
            ),
            !failed(self.rest(first.len() as int).answers),
            self.first(first.len() as int).followed_by(self.rest(first.len() as int)) == self,
            self.rest(first.len() as int).end() == self.end(),
    {
        let inputs = first + second;
        let count = first.len() as int;
        let one = self.first(count);
        let other = self.rest(count);
        assert forall|i: int| 0 <= i < self.answers.len() implies (
        #[trigger] self.answers[i]) is Ok by {
            if i == self.answers.len() - 1 {
                assert(self.answers.last() == self.answers[i]);
            }
        }
        assert forall|i: int| 0 <= i < one.answers.len() implies step(
            one.states[i],
            #[trigger] first[i],
            one.states[i + 1],
            one.answers[i],
        ) by {
            assert(inputs[i] == first[i]);
        }
        assert forall|i: int| 0 <= i < other.answers.len() implies step(
            other.states[i],
            #[trigger] second[i],
            other.states[i + 1],
            other.answers[i],
        ) by {
            assert(inputs[count + i] == second[i]);
        }
        assert(one.followed_by(other).states =~= self.states);
        assert(one.followed_by(other).answers =~= self.answers);
    }

    /// An engine that leaves no choice has one run on given inputs.
    pub proof fn law_function_has_one_run<I>(
        self,
        other: Self,
        from: S,
        inputs: Seq<I>,
        step: spec_fn(S, I, S, Result<O, E>) -> bool,
    )
        requires
            is_function(step),
            self.is_run(from, inputs, step),
            other.is_run(from, inputs, step),
        ensures
            self == other,
    {
        let shared = if self.answers.len() <= other.answers.len() {
            self.answers.len()
        } else {
            other.answers.len()
        };
        self.lemma_same_start(other, from, inputs, step, shared);
        if self.answers.len() < other.answers.len() {
            assert(other.answers[self.answers.len() - 1] is Ok);
            assert(self.answers.last() == other.answers[self.answers.len() - 1]);
        }
        if other.answers.len() < self.answers.len() {
            assert(self.answers[other.answers.len() - 1] is Ok);
            assert(other.answers.last() == self.answers[other.answers.len() - 1]);
        }
        assert(self.states =~= other.states);
        assert(self.answers =~= other.answers);
    }

    /// Two runs of an engine that leaves no choice agree as far as both go.
    proof fn lemma_same_start<I>(
        self,
        other: Self,
        from: S,
        inputs: Seq<I>,
        step: spec_fn(S, I, S, Result<O, E>) -> bool,
        count: nat,
    )
        requires
            is_function(step),
            self.follows(from, inputs, step),
            other.follows(from, inputs, step),
            count <= self.answers.len(),
            count <= other.answers.len(),
        ensures
            forall|i: int| 0 <= i <= count ==> #[trigger] self.states[i] == other.states[i],
            forall|i: int| 0 <= i < count ==> #[trigger] self.answers[i] == other.answers[i],
        decreases count,
    {
        if count > 0 {
            let last = count - 1;
            self.lemma_same_start(other, from, inputs, step, last as nat);
            let input = inputs[last];
            assert(self.states[last] == other.states[last]);
            assert(step(
                self.states[last],
                input,
                self.states[last + 1],
                self.answers[last],
            ));
            assert(step(
                other.states[last],
                input,
                other.states[last + 1],
                other.answers[last],
            ));
        }
    }

    /// One more call on the next input keeps the calls in step.
    pub proof fn lemma_and<I>(
        self,
        from: S,
        inputs: Seq<I>,
        step: spec_fn(S, I, S, Result<O, E>) -> bool,
        state: S,
        answer: Result<O, E>,
    )
        requires
            self.follows(from, inputs, step),
            self.answers.len() < inputs.len(),
            step(self.end(), inputs[self.answers.len() as int], state, answer),
        ensures
            self.and(state, answer).follows(from, inputs, step),
            self.and(state, answer).end() == state,
    {
        let all = self.and(state, answer);
        assert forall|i: int| 0 <= i < all.answers.len() implies step(
            all.states[i],
            #[trigger] inputs[i],
            all.states[i + 1],
            all.answers[i],
        ) by {
            if i < self.answers.len() {
                assert(all.states[i] == self.states[i]);
                assert(all.states[i + 1] == self.states[i + 1]);
                assert(all.answers[i] == self.answers[i]);
            }
        }
    }
}

/// Whether a call leaves no choice: its outcome follows from the state of the
/// engine and the input.
pub open spec fn is_function<S, I, O, E>(
    step: spec_fn(S, I, S, Result<O, E>) -> bool,
) -> bool {
    forall|before: S, input: I, one: S, this: Result<O, E>, other: S, that: Result<O, E>|
        #[trigger] step(before, input, one, this) && #[trigger] step(before, input, other, that)
            ==> one == other && this == that
}

/// Whether a run ended in a failure.
pub open spec fn failed<O, E>(answers: Seq<Result<O, E>>) -> bool {
    answers.len() > 0 && answers.last() is Err
}

/// What the successful answers of a run hold.
pub open spec fn results<O, E>(answers: Seq<Result<O, E>>) -> Seq<O> {
    answers.map_values(|answer: Result<O, E>| answer->Ok_0)
}

/// The blocks of a stream put together are its complete part.
pub proof fn law_blocks_join_to_stream(samples: Seq<i16>, size: nat)
    requires
        size > 0,
    ensures
        joined(blocks(samples, size)) == samples.take(whole(samples.len(), size) as int),
        whole(samples.len(), size) <= samples.len(),
        samples.len() < whole(samples.len(), size) + size,
{
    lemma_blocks_prefix(samples, size, samples.len() / size);
    assert(blocks(samples, size).take((samples.len() / size) as int) =~= blocks(samples, size));
    vstd::arithmetic::div_mod::lemma_fundamental_div_mod(samples.len() as int, size as int);
    assert(whole(samples.len(), size) == size * (samples.len() / size)) by (nonlinear_arith)
        requires
            whole(samples.len(), size) == samples.len() / size * size,
    ;
}

/// The blocks of a padded stream put together are the stream followed by
/// silence that is shorter than one block.
pub proof fn law_padded_blocks_keep_stream(samples: Seq<i16>, size: nat)
    requires
        size > 0,
    ensures
        joined(blocks(padded(samples, size), size)) == padded(samples, size),
        padded(samples, size).take(samples.len() as int) == samples,
        padded(samples, size).len() < samples.len() + size,
        padded(samples, size).len() % size == 0,
{
    let all = padded(samples, size);
    lemma_padded_len(samples, size);
    law_blocks_join_to_stream(all, size);
    vstd::arithmetic::div_mod::lemma_fundamental_div_mod(all.len() as int, size as int);
    assert(whole(all.len(), size) == size * (all.len() / size)) by (nonlinear_arith)
        requires
            whole(all.len(), size) == all.len() / size * size,
    ;
    assert(all.take(all.len() as int) =~= all);
    assert(all.take(samples.len() as int) =~= samples);
}

/// A padded stream is a whole number of blocks long.
pub proof fn lemma_padded_len(samples: Seq<i16>, size: nat)
    requires
        size > 0,
    ensures
        padded(samples, size).len() % size == 0,
        padded(samples, size).len() < samples.len() + size,
        samples.len() <= padded(samples, size).len(),
{
    let rest = samples.len() % size;
    if rest != 0 {
        vstd::arithmetic::div_mod::lemma_fundamental_div_mod(samples.len() as int, size as int);
        let quotient = (samples.len() / size) as int;
        let all = padded(samples, size).len() as int;
        assert(all == size * quotient + size);
        assert(size * quotient + size == size * (quotient + 1)) by (nonlinear_arith);
        vstd::arithmetic::div_mod::lemma_fundamental_div_mod_converse(
            all,
            size as int,
            quotient + 1,
            0,
        );
    }
}

/// The first blocks of a stream put together are its front.
proof fn lemma_blocks_prefix(samples: Seq<i16>, size: nat, count: nat)
    requires
        size > 0,
        count <= samples.len() / size,
    ensures
        count * size <= samples.len(),
        joined(blocks(samples, size).take(count as int)) == samples.take((count * size) as int),
    decreases count,
{
    let all = blocks(samples, size);
    vstd::arithmetic::div_mod::lemma_fundamental_div_mod(samples.len() as int, size as int);
    assert(count * size <= samples.len()) by (nonlinear_arith)
        requires
            count <= samples.len() / size,
            samples.len() == size * (samples.len() / size) + samples.len() % size,
            0 <= samples.len() % size,
            size > 0,
    ;
    if count == 0 {
        assert(all.take(0) =~= Seq::empty());
        assert(count * size == 0) by (nonlinear_arith)
            requires
                count == 0,
        ;
        assert(samples.take(0) =~= Seq::empty());
    } else {
        let before = (count - 1) as nat;
        lemma_blocks_prefix(samples, size, before);
        assert(all.take(count as int).drop_last() =~= all.take(before as int));
        assert(before * size + size == count * size) by (nonlinear_arith)
            requires
                before + 1 == count,
        ;
        assert(all.take(count as int).last() == samples.subrange(
            (before * size) as int,
            (before * size) as int + size,
        ));
        assert(samples.take((count * size) as int) =~= samples.take((before * size) as int)
            + samples.subrange((before * size) as int, (before * size) as int + size));
    }
}

/// A stream without a complete block has no blocks.
pub proof fn lemma_no_blocks(samples: Seq<i16>, size: nat)
    requires
        samples.len() < size,
    ensures
        blocks(samples, size) == Seq::<Seq<i16>>::empty(),
{
    vstd::arithmetic::div_mod::lemma_basic_div(samples.len() as int, size as int);
    assert(blocks(samples, size) =~= Seq::empty());
}

/// The blocks of a stream are its first block and the blocks of the rest.
pub proof fn lemma_first_block(samples: Seq<i16>, size: nat)
    requires
        0 < size <= samples.len(),
    ensures
        blocks(samples, size) == seq![samples.take(size as int)] + blocks(
            samples.skip(size as int),
            size,
        ),
{
    let rest = samples.skip(size as int);
    let n = samples.len() as int;
    vstd::arithmetic::div_mod::lemma_div_minus_one(n, size as int);
    assert(rest.len() as int / size as int == n / size as int - 1);
    let parts = seq![samples.take(size as int)] + blocks(rest, size);
    assert(parts.len() == blocks(samples, size).len());
    assert forall|i: int| 0 <= i < parts.len() implies #[trigger] parts[i] == blocks(
        samples,
        size,
    )[i] by {
        if i == 0 {
            assert(samples.subrange(0 * size as int, 0 * size + size as int) =~= samples.take(
                size as int,
            ));
        } else {
            assert((i - 1) * size + size == i * size) by (nonlinear_arith);
            assert(0 <= (i - 1) * size) by (nonlinear_arith)
                requires
                    i >= 1,
                    size > 0,
            ;
            vstd::arithmetic::div_mod::lemma_fundamental_div_mod(n, size as int);
            assert(i * size + size <= n) by (nonlinear_arith)
                requires
                    i + 1 <= n / size as int,
                    n == size * (n / size as int) + n % size as int,
                    n % size as int >= 0,
                    size > 0,
            ;
            assert(rest.subrange((i - 1) * size, (i - 1) * size + size) =~= samples.subrange(
                i * size,
                i * size + size,
            ));
        }
    }
    assert(parts =~= blocks(samples, size));
}

/// Cutting a stream in two pieces gives the same blocks as cutting it whole,
/// if the incomplete rest of the first piece is put in front of the second.
pub proof fn law_blocks_do_not_depend_on_chunking(first: Seq<i16>, second: Seq<i16>, size: nat)
    requires
        size > 0,
    ensures
        blocks(first + second, size) == blocks(first, size) + blocks(
            first.skip(whole(first.len(), size) as int) + second,
            size,
        ),
    decreases first.len(),
{
    if first.len() < size {
        lemma_no_blocks(first, size);
        vstd::arithmetic::div_mod::lemma_basic_div(first.len() as int, size as int);
        assert(whole(first.len(), size) == 0) by (nonlinear_arith)
            requires
                first.len() / size == 0,
                whole(first.len(), size) == first.len() / size * size,
        ;
        assert(first.skip(0) =~= first);
        assert(blocks(first + second, size) =~= blocks(first, size) + blocks(
            first.skip(0) + second,
            size,
        ));
    } else {
        let rest = first.skip(size as int);
        law_blocks_do_not_depend_on_chunking(rest, second, size);
        lemma_first_block(first, size);
        lemma_first_block(first + second, size);
        assert((first + second).take(size as int) =~= first.take(size as int));
        assert((first + second).skip(size as int) =~= rest + second);
        law_blocks_join_to_stream(rest, size);
        vstd::arithmetic::div_mod::lemma_div_minus_one(first.len() as int, size as int);
        assert(whole(first.len(), size) == whole(rest.len(), size) + size) by (nonlinear_arith)
            requires
                whole(first.len(), size) == first.len() / size * size,
                whole(rest.len(), size) == rest.len() / size * size,
                rest.len() / size == first.len() / size - 1,
        ;
        assert(first.skip(whole(first.len(), size) as int) =~= rest.skip(
            whole(rest.len(), size) as int,
        ));
        assert(blocks(first + second, size) =~= blocks(first, size) + blocks(
            first.skip(whole(first.len(), size) as int) + second,
            size,
        ));
    }
}

/// Streams of complete blocks have the blocks of each, one after the other.
pub proof fn lemma_blocks_of_complete_streams(first: Seq<i16>, second: Seq<i16>, size: nat)
    requires
        size > 0,
        first.len() % size == 0,
    ensures
        blocks(first + second, size) == blocks(first, size) + blocks(second, size),
{
    law_blocks_do_not_depend_on_chunking(first, second, size);
    lemma_whole(first.len(), size);
    assert(first.skip(first.len() as int) + second =~= second);
}

/// A number of complete blocks is all whole.
pub proof fn lemma_whole(count: nat, size: nat)
    requires
        size > 0,
        count % size == 0,
    ensures
        whole(count, size) == count,
{
    vstd::arithmetic::div_mod::lemma_fundamental_div_mod(count as int, size as int);
    assert(count / size * size == size * (count / size)) by (nonlinear_arith);
}

/// Pieces put together in two steps are the pieces put together.
pub proof fn lemma_joined_append(first: Seq<Seq<i16>>, second: Seq<Seq<i16>>)
    ensures
        joined(first + second) == joined(first) + joined(second),
    decreases second.len(),
{
    if second.len() == 0 {
        assert(first + second =~= first);
        assert(joined(first) + joined(second) =~= joined(first));
    } else {
        lemma_joined_append(first, second.drop_last());
        assert((first + second).drop_last() =~= first + second.drop_last());
        assert((first + second).last() == second.last());
        assert(joined(first) + joined(second) =~= joined(first) + joined(second.drop_last())
            + second.last());
    }
}

/// Pieces of equal length put together hold the samples of the pieces in order.
pub proof fn lemma_joined_samples(parts: Seq<Seq<i16>>, size: nat)
    requires
        size > 0,
        forall|i: int| 0 <= i < parts.len() ==> (#[trigger] parts[i]).len() == size,
    ensures
        joined(parts).len() == parts.len() * size,
        forall|k: int|
            0 <= k < joined(parts).len() ==> #[trigger] joined(parts)[k] == parts[k
                / size as int][k % size as int],
    decreases parts.len(),
{
    lemma_joined_len(parts, size);
    if parts.len() > 0 {
        let earlier = parts.drop_last();
        lemma_joined_samples(earlier, size);
        let count = earlier.len() as int;
        assert(parts.len() * size == count * size + size) by (nonlinear_arith)
            requires
                parts.len() == count + 1,
        ;
        assert forall|k: int| 0 <= k < joined(parts).len() implies #[trigger] joined(parts)[k]
            == parts[k / size as int][k % size as int] by {
            if k < count * size {
                vstd::arithmetic::div_mod::lemma_fundamental_div_mod(k, size as int);
                assert(joined(parts)[k] == joined(earlier)[k]);
                assert(0 <= k / size as int && k / size as int * size <= k) by (nonlinear_arith)
                    requires
                        k >= 0,
                        size > 0,
                        k == size * (k / size as int) + k % size as int,
                        k % size as int >= 0,
                ;
                assert((k / size as int) < count) by (nonlinear_arith)
                    requires
                        k / size as int * size <= k,
                        k < count * size,
                        size > 0,
                ;
                assert(earlier[k / size as int] == parts[k / size as int]);
            } else {
                vstd::arithmetic::div_mod::lemma_fundamental_div_mod_converse(
                    k,
                    size as int,
                    count,
                    k - count * size,
                );
                assert(joined(parts)[k] == parts.last()[k - count * size]);
            }
        }
    }
}

/// Pieces of equal length put together are as long as their number says.
pub proof fn lemma_joined_len(parts: Seq<Seq<i16>>, size: nat)
    requires
        forall|i: int| 0 <= i < parts.len() ==> (#[trigger] parts[i]).len() == size,
    ensures
        joined(parts).len() == parts.len() * size,
    decreases parts.len(),
{
    if parts.len() > 0 {
        lemma_joined_len(parts.drop_last(), size);
        assert((parts.len() - 1) * size + size == parts.len() * size) by (nonlinear_arith);
    } else {
        assert(parts.len() * size == 0) by (nonlinear_arith)
            requires
                parts.len() == 0,
        ;
    }
}

} // verus!
