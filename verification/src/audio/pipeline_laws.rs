//! What holds over successive outgoing calls of a pipeline: the packets of a
//! microphone stream do not depend on how it is cut into chunks.

use vstd::prelude::*;

use crate::audio::codec;
use crate::audio::codec::EncodeFault;
use crate::audio::framing;
use crate::audio::pipeline;
use crate::audio::pipeline::{PipelineError, PipelineModel};
use crate::audio::processor;
use crate::audio::processor::{EngineFault, FRAME_SAMPLES};

verus! {

/// How far an outgoing stream has come: the pipeline, the processing engine and
/// the encoder between two calls, and the packets of all calls so far.
#[verifier::ext_equal]
pub struct Progress<P, S> {
    pub pipeline: PipelineModel,
    pub engine: P,
    pub encoder: S,
    pub packets: Seq<Seq<u8>>,
}

/// A pipeline whose processor holds no microphone audio, as a new one and a
/// reset one do, and as every successful outgoing call leaves it.
pub open spec fn is_idle(pipeline: PipelineModel) -> bool {
    &&& pipeline.wf()
    &&& pipeline.processor.capture.len() == 0
    &&& pipeline.processor.carry.len() == 0
}

/// Whether a successful outgoing call on a chunk can lead from here to there.
pub open spec fn sends<
    P,
    S,
    C: Fn(P, [i16; FRAME_SAMPLES]) -> (P, Result<[i16; FRAME_SAMPLES], EngineFault>),
    F: Fn(S, &[i16], usize) -> (S, Result<Vec<u8>, EncodeFault>),
>(
    before: Progress<P, S>,
    mic: Seq<i16>,
    capture: C,
    encode: F,
    after: Progress<P, S>,
) -> bool {
    exists|chunk: Seq<i16>, made: Seq<Seq<u8>>| #[trigger]
        before.pipeline.sent(
            mic,
            before.engine,
            capture,
            before.encoder,
            encode,
            after.pipeline,
            chunk,
            made,
            (after.engine, after.encoder, Ok::<(), PipelineError>(())),
        ) && after.packets == before.packets + made
}

/// Whether successful outgoing calls on these chunks, one after the other, can
/// lead from here to there.
pub open spec fn sends_all<
    P,
    S,
    C: Fn(P, [i16; FRAME_SAMPLES]) -> (P, Result<[i16; FRAME_SAMPLES], EngineFault>),
    F: Fn(S, &[i16], usize) -> (S, Result<Vec<u8>, EncodeFault>),
>(
    before: Progress<P, S>,
    chunks: Seq<Seq<i16>>,
    capture: C,
    encode: F,
    after: Progress<P, S>,
) -> bool
    decreases chunks.len(),
{
    if chunks.len() == 0 {
        after == before
    } else {
        exists|between: Progress<P, S>|
            sends_all(before, chunks.drop_last(), capture, encode, between) && #[trigger] sends(
                between,
                chunks.last(),
                capture,
                encode,
                after,
            )
    }
}

/// Two successful outgoing calls in a row are one call on the two chunks
/// together, with the packets of both.
pub proof fn law_successive_calls_are_one_call<
    P,
    S,
    C: Fn(P, [i16; FRAME_SAMPLES]) -> (P, Result<[i16; FRAME_SAMPLES], EngineFault>),
    F: Fn(S, &[i16], usize) -> (S, Result<Vec<u8>, EncodeFault>),
>(
    pipeline: PipelineModel,
    first: Seq<i16>,
    second: Seq<i16>,
    capture: C,
    encode: F,
    engines: (P, S),
    between: PipelineModel,
    engines_between: (P, S),
    after: PipelineModel,
    engines_after: (P, S),
    chunks: (Seq<i16>, Seq<i16>),
    packets: (Seq<Seq<u8>>, Seq<Seq<u8>>),
)
    requires
        is_idle(pipeline),
        pipeline.sent(
            first,
            engines.0,
            capture,
            engines.1,
            encode,
            between,
            chunks.0,
            packets.0,
            (engines_between.0, engines_between.1, Ok(())),
        ),
        between.sent(
            second,
            engines_between.0,
            capture,
            engines_between.1,
            encode,
            after,
            chunks.1,
            packets.1,
            (engines_after.0, engines_after.1, Ok(())),
        ),
    ensures
        is_idle(between),
        is_idle(after),
        exists|chunk: Seq<i16>| #[trigger]
            pipeline.sent(
                first + second,
                engines.0,
                capture,
                engines.1,
                encode,
                after,
                chunk,
                packets.0 + packets.1,
                (engines_after.0, engines_after.1, Ok(())),
            ),
{
    let none = Seq::<Seq<u8>>::empty();
    let start = Progress { pipeline, engine: engines.0, encoder: engines.1, packets: none };
    let middle = Progress {
        pipeline: between,
        engine: engines_between.0,
        encoder: engines_between.1,
        packets: packets.0,
    };
    let end = Progress {
        pipeline: after,
        engine: engines_after.0,
        encoder: engines_after.1,
        packets: packets.0 + packets.1,
    };
    assert(middle.packets =~= start.packets + packets.0);
    assert(start.pipeline.sent(
        first,
        start.engine,
        capture,
        start.encoder,
        encode,
        middle.pipeline,
        chunks.0,
        packets.0,
        (middle.engine, middle.encoder, Ok::<(), PipelineError>(())),
    ));
    assert(sends(start, first, capture, encode, middle));
    assert(sends(middle, second, capture, encode, end));
    lemma_successive_steps(start, first, middle, second, end, capture, encode);
    let (chunk, made) = choose|chunk: Seq<i16>, made: Seq<Seq<u8>>| #[trigger]
        pipeline.sent(
            first + second,
            engines.0,
            capture,
            engines.1,
            encode,
            after,
            chunk,
            made,
            (engines_after.0, engines_after.1, Ok::<(), PipelineError>(())),
        ) && end.packets == none + made;
    assert(made =~= packets.0 + packets.1);
}

/// A successful outgoing call on a chunk that comes in two parts is two
/// successful calls in a row, one on each part.
pub proof fn law_call_is_two_successive_calls<
    P,
    S,
    C: Fn(P, [i16; FRAME_SAMPLES]) -> (P, Result<[i16; FRAME_SAMPLES], EngineFault>),
    F: Fn(S, &[i16], usize) -> (S, Result<Vec<u8>, EncodeFault>),
>(
    before: Progress<P, S>,
    first: Seq<i16>,
    second: Seq<i16>,
    after: Progress<P, S>,
    capture: C,
    encode: F,
)
    requires
        is_idle(before.pipeline),
        sends(before, first + second, capture, encode, after),
    ensures
        exists|between: Progress<P, S>| #[trigger]
            sends(before, first, capture, encode, between) && sends(
                between,
                second,
                capture,
                encode,
                after,
            ),
{
    let (all_calls, all_codings) = lemma_runs_of_a_call(
        before,
        first + second,
        after,
        capture,
        encode,
    );
    let pipeline = before.pipeline;
    let mid = PipelineModel { pending: pipeline.incomplete(first), ..pipeline };
    pipeline::law_outgoing_audio_is_conserved(pipeline, first);
    pipeline::law_outgoing_audio_is_conserved(mid, second);
    let count = frames(pipeline, first).len() as int;
    lemma_frames_of_two_chunks(pipeline, first, second);
    all_calls.law_run_is_two_successive_runs(
        before.engine,
        frames(pipeline, first),
        frames(mid, second),
        processor::capturing(capture),
    );
    let calls = all_calls.first(count);
    let more_calls = all_calls.rest(count);
    processor::lemma_captured_lengths(capture, before.engine, frames(pipeline, first), calls);
    processor::lemma_captured_lengths(capture, calls.end(), frames(mid, second), more_calls);
    lemma_stages(pipeline, first, second, calls.answers, more_calls.answers);
    lemma_joined_answers(calls.answers, more_calls.answers);
    let parts = codec::encoder_frames(pipeline.codec, processed(calls));
    all_codings.law_run_is_two_successive_runs(
        before.encoder,
        parts,
        codec::encoder_frames(pipeline.codec, processed(more_calls)),
        codec::encoding(encode),
    );
    let codings = all_codings.first(parts.len() as int);
    let more_codings = all_codings.rest(parts.len() as int);
    let between = Progress {
        pipeline: mid,
        engine: calls.end(),
        encoder: codings.end(),
        packets: before.packets + framing::results(codings.answers),
    };
    lemma_call_of_runs(before, first, between, capture, encode, calls, codings);
    assert(framing::results(all_codings.answers) =~= framing::results(codings.answers)
        + framing::results(more_codings.answers));
    assert(after.packets =~= between.packets + framing::results(more_codings.answers));
    lemma_call_of_runs(between, second, after, capture, encode, more_calls, more_codings);
}

/// Any split of a microphone stream sends the same: successful calls on chunks,
/// one after the other, can end in exactly the ways in which one call on the
/// whole stream can, with the same packets, the same engines and the same
/// pipeline.
pub proof fn law_any_split_sends_the_same<
    P,
    S,
    C: Fn(P, [i16; FRAME_SAMPLES]) -> (P, Result<[i16; FRAME_SAMPLES], EngineFault>),
    F: Fn(S, &[i16], usize) -> (S, Result<Vec<u8>, EncodeFault>),
>(
    before: Progress<P, S>,
    chunks: Seq<Seq<i16>>,
    after: Progress<P, S>,
    capture: C,
    encode: F,
)
    requires
        is_idle(before.pipeline),
    ensures
        sends_all(before, chunks, capture, encode, after) <==> sends(
            before,
            framing::joined(chunks),
            capture,
            encode,
            after,
        ),
    decreases chunks.len(),
{
    if chunks.len() == 0 {
        lemma_empty_call(before, after, capture, encode);
    } else {
        let earlier = framing::joined(chunks.drop_last());
        if sends_all(before, chunks, capture, encode, after) {
            let between = choose|between: Progress<P, S>|
                sends_all(before, chunks.drop_last(), capture, encode, between)
                    && #[trigger] sends(between, chunks.last(), capture, encode, after);
            law_any_split_sends_the_same(before, chunks.drop_last(), between, capture, encode);
            lemma_successive_steps(
                before,
                earlier,
                between,
                chunks.last(),
                after,
                capture,
                encode,
            );
        }
        if sends(before, framing::joined(chunks), capture, encode, after) {
            law_call_is_two_successive_calls(
                before,
                earlier,
                chunks.last(),
                after,
                capture,
                encode,
            );
            let between = choose|between: Progress<P, S>| #[trigger]
                sends(before, earlier, capture, encode, between) && sends(
                    between,
                    chunks.last(),
                    capture,
                    encode,
                    after,
                );
            law_any_split_sends_the_same(before, chunks.drop_last(), between, capture, encode);
        }
    }
}

/// The packets of a microphone stream are one per codec frame of its complete
/// blocks, however it is cut into chunks. The samples behind the last complete
/// block wait for later input.
pub proof fn law_a_stream_gives_one_packet_per_frame<
    P,
    S,
    C: Fn(P, [i16; FRAME_SAMPLES]) -> (P, Result<[i16; FRAME_SAMPLES], EngineFault>),
    F: Fn(S, &[i16], usize) -> (S, Result<Vec<u8>, EncodeFault>),
>(
    before: Progress<P, S>,
    chunks: Seq<Seq<i16>>,
    after: Progress<P, S>,
    capture: C,
    encode: F,
)
    requires
        is_idle(before.pipeline),
        sends_all(before, chunks, capture, encode, after),
    ensures
        ({
            let stream = before.pipeline.pending + framing::joined(chunks);
            let block = before.pipeline.block();
            let size = before.pipeline.codec.frame_samples();
            &&& after.packets.len() == before.packets.len() + stream.len() / block * (block
                / size)
            &&& after.packets.take(before.packets.len() as int) == before.packets
            &&& after.pipeline == (PipelineModel {
                pending: stream.skip(stream.len() - stream.len() % block),
                ..before.pipeline
            })
            &&& is_idle(after.pipeline)
        }),
{
    let pipeline = before.pipeline;
    let mic = framing::joined(chunks);
    law_any_split_sends_the_same(before, chunks, after, capture, encode);
    let (calls, codings) = lemma_runs_of_a_call(before, mic, after, capture, encode);
    let stream = pipeline.pending + mic;
    let block = pipeline.block();
    let size = pipeline.codec.frame_samples();
    pipeline::lemma_block(pipeline.codec);
    pipeline.codec.lemma_frame_samples();
    pipeline::law_outgoing_audio_is_conserved(pipeline, mic);
    pipeline::law_complete_frames_are_not_padded(pipeline.codec, processed(calls));
    let count = stream.len() / block;
    vstd::arithmetic::div_mod::lemma_fundamental_div_mod(stream.len() as int, block as int);
    vstd::arithmetic::div_mod::lemma_fundamental_div_mod(block as int, size as int);
    vstd::arithmetic::mul::lemma_mul_is_commutative(count as int, block as int);
    assert(framing::whole(stream.len(), block) == stream.len() - stream.len() % block);
    let per_block = block / size;
    assert(count * block == (count * per_block) * size) by (nonlinear_arith)
        requires
            block == size * per_block,
    ;
    vstd::arithmetic::div_mod::lemma_fundamental_div_mod_converse(
        (count * block) as int,
        size as int,
        (count * per_block) as int,
        0,
    );
    assert(after.packets.take(before.packets.len() as int) =~= before.packets);
}

/// With engines that leave no choice, two splits of one microphone stream end in
/// the same packets, the same engines and the same pipeline.
pub proof fn law_splits_of_a_stream_give_the_same_packets<
    P,
    S,
    C: Fn(P, [i16; FRAME_SAMPLES]) -> (P, Result<[i16; FRAME_SAMPLES], EngineFault>),
    F: Fn(S, &[i16], usize) -> (S, Result<Vec<u8>, EncodeFault>),
>(
    before: Progress<P, S>,
    one: Seq<Seq<i16>>,
    other: Seq<Seq<i16>>,
    after_one: Progress<P, S>,
    after_other: Progress<P, S>,
    capture: C,
    encode: F,
)
    requires
        is_idle(before.pipeline),
        framing::joined(one) == framing::joined(other),
        sends_all(before, one, capture, encode, after_one),
        sends_all(before, other, capture, encode, after_other),
        framing::is_function(processor::capturing(capture)),
        framing::is_function(codec::encoding(encode)),
    ensures
        after_one == after_other,
{
    let mic = framing::joined(one);
    law_any_split_sends_the_same(before, one, after_one, capture, encode);
    law_any_split_sends_the_same(before, other, after_other, capture, encode);
    let (calls, codings) = lemma_runs_of_a_call(before, mic, after_one, capture, encode);
    let (same_calls, same_codings) = lemma_runs_of_a_call(
        before,
        mic,
        after_other,
        capture,
        encode,
    );
    calls.law_function_has_one_run(
        same_calls,
        before.engine,
        frames(before.pipeline, mic),
        processor::capturing(capture),
    );
    codings.law_function_has_one_run(
        same_codings,
        before.encoder,
        codec::encoder_frames(before.pipeline.codec, processed(calls)),
        codec::encoding(encode),
    );
    assert(after_one =~= after_other);
}

/// Two successful steps of an outgoing stream in a row are one.
proof fn lemma_successive_steps<
    P,
    S,
    C: Fn(P, [i16; FRAME_SAMPLES]) -> (P, Result<[i16; FRAME_SAMPLES], EngineFault>),
    F: Fn(S, &[i16], usize) -> (S, Result<Vec<u8>, EncodeFault>),
>(
    before: Progress<P, S>,
    first: Seq<i16>,
    between: Progress<P, S>,
    second: Seq<i16>,
    after: Progress<P, S>,
    capture: C,
    encode: F,
)
    requires
        is_idle(before.pipeline),
        sends(before, first, capture, encode, between),
        sends(between, second, capture, encode, after),
    ensures
        sends(before, first + second, capture, encode, after),
        is_idle(between.pipeline),
        is_idle(after.pipeline),
{
    let (calls, codings) = lemma_runs_of_a_call(before, first, between, capture, encode);
    let (more_calls, more_codings) = lemma_runs_of_a_call(
        between,
        second,
        after,
        capture,
        encode,
    );
    let pipeline = before.pipeline;
    lemma_stages(pipeline, first, second, calls.answers, more_calls.answers);
    calls.law_successive_runs_are_one_run(
        more_calls,
        before.engine,
        frames(pipeline, first),
        frames(between.pipeline, second),
        processor::capturing(capture),
    );
    codings.law_successive_runs_are_one_run(
        more_codings,
        before.encoder,
        codec::encoder_frames(pipeline.codec, processed(calls)),
        codec::encoder_frames(pipeline.codec, processed(more_calls)),
        codec::encoding(encode),
    );
    let all_calls = calls.followed_by(more_calls);
    let all_codings = codings.followed_by(more_codings);
    lemma_joined_answers(calls.answers, more_calls.answers);
    assert(framing::results(all_codings.answers) =~= framing::results(codings.answers)
        + framing::results(more_codings.answers));
    lemma_not_failed(calls.answers, more_calls.answers);
    lemma_not_failed(codings.answers, more_codings.answers);
    assert(after.packets =~= before.packets + framing::results(all_codings.answers));
    lemma_call_of_runs(
        before,
        first + second,
        after,
        capture,
        encode,
        all_calls,
        all_codings,
    );
}

/// Processor frames of the blocks that a chunk completes.
spec fn frames(pipeline: PipelineModel, mic: Seq<i16>) -> Seq<Seq<i16>> {
    framing::blocks(pipeline.complete(mic), FRAME_SAMPLES as nat)
}

/// What a successful run of the processing engine produced.
spec fn processed<P>(calls: framing::Calls<P, Seq<i16>, EngineFault>) -> Seq<i16> {
    framing::joined(framing::results(calls.answers))
}

/// A successful call is a run of the processing engine on the frames of the
/// complete blocks and a run of the encoder on what came out; the rest waits.
proof fn lemma_runs_of_a_call<
    P,
    S,
    C: Fn(P, [i16; FRAME_SAMPLES]) -> (P, Result<[i16; FRAME_SAMPLES], EngineFault>),
    F: Fn(S, &[i16], usize) -> (S, Result<Vec<u8>, EncodeFault>),
>(
    before: Progress<P, S>,
    mic: Seq<i16>,
    after: Progress<P, S>,
    capture: C,
    encode: F,
) -> (runs: (
    framing::Calls<P, Seq<i16>, EngineFault>,
    framing::Calls<S, Seq<u8>, EncodeFault>,
))
    requires
        is_idle(before.pipeline),
        sends(before, mic, capture, encode, after),
    ensures
        runs.0.is_run(
            before.engine,
            frames(before.pipeline, mic),
            processor::capturing(capture),
        ),
        !framing::failed(runs.0.answers),
        processed(runs.0).len() == before.pipeline.complete(mic).len(),
        runs.1.is_run(
            before.encoder,
            codec::encoder_frames(before.pipeline.codec, processed(runs.0)),
            codec::encoding(encode),
        ),
        !framing::failed(runs.1.answers),
        after == (Progress {
            pipeline: PipelineModel {
                pending: before.pipeline.incomplete(mic),
                ..before.pipeline
            },
            engine: runs.0.end(),
            encoder: runs.1.end(),
            packets: before.packets + framing::results(runs.1.answers),
        }),
        is_idle(after.pipeline),
{
    let pipeline = before.pipeline;
    let block = pipeline.complete(mic);
    pipeline::law_outgoing_audio_is_conserved(pipeline, mic);
    assert(pipeline.processor.capture + block =~= block);
    let (chunk, made) = choose|chunk: Seq<i16>, made: Seq<Seq<u8>>| #[trigger]
        pipeline.sent(
            mic,
            before.engine,
            capture,
            before.encoder,
            encode,
            after.pipeline,
            chunk,
            made,
            (after.engine, after.encoder, Ok::<(), PipelineError>(())),
        ) && after.packets == before.packets + made;
    if !pipeline.in_place(mic) && block.len() == 0 {
        let calls = framing::Calls::<P, Seq<i16>, EngineFault>::none(before.engine);
        let codings = framing::Calls::<S, Seq<u8>, EncodeFault>::none(before.encoder);
        lemma_no_frames(pipeline);
        assert(block =~= Seq::empty());
        assert(framing::results(calls.answers) =~= Seq::empty());
        assert(processed(calls) =~= Seq::empty());
        assert(framing::results(codings.answers) =~= Seq::empty());
        assert(pipeline.incomplete(mic) =~= pipeline.pending + mic);
        assert(after.packets =~= before.packets + framing::results(codings.answers));
        (calls, codings)
    } else {
        let calls = choose|calls: framing::Calls<P, Seq<i16>, EngineFault>| #[trigger]
            calls.is_run(
                before.engine,
                pipeline.processor.capture_frames(block),
                processor::capturing(capture),
            ) && calls.end() == after.engine && {
                let (processor, processed, result) = pipeline.processor.captured(
                    block,
                    calls.answers,
                );
                &&& after.pipeline == (PipelineModel {
                    processor,
                    pending: pipeline.incomplete(mic),
                    ..pipeline
                })
                &&& result is Ok
                &&& pipeline.encoded(
                    processed,
                    before.encoder,
                    encode,
                    made,
                    (after.encoder, Ok::<(), PipelineError>(())),
                )
            };
        pipeline::law_processor_adds_no_delay(capture, before.engine, pipeline, mic, calls);
        let codings = choose|codings: framing::Calls<S, Seq<u8>, EncodeFault>| #[trigger]
            codings.is_run(
                before.encoder,
                codec::encoder_frames(pipeline.codec, processed(calls)),
                codec::encoding(encode),
            ) && codings.end() == after.encoder && codec::encoded(Seq::empty(), codings.answers)
                == (made, Ok::<(), codec::CodecError>(()));
        assert(made =~= framing::results(codings.answers));
        (calls, codings)
    }
}

/// Runs of the two engines that fit a chunk make a successful call.
proof fn lemma_call_of_runs<
    P,
    S,
    C: Fn(P, [i16; FRAME_SAMPLES]) -> (P, Result<[i16; FRAME_SAMPLES], EngineFault>),
    F: Fn(S, &[i16], usize) -> (S, Result<Vec<u8>, EncodeFault>),
>(
    before: Progress<P, S>,
    mic: Seq<i16>,
    after: Progress<P, S>,
    capture: C,
    encode: F,
    calls: framing::Calls<P, Seq<i16>, EngineFault>,
    codings: framing::Calls<S, Seq<u8>, EncodeFault>,
)
    requires
        is_idle(before.pipeline),
        calls.is_run(
            before.engine,
            frames(before.pipeline, mic),
            processor::capturing(capture),
        ),
        !framing::failed(calls.answers),
        codings.is_run(
            before.encoder,
            codec::encoder_frames(before.pipeline.codec, processed(calls)),
            codec::encoding(encode),
        ),
        !framing::failed(codings.answers),
        after == (Progress {
            pipeline: PipelineModel {
                pending: before.pipeline.incomplete(mic),
                ..before.pipeline
            },
            engine: calls.end(),
            encoder: codings.end(),
            packets: before.packets + framing::results(codings.answers),
        }),
    ensures
        sends(before, mic, capture, encode, after),
        is_idle(after.pipeline),
{
    let pipeline = before.pipeline;
    let block = pipeline.complete(mic);
    let made = framing::results(codings.answers);
    let ended = (after.engine, after.encoder, Ok::<(), PipelineError>(()));
    pipeline::law_outgoing_audio_is_conserved(pipeline, mic);
    assert(pipeline.processor.capture + block =~= block);
    assert(calls.is_run(
        before.engine,
        pipeline.processor.capture_frames(block),
        processor::capturing(capture),
    ));
    pipeline::law_processor_adds_no_delay(capture, before.engine, pipeline, mic, calls);
    if !pipeline.in_place(mic) && block.len() == 0 {
        lemma_no_frames(pipeline);
        assert(block =~= Seq::empty());
        assert(processed(calls) =~= Seq::empty());
        assert(made =~= Seq::empty());
        assert(pipeline.incomplete(mic) =~= pipeline.pending + mic);
        assert(pipeline.sent(
            mic,
            before.engine,
            capture,
            before.encoder,
            encode,
            after.pipeline,
            mic,
            made,
            ended,
        ));
    } else {
        let chunk = if pipeline.in_place(mic) {
            processed(calls)
        } else {
            mic
        };
        assert(codec::encoded(Seq::empty(), codings.answers).0 =~= made);
        assert(pipeline.encoded(
            processed(calls),
            before.encoder,
            encode,
            made,
            (ended.1, ended.2),
        ));
        assert(pipeline.sent(
            mic,
            before.engine,
            capture,
            before.encoder,
            encode,
            after.pipeline,
            chunk,
            made,
            ended,
        ));
    }
}

/// A call on an empty chunk changes nothing.
proof fn lemma_empty_call<
    P,
    S,
    C: Fn(P, [i16; FRAME_SAMPLES]) -> (P, Result<[i16; FRAME_SAMPLES], EngineFault>),
    F: Fn(S, &[i16], usize) -> (S, Result<Vec<u8>, EncodeFault>),
>(before: Progress<P, S>, after: Progress<P, S>, capture: C, encode: F)
    requires
        is_idle(before.pipeline),
    ensures
        sends(before, Seq::empty(), capture, encode, after) <==> after == before,
{
    let pipeline = before.pipeline;
    let none = Seq::<i16>::empty();
    assert(pipeline.pending + none =~= pipeline.pending);
    vstd::arithmetic::div_mod::lemma_basic_div(
        pipeline.pending.len() as int,
        pipeline.block() as int,
    );
    assert(framing::whole(pipeline.pending.len(), pipeline.block()) == 0) by (nonlinear_arith)
        requires
            pipeline.pending.len() / pipeline.block() == 0,
            framing::whole(pipeline.pending.len(), pipeline.block()) == pipeline.pending.len()
                / pipeline.block() * pipeline.block(),
    ;
    assert(pipeline.complete(none) =~= none);
    assert(pipeline.incomplete(none) =~= pipeline.pending);
    lemma_no_frames(pipeline);
    if sends(before, none, capture, encode, after) {
        let (calls, codings) = lemma_runs_of_a_call(before, none, after, capture, encode);
        assert(processed(calls) =~= none);
        assert(framing::results(codings.answers) =~= Seq::empty());
        assert(after =~= before);
    }
    if after == before {
        let calls = framing::Calls::<P, Seq<i16>, EngineFault>::none(before.engine);
        let codings = framing::Calls::<S, Seq<u8>, EncodeFault>::none(before.encoder);
        assert(framing::results(calls.answers) =~= Seq::empty());
        assert(processed(calls) =~= none);
        assert(framing::results(codings.answers) =~= Seq::empty());
        assert(after.packets =~= before.packets + framing::results(codings.answers));
        lemma_call_of_runs(before, none, after, capture, encode, calls, codings);
    }
}

/// No audio is cut into no frames.
proof fn lemma_no_frames(pipeline: PipelineModel)
    requires
        pipeline.wf(),
    ensures
        framing::blocks(Seq::empty(), FRAME_SAMPLES as nat) == Seq::<Seq<i16>>::empty(),
        codec::encoder_frames(pipeline.codec, Seq::empty()) == Seq::<Seq<i16>>::empty(),
{
    pipeline.codec.lemma_frame_samples();
    let none = Seq::<i16>::empty();
    framing::lemma_no_blocks(none, FRAME_SAMPLES as nat);
    framing::lemma_no_blocks(none, pipeline.codec.frame_samples());
    vstd::arithmetic::div_mod::lemma_small_mod(0, pipeline.codec.frame_samples());
    assert(framing::padded(none, pipeline.codec.frame_samples()) == none);
}

/// Two chunks complete the processor frames of the first and then those of the
/// second.
proof fn lemma_frames_of_two_chunks(pipeline: PipelineModel, first: Seq<i16>, second: Seq<i16>)
    requires
        pipeline.wf(),
    ensures
        ({
            let between = PipelineModel { pending: pipeline.incomplete(first), ..pipeline };
            &&& frames(pipeline, first + second) == frames(pipeline, first) + frames(
                between,
                second,
            )
            &&& pipeline.incomplete(first + second) == between.incomplete(second)
        }),
{
    let between = PipelineModel { pending: pipeline.incomplete(first), ..pipeline };
    pipeline::law_outgoing_audio_is_conserved(pipeline, first);
    pipeline::law_outgoing_chunking_does_not_matter(pipeline, first, second);
    framing::lemma_blocks_of_complete_streams(
        pipeline.complete(first),
        between.complete(second),
        FRAME_SAMPLES as nat,
    );
}

/// Two chunks go through both engines frame by frame as the two together do.
proof fn lemma_stages(
    pipeline: PipelineModel,
    first: Seq<i16>,
    second: Seq<i16>,
    answers: Seq<Result<Seq<i16>, EngineFault>>,
    more: Seq<Result<Seq<i16>, EngineFault>>,
)
    requires
        pipeline.wf(),
        framing::joined(framing::results(answers)).len() == pipeline.complete(first).len(),
        framing::joined(framing::results(more)).len() == (PipelineModel {
            pending: pipeline.incomplete(first),
            ..pipeline
        }).complete(second).len(),
    ensures
        ({
            let between = PipelineModel { pending: pipeline.incomplete(first), ..pipeline };
            let one = framing::joined(framing::results(answers));
            let other = framing::joined(framing::results(more));
            &&& between.wf()
            &&& frames(pipeline, first + second) == frames(pipeline, first) + frames(
                between,
                second,
            )
            &&& pipeline.incomplete(first + second) == between.incomplete(second)
            &&& codec::encoder_frames(pipeline.codec, one + other) == codec::encoder_frames(
                pipeline.codec,
                one,
            ) + codec::encoder_frames(pipeline.codec, other)
        }),
{
    let between = PipelineModel { pending: pipeline.incomplete(first), ..pipeline };
    let one = framing::joined(framing::results(answers));
    let other = framing::joined(framing::results(more));
    let size = pipeline.codec.frame_samples();
    pipeline.codec.lemma_frame_samples();
    pipeline::law_outgoing_audio_is_conserved(pipeline, first);
    pipeline::law_outgoing_audio_is_conserved(between, second);
    lemma_frames_of_two_chunks(pipeline, first, second);
    vstd::arithmetic::div_mod::lemma_add_mod_noop(
        one.len() as int,
        other.len() as int,
        size as int,
    );
    vstd::arithmetic::div_mod::lemma_small_mod(0, size);
    assert((one + other).len() % size == 0);
    framing::lemma_blocks_of_complete_streams(one, other, size);
}

/// What two runs in a row produced is what the first and then the second did.
proof fn lemma_joined_answers(
    answers: Seq<Result<Seq<i16>, EngineFault>>,
    more: Seq<Result<Seq<i16>, EngineFault>>,
)
    ensures
        framing::joined(framing::results(answers + more)) == framing::joined(
            framing::results(answers),
        ) + framing::joined(framing::results(more)),
{
    assert(framing::results(answers + more) =~= framing::results(answers) + framing::results(
        more,
    ));
    framing::lemma_joined_append(framing::results(answers), framing::results(more));
}

/// Two successful runs in a row are successful.
proof fn lemma_not_failed<O, E>(answers: Seq<Result<O, E>>, more: Seq<Result<O, E>>)
    requires
        !framing::failed(answers),
        !framing::failed(more),
    ensures
        !framing::failed(answers + more),
{
    if more.len() > 0 {
        assert((answers + more).last() == more.last());
    } else {
        assert(answers + more =~= answers);
    }
}

} // verus!
