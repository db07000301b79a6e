//! What single operations of the audio processor do.
//!
//! The laws relate the arguments of an operation, the calls that it makes on an
//! engine, its result and what the processor holds before and after it.

use vstd::prelude::*;

use crate::audio::framing;
use crate::audio::processor;
use crate::audio::processor::{
    AudioProcessor, EchoCancellationSuppressionLevel, EngineConfig, EngineFault, EngineInit,
    EngineStats, GainControlMode, NoiseSuppressionLevel, ProcessorConfig, ProcessorError,
    ProcessorModel, ProcessorStats, VoiceDetectionLikelihood, FRAME_SAMPLES,
};

verus! {

/// Each module runs exactly if its flag is set, with the configured strength. The
/// high-pass filter always runs and the transient suppressor never does.
pub open spec fn switches(config: ProcessorConfig, settings: EngineConfig) -> bool {
    &&& settings.echo_cancellation is Some <==> config.enable_aec
    &&& settings.echo_cancellation matches Some(aec) ==> {
        &&& aec.suppression_level == config.aec_suppression
        &&& aec.enable_extended_filter
        &&& aec.enable_delay_agnostic
        &&& aec.stream_delay_ms is None
    }
    &&& settings.noise_suppression is Some <==> config.enable_ns
    &&& settings.noise_suppression matches Some(ns) ==> ns.suppression_level == config.ns_level
    &&& settings.gain_control is Some <==> config.enable_agc
    &&& settings.gain_control matches Some(agc) ==> {
        &&& agc.mode == GainControlMode::AdaptiveDigital
        &&& agc.target_level_dbfs == config.agc_target_level_dbfs
        &&& agc.compression_gain_db == config.agc_compression_gain_db
        &&& agc.enable_limiter
    }
    &&& settings.voice_detection is Some <==> config.enable_vad
    &&& settings.voice_detection matches Some(vad) ==> vad.detection_likelihood
        == VoiceDetectionLikelihood::Low
    &&& settings.enable_high_pass_filter
    &&& !settings.enable_transient_suppressor
}

/// An engine starts with one channel each way, with the experimental gain control
/// exactly if gain control is on, and without the intelligibility enhancer.
pub open spec fn starts(config: ProcessorConfig, init: EngineInit) -> bool {
    &&& init.num_capture_channels == 1
    &&& init.num_render_channels == 1
    &&& init.enable_experimental_agc <==> config.enable_agc
    &&& !init.enable_intelligibility_enhancer
}

/// The engine settings switch each module as the configuration says.
pub proof fn law_modules_follow_their_flags(
    config: ProcessorConfig,
    settings: EngineConfig,
    init: EngineInit,
)
    requires
        call_ensures(ProcessorConfig::to_engine_config, (&config,), settings),
        call_ensures(ProcessorConfig::to_engine_init, (&config,), init),
    ensures
        switches(config, settings),
        starts(config, init),
{
}

/// A module depends on its own flag and values only: configurations that agree on
/// them agree on the module, whatever else they say.
pub proof fn law_modules_are_independent(one: ProcessorConfig, other: ProcessorConfig)
    ensures
        one.enable_aec == other.enable_aec && one.aec_suppression == other.aec_suppression
            ==> one.engine_config().echo_cancellation == other.engine_config().echo_cancellation,
        one.enable_ns == other.enable_ns && one.ns_level == other.ns_level
            ==> one.engine_config().noise_suppression == other.engine_config().noise_suppression,
        one.enable_agc == other.enable_agc && one.agc_target_level_dbfs
            == other.agc_target_level_dbfs && one.agc_compression_gain_db
            == other.agc_compression_gain_db ==> one.engine_config().gain_control
            == other.engine_config().gain_control,
        one.enable_vad == other.enable_vad ==> one.engine_config().voice_detection
            == other.engine_config().voice_detection,
        switches(one, one.engine_config()),
        starts(one, one.engine_init()),
{
}

/// Whether an engine was made: the library was asked for one that starts as the
/// configuration says, and if there is one, it was given the settings that the
/// configuration asks for, once.
pub open spec fn is_making<
    L,
    S,
    O: Fn(L, EngineInit) -> (L, Result<S, EngineFault>),
    G: Fn(S, EngineConfig) -> S,
>(
    config: ProcessorConfig,
    library: L,
    create: O,
    configure: G,
    after: L,
    made: Result<S, EngineFault>,
) -> bool {
    exists|init: EngineInit, created: Result<S, EngineFault>| #[trigger]
        call_ensures(create, (library, init), (after, created)) && starts(config, init)
            && match created {
            Ok(engine) => made matches Ok(configured) && exists|settings: EngineConfig|
                switches(config, settings) && #[trigger] call_ensures(
                    configure,
                    (engine, settings),
                    configured,
                ),
            Err(fault) => made == Err::<S, EngineFault>(fault),
        }
}

/// A processor holds nothing.
pub open spec fn holds_nothing(processor: ProcessorModel) -> bool {
    &&& processor.capture.len() == 0
    &&& processor.render.len() == 0
    &&& processor.carry.len() == 0
}

/// Opening a processor makes its engine and gives it back with a processor that
/// holds nothing; a failure of the library is a failure of the configuration.
pub proof fn law_opening_a_processor_makes_its_engine<
    L,
    S,
    O: Fn(L, EngineInit) -> (L, Result<S, EngineFault>),
    G: Fn(S, EngineConfig) -> S,
>(
    config: ProcessorConfig,
    library: L,
    create: O,
    configure: G,
    made: (L, Result<(AudioProcessor, S), ProcessorError>),
)
    requires
        call_ensures(
            AudioProcessor::open::<L, S, O, G>,
            (config, library, &create, &configure),
            made,
        ),
    ensures
        match made.1 {
            Ok((processor, engine)) => {
                &&& processor@.config == config
                &&& holds_nothing(processor@)
                &&& is_making(config, library, create, configure, made.0, Ok(engine))
            },
            Err(ProcessorError::Config(fault)) => is_making(
                config,
                library,
                create,
                configure,
                made.0,
                Err::<S, EngineFault>(fault),
            ),
            Err(ProcessorError::Process(_)) => false,
        },
{
    match made.1 {
        Ok((_, engine)) => lemma_is_making(config, library, create, configure, made.0, Ok(engine)),
        Err(ProcessorError::Config(fault)) => lemma_is_making(
            config,
            library,
            create,
            configure,
            made.0,
            Err::<S, EngineFault>(fault),
        ),
        Err(ProcessorError::Process(_)) => {},
    }
}

/// Resetting forgets all held samples and keeps the configuration. A new engine
/// replaces the old one; if none can be made, the old one goes on as it is.
pub proof fn law_reset_replaces_the_engine<
    L,
    S,
    O: Fn(L, EngineInit) -> (L, Result<S, EngineFault>),
    G: Fn(S, EngineConfig) -> S,
>(
    processor: &mut AudioProcessor,
    library: L,
    engine: S,
    create: O,
    configure: G,
    rebuilt: (L, S, Result<(), EngineFault>),
)
    requires
        call_ensures(
            AudioProcessor::reset::<L, S, O, G>,
            (processor, library, engine, &create, &configure),
            rebuilt,
        ),
    ensures
        holds_nothing(final(processor)@),
        final(processor)@.config == old(processor)@.config,
        match rebuilt.2 {
            Ok(()) => is_making(
                old(processor)@.config,
                library,
                create,
                configure,
                rebuilt.0,
                Ok(rebuilt.1),
            ),
            Err(fault) => rebuilt.1 == engine && is_making(
                old(processor)@.config,
                library,
                create,
                configure,
                rebuilt.0,
                Err::<S, EngineFault>(fault),
            ),
        },
{
    lemma_is_replacing(old(processor)@.config, library, engine, create, configure, rebuilt);
}

/// Replacing an engine is making one and going on with the old one if that fails.
pub proof fn lemma_is_replacing<
    L,
    S,
    O: Fn(L, EngineInit) -> (L, Result<S, EngineFault>),
    G: Fn(S, EngineConfig) -> S,
>(
    config: ProcessorConfig,
    library: L,
    engine: S,
    create: O,
    configure: G,
    rebuilt: (L, S, Result<(), EngineFault>),
)
    requires
        processor::engine_replaced(config, library, engine, create, configure, rebuilt),
    ensures
        match rebuilt.2 {
            Ok(()) => is_making(config, library, create, configure, rebuilt.0, Ok(rebuilt.1)),
            Err(fault) => rebuilt.1 == engine && is_making(
                config,
                library,
                create,
                configure,
                rebuilt.0,
                Err::<S, EngineFault>(fault),
            ),
        },
{
    match rebuilt.2 {
        Ok(()) => lemma_is_making(
            config,
            library,
            create,
            configure,
            rebuilt.0,
            Ok(rebuilt.1),
        ),
        Err(fault) => lemma_is_making(
            config,
            library,
            create,
            configure,
            rebuilt.0,
            Err::<S, EngineFault>(fault),
        ),
    }
}

/// An engine that was made was asked for and configured as described.
pub proof fn lemma_is_making<
    L,
    S,
    O: Fn(L, EngineInit) -> (L, Result<S, EngineFault>),
    G: Fn(S, EngineConfig) -> S,
>(
    config: ProcessorConfig,
    library: L,
    create: O,
    configure: G,
    after: L,
    made: Result<S, EngineFault>,
)
    requires
        processor::engine_made(config, library, create, configure, after, made),
    ensures
        is_making(config, library, create, configure, after, made),
{
    let created = choose|created: Result<S, EngineFault>| #[trigger]
        call_ensures(create, (library, config.engine_init()), (after, created)) && match created {
            Ok(engine) => made matches Ok(configured) && call_ensures(
                configure,
                (engine, config.engine_config()),
                configured,
            ),
            Err(fault) => made == Err::<S, EngineFault>(fault),
        };
    law_modules_are_independent(config, config);
    assert(call_ensures(create, (library, config.engine_init()), (after, created)));
}

/// A new processor holds nothing and keeps its configuration.
pub proof fn law_new_processor_holds_nothing(config: ProcessorConfig, processor: AudioProcessor)
    requires
        call_ensures(AudioProcessor::new, (config,), processor),
    ensures
        holds_nothing(processor@),
        processor@.config == config,
{
}

/// The counts are those of the samples that are held.
pub proof fn law_counts_are_of_held_samples(
    processor: AudioProcessor,
    capture: usize,
    render: usize,
    carry: usize,
    config: &ProcessorConfig,
)
    requires
        call_ensures(AudioProcessor::pending_capture, (&processor,), capture),
        call_ensures(AudioProcessor::pending_render, (&processor,), render),
        call_ensures(AudioProcessor::carried, (&processor,), carry),
        call_ensures(AudioProcessor::config, (&processor,), config),
    ensures
        capture == processor@.capture.len(),
        render == processor@.render.len(),
        carry == processor@.carry.len(),
        *config == processor@.config,
{
}

/// A flag that the engine has not measured yet counts as not set; the level is
/// handed on as it is.
pub proof fn law_unmeasured_flags_are_not_set(
    processor: AudioProcessor,
    measured: EngineStats,
    stats: ProcessorStats,
)
    requires
        call_ensures(AudioProcessor::stats, (&processor, measured), stats),
    ensures
        stats.has_voice <==> measured.has_voice == Some(true),
        stats.has_echo <==> measured.has_echo == Some(true),
        stats.rms_dbfs == measured.rms_dbfs,
{
}

/// Whether one engine call was made on the 480 microphone samples of a stream from
/// a position on.
pub open spec fn is_microphone_call<
    S,
    C: Fn(S, [i16; FRAME_SAMPLES]) -> (S, Result<[i16; FRAME_SAMPLES], EngineFault>),
>(
    capture: C,
    before: S,
    stream: Seq<i16>,
    start: int,
    after: S,
    answer: Result<Seq<i16>, EngineFault>,
) -> bool {
    exists|frame: [i16; FRAME_SAMPLES], processed: Result<[i16; FRAME_SAMPLES], EngineFault>|
        #[trigger] call_ensures(capture, (before, frame), (after, processed)) && (forall|j: int|
            0 <= j < 480 ==> #[trigger] frame@[j] == stream[start + j]) && match processed {
            Ok(samples) => answer == Ok::<Seq<i16>, EngineFault>(samples@),
            Err(fault) => answer == Err::<Seq<i16>, EngineFault>(fault),
        }
}

/// Whether a microphone stream went through an engine: one call for every 480
/// samples, in order, each on what the one before it left, until less than 480
/// samples remain or a call fails.
pub open spec fn is_microphone_run<
    S,
    C: Fn(S, [i16; FRAME_SAMPLES]) -> (S, Result<[i16; FRAME_SAMPLES], EngineFault>),
>(
    capture: C,
    engine: S,
    stream: Seq<i16>,
    calls: framing::Calls<S, Seq<i16>, EngineFault>,
) -> bool {
    let made = calls.answers.len();
    &&& calls.states.len() == made + 1
    &&& calls.states[0] == engine
    &&& made * 480 <= stream.len()
    &&& forall|i: int| 0 <= i < made - 1 ==> (#[trigger] calls.answers[i]) is Ok
    &&& made * 480 + 480 <= stream.len() ==> made > 0 && calls.answers.last() is Err
    &&& forall|i: int|
        0 <= i < made ==> is_microphone_call(
            capture,
            calls.states[i],
            stream,
            i * 480,
            calls.states[i + 1],
            #[trigger] calls.answers[i],
        )
}

/// Whether a microphone chunk ended in this way, for the calls that were made.
///
/// On success the samples awaiting delivery and the processed frames, in order,
/// replace the front of the chunk; what does not fit awaits the next chunk. On a
/// failure the chunk and the samples awaiting delivery stay. Either way the samples
/// that went to the engine are gone and the rest waits.
pub open spec fn is_delivery<S>(
    before: ProcessorModel,
    chunk: Seq<i16>,
    calls: framing::Calls<S, Seq<i16>, EngineFault>,
    after: ProcessorModel,
    delivered: Seq<i16>,
    result: Result<(), ProcessorError>,
) -> bool {
    let made = calls.answers.len() as int;
    let failed = made > 0 && calls.answers.last() is Err;
    let stream = before.capture + chunk;
    let ready = before.carry.len() + made * 480;
    &&& after.config == before.config
    &&& after.render == before.render
    &&& after.capture == stream.skip(made * 480)
    &&& delivered.len() == chunk.len()
    &&& if failed {
        &&& delivered == chunk
        &&& after.carry == before.carry
        &&& result == Err::<(), ProcessorError>(
            ProcessorError::Process(calls.answers.last()->Err_0),
        )
    } else {
        &&& result is Ok
        &&& after.carry.len() == if ready > chunk.len() {
            ready - chunk.len()
        } else {
            0
        }
        &&& forall|k: int|
            0 <= k < chunk.len() ==> #[trigger] delivered[k] == if k < ready {
                ready_sample(before, calls, k)
            } else {
                chunk[k]
            }
        &&& forall|k: int|
            0 <= k < after.carry.len() ==> #[trigger] after.carry[k] == ready_sample(
                before,
                calls,
                chunk.len() + k,
            )
    }
}

/// A sample that can be delivered: first those that await it, then those of the
/// processed frames in order.
pub open spec fn ready_sample<S>(
    before: ProcessorModel,
    calls: framing::Calls<S, Seq<i16>, EngineFault>,
    k: int,
) -> i16 {
    if k < before.carry.len() {
        before.carry[k]
    } else {
        let offset = k - before.carry.len();
        calls.answers[offset / 480]->Ok_0[offset % 480]
    }
}

/// A microphone chunk goes through the engine frame by frame and is delivered.
pub proof fn law_microphone_chunk_is_processed_and_delivered<
    S,
    C: Fn(S, [i16; FRAME_SAMPLES]) -> (S, Result<[i16; FRAME_SAMPLES], EngineFault>),
>(
    processor: &mut AudioProcessor,
    near_end: &mut [i16],
    engine: S,
    capture: C,
    done: (S, Result<(), ProcessorError>),
)
    requires
        call_ensures(
            AudioProcessor::process::<S, C>,
            (processor, near_end, engine, &capture),
            done,
        ),
    ensures
        exists|calls: framing::Calls<S, Seq<i16>, EngineFault>| #[trigger]
            is_microphone_run(
                capture,
                engine,
                old(processor)@.capture + old(near_end)@,
                calls,
            ) && done.0 == calls.states.last() && is_delivery(
                old(processor)@,
                old(near_end)@,
                calls,
                final(processor)@,
                final(near_end)@,
                done.1,
            ),
{
    let calls = choose|calls: framing::Calls<S, Seq<i16>, EngineFault>| #[trigger]
        calls.is_run(
            engine,
            old(processor)@.capture_frames(old(near_end)@),
            processor::capturing(capture),
        ) && calls.end() == done.0 && old(processor)@.captured(
            old(near_end)@,
            calls.answers,
        ) == (final(processor)@, final(near_end)@, done.1);
    lemma_is_delivery(old(processor)@, old(near_end)@, engine, capture, calls);
}

/// What the processor makes of a chunk, for a run of the engine.
pub proof fn lemma_is_delivery<
    S,
    C: Fn(S, [i16; FRAME_SAMPLES]) -> (S, Result<[i16; FRAME_SAMPLES], EngineFault>),
>(
    before: ProcessorModel,
    chunk: Seq<i16>,
    engine: S,
    capture: C,
    calls: framing::Calls<S, Seq<i16>, EngineFault>,
)
    requires
        calls.is_run(engine, before.capture_frames(chunk), processor::capturing(capture)),
    ensures
        is_microphone_run(capture, engine, before.capture + chunk, calls),
        ({
            let (after, delivered, result) = before.captured(chunk, calls.answers);
            is_delivery(before, chunk, calls, after, delivered, result)
        }),
{
    let stream = before.capture + chunk;
    let frames = before.capture_frames(chunk);
    let made = calls.answers.len() as int;
    processor::lemma_frames(stream);
    assert(FRAME_SAMPLES == 480);
    assert forall|i: int| 0 <= i < made implies is_microphone_call(
        capture,
        calls.states[i],
        stream,
        i * 480,
        calls.states[i + 1],
        #[trigger] calls.answers[i],
    ) && (calls.answers[i] matches Ok(samples) ==> samples.len() == 480) by {
        let part = frames[i];
        assert(processor::capturing(capture)(
            calls.states[i],
            part,
            calls.states[i + 1],
            calls.answers[i],
        ));
        assert(processor::captures(
            capture,
            calls.states[i],
            part,
            calls.states[i + 1],
            calls.answers[i],
        ));
    }
    if !framing::failed(calls.answers) {
        assert forall|i: int| 0 <= i < made implies (#[trigger] calls.answers[i]) is Ok by {
            if i == made - 1 {
                assert(calls.answers.last() == calls.answers[i]);
            }
        }
        let parts = framing::results(calls.answers);
        assert forall|i: int| 0 <= i < parts.len() implies (
        #[trigger] parts[i]).len() == 480 by {
            assert(calls.answers[i] is Ok);
        }
        framing::lemma_joined_samples(parts, 480);
        let out = before.deliverable(calls.answers);
        assert(out.len() == before.carry.len() + made * 480);
        assert forall|k: int| 0 <= k < out.len() implies #[trigger] out[k] == ready_sample(
            before,
            calls,
            k,
        ) by {
            if k >= before.carry.len() {
                let offset = k - before.carry.len();
                assert(framing::joined(parts)[offset] == parts[offset / 480][offset % 480]);
            }
        }
    }
}

/// Whether one engine call was made on the 480 playback samples of a stream from a
/// position on.
pub open spec fn is_playback_call<
    S,
    R: Fn(S, [i16; FRAME_SAMPLES]) -> (S, Result<(), EngineFault>),
>(
    render: R,
    before: S,
    stream: Seq<i16>,
    start: int,
    after: S,
    answer: Result<(), EngineFault>,
) -> bool {
    exists|frame: [i16; FRAME_SAMPLES]| #[trigger]
        call_ensures(render, (before, frame), (after, answer)) && forall|j: int|
            0 <= j < 480 ==> #[trigger] frame@[j] == stream[start + j]
}

/// Whether a playback stream went to an engine: one call for every 480 samples, in
/// order, each on what the one before it left, until less than 480 samples remain
/// or a call fails.
pub open spec fn is_playback_run<
    S,
    R: Fn(S, [i16; FRAME_SAMPLES]) -> (S, Result<(), EngineFault>),
>(
    render: R,
    engine: S,
    stream: Seq<i16>,
    calls: framing::Calls<S, (), EngineFault>,
) -> bool {
    let made = calls.answers.len();
    &&& calls.states.len() == made + 1
    &&& calls.states[0] == engine
    &&& made * 480 <= stream.len()
    &&& forall|i: int| 0 <= i < made - 1 ==> (#[trigger] calls.answers[i]) is Ok
    &&& made * 480 + 480 <= stream.len() ==> made > 0 && calls.answers.last() is Err
    &&& forall|i: int|
        0 <= i < made ==> is_playback_call(
            render,
            calls.states[i],
            stream,
            i * 480,
            calls.states[i + 1],
            #[trigger] calls.answers[i],
        )
}

/// Whether a playback chunk ended in this way, for the calls that were made: the
/// samples that went to the engine are gone, the rest waits, and the microphone
/// side stays as it is.
pub open spec fn is_playback<S>(
    before: ProcessorModel,
    chunk: Seq<i16>,
    calls: framing::Calls<S, (), EngineFault>,
    after: ProcessorModel,
    result: Result<(), ProcessorError>,
) -> bool {
    let made = calls.answers.len() as int;
    let failed = made > 0 && calls.answers.last() is Err;
    &&& after.config == before.config
    &&& after.capture == before.capture
    &&& after.carry == before.carry
    &&& after.render == (before.render + chunk).skip(made * 480)
    &&& result is Ok <==> !failed
    &&& result matches Err(error) ==> error == ProcessorError::Process(
        calls.answers.last()->Err_0,
    )
}

/// A playback chunk goes to the engine frame by frame.
pub proof fn law_playback_chunk_goes_to_the_engine<
    S,
    R: Fn(S, [i16; FRAME_SAMPLES]) -> (S, Result<(), EngineFault>),
>(
    processor: &mut AudioProcessor,
    far_end: &[i16],
    engine: S,
    render: R,
    done: (S, Result<(), ProcessorError>),
)
    requires
        call_ensures(
            AudioProcessor::process_render::<S, R>,
            (processor, far_end, engine, &render),
            done,
        ),
    ensures
        exists|calls: framing::Calls<S, (), EngineFault>| #[trigger]
            is_playback_run(render, engine, old(processor)@.render + far_end@, calls) && done.0
                == calls.states.last() && is_playback(
                old(processor)@,
                far_end@,
                calls,
                final(processor)@,
                done.1,
            ),
{
    let calls = choose|calls: framing::Calls<S, (), EngineFault>| #[trigger]
        calls.is_run(
            engine,
            old(processor)@.render_frames(far_end@),
            processor::rendering(render),
        ) && calls.end() == done.0 && old(processor)@.rendered(far_end@, calls.answers) == (
            final(processor)@,
            done.1,
        );
    lemma_is_playback(old(processor)@, far_end@, engine, render, calls);
}

/// What the processor makes of a playback chunk, for a run of the engine.
pub proof fn lemma_is_playback<
    S,
    R: Fn(S, [i16; FRAME_SAMPLES]) -> (S, Result<(), EngineFault>),
>(
    before: ProcessorModel,
    chunk: Seq<i16>,
    engine: S,
    render: R,
    calls: framing::Calls<S, (), EngineFault>,
)
    requires
        calls.is_run(engine, before.render_frames(chunk), processor::rendering(render)),
    ensures
        is_playback_run(render, engine, before.render + chunk, calls),
        ({
            let (after, result) = before.rendered(chunk, calls.answers);
            is_playback(before, chunk, calls, after, result)
        }),
{
    let stream = before.render + chunk;
    let frames = before.render_frames(chunk);
    let made = calls.answers.len() as int;
    processor::lemma_frames(stream);
    assert(FRAME_SAMPLES == 480);
    assert forall|i: int| 0 <= i < made implies is_playback_call(
        render,
        calls.states[i],
        stream,
        i * 480,
        calls.states[i + 1],
        #[trigger] calls.answers[i],
    ) by {
        let part = frames[i];
        assert(processor::rendering(render)(
            calls.states[i],
            part,
            calls.states[i + 1],
            calls.answers[i],
        ));
        assert(processor::renders(
            render,
            calls.states[i],
            part,
            calls.states[i + 1],
            calls.answers[i],
        ));
    }
}

/// With a reference, the playback goes to the engine first and the microphone
/// chunk after it, on what the playback left. A failure of the playback leaves the
/// microphone chunk alone.
pub proof fn law_reference_goes_before_the_microphone<
    S,
    R: Fn(S, [i16; FRAME_SAMPLES]) -> (S, Result<(), EngineFault>),
    C: Fn(S, [i16; FRAME_SAMPLES]) -> (S, Result<[i16; FRAME_SAMPLES], EngineFault>),
>(
    processor: &mut AudioProcessor,
    near_end: &mut [i16],
    far_end: &[i16],
    engine: S,
    render: R,
    capture: C,
    done: (S, Result<(), ProcessorError>),
)
    requires
        call_ensures(
            AudioProcessor::process_with_reference::<S, R, C>,
            (processor, near_end, far_end, engine, &render, &capture),
            done,
        ),
    ensures
        exists|
            played: framing::Calls<S, (), EngineFault>,
            between: ProcessorModel,
            rendered: Result<(), ProcessorError>,
        |
            is_playback_run(render, engine, old(processor)@.render + far_end@, played)
                && #[trigger] is_playback(
                old(processor)@,
                far_end@,
                played,
                between,
                rendered,
            ) && if rendered is Err {
                &&& final(processor)@ == between
                &&& final(near_end)@ == old(near_end)@
                &&& done == (played.states.last(), rendered)
            } else {
                exists|calls: framing::Calls<S, Seq<i16>, EngineFault>| #[trigger]
                    is_microphone_run(
                        capture,
                        played.states.last(),
                        between.capture + old(near_end)@,
                        calls,
                    ) && done.0 == calls.states.last() && is_delivery(
                        between,
                        old(near_end)@,
                        calls,
                        final(processor)@,
                        final(near_end)@,
                        done.1,
                    )
            },
{
    let before = old(processor)@;
    let chunk = old(near_end)@;
    let played = choose|played: framing::Calls<S, (), EngineFault>| #[trigger]
        played.is_run(engine, before.render_frames(far_end@), processor::rendering(render)) && {
            let (between, rendered) = before.rendered(far_end@, played.answers);
            if rendered is Err {
                final(processor)@ == between && final(near_end)@ == chunk && done == (
                    played.end(),
                    rendered,
                )
            } else {
                exists|calls: framing::Calls<S, Seq<i16>, EngineFault>| #[trigger]
                    calls.is_run(
                        played.end(),
                        between.capture_frames(chunk),
                        processor::capturing(capture),
                    ) && calls.end() == done.0 && between.captured(chunk, calls.answers) == (
                        final(processor)@,
                        final(near_end)@,
                        done.1,
                    )
            }
        };
    let (between, rendered) = before.rendered(far_end@, played.answers);
    lemma_is_playback(before, far_end@, engine, render, played);
    assert(is_playback(before, far_end@, played, between, rendered));
    if rendered is Ok {
        let calls = choose|calls: framing::Calls<S, Seq<i16>, EngineFault>| #[trigger]
            calls.is_run(
                played.end(),
                between.capture_frames(chunk),
                processor::capturing(capture),
            ) && calls.end() == done.0 && between.captured(chunk, calls.answers) == (
                final(processor)@,
                final(near_end)@,
                done.1,
            );
        lemma_is_delivery(between, chunk, played.end(), capture, calls);
    }
}

/// The default settings switch every module on, with moderate suppression.
pub proof fn law_default_settings_switch_everything_on(
    config: ProcessorConfig,
    settings: EngineConfig,
)
    requires
        call_ensures(<ProcessorConfig as Default>::default, (), config),
        call_ensures(ProcessorConfig::to_engine_config, (&config,), settings),
    ensures
        settings.echo_cancellation matches Some(aec) && aec.suppression_level
            == EchoCancellationSuppressionLevel::Moderate,
        settings.noise_suppression matches Some(ns) && ns.suppression_level
            == NoiseSuppressionLevel::Moderate,
        settings.gain_control matches Some(agc) && agc.target_level_dbfs == 3
            && agc.compression_gain_db == 9,
        settings.voice_detection is Some,
{
}

} // verus!
