//! What single operations of the audio pipeline do.
//!
//! The laws relate the arguments of an operation, the calls that it makes on the
//! engines, its result and the pipeline before and after it. Operations that pass
//! something on are related to the operation of the part that they pass it to.

use vstd::prelude::*;

use crate::audio::alignment;
use crate::audio::codec;
use crate::audio::codec::{
    ApplicationMode, ChannelLayout, CodecConfig, CodecError, EncodeFault, EncoderSetting,
    OpusFault,
};
use crate::audio::codec_laws;
use crate::audio::framing;
use crate::audio::jitter::{AudioPacket, JitterBuffer, JitterStats, PlayoutEvent};
use crate::audio::jitter_operations;
use crate::audio::pipeline;
use crate::audio::pipeline::{AudioPipeline, AudioPipelineConfig, PipelineError, PipelineModel};
use crate::audio::processor;
use crate::audio::processor::{
    EngineConfig, EngineFault, EngineInit, EngineStats, ProcessorConfig, ProcessorError,
    ProcessorModel, ProcessorStats, FRAME_SAMPLES,
};
use crate::audio::processor_laws;
use crate::audio::timing;

verus! {

/// Receiving a packet is pushing it into the jitter buffer: the same packets are
/// accepted, the buffer ends in the same state, and the rest of the pipeline is
/// left alone.
pub proof fn law_receiving_is_pushing_into_the_buffer(
    pipeline: &mut AudioPipeline,
    buffer: &mut JitterBuffer,
    packet: AudioPacket,
    now: u64,
    accepted: bool,
    kept: bool,
)
    requires
        old(pipeline).wf(),
        old(buffer).wf(),
        old(buffer)@ == old(pipeline)@.jitter,
        old(buffer)@.has_headroom(),
        call_ensures(AudioPipeline::push_incoming, (pipeline, packet, now), accepted),
        call_ensures(JitterBuffer::push, (buffer, packet, now), kept),
    ensures
        accepted == kept,
        final(pipeline)@.jitter == final(buffer)@,
        final(pipeline)@.codec == old(pipeline)@.codec,
        final(pipeline)@.processor == old(pipeline)@.processor,
        final(pipeline)@.pending == old(pipeline)@.pending,
{
}

/// A received packet for a position that has not been played, is free and finds
/// room is accepted and held with its payload, however far ahead of the decoder it
/// lies.
pub proof fn law_received_packet_is_held(
    pipeline: &mut AudioPipeline,
    packet: AudioPacket,
    now: u64,
    accepted: bool,
    slot: i64,
)
    requires
        old(pipeline).wf(),
        old(pipeline)@.jitter.has_headroom(),
        call_ensures(AudioPipeline::push_incoming, (pipeline, packet, now), accepted),
        jitter_operations::stands_for(old(pipeline)@.jitter, packet.sequence_number, slot),
        !jitter_operations::is_past(old(pipeline)@.jitter, slot),
        !jitter_operations::is_taken(old(pipeline)@.jitter, slot),
        old(pipeline)@.jitter.packets.len() < old(pipeline)@.jitter.config.max_packets,
    ensures
        accepted,
        final(pipeline)@.jitter.packets.contains_key(slot),
        final(pipeline)@.jitter.packets[slot].payload == packet.payload@,
        final(pipeline)@.jitter.packets[slot].timestamp == packet.timestamp,
        final(pipeline)@.jitter.packets_late == old(pipeline)@.jitter.packets_late,
{
    old(pipeline).lemma_wf();
    jitter_operations::lemma_slot(old(pipeline)@.jitter, packet@, slot);
}

/// What the decoder is given for the expected position: the packet itself, whole
/// and without error correction, if it is there; the packet behind a gap, whole
/// and with error correction, if that is there and error correction is on; and
/// otherwise nothing, which asks for concealment.
pub open spec fn is_given_to_decoder(before: PipelineModel, bytes: Seq<u8>, fec: bool) -> bool {
    let expected = before.jitter.next_seq;
    let following = (expected + 1) as i64;
    if before.jitter.packets.contains_key(expected) {
        bytes == before.jitter.packets[expected].payload && !fec
    } else if before.codec.use_fec && !before.jitter.evicted.contains_key(expected)
        && before.jitter.packets.contains_key(following) {
        bytes == before.jitter.packets[following].payload && fec
    } else {
        bytes.len() == 0 && !fec
    }
}

/// The decision for the expected position hands its packet over byte for byte.
pub proof fn law_buffered_packet_reaches_the_decoder_whole(before: PipelineModel, use_fec: bool)
    requires
        before.wf(),
        before.jitter.has_headroom(),
        before.jitter.packets.contains_key(before.jitter.next_seq),
    ensures
        pipeline::decoder_input(before.jitter.slot_event(), use_fec) == (
            before.jitter.packets[before.jitter.next_seq].payload,
            false,
        ),
{
}

/// Playing the expected position decodes its packet, reconstructs it or conceals
/// it, and moves the jitter buffer on as popping from it does; the rest of the
/// pipeline is left alone. Whether it is played depends on its deadline only. If
/// it is not, the decoder is not called and nothing changes.
///
/// `frame` is the number of samples of each channel in a codec frame.
pub proof fn law_due_position_is_decoded<
    S,
    N: Fn(S, &[u8]) -> (S, Result<usize, OpusFault>),
    F: Fn(S, &[u8], Vec<i16>, bool) -> (S, Result<(Vec<i16>, usize), OpusFault>),
>(
    pipeline: &mut AudioPipeline,
    buffer: &mut JitterBuffer,
    now: u64,
    event: Option<PlayoutEvent>,
    decoder: S,
    duration: N,
    decode: F,
    pcm: (S, Result<Option<Vec<i16>>, PipelineError>),
    frame: int,
)
    requires
        old(pipeline).wf(),
        codec_laws::is_usable(old(pipeline)@.codec),
        frame * 1_000_000 == old(pipeline)@.codec.frame_size_us
            * old(pipeline)@.codec.sample_rate,
        old(buffer).wf(),
        old(buffer)@ == old(pipeline)@.jitter,
        old(buffer)@.has_headroom(),
        call_ensures(
            AudioPipeline::pop_decoded::<S, N, F>,
            (pipeline, now, decoder, &duration, &decode),
            pcm,
        ),
        call_ensures(JitterBuffer::pop_event, (buffer, now), event),
    ensures
        final(pipeline)@.jitter == final(buffer)@,
        final(pipeline)@.codec == old(pipeline)@.codec,
        final(pipeline)@.processor == old(pipeline)@.processor,
        final(pipeline)@.pending == old(pipeline)@.pending,
        event is None ==> {
            &&& pcm.0 == decoder
            &&& pcm.1 matches Ok(None)
            &&& final(pipeline)@ == old(pipeline)@
        },
        event is Some ==> exists|packet: &[u8], fec: bool|
            is_given_to_decoder(old(pipeline)@, packet@, fec) && #[trigger] is_decoded(
                old(pipeline)@.codec,
                duration,
                decode,
                decoder,
                packet,
                frame,
                fec,
                pcm,
            ),
        event matches Some(PlayoutEvent::Packet(played)) ==> exists|packet: &[u8]|
            packet@ == played.payload@ && #[trigger] is_decoded(
                old(pipeline)@.codec,
                duration,
                decode,
                decoder,
                packet,
                frame,
                false,
                pcm,
            ),
{
    let before = old(pipeline)@;
    old(pipeline).lemma_wf();
    old(buffer).lemma_wf();
    codec_laws::lemma_exact_frames(before.codec);
    assert(event is Some <==> before.jitter.is_due(now));
    if event is Some {
        assert(event->Some_0@ == before.jitter.slot_event());
        let (bytes, fec) = pipeline::decoder_input(
            before.jitter.slot_event(),
            before.codec.use_fec,
        );
        let outcome = match pcm.1 {
            Ok(Some(samples)) => Ok::<Vec<i16>, CodecError>(samples),
            Ok(None) => Ok(arbitrary()),
            Err(PipelineError::Codec(error)) => Err(error),
            Err(PipelineError::Processor(_)) => Ok(arbitrary()),
        };
        let packet = choose|packet: &[u8]| #[trigger]
            packet@ == bytes && codec::decoded(
                before.codec,
                packet,
                fec,
                decoder,
                duration,
                decode,
                pcm.0,
                codec::pcm_samples(outcome),
            );
        codec_laws::lemma_is_decoding(
            before.codec,
            packet,
            fec,
            decoder,
            duration,
            decode,
            pcm.0,
            outcome,
        );
        assert(is_decoded(before.codec, duration, decode, decoder, packet, frame, fec, pcm));
        assert(is_given_to_decoder(before, packet@, fec));
    }
}

/// Whether playing decoded a packet: the samples or the failure of decoding are
/// what playing gives.
pub open spec fn is_decoded<
    S,
    N: Fn(S, &[u8]) -> (S, Result<usize, OpusFault>),
    F: Fn(S, &[u8], Vec<i16>, bool) -> (S, Result<(Vec<i16>, usize), OpusFault>),
>(
    config: CodecConfig,
    duration: N,
    decode: F,
    decoder: S,
    packet: &[u8],
    frame: int,
    fec: bool,
    pcm: (S, Result<Option<Vec<i16>>, PipelineError>),
) -> bool {
    match pcm.1 {
        Ok(Some(samples)) => codec_laws::is_decoding(
            duration,
            decode,
            decoder,
            packet,
            frame,
            config.channels as int,
            fec,
            pcm.0,
            Ok(samples),
        ),
        Ok(None) => false,
        Err(PipelineError::Codec(error)) => codec_laws::is_decoding(
            duration,
            decode,
            decoder,
            packet,
            frame,
            config.channels as int,
            fec,
            pcm.0,
            Err(error),
        ),
        Err(PipelineError::Processor(_)) => false,
    }
}

/// What the pipeline tells of its jitter buffer is what the buffer tells of
/// itself, and what it tells of the microphone path is what the engine measured.
pub proof fn law_pipeline_reports_its_parts(
    pipeline: AudioPipeline,
    buffer: JitterBuffer,
    headroom: (bool, bool),
    pending: (bool, bool),
    deadline: (Option<u128>, Option<u128>),
    stats: (JitterStats, JitterStats),
    measured: EngineStats,
    processed: ProcessorStats,
)
    requires
        pipeline.wf(),
        buffer.wf(),
        buffer@ == pipeline@.jitter,
        call_ensures(AudioPipeline::has_headroom, (&pipeline,), headroom.0),
        call_ensures(JitterBuffer::has_headroom, (&buffer,), headroom.1),
        call_ensures(AudioPipeline::has_pending_playout, (&pipeline,), pending.0),
        call_ensures(JitterBuffer::has_pending, (&buffer,), pending.1),
        call_ensures(AudioPipeline::next_playout_deadline, (&pipeline,), deadline.0),
        call_ensures(JitterBuffer::next_deadline, (&buffer,), deadline.1),
        call_ensures(AudioPipeline::jitter_stats, (&pipeline,), stats.0),
        call_ensures(JitterBuffer::stats, (&buffer,), stats.1),
        call_ensures(AudioPipeline::processor_stats, (&pipeline, measured), processed),
    ensures
        headroom.0 == headroom.1,
        pending.0 == pending.1,
        pending.0 <==> exists|slot: i64| #[trigger]
            jitter_operations::is_taken(pipeline@.jitter, slot),
        deadline.0 == deadline.1,
        deadline.0 is Some <==> pending.0,
        stats.0 == stats.1,
        stats.0.packets_in == pipeline@.jitter.packets_in,
        stats.0.packets_out == pipeline@.jitter.packets_out,
        stats.0.packets_dropped == pipeline@.jitter.packets_dropped,
        stats.0.packets_late == pipeline@.jitter.packets_late,
        processed.has_voice <==> measured.has_voice == Some(true),
        processed.has_echo <==> measured.has_echo == Some(true),
        processed.rms_dbfs == measured.rms_dbfs,
{
    pipeline.lemma_wf();
    buffer.lemma_wf();
    jitter_operations::lemma_pending(pipeline@.jitter);
}

/// Whether a pipeline uses these codec and processor settings and holds no audio.
pub open spec fn holds_no_audio(
    codec: CodecConfig,
    processor: ProcessorConfig,
    made: PipelineModel,
) -> bool {
    &&& made.codec == codec
    &&& made.processor.config == processor
    &&& processor_laws::holds_nothing(made.processor)
    &&& made.pending.len() == 0
    &&& jitter_operations::is_untouched(made.jitter)
}

/// A new pipeline uses the configuration and holds no audio; its buffer is that of
/// a new jitter buffer. It is made exactly if the codec settings are usable, and
/// otherwise fails as making an encoder does.
pub proof fn law_new_pipeline_holds_no_audio(
    config: AudioPipelineConfig,
    made: Result<AudioPipeline, PipelineError>,
    buffer: JitterBuffer,
    checked: Result<(), CodecError>,
)
    requires
        call_ensures(AudioPipeline::new, (config,), made),
        call_ensures(JitterBuffer::new, (config.jitter,), buffer),
        call_ensures(CodecConfig::validate, (&config.codec,), checked),
    ensures
        made is Ok <==> codec_laws::is_usable(config.codec),
        made matches Ok(pipeline) ==> {
            &&& pipeline.wf()
            &&& holds_no_audio(config.codec, config.processor, pipeline@)
            &&& jitter_operations::is_used_for(config.jitter, pipeline@.jitter.config)
            &&& pipeline@.jitter == buffer@
        },
        made matches Err(error) ==> {
            &&& error matches PipelineError::Codec(CodecError::InvalidConfig(text))
            &&& checked matches Err(CodecError::InvalidConfig(other)) && text@ == other@
        },
{
    timing::lemma_idle_wf(config.jitter.sanitized().limits());
}

/// Opening a pipeline opens the encoder, the decoder and the processing engine in
/// this order, each as it is opened by itself, and the first failure ends it: what
/// comes after it is not called. The pipeline holds no audio.
pub proof fn law_pipeline_opens_encoder_decoder_and_engine<
    LO,
    LP,
    SE,
    SD,
    P,
    OE: Fn(LO, u32, ChannelLayout, ApplicationMode) -> (LO, Result<SE, OpusFault>),
    T: Fn(SE, EncoderSetting) -> (SE, Result<(), OpusFault>),
    OD: Fn(LO, u32, ChannelLayout) -> (LO, Result<SD, OpusFault>),
    O: Fn(LP, EngineInit) -> (LP, Result<P, EngineFault>),
    G: Fn(P, EngineConfig) -> P,
>(
    config: AudioPipelineConfig,
    codecs: LO,
    create_encoder: OE,
    tune: T,
    create_decoder: OD,
    engines: LP,
    create_engine: O,
    configure: G,
    made: (LO, LP, Result<(AudioPipeline, SE, SD, P), PipelineError>),
)
    requires
        call_ensures(
            AudioPipeline::open::<LO, LP, SE, SD, P, OE, T, OD, O, G>,
            (
                config,
                codecs,
                &create_encoder,
                &tune,
                &create_decoder,
                engines,
                &create_engine,
                &configure,
            ),
            made,
        ),
    ensures
        made.2 matches Ok((pipeline, _, _, _)) ==> {
            &&& pipeline.wf()
            &&& holds_no_audio(config.codec, config.processor, pipeline@)
            &&& jitter_operations::is_used_for(config.jitter, pipeline@.jitter.config)
        },
        !codec_laws::is_usable(config.codec) ==> {
            &&& made.0 == codecs
            &&& made.1 == engines
            &&& made.2 matches Err(PipelineError::Codec(CodecError::InvalidConfig(_)))
        },
        codec_laws::is_usable(config.codec) ==> exists|between: LO, encoder: Result<SE, CodecError>|
            #[trigger] codec_laws::is_encoder_opening(
                config.codec,
                codecs,
                create_encoder,
                tune,
                between,
                encoder,
            ) && match encoder {
                Err(error) => {
                    &&& made.0 == between
                    &&& made.1 == engines
                    &&& made.2 matches Err(failure) && failure == PipelineError::Codec(error)
                },
                Ok(encoder) => exists|decoder: Result<SD, CodecError>| #[trigger]
                    codec_laws::is_decoder_opening(
                        config.codec,
                        between,
                        create_decoder,
                        made.0,
                        decoder,
                    ) && match decoder {
                        Err(error) => {
                            &&& made.1 == engines
                            &&& made.2 matches Err(failure) && failure == PipelineError::Codec(
                                error,
                            )
                        },
                        Ok(decoder) => exists|engine: Result<P, EngineFault>| #[trigger]
                            processor_laws::is_making(
                                config.processor,
                                engines,
                                create_engine,
                                configure,
                                made.1,
                                engine,
                            ) && match engine {
                                Ok(engine) => made.2 matches Ok((_, one, other, third)) && one
                                    == encoder && other == decoder && third == engine,
                                Err(fault) => made.2 matches Err(failure) && failure
                                    == PipelineError::Processor(ProcessorError::Config(fault)),
                            },
                    },
            },
{
    let outcome = match made.2 {
        Ok((_, encoder, decoder, engine)) => Ok::<(SE, SD, P), PipelineError>(
            (encoder, decoder, engine),
        ),
        Err(error) => Err(error),
    };
    let (between, encoder) = choose|between: LO, encoder: Result<SE, CodecError>| #[trigger]
        codec::encoder_opened(config.codec, codecs, create_encoder, tune, between, encoder)
            && match encoder {
            Err(error) => {
                &&& made.0 == between
                &&& made.1 == engines
                &&& outcome == Err::<(SE, SD, P), PipelineError>(PipelineError::Codec(error))
            },
            Ok(encoder) => exists|decoder: Result<SD, CodecError>| #[trigger]
                codec::decoder_opened(config.codec, between, create_decoder, made.0, decoder)
                    && match decoder {
                    Err(error) => {
                        &&& made.1 == engines
                        &&& outcome == Err::<(SE, SD, P), PipelineError>(
                            PipelineError::Codec(error),
                        )
                    },
                    Ok(decoder) => exists|engine: Result<P, EngineFault>| #[trigger]
                        processor::engine_made(
                            config.processor,
                            engines,
                            create_engine,
                            configure,
                            made.1,
                            engine,
                        ) && outcome == (match engine {
                            Ok(engine) => Ok::<(SE, SD, P), PipelineError>(
                                (encoder, decoder, engine),
                            ),
                            Err(fault) => Err(
                                PipelineError::Processor(ProcessorError::Config(fault)),
                            ),
                        }),
                },
        };
    timing::lemma_idle_wf(config.jitter.sanitized().limits());
    codec_laws::law_valid_means_supported(config.codec);
    if codec_laws::is_usable(config.codec) {
        codec_laws::lemma_is_encoder_opening(
            config.codec,
            codecs,
            create_encoder,
            tune,
            between,
            encoder,
        );
        if let Ok(opened) = encoder {
            let decoder = choose|decoder: Result<SD, CodecError>| #[trigger]
                codec::decoder_opened(config.codec, between, create_decoder, made.0, decoder)
                    && match decoder {
                    Err(error) => {
                        &&& made.1 == engines
                        &&& outcome == Err::<(SE, SD, P), PipelineError>(
                            PipelineError::Codec(error),
                        )
                    },
                    Ok(decoder) => exists|engine: Result<P, EngineFault>| #[trigger]
                        processor::engine_made(
                            config.processor,
                            engines,
                            create_engine,
                            configure,
                            made.1,
                            engine,
                        ) && outcome == (match engine {
                            Ok(engine) => Ok::<(SE, SD, P), PipelineError>(
                                (opened, decoder, engine),
                            ),
                            Err(fault) => Err(
                                PipelineError::Processor(ProcessorError::Config(fault)),
                            ),
                        }),
                };
            codec_laws::lemma_is_decoder_opening(
                config.codec,
                between,
                create_decoder,
                made.0,
                decoder,
            );
            if let Ok(second) = decoder {
                let engine = choose|engine: Result<P, EngineFault>| #[trigger]
                    processor::engine_made(
                        config.processor,
                        engines,
                        create_engine,
                        configure,
                        made.1,
                        engine,
                    ) && outcome == (match engine {
                        Ok(engine) => Ok::<(SE, SD, P), PipelineError>((opened, second, engine)),
                        Err(fault) => Err(PipelineError::Processor(ProcessorError::Config(fault))),
                    });
                processor_laws::lemma_is_making(
                    config.processor,
                    engines,
                    create_engine,
                    configure,
                    made.1,
                    engine,
                );
            }
        }
    }
}

/// Resetting a pipeline empties it in both directions, keeps its settings and
/// replaces the processing engine as resetting the processor does.
pub proof fn law_reset_empties_the_pipeline<
    L,
    P,
    O: Fn(L, EngineInit) -> (L, Result<P, EngineFault>),
    G: Fn(P, EngineConfig) -> P,
>(
    pipeline: &mut AudioPipeline,
    library: L,
    engine: P,
    create: O,
    configure: G,
    rebuilt: (L, P, Result<(), EngineFault>),
)
    requires
        old(pipeline).wf(),
        call_ensures(
            AudioPipeline::reset::<L, P, O, G>,
            (pipeline, library, engine, &create, &configure),
            rebuilt,
        ),
    ensures
        holds_no_audio(
            old(pipeline)@.codec,
            old(pipeline)@.processor.config,
            final(pipeline)@,
        ),
        final(pipeline)@.jitter.config == old(pipeline)@.jitter.config,
        match rebuilt.2 {
            Ok(()) => processor_laws::is_making(
                old(pipeline)@.processor.config,
                library,
                create,
                configure,
                rebuilt.0,
                Ok(rebuilt.1),
            ),
            Err(fault) => rebuilt.1 == engine && processor_laws::is_making(
                old(pipeline)@.processor.config,
                library,
                create,
                configure,
                rebuilt.0,
                Err::<P, EngineFault>(fault),
            ),
        },
{
    old(pipeline).lemma_wf();
    timing::lemma_idle_wf(old(pipeline)@.jitter.config.limits());
    processor_laws::lemma_is_replacing(
        old(pipeline)@.processor.config,
        library,
        engine,
        create,
        configure,
        rebuilt,
    );
}

/// The default settings: voice at 48 kHz mono with codec and buffer frames of
/// 10 ms, so that a codec frame is as long as a processor frame.
pub proof fn law_default_settings_fit_together(config: AudioPipelineConfig)
    requires
        call_ensures(<AudioPipelineConfig as Default>::default, (), config),
    ensures
        codec_laws::is_usable(config.codec),
        config.codec.sample_rate == 48_000,
        config.codec.channels == 1,
        config.codec.bitrate == 24_000,
        config.codec.frame_size_us == 10_000,
        config.codec.use_dtx,
        config.codec.use_fec,
        config.codec.complexity == 0,
        config.jitter.sample_rate == config.codec.sample_rate,
        config.jitter.frame_size_ms * 1_000 == config.codec.frame_size_us,
        config.jitter.max_latency_ms == 120,
        config.jitter.target_latency_ms == 5,
        config.jitter.max_packets == 100,
        config.processor.enable_aec,
        config.processor.enable_ns,
        config.processor.enable_agc,
        config.processor.enable_vad,
        config.processor.agc_target_level_dbfs == 3,
        config.processor.agc_compression_gain_db == 9,
        config.processor.ns_level is Moderate,
        config.processor.aec_suppression is Moderate,
        config.codec.sample_rate * config.codec.frame_size_us * config.codec.channels == 480
            * 1_000_000,
{
}

/// Playback goes to the engine frame by frame as the processor hands it over; the
/// rest of the pipeline is left alone.
pub proof fn law_rendering_goes_to_the_engine<
    P,
    R: Fn(P, [i16; FRAME_SAMPLES]) -> (P, Result<(), EngineFault>),
>(
    pipeline: &mut AudioPipeline,
    playout: &[i16],
    engine: P,
    render: R,
    done: (P, Result<(), PipelineError>),
)
    requires
        old(pipeline).wf(),
        call_ensures(
            AudioPipeline::on_render::<P, R>,
            (pipeline, playout, engine, &render),
            done,
        ),
    ensures
        exists|calls: framing::Calls<P, (), EngineFault>, result: Result<(), ProcessorError>|
            processor_laws::is_playback_run(
                render,
                engine,
                old(pipeline)@.processor.render + playout@,
                calls,
            ) && done.0 == calls.states.last() && #[trigger] processor_laws::is_playback(
                old(pipeline)@.processor,
                playout@,
                calls,
                final(pipeline)@.processor,
                result,
            ) && match result {
                Ok(()) => done.1 is Ok,
                Err(error) => done.1 == Err::<(), PipelineError>(PipelineError::Processor(error)),
            },
        final(pipeline)@.codec == old(pipeline)@.codec,
        final(pipeline)@.jitter == old(pipeline)@.jitter,
        final(pipeline)@.pending == old(pipeline)@.pending,
{
    let before = old(pipeline)@;
    let calls = choose|calls: framing::Calls<P, (), EngineFault>| #[trigger]
        calls.is_run(
            engine,
            before.processor.render_frames(playout@),
            processor::rendering(render),
        ) && calls.end() == done.0 && before.rendered(playout@, calls.answers) == (
            final(pipeline)@,
            done.1,
        );
    let (_, result) = before.processor.rendered(playout@, calls.answers);
    processor_laws::lemma_is_playback(before.processor, playout@, engine, render, calls);
    assert(processor_laws::is_playback(
        before.processor,
        playout@,
        calls,
        final(pipeline)@.processor,
        result,
    ));
}

/// The number of samples of an outgoing block: the least that is a whole number of
/// codec frames of `frame` samples and of processor frames of 480 samples.
pub open spec fn is_block(frame: nat, block: nat) -> bool {
    &&& block > 0
    &&& block % frame == 0
    &&& block % 480 == 0
    &&& forall|other: nat|
        other > 0 && #[trigger] (other % frame) == 0 && other % 480 == 0 ==> block <= other
}

/// Whether processed audio went to the encoder frame by frame: the packets are
/// those of the calls before the first failure, which is reported.
pub open spec fn is_encoded<S, F: Fn(S, &[i16], usize) -> (S, Result<Vec<u8>, EncodeFault>)>(
    encode: F,
    encoder: S,
    pcm: Seq<i16>,
    frame: nat,
    packets: Seq<Seq<u8>>,
    after: S,
    result: Result<(), PipelineError>,
) -> bool {
    exists|calls: framing::Calls<S, Seq<u8>, EncodeFault>| #[trigger]
        codec_laws::is_encoding(encode, encoder, pcm, frame, calls) && after
            == calls.states.last() && {
            let made = calls.answers.len() as int;
            let failed = made > 0 && calls.answers.last() is Err;
            &&& packets.len() == if failed {
                made - 1
            } else {
                made
            }
            &&& forall|i: int|
                0 <= i < packets.len() ==> calls.answers[i] == Ok::<Seq<u8>, EncodeFault>(
                    #[trigger] packets[i],
                )
            &&& result is Ok <==> !failed
            &&& failed ==> match calls.answers.last()->Err_0 {
                EncodeFault::Rejected(fault) => result == Err::<(), PipelineError>(
                    PipelineError::Codec(CodecError::Encode(fault)),
                ),
                EncodeFault::Poisoned => result == Err::<(), PipelineError>(
                    PipelineError::Codec(CodecError::Poisoned),
                ),
            }
        }
}

/// Whether a microphone chunk was sent in this way.
///
/// It joins the waiting samples. As long as they are fewer than a block they only
/// wait and no engine is called. Otherwise all complete blocks go through the
/// processor and what it delivers goes to the encoder; the rest waits. A failure of
/// the processor leaves the encoder alone. A chunk that is complete blocks by itself
/// is replaced by what was delivered; any other chunk is left as it is.
pub open spec fn is_sending<
    P,
    S,
    C: Fn(P, [i16; FRAME_SAMPLES]) -> (P, Result<[i16; FRAME_SAMPLES], EngineFault>),
    F: Fn(S, &[i16], usize) -> (S, Result<Vec<u8>, EncodeFault>),
>(
    before: PipelineModel,
    mic: Seq<i16>,
    engine: P,
    capture: C,
    encoder: S,
    encode: F,
    frame: nat,
    block: nat,
    after: PipelineModel,
    chunk: Seq<i16>,
    packets: Seq<Seq<u8>>,
    done: (P, S, Result<(), PipelineError>),
) -> bool {
    let stream = before.pending + mic;
    let count = stream.len() as int - stream.len() as int % block as int;
    let complete = stream.take(count);
    &&& after.codec == before.codec
    &&& after.jitter == before.jitter
    &&& after.pending == stream.skip(count)
    &&& if 0 < stream.len() < block {
        &&& after.processor == before.processor
        &&& chunk == mic
        &&& packets.len() == 0
        &&& done.0 == engine
        &&& done.1 == encoder
        &&& done.2 is Ok
    } else {
        exists|
            calls: framing::Calls<P, Seq<i16>, EngineFault>,
            delivered: Seq<i16>,
            result: Result<(), ProcessorError>,
        |
            processor_laws::is_microphone_run(
                capture,
                engine,
                before.processor.capture + complete,
                calls,
            ) && done.0 == calls.states.last() && #[trigger] processor_laws::is_delivery(
                before.processor,
                complete,
                calls,
                after.processor,
                delivered,
                result,
            ) && chunk == (if before.pending.len() == 0 && count == mic.len() {
                delivered
            } else {
                mic
            }) && match result {
                Ok(()) => is_encoded(
                    encode,
                    encoder,
                    delivered,
                    frame,
                    packets,
                    done.1,
                    done.2,
                ),
                Err(error) => {
                    &&& packets.len() == 0
                    &&& done.1 == encoder
                    &&& done.2 == Err::<(), PipelineError>(PipelineError::Processor(error))
                },
            }
    }
}

/// The bytes of packets.
pub open spec fn holds_bytes(packets: Seq<Vec<u8>>, bytes: Seq<Seq<u8>>) -> bool {
    &&& bytes.len() == packets.len()
    &&& forall|i: int| 0 <= i < packets.len() ==> bytes[i] == (#[trigger] packets[i])@
}

/// Sending a chunk gives the packets in a new list, or the failure; sending it into
/// a list leaves exactly the packets in it that were made, whatever it held before.
pub proof fn law_chunk_is_processed_and_encoded<
    P,
    S,
    C: Fn(P, [i16; FRAME_SAMPLES]) -> (P, Result<[i16; FRAME_SAMPLES], EngineFault>),
    F: Fn(S, &[i16], usize) -> (S, Result<Vec<u8>, EncodeFault>),
>(
    pipeline: &mut AudioPipeline,
    mic: &mut [i16],
    packets: &mut Vec<Vec<u8>>,
    engine: P,
    capture: C,
    encoder: S,
    encode: F,
    done: (P, S, Result<(), PipelineError>),
    frame: nat,
    block: nat,
)
    requires
        old(pipeline).wf(),
        codec_laws::is_usable(old(pipeline)@.codec),
        frame * 1_000_000 == old(pipeline)@.codec.frame_size_us * old(pipeline)@.codec.sample_rate
            * old(pipeline)@.codec.channels,
        is_block(frame, block),
        call_ensures(
            AudioPipeline::process_outgoing_into::<P, S, C, F>,
            (pipeline, mic, packets, engine, &capture, encoder, &encode),
            done,
        ),
    ensures
        exists|bytes: Seq<Seq<u8>>|
            holds_bytes(final(packets)@, bytes) && #[trigger] is_sending(
                old(pipeline)@,
                old(mic)@,
                engine,
                capture,
                encoder,
                encode,
                frame,
                block,
                final(pipeline)@,
                final(mic)@,
                bytes,
                done,
            ),
{
    old(pipeline).lemma_wf();
    lemma_is_sending(
        old(pipeline)@,
        old(mic)@,
        engine,
        capture,
        encoder,
        encode,
        frame,
        block,
        final(pipeline)@,
        final(mic)@,
        codec::packet_bytes(final(packets)@),
        done,
    );
    assert(holds_bytes(final(packets)@, codec::packet_bytes(final(packets)@)));
}

/// Sending a chunk into new packets is sending it into an empty list.
pub proof fn law_chunk_is_sent_in_new_packets<
    P,
    S,
    C: Fn(P, [i16; FRAME_SAMPLES]) -> (P, Result<[i16; FRAME_SAMPLES], EngineFault>),
    F: Fn(S, &[i16], usize) -> (S, Result<Vec<u8>, EncodeFault>),
>(
    pipeline: &mut AudioPipeline,
    mic: &mut [i16],
    engine: P,
    capture: C,
    encoder: S,
    encode: F,
    sent: (P, S, Result<Vec<Vec<u8>>, PipelineError>),
    frame: nat,
    block: nat,
)
    requires
        old(pipeline).wf(),
        codec_laws::is_usable(old(pipeline)@.codec),
        frame * 1_000_000 == old(pipeline)@.codec.frame_size_us * old(pipeline)@.codec.sample_rate
            * old(pipeline)@.codec.channels,
        is_block(frame, block),
        call_ensures(
            AudioPipeline::process_outgoing::<P, S, C, F>,
            (pipeline, mic, engine, &capture, encoder, &encode),
            sent,
        ),
    ensures
        exists|bytes: Seq<Seq<u8>>, result: Result<(), PipelineError>|
            is_list_of(sent.2, bytes, result) && #[trigger] is_sending(
                old(pipeline)@,
                old(mic)@,
                engine,
                capture,
                encoder,
                encode,
                frame,
                block,
                final(pipeline)@,
                final(mic)@,
                bytes,
                (sent.0, sent.1, result),
            ),
{
    old(pipeline).lemma_wf();
    let before = old(pipeline)@;
    let (bytes, ended) = choose|packets: Seq<Seq<u8>>, ended: (P, S, Result<(), PipelineError>)|
        #[trigger] before.sent(
            old(mic)@,
            engine,
            capture,
            encoder,
            encode,
            final(pipeline)@,
            final(mic)@,
            packets,
            ended,
        ) && ended.0 == sent.0 && ended.1 == sent.1 && match sent.2 {
            Ok(sent) => ended.2 is Ok && codec::packet_bytes(sent@) == packets,
            Err(error) => ended.2 == Err::<(), PipelineError>(error),
        };
    lemma_is_sending(
        before,
        old(mic)@,
        engine,
        capture,
        encoder,
        encode,
        frame,
        block,
        final(pipeline)@,
        final(mic)@,
        bytes,
        ended,
    );
    assert(ended == (sent.0, sent.1, ended.2));
    assert(is_list_of(sent.2, bytes, ended.2));
}

/// What a call gives for the packets that were made and its outcome: the packets in
/// a list, or the failure.
pub open spec fn is_list_of(
    list: Result<Vec<Vec<u8>>, PipelineError>,
    bytes: Seq<Seq<u8>>,
    result: Result<(), PipelineError>,
) -> bool {
    match list {
        Ok(packets) => result is Ok && holds_bytes(packets@, bytes),
        Err(error) => result == Err::<(), PipelineError>(error),
    }
}

/// Whether a microphone chunk was sent after playback in this way: the playback
/// goes to the engine first, and the chunk is sent with what that left. A failure of
/// the playback leaves the chunk, the encoder and the earlier packets alone.
pub open spec fn is_sending_after_playback<
    P,
    S,
    R: Fn(P, [i16; FRAME_SAMPLES]) -> (P, Result<(), EngineFault>),
    C: Fn(P, [i16; FRAME_SAMPLES]) -> (P, Result<[i16; FRAME_SAMPLES], EngineFault>),
    F: Fn(S, &[i16], usize) -> (S, Result<Vec<u8>, EncodeFault>),
>(
    before: PipelineModel,
    mic: Seq<i16>,
    far_end: Seq<i16>,
    engine: P,
    render: R,
    capture: C,
    encoder: S,
    encode: F,
    frame: nat,
    block: nat,
    earlier: Seq<Seq<u8>>,
    after: PipelineModel,
    chunk: Seq<i16>,
    packets: Seq<Seq<u8>>,
    done: (P, S, Result<(), PipelineError>),
) -> bool {
    exists|
        played: framing::Calls<P, (), EngineFault>,
        between: ProcessorModel,
        rendered: Result<(), ProcessorError>,
    |
        processor_laws::is_playback_run(
            render,
            engine,
            before.processor.render + far_end,
            played,
        ) && #[trigger] processor_laws::is_playback(
            before.processor,
            far_end,
            played,
            between,
            rendered,
        ) && match rendered {
            Err(error) => {
                &&& after.processor == between
                &&& after.codec == before.codec
                &&& after.jitter == before.jitter
                &&& after.pending == before.pending
                &&& chunk == mic
                &&& packets == earlier
                &&& done.0 == played.states.last()
                &&& done.1 == encoder
                &&& done.2 == Err::<(), PipelineError>(PipelineError::Processor(error))
            },
            Ok(()) => is_sending(
                PipelineModel { processor: between, ..before },
                mic,
                played.states.last(),
                capture,
                encoder,
                encode,
                frame,
                block,
                after,
                chunk,
                packets,
                done,
            ),
        }
}

/// Sending a chunk with a reference is handing the playback over and sending the
/// chunk. A failing playback leaves the packet list as it is.
pub proof fn law_reference_goes_before_the_chunk<
    P,
    S,
    R: Fn(P, [i16; FRAME_SAMPLES]) -> (P, Result<(), EngineFault>),
    C: Fn(P, [i16; FRAME_SAMPLES]) -> (P, Result<[i16; FRAME_SAMPLES], EngineFault>),
    F: Fn(S, &[i16], usize) -> (S, Result<Vec<u8>, EncodeFault>),
>(
    pipeline: &mut AudioPipeline,
    mic: &mut [i16],
    far_end: &[i16],
    packets: &mut Vec<Vec<u8>>,
    engine: P,
    render: R,
    capture: C,
    encoder: S,
    encode: F,
    done: (P, S, Result<(), PipelineError>),
    frame: nat,
    block: nat,
)
    requires
        old(pipeline).wf(),
        codec_laws::is_usable(old(pipeline)@.codec),
        frame * 1_000_000 == old(pipeline)@.codec.frame_size_us * old(pipeline)@.codec.sample_rate
            * old(pipeline)@.codec.channels,
        is_block(frame, block),
        call_ensures(
            AudioPipeline::process_outgoing_with_reference_into::<P, S, R, C, F>,
            (pipeline, mic, far_end, packets, engine, &render, &capture, encoder, &encode),
            done,
        ),
    ensures
        exists|earlier: Seq<Seq<u8>>, bytes: Seq<Seq<u8>>|
            holds_bytes(old(packets)@, earlier) && holds_bytes(final(packets)@, bytes)
                && #[trigger] is_sending_after_playback(
                old(pipeline)@,
                old(mic)@,
                far_end@,
                engine,
                render,
                capture,
                encoder,
                encode,
                frame,
                block,
                earlier,
                final(pipeline)@,
                final(mic)@,
                bytes,
                done,
            ),
{
    old(pipeline).lemma_wf();
    lemma_is_sending_after_playback(
        old(pipeline)@,
        old(mic)@,
        far_end@,
        engine,
        render,
        capture,
        encoder,
        encode,
        frame,
        block,
        codec::packet_bytes(old(packets)@),
        final(pipeline)@,
        final(mic)@,
        codec::packet_bytes(final(packets)@),
        done,
    );
    assert(holds_bytes(old(packets)@, codec::packet_bytes(old(packets)@)));
    assert(holds_bytes(final(packets)@, codec::packet_bytes(final(packets)@)));
}

/// Sending a chunk with a reference into new packets is sending it into an empty
/// list.
pub proof fn law_reference_and_chunk_are_sent_in_new_packets<
    P,
    S,
    R: Fn(P, [i16; FRAME_SAMPLES]) -> (P, Result<(), EngineFault>),
    C: Fn(P, [i16; FRAME_SAMPLES]) -> (P, Result<[i16; FRAME_SAMPLES], EngineFault>),
    F: Fn(S, &[i16], usize) -> (S, Result<Vec<u8>, EncodeFault>),
>(
    pipeline: &mut AudioPipeline,
    mic: &mut [i16],
    far_end: &[i16],
    engine: P,
    render: R,
    capture: C,
    encoder: S,
    encode: F,
    sent: (P, S, Result<Vec<Vec<u8>>, PipelineError>),
    frame: nat,
    block: nat,
)
    requires
        old(pipeline).wf(),
        codec_laws::is_usable(old(pipeline)@.codec),
        frame * 1_000_000 == old(pipeline)@.codec.frame_size_us * old(pipeline)@.codec.sample_rate
            * old(pipeline)@.codec.channels,
        is_block(frame, block),
        call_ensures(
            AudioPipeline::process_outgoing_with_reference::<P, S, R, C, F>,
            (pipeline, mic, far_end, engine, &render, &capture, encoder, &encode),
            sent,
        ),
    ensures
        exists|bytes: Seq<Seq<u8>>, result: Result<(), PipelineError>|
            is_list_of(sent.2, bytes, result) && #[trigger] is_sending_after_playback(
                old(pipeline)@,
                old(mic)@,
                far_end@,
                engine,
                render,
                capture,
                encoder,
                encode,
                frame,
                block,
                Seq::empty(),
                final(pipeline)@,
                final(mic)@,
                bytes,
                (sent.0, sent.1, result),
            ),
{
    old(pipeline).lemma_wf();
    let before = old(pipeline)@;
    let (bytes, ended) = choose|packets: Seq<Seq<u8>>, ended: (P, S, Result<(), PipelineError>)|
        #[trigger] before.sent_with_reference(
            old(mic)@,
            far_end@,
            engine,
            render,
            capture,
            encoder,
            encode,
            Seq::empty(),
            final(pipeline)@,
            final(mic)@,
            packets,
            ended,
        ) && ended.0 == sent.0 && ended.1 == sent.1 && match sent.2 {
            Ok(sent) => ended.2 is Ok && codec::packet_bytes(sent@) == packets,
            Err(error) => ended.2 == Err::<(), PipelineError>(error),
        };
    lemma_is_sending_after_playback(
        before,
        old(mic)@,
        far_end@,
        engine,
        render,
        capture,
        encoder,
        encode,
        frame,
        block,
        Seq::empty(),
        final(pipeline)@,
        final(mic)@,
        bytes,
        ended,
    );
    assert(ended == (sent.0, sent.1, ended.2));
    assert(is_list_of(sent.2, bytes, ended.2));
}

/// A sent chunk went through both engines block by block.
proof fn lemma_is_sending<
    P,
    S,
    C: Fn(P, [i16; FRAME_SAMPLES]) -> (P, Result<[i16; FRAME_SAMPLES], EngineFault>),
    F: Fn(S, &[i16], usize) -> (S, Result<Vec<u8>, EncodeFault>),
>(
    before: PipelineModel,
    mic: Seq<i16>,
    engine: P,
    capture: C,
    encoder: S,
    encode: F,
    frame: nat,
    block: nat,
    after: PipelineModel,
    chunk: Seq<i16>,
    packets: Seq<Seq<u8>>,
    done: (P, S, Result<(), PipelineError>),
)
    requires
        before.wf(),
        codec_laws::is_usable(before.codec),
        frame * 1_000_000 == before.codec.frame_size_us * before.codec.sample_rate
            * before.codec.channels,
        is_block(frame, block),
        before.sent(mic, engine, capture, encoder, encode, after, chunk, packets, done),
    ensures
        is_sending(
            before,
            mic,
            engine,
            capture,
            encoder,
            encode,
            frame,
            block,
            after,
            chunk,
            packets,
            done,
        ),
{
    lemma_block_size(before.codec, frame, block);
    let stream = before.pending + mic;
    let count = stream.len() as int - stream.len() as int % block as int;
    vstd::arithmetic::div_mod::lemma_fundamental_div_mod(stream.len() as int, block as int);
    let whole = framing::whole(stream.len(), block) as int;
    assert(whole == count) by (nonlinear_arith)
        requires
            whole == stream.len() as int / block as int * block,
            stream.len() as int == block * (stream.len() as int / block as int)
                + stream.len() as int % block as int,
            count == stream.len() as int - stream.len() as int % block as int,
    ;
    let complete = before.complete(mic);
    assert(complete == stream.take(count));
    if stream.len() < block {
        vstd::arithmetic::div_mod::lemma_small_mod(stream.len(), block);
    } else {
        assert(count > 0) by {
            vstd::arithmetic::div_mod::lemma_mod_bound(stream.len() as int, block as int);
        }
    }
    if !before.in_place(mic) && complete.len() == 0 {
        assert(stream.len() < block);
        if stream.len() == 0 {
            vstd::arithmetic::div_mod::lemma_small_mod(0, block);
            assert(before.in_place(mic));
        }
        assert(stream.skip(0) =~= stream);
    } else {
        if 0 < stream.len() < block {
            assert(before.in_place(mic));
            assert(before.pending + mic =~= mic);
            assert(mic.len() % block == mic.len());
            assert(false);
        }
        let calls = choose|calls: framing::Calls<P, Seq<i16>, EngineFault>| #[trigger]
            calls.is_run(
                engine,
                before.processor.capture_frames(complete),
                processor::capturing(capture),
            ) && calls.end() == done.0 && {
                let (processor, processed, result) = before.processor.captured(
                    complete,
                    calls.answers,
                );
                &&& after == (PipelineModel {
                    processor,
                    pending: before.incomplete(mic),
                    ..before
                })
                &&& chunk == (if before.in_place(mic) {
                    processed
                } else {
                    mic
                })
                &&& match result {
                    Err(error) => {
                        &&& packets == Seq::<Seq<u8>>::empty()
                        &&& done.1 == encoder
                        &&& done.2 == Err::<(), PipelineError>(PipelineError::Processor(error))
                    },
                    Ok(()) => before.encoded(processed, encoder, encode, packets, (done.1, done.2)),
                }
            };
        let (processor, delivered, result) = before.processor.captured(complete, calls.answers);
        processor_laws::lemma_is_delivery(before.processor, complete, engine, capture, calls);
        assert(processor_laws::is_delivery(
            before.processor,
            complete,
            calls,
            after.processor,
            delivered,
            result,
        ));
        assert(before.in_place(mic) <==> before.pending.len() == 0 && count == mic.len()) by {
            if before.pending.len() == 0 {
                assert(stream =~= mic);
            }
        }
        if result is Ok {
            lemma_is_encoded(before, delivered, encoder, encode, frame, packets, (done.1, done.2));
        }
    }
}

/// Encoded audio went to the encoder frame by frame.
proof fn lemma_is_encoded<S, F: Fn(S, &[i16], usize) -> (S, Result<Vec<u8>, EncodeFault>)>(
    before: PipelineModel,
    pcm: Seq<i16>,
    encoder: S,
    encode: F,
    frame: nat,
    packets: Seq<Seq<u8>>,
    ended: (S, Result<(), PipelineError>),
)
    requires
        codec_laws::is_usable(before.codec),
        before.codec.is_valid(),
        frame == before.codec.frame_samples(),
        before.encoded(pcm, encoder, encode, packets, ended),
    ensures
        is_encoded(encode, encoder, pcm, frame, packets, ended.0, ended.1),
{
    let calls = choose|calls: framing::Calls<S, Seq<u8>, EncodeFault>| #[trigger]
        calls.is_run(
            encoder,
            codec::encoder_frames(before.codec, pcm),
            codec::encoding(encode),
        ) && {
            let (made, result) = codec::encoded(Seq::empty(), calls.answers);
            &&& packets == made
            &&& ended == (
                calls.end(),
                match result {
                    Ok(()) => Ok::<(), PipelineError>(()),
                    Err(error) => Err(PipelineError::Codec(error)),
                },
            )
        };
    codec_laws::lemma_is_encoding(before.codec, encode, encoder, pcm, calls);
    let made = calls.answers.len() as int;
    let failed = made > 0 && calls.answers.last() is Err;
    assert(failed == framing::failed(calls.answers));
    assert forall|i: int| 0 <= i < packets.len() implies calls.answers[i] == Ok::<
        Seq<u8>,
        EncodeFault,
    >(#[trigger] packets[i]) by {
        if i == made - 1 {
            assert(calls.answers.last() == calls.answers[i]);
        }
    }
}

/// A block is the least common multiple of the two frame sizes.
proof fn lemma_block_size(config: CodecConfig, frame: nat, block: nat)
    requires
        codec_laws::is_usable(config),
        frame * 1_000_000 == config.frame_size_us * config.sample_rate * config.channels,
        is_block(frame, block),
    ensures
        frame == config.frame_samples(),
        frame > 0,
        block == alignment::common_multiple(config.frame_samples(), FRAME_SAMPLES as nat),
{
    codec_laws::lemma_exact_frames(config);
    config.lemma_frame_samples();
    assert(frame == config.frame_samples());
    assert(FRAME_SAMPLES == 480);
    alignment::law_common_multiple_is_least(frame, 480, block);
    let least = alignment::common_multiple(frame, 480);
    assert(least % frame == 0);
}

/// A chunk that was sent with a reference was sent after its playback.
proof fn lemma_is_sending_after_playback<
    P,
    S,
    R: Fn(P, [i16; FRAME_SAMPLES]) -> (P, Result<(), EngineFault>),
    C: Fn(P, [i16; FRAME_SAMPLES]) -> (P, Result<[i16; FRAME_SAMPLES], EngineFault>),
    F: Fn(S, &[i16], usize) -> (S, Result<Vec<u8>, EncodeFault>),
>(
    before: PipelineModel,
    mic: Seq<i16>,
    far_end: Seq<i16>,
    engine: P,
    render: R,
    capture: C,
    encoder: S,
    encode: F,
    frame: nat,
    block: nat,
    earlier: Seq<Seq<u8>>,
    after: PipelineModel,
    chunk: Seq<i16>,
    packets: Seq<Seq<u8>>,
    done: (P, S, Result<(), PipelineError>),
)
    requires
        before.wf(),
        codec_laws::is_usable(before.codec),
        frame * 1_000_000 == before.codec.frame_size_us * before.codec.sample_rate
            * before.codec.channels,
        is_block(frame, block),
        before.sent_with_reference(
            mic,
            far_end,
            engine,
            render,
            capture,
            encoder,
            encode,
            earlier,
            after,
            chunk,
            packets,
            done,
        ),
    ensures
        is_sending_after_playback(
            before,
            mic,
            far_end,
            engine,
            render,
            capture,
            encoder,
            encode,
            frame,
            block,
            earlier,
            after,
            chunk,
            packets,
            done,
        ),
{
    let played = choose|played: framing::Calls<P, (), EngineFault>| #[trigger]
        played.is_run(
            engine,
            before.processor.render_frames(far_end),
            processor::rendering(render),
        ) && {
            let (between, rendered) = before.rendered(far_end, played.answers);
            if rendered is Err {
                &&& after == between
                &&& chunk == mic
                &&& packets == earlier
                &&& done == (played.end(), encoder, rendered)
            } else {
                between.sent(
                    mic,
                    played.end(),
                    capture,
                    encoder,
                    encode,
                    after,
                    chunk,
                    packets,
                    done,
                )
            }
        };
    let (between, rendered) = before.processor.rendered(far_end, played.answers);
    processor_laws::lemma_is_playback(before.processor, far_end, engine, render, played);
    assert(processor_laws::is_playback(before.processor, far_end, played, between, rendered));
    if rendered is Ok {
        lemma_is_sending(
            PipelineModel { processor: between, ..before },
            mic,
            played.end(),
            capture,
            encoder,
            encode,
            frame,
            block,
            after,
            chunk,
            packets,
            done,
        );
    }
}

} // verus!
