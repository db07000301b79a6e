//! Full-duplex audio pipeline: codec, jitter buffer and processor together.
//!
//! Outgoing microphone audio is collected into blocks that both the processor
//! and the codec divide evenly, processed and encoded. Incoming packets are
//! reordered and paced by the jitter buffer and decoded at their deadlines,
//! with concealment or error correction for lost ones. The engines that do the
//! signal work are handed in together with the calls on them, each of which
//! takes its engine and gives it back in its next state.

use vstd::prelude::*;

use crate::audio::alignment;
use crate::audio::alignment::least_common_multiple;
use crate::audio::codec;
use crate::audio::codec::{
    ApplicationMode, ChannelLayout, CodecConfig, CodecError, EncodeFault, EncoderSetting,
    OpusDecoder, OpusEncoder, OpusFault,
};
use crate::audio::framing;
use crate::audio::jitter::{
    AudioPacket, JitterBuffer, JitterBufferConfig, JitterStats, PlayoutEvent,
};
use crate::audio::jitter_laws;
use crate::audio::jitter_model::{EventModel, JitterModel};
use crate::audio::processor;
use crate::audio::processor::{
    AudioProcessor, EchoCancellationSuppressionLevel, EngineConfig, EngineFault, EngineInit,
    EngineStats, NoiseSuppressionLevel, ProcessorConfig, ProcessorError, ProcessorModel, ProcessorStats,
    FRAME_SAMPLES,
};

verus! {

/// Errors produced by the audio pipeline.
#[derive(Debug, PartialEq, Eq)]
pub enum PipelineError {
    /// The codec failed to initialize, encode or decode.
    Codec(CodecError),
    /// The audio processor failed to initialize or process a frame.
    Processor(ProcessorError),
}

/// Configuration of every part of the pipeline.
#[derive(Debug, Clone, Copy, PartialEq, Eq)]
pub struct AudioPipelineConfig {
    /// Encoder and decoder settings.
    pub codec: CodecConfig,
    /// Jitter buffer depth and pacing.
    pub jitter: JitterBufferConfig,
    /// Microphone path settings.
    pub processor: ProcessorConfig,
}

impl AudioPipelineConfig {
    /// Voice settings throughout, with codec frames as long as those of the
    /// processor and the jitter buffer.
    pub open spec fn standard() -> Self {
        AudioPipelineConfig {
            codec: CodecConfig {
                sample_rate: 48_000,
                channels: 1,
                bitrate: 24_000,
                frame_size_us: 10_000,
                use_dtx: true,
                use_fec: true,
                complexity: 0,
            },
            jitter: JitterBufferConfig {
                max_latency_ms: 120,
                target_latency_ms: 5,
                max_packets: 100,
                sample_rate: 48_000,
                frame_size_ms: 10,
            },
            processor: ProcessorConfig {
                enable_aec: true,
                enable_ns: true,
                enable_agc: true,
                enable_vad: true,
                agc_target_level_dbfs: 3,
                agc_compression_gain_db: 9,
                ns_level: NoiseSuppressionLevel::Moderate,
                aec_suppression: EchoCancellationSuppressionLevel::Moderate,
            },
        }
    }
}

impl Default for AudioPipelineConfig {
    /// The standard voice settings.
    fn default() -> (config: Self)
        ensures
            config == AudioPipelineConfig::standard(),
            config.codec.is_valid(),
            config.codec.frame_samples() == 480,
    {
        let codec = CodecConfig { frame_size_us: 10_000, ..CodecConfig::default() };
        AudioPipelineConfig {
            codec,
            jitter: JitterBufferConfig::default(),
            processor: ProcessorConfig::default(),
        }
    }
}

/// State of a pipeline.
#[verifier::ext_equal]
pub struct PipelineModel {
    /// Settings of the encoder and the decoder.
    pub codec: CodecConfig,
    /// Jitter buffer of the incoming path.
    pub jitter: JitterModel,
    /// Processor of the outgoing path.
    pub processor: ProcessorModel,
    /// Microphone samples awaiting a complete block.
    pub pending: Seq<i16>,
}

/// The bytes a playout decision hands to the decoder, and whether they are
/// used to reconstruct the frame before them. Empty bytes ask for concealment.
pub open spec fn decoder_input(event: EventModel, use_fec: bool) -> (Seq<u8>, bool) {
    match event {
        EventModel::Packet(packet) => (packet.payload, false),
        EventModel::Missing { .. } => (Seq::empty(), false),
        EventModel::RecoveredWithNextPacket { next_packet, .. } => if use_fec {
            (next_packet.payload, true)
        } else {
            (Seq::empty(), false)
        },
    }
}

impl PipelineModel {
    /// A pipeline that holds no audio.
    pub open spec fn fresh(config: AudioPipelineConfig) -> Self {
        PipelineModel {
            codec: config.codec,
            jitter: JitterModel::fresh(config.jitter.sanitized()),
            processor: ProcessorModel::fresh(config.processor),
            pending: Seq::empty(),
        }
    }

    /// What every reachable pipeline satisfies: less than one block waits.
    pub open spec fn wf(self) -> bool {
        &&& self.codec.is_valid()
        &&& self.jitter.wf()
        &&& self.pending.len() < self.block()
    }

    /// Samples in one outgoing block: the smallest number that the codec frame
    /// and the processor frame divide.
    pub open spec fn block(self) -> nat {
        alignment::common_multiple(self.codec.frame_samples(), FRAME_SAMPLES as nat)
    }

    /// Samples of the complete blocks, once a microphone chunk has been added.
    pub open spec fn complete(self, mic: Seq<i16>) -> Seq<i16> {
        let stream = self.pending + mic;
        stream.take(framing::whole(stream.len(), self.block()) as int)
    }

    /// Samples that stay behind the complete blocks.
    pub open spec fn incomplete(self, mic: Seq<i16>) -> Seq<i16> {
        let stream = self.pending + mic;
        stream.skip(framing::whole(stream.len(), self.block()) as int)
    }

    /// The chunk is a number of blocks by itself and is processed in place.
    pub open spec fn in_place(self, mic: Seq<i16>) -> bool {
        self.pending.len() == 0 && mic.len() % self.block() == 0
    }

    /// Whether an outgoing call can end in this way.
    ///
    /// Without a complete block the chunk only waits and neither engine is
    /// called. Otherwise the complete blocks go through the processor and, if
    /// that succeeds, through the encoder; the rest waits, whatever the outcome.
    /// The packets are those of the frames encoded before the first failure.
    pub open spec fn sent<
        P,
        S,
        C: Fn(P, [i16; FRAME_SAMPLES]) -> (P, Result<[i16; FRAME_SAMPLES], EngineFault>),
        F: Fn(S, &[i16], usize) -> (S, Result<Vec<u8>, EncodeFault>),
    >(
        self,
        mic: Seq<i16>,
        engine: P,
        capture: C,
        encoder: S,
        encode: F,
        after: PipelineModel,
        chunk: Seq<i16>,
        packets: Seq<Seq<u8>>,
        ended: (P, S, Result<(), PipelineError>),
    ) -> bool {
        let block = self.complete(mic);
        if !self.in_place(mic) && block.len() == 0 {
            &&& after == (PipelineModel { pending: self.pending + mic, ..self })
            &&& chunk == mic
            &&& packets == Seq::<Seq<u8>>::empty()
            &&& ended == (engine, encoder, Ok::<(), PipelineError>(()))
        } else {
            exists|calls: framing::Calls<P, Seq<i16>, EngineFault>| #[trigger]
                calls.is_run(
                    engine,
                    self.processor.capture_frames(block),
                    processor::capturing(capture),
                ) && calls.end() == ended.0 && {
                    let (processor, processed, result) = self.processor.captured(
                        block,
                        calls.answers,
                    );
                    &&& after == (PipelineModel {
                        processor,
                        pending: self.incomplete(mic),
                        ..self
                    })
                    &&& chunk == (if self.in_place(mic) {
                        processed
                    } else {
                        mic
                    })
                    &&& match result {
                        Err(error) => {
                            &&& packets == Seq::<Seq<u8>>::empty()
                            &&& ended.1 == encoder
                            &&& ended.2 == Err::<(), PipelineError>(
                                PipelineError::Processor(error),
                            )
                        },
                        Ok(()) => self.encoded(
                            processed,
                            encoder,
                            encode,
                            packets,
                            (ended.1, ended.2),
                        ),
                    }
                }
        }
    }

    /// State and result after a playback chunk, for the engine's answers.
    pub open spec fn rendered(
        self,
        far_end: Seq<i16>,
        answers: Seq<Result<(), EngineFault>>,
    ) -> (PipelineModel, Result<(), PipelineError>) {
        let (processor, result) = self.processor.rendered(far_end, answers);
        (
            PipelineModel { processor, ..self },
            match result {
                Ok(()) => Ok(()),
                Err(error) => Err(PipelineError::Processor(error)),
            },
        )
    }

    /// Whether an outgoing call with playback can end in this way. The
    /// playback goes first; if it fails, nothing else happens.
    pub open spec fn sent_with_reference<
        P,
        S,
        R: Fn(P, [i16; FRAME_SAMPLES]) -> (P, Result<(), EngineFault>),
        C: Fn(P, [i16; FRAME_SAMPLES]) -> (P, Result<[i16; FRAME_SAMPLES], EngineFault>),
        F: Fn(S, &[i16], usize) -> (S, Result<Vec<u8>, EncodeFault>),
    >(
        self,
        mic: Seq<i16>,
        far_end: Seq<i16>,
        engine: P,
        render: R,
        capture: C,
        encoder: S,
        encode: F,
        earlier: Seq<Seq<u8>>,
        after: PipelineModel,
        chunk: Seq<i16>,
        packets: Seq<Seq<u8>>,
        ended: (P, S, Result<(), PipelineError>),
    ) -> bool {
        exists|played: framing::Calls<P, (), EngineFault>| #[trigger]
            played.is_run(
                engine,
                self.processor.render_frames(far_end),
                processor::rendering(render),
            ) && {
                let (between, rendered) = self.rendered(far_end, played.answers);
                if rendered is Err {
                    &&& after == between
                    &&& chunk == mic
                    &&& packets == earlier
                    &&& ended == (played.end(), encoder, rendered)
                } else {
                    between.sent(
                        mic,
                        played.end(),
                        capture,
                        encoder,
                        encode,
                        after,
                        chunk,
                        packets,
                        ended,
                    )
                }
            }
    }

    /// Whether encoding processed samples can end in this way.
    pub open spec fn encoded<
        S,
        F: Fn(S, &[i16], usize) -> (S, Result<Vec<u8>, EncodeFault>),
    >(
        self,
        processed: Seq<i16>,
        encoder: S,
        encode: F,
        packets: Seq<Seq<u8>>,
        ended: (S, Result<(), PipelineError>),
    ) -> bool {
        exists|calls: framing::Calls<S, Seq<u8>, EncodeFault>| #[trigger]
            calls.is_run(
                encoder,
                codec::encoder_frames(self.codec, processed),
                codec::encoding(encode),
            ) && {
                let (made, result) = codec::encoded(Seq::empty(), calls.answers);
                &&& packets == made
                &&& ended == (
                    calls.end(),
                    match result {
                        Ok(()) => Ok::<(), PipelineError>(()),
                        Err(error) => Err(PipelineError::Codec(error)),
                    },
                )
            }
    }

    /// Whether playing the next slot can give this PCM.
    pub open spec fn played<
        S,
        N: Fn(S, &[u8]) -> (S, Result<usize, OpusFault>),
        F: Fn(S, &[u8], Vec<i16>, bool) -> (S, Result<(Vec<i16>, usize), OpusFault>),
    >(
        self,
        decoder: S,
        duration: N,
        decode: F,
        after: S,
        pcm: Result<Seq<i16>, CodecError>,
    ) -> bool {
        let (bytes, fec) = decoder_input(self.jitter.slot_event(), self.codec.use_fec);
        exists|packet: &[u8]| #[trigger]
            packet@ == bytes && codec::decoded(
                self.codec,
                packet,
                fec,
                decoder,
                duration,
                decode,
                after,
                pcm,
            )
    }
}

/// Whether opening a pipeline can end in this way: the codec library makes and
/// tunes an encoder, and makes a decoder if there is an encoder; the engine
/// library makes an engine if there are both. The first failure ends it.
pub open spec fn pipeline_opened<
    LO,
    LP,
    SE,
    SD,
    P,
    OE: Fn(LO, u32, ChannelLayout, ApplicationMode) -> (LO, Result<SE, OpusFault>),
    T: Fn(SE, EncoderSetting) -> (SE, Result<(), OpusFault>),
    OD: Fn(LO, u32, ChannelLayout) -> (LO, Result<SD, OpusFault>),
    O: Fn(LP, EngineInit) -> (LP, Result<P, EngineFault>),
    G: Fn(P, EngineConfig) -> P,
>(
    config: AudioPipelineConfig,
    codecs: LO,
    create_encoder: OE,
    tune: T,
    create_decoder: OD,
    engines: LP,
    create_engine: O,
    configure: G,
    codecs_after: LO,
    engines_after: LP,
    made: Result<(SE, SD, P), PipelineError>,
) -> bool {
    exists|between: LO, encoder: Result<SE, CodecError>| #[trigger]
        codec::encoder_opened(config.codec, codecs, create_encoder, tune, between, encoder)
            && match encoder {
            Err(error) => {
                &&& codecs_after == between
                &&& engines_after == engines
                &&& made == Err::<(SE, SD, P), PipelineError>(PipelineError::Codec(error))
            },
            Ok(encoder) => exists|decoder: Result<SD, CodecError>| #[trigger]
                codec::decoder_opened(
                    config.codec,
                    between,
                    create_decoder,
                    codecs_after,
                    decoder,
                ) && match decoder {
                    Err(error) => {
                        &&& engines_after == engines
                        &&& made == Err::<(SE, SD, P), PipelineError>(
                            PipelineError::Codec(error),
                        )
                    },
                    Ok(decoder) => exists|engine: Result<P, EngineFault>| #[trigger]
                        processor::engine_made(
                            config.processor,
                            engines,
                            create_engine,
                            configure,
                            engines_after,
                            engine,
                        ) && made == (match engine {
                            Ok(engine) => Ok((encoder, decoder, engine)),
                            Err(fault) => Err(
                                PipelineError::Processor(ProcessorError::Config(fault)),
                            ),
                        }),
                },
        }
}

/// Full-duplex audio pipeline of one session.
pub struct AudioPipeline {
    encoder: OpusEncoder,
    decoder: OpusDecoder,
    jitter: JitterBuffer,
    processor: AudioProcessor,
    pending_outgoing: Vec<i16>,
    outgoing_block_samples: usize,
}

impl View for AudioPipeline {
    type V = PipelineModel;

    closed spec fn view(&self) -> PipelineModel {
        PipelineModel {
            codec: self.encoder@,
            jitter: self.jitter@,
            processor: self.processor@,
            pending: self.pending_outgoing@,
        }
    }
}

impl AudioPipeline {
    /// What every pipeline satisfies.
    pub closed spec fn wf(self) -> bool {
        &&& self.encoder.wf()
        &&& self.decoder.wf()
        &&& self.decoder@ == self.encoder@
        &&& self.jitter.wf()
        &&& self.outgoing_block_samples == self@.block()
        &&& self@.wf()
    }

    /// The state of a pipeline is well-formed.
    pub proof fn lemma_wf(self)
        requires
            self.wf(),
        ensures
            self@.wf(),
    {
    }

    /// A pipeline that holds no audio, if the codec configuration is usable.
    pub fn new(config: AudioPipelineConfig) -> (made: Result<Self, PipelineError>)
        ensures
            match config.codec.fault() {
                None => made matches Ok(pipeline) && pipeline.wf() && pipeline@
                    == PipelineModel::fresh(config),
                Some(message) => made matches Err(
                    PipelineError::Codec(CodecError::InvalidConfig(found)),
                ) && found@ == message,
            },
    {
        let encoder = match OpusEncoder::new(config.codec) {
            Ok(encoder) => encoder,
            Err(error) => {
                return Err(PipelineError::Codec(error));
            },
        };
        let decoder = match OpusDecoder::new(config.codec) {
            Ok(decoder) => decoder,
            Err(error) => {
                return Err(PipelineError::Codec(error));
            },
        };
        let processor = AudioProcessor::new(config.processor);
        Ok(AudioPipeline::assembled(encoder, decoder, config.jitter, processor))
    }

    /// A pipeline that holds no audio, with an encoder, a decoder and a
    /// processing engine that the two libraries make.
    ///
    /// The encoder is opened first, then the decoder, then the processor; the
    /// first failure ends it. Gives back the libraries and, unless opening
    /// fails, the pipeline with its encoder, decoder and processing engine.
    pub fn open<
        LO,
        LP,
        SE,
        SD,
        P,
        OE: Fn(LO, u32, ChannelLayout, ApplicationMode) -> (LO, Result<SE, OpusFault>),
        T: Fn(SE, EncoderSetting) -> (SE, Result<(), OpusFault>),
        OD: Fn(LO, u32, ChannelLayout) -> (LO, Result<SD, OpusFault>),
        O: Fn(LP, EngineInit) -> (LP, Result<P, EngineFault>),
        G: Fn(P, EngineConfig) -> P,
    >(
        config: AudioPipelineConfig,
        codecs: LO,
        create_encoder: &OE,
        tune: &T,
        create_decoder: &OD,
        engines: LP,
        create_engine: &O,
        configure: &G,
    ) -> (made: (LO, LP, Result<(Self, SE, SD, P), PipelineError>))
        requires
            call_requires(
                *create_encoder,
                (
                    codecs,
                    config.codec.sample_rate,
                    codec::layout_of(config.codec),
                    ApplicationMode::Voip,
                ),
            ),
            forall|engine: SE, setting: EncoderSetting| #[trigger]
                call_requires(*tune, (engine, setting)),
            forall|library: LO| #[trigger]
                call_requires(
                    *create_decoder,
                    (library, config.codec.sample_rate, codec::layout_of(config.codec)),
                ),
            processor::accepts_config(config.processor, engines, *create_engine, *configure),
        ensures
            made.2 matches Ok((pipeline, _, _, _)) ==> pipeline.wf() && pipeline@
                == PipelineModel::fresh(config),
            pipeline_opened(
                config,
                codecs,
                *create_encoder,
                *tune,
                *create_decoder,
                engines,
                *create_engine,
                *configure,
                made.0,
                made.1,
                match made.2 {
                    Ok((_, encoder, decoder, engine)) => Ok((encoder, decoder, engine)),
                    Err(error) => Err(error),
                },
            ),
    {
        let (codecs, opened) = OpusEncoder::open(config.codec, codecs, create_encoder, tune);
        let (encoder, encoder_engine) = match opened {
            Ok(opened) => opened,
            Err(error) => {
                return (codecs, engines, Err(PipelineError::Codec(error)));
            },
        };
        let (codecs, opened) = OpusDecoder::open(config.codec, codecs, create_decoder);
        let (decoder, decoder_engine) = match opened {
            Ok(opened) => opened,
            Err(error) => {
                return (codecs, engines, Err(PipelineError::Codec(error)));
            },
        };
        let (engines, opened) = AudioProcessor::open(
            config.processor,
            engines,
            create_engine,
            configure,
        );
        let (processor, engine) = match opened {
            Ok(opened) => opened,
            Err(error) => {
                return (codecs, engines, Err(PipelineError::Processor(error)));
            },
        };
        proof {
            encoder.lemma_wf();
        }
        let pipeline = AudioPipeline::assembled(encoder, decoder, config.jitter, processor);
        (codecs, engines, Ok((pipeline, encoder_engine, decoder_engine, engine)))
    }

    /// The pipeline of the given parts, with an empty jitter buffer.
    fn assembled(
        encoder: OpusEncoder,
        decoder: OpusDecoder,
        jitter: JitterBufferConfig,
        processor: AudioProcessor,
    ) -> (pipeline: Self)
        requires
            encoder.wf(),
            decoder.wf(),
            decoder@ == encoder@,
        ensures
            pipeline.wf(),
            pipeline@ == (PipelineModel {
                codec: encoder@,
                jitter: JitterModel::fresh(jitter.sanitized()),
                processor: processor@,
                pending: Seq::empty(),
            }),
    {
        let jitter = JitterBuffer::new(jitter);
        let size = encoder.samples_per_frame();
        proof {
            encoder.lemma_wf();
            lemma_block(encoder@);
            jitter.lemma_wf();
        }
        let outgoing_block_samples = least_common_multiple(size, FRAME_SAMPLES);
        AudioPipeline {
            encoder,
            decoder,
            jitter,
            processor,
            pending_outgoing: Vec::new(),
            outgoing_block_samples,
        }
    }

    /// Whether one more packet or slot fits the counters.
    pub fn has_headroom(&self) -> (result: bool)
        ensures
            result == self@.jitter.has_headroom(),
    {
        self.jitter.has_headroom()
    }

    /// Process and encode a microphone chunk into new packets.
    ///
    /// Incomplete blocks wait for a later chunk.
    pub fn process_outgoing<
        P,
        S,
        C: Fn(P, [i16; FRAME_SAMPLES]) -> (P, Result<[i16; FRAME_SAMPLES], EngineFault>),
        F: Fn(S, &[i16], usize) -> (S, Result<Vec<u8>, EncodeFault>),
    >(
        &mut self,
        mic_pcm: &mut [i16],
        engine: P,
        capture: &C,
        encoder: S,
        encode: &F,
    ) -> (sent: (P, S, Result<Vec<Vec<u8>>, PipelineError>))
        requires
            old(self).wf(),
            processor::accepts_capture(*capture),
            codec::accepts_frames(*encode, old(self)@.codec.frame_samples()),
        ensures
            final(self).wf(),
            exists|packets: Seq<Seq<u8>>, ended: (P, S, Result<(), PipelineError>)| #[trigger]
                old(self)@.sent(
                    old(mic_pcm)@,
                    engine,
                    *capture,
                    encoder,
                    *encode,
                    final(self)@,
                    final(mic_pcm)@,
                    packets,
                    ended,
                ) && ended.0 == sent.0 && ended.1 == sent.1 && match sent.2 {
                    Ok(sent) => ended.2 is Ok && codec::packet_bytes(sent@) == packets,
                    Err(error) => ended.2 == Err::<(), PipelineError>(error),
                },
    {
        let mut packets: Vec<Vec<u8>> = Vec::new();
        let (engine, encoder, done) = self.process_outgoing_into(
            mic_pcm,
            &mut packets,
            engine,
            capture,
            encoder,
            encode,
        );
        match done {
            Ok(()) => (engine, encoder, Ok(packets)),
            Err(error) => (engine, encoder, Err(error)),
        }
    }

    /// Process and encode a microphone chunk into the caller's packet list,
    /// which is emptied first.
    pub fn process_outgoing_into<
        P,
        S,
        C: Fn(P, [i16; FRAME_SAMPLES]) -> (P, Result<[i16; FRAME_SAMPLES], EngineFault>),
        F: Fn(S, &[i16], usize) -> (S, Result<Vec<u8>, EncodeFault>),
    >(
        &mut self,
        mic_pcm: &mut [i16],
        packets: &mut Vec<Vec<u8>>,
        engine: P,
        capture: &C,
        encoder: S,
        encode: &F,
    ) -> (done: (P, S, Result<(), PipelineError>))
        requires
            old(self).wf(),
            processor::accepts_capture(*capture),
            codec::accepts_frames(*encode, old(self)@.codec.frame_samples()),
        ensures
            final(self).wf(),
            old(self)@.sent(
                old(mic_pcm)@,
                engine,
                *capture,
                encoder,
                *encode,
                final(self)@,
                final(mic_pcm)@,
                codec::packet_bytes(final(packets)@),
                done,
            ),
    {
        packets.clear();
        proof {
            lemma_block(self@.codec);
            assert(codec::packet_bytes(packets@) =~= Seq::empty());
            framing::law_blocks_join_to_stream(self@.pending + mic_pcm@, self@.block());
        }
        let block = self.outgoing_block_samples;
        if self.pending_outgoing.len() == 0 && mic_pcm.len() % block == 0 {
            proof {
                assert(old(self)@.pending + mic_pcm@ =~= mic_pcm@);
                framing::lemma_whole(mic_pcm@.len(), block as nat);
                assert(old(self)@.complete(mic_pcm@) =~= mic_pcm@);
                assert(old(self)@.incomplete(mic_pcm@) =~= Seq::empty());
                assert(old(self)@.pending =~= Seq::empty());
            }
            let (engine, processed) = self.processor.process(mic_pcm, engine, capture);
            if let Err(error) = processed {
                return (engine, encoder, Err(PipelineError::Processor(error)));
            }
            let (encoder, encoded) = self.encoder.encode_frames_into(
                mic_pcm,
                packets,
                encoder,
                encode,
            );
            return match encoded {
                Ok(()) => (engine, encoder, Ok(())),
                Err(error) => (engine, encoder, Err(PipelineError::Codec(error))),
            };
        }
        self.pending_outgoing.extend_from_slice(mic_pcm);
        assert(self.pending_outgoing@ =~= old(self)@.pending + mic_pcm@);
        let count: usize = self.pending_outgoing.len() / block;
        assert(count * block <= self.pending_outgoing@.len()) by (nonlinear_arith)
            requires
                count == self.pending_outgoing@.len() as int / block as int,
                block > 0,
        ;
        let complete_samples: usize = count * block;
        if complete_samples == 0 {
            return (engine, encoder, Ok(()));
        }
        let rest = self.pending_outgoing.split_off(complete_samples);
        let mut complete: Vec<i16> = Vec::new();
        complete.append(&mut self.pending_outgoing);
        self.pending_outgoing = rest;
        assert(complete@ =~= old(self)@.complete(mic_pcm@));
        assert(self.pending_outgoing@ =~= old(self)@.incomplete(mic_pcm@));
        let (engine, processed) = self.processor.process(
            complete.as_mut_slice(),
            engine,
            capture,
        );
        if let Err(error) = processed {
            return (engine, encoder, Err(PipelineError::Processor(error)));
        }
        let (encoder, encoded) = self.encoder.encode_frames_into(
            complete.as_slice(),
            packets,
            encoder,
            encode,
        );
        match encoded {
            Ok(()) => (engine, encoder, Ok(())),
            Err(error) => (engine, encoder, Err(PipelineError::Codec(error))),
        }
    }

    /// Process and encode a microphone chunk with the playback that was heard
    /// while it was captured, into new packets.
    pub fn process_outgoing_with_reference<
        P,
        S,
        R: Fn(P, [i16; FRAME_SAMPLES]) -> (P, Result<(), EngineFault>),
        C: Fn(P, [i16; FRAME_SAMPLES]) -> (P, Result<[i16; FRAME_SAMPLES], EngineFault>),
        F: Fn(S, &[i16], usize) -> (S, Result<Vec<u8>, EncodeFault>),
    >(
        &mut self,
        mic_pcm: &mut [i16],
        far_end: &[i16],
        engine: P,
        render: &R,
        capture: &C,
        encoder: S,
        encode: &F,
    ) -> (sent: (P, S, Result<Vec<Vec<u8>>, PipelineError>))
        requires
            old(self).wf(),
            processor::accepts_render(*render),
            processor::accepts_capture(*capture),
            codec::accepts_frames(*encode, old(self)@.codec.frame_samples()),
        ensures
            final(self).wf(),
            exists|packets: Seq<Seq<u8>>, ended: (P, S, Result<(), PipelineError>)| #[trigger]
                old(self)@.sent_with_reference(
                    old(mic_pcm)@,
                    far_end@,
                    engine,
                    *render,
                    *capture,
                    encoder,
                    *encode,
                    Seq::empty(),
                    final(self)@,
                    final(mic_pcm)@,
                    packets,
                    ended,
                ) && ended.0 == sent.0 && ended.1 == sent.1 && match sent.2 {
                    Ok(sent) => ended.2 is Ok && codec::packet_bytes(sent@) == packets,
                    Err(error) => ended.2 == Err::<(), PipelineError>(error),
                },
    {
        let mut packets: Vec<Vec<u8>> = Vec::new();
        proof {
            assert(codec::packet_bytes(packets@) =~= Seq::empty());
        }
        let (engine, encoder, done) = self.process_outgoing_with_reference_into(
            mic_pcm,
            far_end,
            &mut packets,
            engine,
            render,
            capture,
            encoder,
            encode,
        );
        match done {
            Ok(()) => (engine, encoder, Ok(packets)),
            Err(error) => (engine, encoder, Err(error)),
        }
    }

    /// Process and encode a microphone chunk with the playback that was heard
    /// while it was captured, into the caller's packet list.
    ///
    /// The playback goes through the processor first. If that fails, the chunk
    /// and the packet list are not touched.
    pub fn process_outgoing_with_reference_into<
        P,
        S,
        R: Fn(P, [i16; FRAME_SAMPLES]) -> (P, Result<(), EngineFault>),
        C: Fn(P, [i16; FRAME_SAMPLES]) -> (P, Result<[i16; FRAME_SAMPLES], EngineFault>),
        F: Fn(S, &[i16], usize) -> (S, Result<Vec<u8>, EncodeFault>),
    >(
        &mut self,
        mic_pcm: &mut [i16],
        far_end: &[i16],
        packets: &mut Vec<Vec<u8>>,
        engine: P,
        render: &R,
        capture: &C,
        encoder: S,
        encode: &F,
    ) -> (done: (P, S, Result<(), PipelineError>))
        requires
            old(self).wf(),
            processor::accepts_render(*render),
            processor::accepts_capture(*capture),
            codec::accepts_frames(*encode, old(self)@.codec.frame_samples()),
        ensures
            final(self).wf(),
            old(self)@.sent_with_reference(
                old(mic_pcm)@,
                far_end@,
                engine,
                *render,
                *capture,
                encoder,
                *encode,
                codec::packet_bytes(old(packets)@),
                final(self)@,
                final(mic_pcm)@,
                codec::packet_bytes(final(packets)@),
                done,
            ),
    {
        let (engine, rendered) = self.on_render(far_end, engine, render);
        match rendered {
            Ok(()) => self.process_outgoing_into(
                mic_pcm,
                packets,
                engine,
                capture,
                encoder,
                encode,
            ),
            Err(error) => (engine, encoder, Err(error)),
        }
    }

    /// Feed playback to the echo reference.
    pub fn on_render<P, R: Fn(P, [i16; FRAME_SAMPLES]) -> (P, Result<(), EngineFault>)>(
        &mut self,
        playout_pcm: &[i16],
        engine: P,
        render: &R,
    ) -> (done: (P, Result<(), PipelineError>))
        requires
            old(self).wf(),
            processor::accepts_render(*render),
        ensures
            final(self).wf(),
            exists|calls: framing::Calls<P, (), EngineFault>| #[trigger]
                calls.is_run(
                    engine,
                    old(self)@.processor.render_frames(playout_pcm@),
                    processor::rendering(*render),
                ) && calls.end() == done.0 && old(self)@.rendered(playout_pcm@, calls.answers)
                    == (final(self)@, done.1),
    {
        let (engine, rendered) = self.processor.process_render(playout_pcm, engine, render);
        match rendered {
            Ok(()) => (engine, Ok(())),
            Err(error) => (engine, Err(PipelineError::Processor(error))),
        }
    }

    /// Push a received packet into the jitter buffer.
    ///
    /// Gives back whether the packet is buffered; it is not if it is late or a
    /// duplicate, or if the full buffer has no place for it.
    pub fn push_incoming(&mut self, packet: AudioPacket, now: u64) -> (accepted: bool)
        requires
            old(self).wf(),
            old(self)@.jitter.has_headroom(),
        ensures
            final(self).wf(),
            final(self)@ == (PipelineModel {
                jitter: old(self)@.jitter.received(packet@, now),
                ..old(self)@
            }),
            accepted == (old(self)@.jitter.accepts(packet@)
                && final(self)@.jitter.packets.contains_key(old(self)@.jitter.slot_of(packet@))),
    {
        let accepted = self.jitter.push(packet, now);
        proof {
            self.jitter.lemma_wf();
        }
        accepted
    }

    /// Play the next slot if it is due: decode its packet, reconstruct it from
    /// the packet after it, or conceal it.
    ///
    /// The slot is played even if decoding fails. If no slot is due, the
    /// decoder is not called.
    pub fn pop_decoded<
        S,
        N: Fn(S, &[u8]) -> (S, Result<usize, OpusFault>),
        F: Fn(S, &[u8], Vec<i16>, bool) -> (S, Result<(Vec<i16>, usize), OpusFault>),
    >(&mut self, now: u64, decoder: S, duration: &N, decode: &F) -> (pcm: (
        S,
        Result<Option<Vec<i16>>, PipelineError>,
    ))
        requires
            old(self).wf(),
            old(self)@.jitter.has_headroom(),
            forall|packet: &[u8], fec: bool| #[trigger]
                codec::accepts_packet(
                    packet,
                    fec,
                    old(self)@.codec.channels,
                    *duration,
                    *decode,
                ),
        ensures
            final(self).wf(),
            if old(self)@.jitter.is_due(now) {
                &&& final(self)@ == (PipelineModel {
                    jitter: old(self)@.jitter.played(),
                    ..old(self)@
                })
                &&& match pcm.1 {
                    Ok(Some(samples)) => old(self)@.played(
                        decoder,
                        *duration,
                        *decode,
                        pcm.0,
                        Ok(samples@),
                    ),
                    Ok(None) => false,
                    Err(PipelineError::Codec(error)) => old(self)@.played(
                        decoder,
                        *duration,
                        *decode,
                        pcm.0,
                        Err(error),
                    ),
                    Err(PipelineError::Processor(_)) => false,
                }
            } else {
                &&& final(self)@ == old(self)@
                &&& pcm.0 == decoder
                &&& pcm.1 matches Ok(None)
            },
    {
        let event = self.jitter.pop_event(now);
        proof {
            self.jitter.lemma_wf();
        }
        let event = match event {
            Some(event) => event,
            None => {
                return (decoder, Ok(None));
            },
        };
        let use_fec = self.decoder.config().use_fec;
        let (bytes, fec): (Vec<u8>, bool) = match event {
            PlayoutEvent::Packet(packet) => (packet.payload, false),
            PlayoutEvent::Missing { .. } => (Vec::new(), false),
            PlayoutEvent::RecoveredWithNextPacket { next_packet, .. } => if use_fec {
                (next_packet.payload, true)
            } else {
                (Vec::new(), false)
            },
        };
        assert((bytes@, fec) == decoder_input(
            old(self)@.jitter.slot_event(),
            old(self)@.codec.use_fec,
        ));
        let packet = bytes.as_slice();
        assert(codec::accepts_packet(
            packet,
            fec,
            old(self)@.codec.channels,
            *duration,
            *decode,
        ));
        let (after, decoded) = if fec {
            self.decoder.decode_fec(packet, decoder, duration, decode)
        } else {
            self.decoder.decode(packet, decoder, duration, decode)
        };
        assert(old(self)@.played(
            decoder,
            *duration,
            *decode,
            after,
            codec::pcm_samples(decoded),
        ));
        match decoded {
            Ok(pcm) => (after, Ok(Some(pcm))),
            Err(error) => (after, Err(PipelineError::Codec(error))),
        }
    }

    /// Whether received packets await playout.
    pub fn has_pending_playout(&self) -> (pending: bool)
        requires
            self.wf(),
        ensures
            pending == self@.jitter.pending(),
    {
        self.jitter.has_pending()
    }

    /// Deadline of the next slot, in nanoseconds of the caller's clock.
    pub fn next_playout_deadline(&self) -> (deadline: Option<u128>)
        requires
            self.wf(),
        ensures
            match deadline {
                Some(deadline) => self@.jitter.next_deadline() == Some(deadline as int),
                None => self@.jitter.next_deadline() is None,
            },
    {
        self.jitter.next_deadline()
    }

    /// Counters and estimates of the jitter buffer.
    pub fn jitter_stats(&self) -> (stats: JitterStats)
        requires
            self.wf(),
        ensures
            stats == (JitterStats {
                packets_in: self@.jitter.packets_in,
                packets_out: self@.jitter.packets_out,
                packets_dropped: self@.jitter.packets_dropped,
                packets_late: self@.jitter.packets_late,
                current_jitter: self@.jitter.timing.jitter,
                sample_rate: self@.jitter.config.sample_rate,
                current_target_latency: self@.jitter.timing.target,
            }),
    {
        self.jitter.stats()
    }

    /// Snapshot of the microphone path for the measurements of the engine.
    pub fn processor_stats(&self, measured: EngineStats) -> (stats: ProcessorStats)
        ensures
            stats == (ProcessorStats {
                has_voice: measured.has_voice == Some(true),
                has_echo: measured.has_echo == Some(true),
                rms_dbfs: measured.rms_dbfs,
            }),
    {
        self.processor.stats(measured)
    }

    /// Drop all buffered audio in both directions and make the processing
    /// engine anew.
    ///
    /// Gives back the library and the engine to go on with: the new one, or the
    /// old one untouched if making a new one fails.
    pub fn reset<
        L,
        P,
        O: Fn(L, EngineInit) -> (L, Result<P, EngineFault>),
        G: Fn(P, EngineConfig) -> P,
    >(&mut self, library: L, engine: P, create: &O, configure: &G) -> (rebuilt: (
        L,
        P,
        Result<(), EngineFault>,
    ))
        requires
            old(self).wf(),
            processor::accepts_config(
                old(self)@.processor.config,
                library,
                *create,
                *configure,
            ),
        ensures
            final(self).wf(),
            final(self)@ == (PipelineModel {
                codec: old(self)@.codec,
                jitter: JitterModel::fresh(old(self)@.jitter.config),
                processor: ProcessorModel::fresh(old(self)@.processor.config),
                pending: Seq::empty(),
            }),
            processor::engine_replaced(
                old(self)@.processor.config,
                library,
                engine,
                *create,
                *configure,
                rebuilt,
            ),
    {
        proof {
            lemma_block(self@.codec);
        }
        self.jitter.clear();
        self.pending_outgoing.clear();
        let rebuilt = self.processor.reset(library, engine, create, configure);
        proof {
            self.jitter.lemma_wf();
        }
        rebuilt
    }
}

/// The size of an outgoing block and the frames that divide it.
pub proof fn lemma_block(config: CodecConfig)
    requires
        config.is_valid(),
    ensures
        ({
            let block = alignment::common_multiple(
                config.frame_samples(),
                FRAME_SAMPLES as nat,
            );
            &&& 0 < block <= 2_764_800
            &&& block % config.frame_samples() == 0
            &&& block % 480 == 0
        }),
{
    config.lemma_frame_samples();
    let size = config.frame_samples();
    alignment::lemma_common_multiple_bound(size, FRAME_SAMPLES as nat);
    alignment::law_common_multiple_is_least(size, FRAME_SAMPLES as nat, 0);
    assert(size * FRAME_SAMPLES as nat <= 5_760 * 480) by (nonlinear_arith)
        requires
            size <= 5_760,
            FRAME_SAMPLES == 480,
    ;
}

/// Microphone audio is neither lost nor reordered before it is processed: what
/// waited and what came in are the complete blocks followed by what waits
/// next, which is less than a block. The complete blocks are a whole number of
/// processor frames and of codec frames.
pub proof fn law_outgoing_audio_is_conserved(pipeline: PipelineModel, mic: Seq<i16>)
    requires
        pipeline.wf(),
    ensures
        pipeline.complete(mic) + pipeline.incomplete(mic) == pipeline.pending + mic,
        pipeline.incomplete(mic).len() < pipeline.block(),
        pipeline.complete(mic).len() % pipeline.block() == 0,
        pipeline.complete(mic).len() % pipeline.codec.frame_samples() == 0,
        pipeline.complete(mic).len() % 480 == 0,
{
    let stream = pipeline.pending + mic;
    let block = pipeline.block();
    lemma_block(pipeline.codec);
    pipeline.codec.lemma_frame_samples();
    framing::law_blocks_join_to_stream(stream, block);
    assert(pipeline.complete(mic) + pipeline.incomplete(mic) =~= stream);
    let count = (stream.len() / block) as int;
    let len = pipeline.complete(mic).len() as int;
    assert(len == count * block);
    vstd::arithmetic::div_mod::lemma_fundamental_div_mod_converse(len, block as int, count, 0);
    lemma_multiple_of_multiple(count, block, pipeline.codec.frame_samples());
    lemma_multiple_of_multiple(count, block, 480);
}

/// The blocks of an outgoing stream do not depend on how it is cut into
/// chunks: two chunks in a row complete the same samples as the two together.
pub proof fn law_outgoing_chunking_does_not_matter(
    pipeline: PipelineModel,
    first: Seq<i16>,
    second: Seq<i16>,
)
    requires
        pipeline.wf(),
    ensures
        ({
            let between = PipelineModel { pending: pipeline.incomplete(first), ..pipeline };
            &&& pipeline.complete(first + second) == pipeline.complete(first) + between.complete(
                second,
            )
            &&& pipeline.incomplete(first + second) == between.incomplete(second)
        }),
{
    let between = PipelineModel { pending: pipeline.incomplete(first), ..pipeline };
    let block = pipeline.block();
    lemma_block(pipeline.codec);
    let stream = pipeline.pending + first;
    let rest = pipeline.incomplete(first) + second;
    assert(pipeline.pending + (first + second) =~= stream + second);
    framing::law_blocks_join_to_stream(stream, block);
    framing::law_blocks_join_to_stream(rest, block);
    framing::law_blocks_join_to_stream(stream + second, block);
    let done = stream.len() as int / block as int;
    let more = rest.len() as int / block as int;
    let total = (stream + second).len() as int;
    let tail = total - (done + more) * block;
    assert((done + more) * block == done * block + more * block) by (nonlinear_arith);
    assert(rest.len() == total - done * block);
    assert(0 <= tail < block);
    vstd::arithmetic::div_mod::lemma_fundamental_div_mod_converse(
        total,
        block as int,
        done + more,
        tail,
    );
    assert(pipeline.complete(first + second) =~= pipeline.complete(first) + between.complete(
        second,
    ));
    assert(pipeline.incomplete(first + second) =~= between.incomplete(second));
}

/// Audio that is a whole number of codec frames is encoded without padding,
/// one packet per frame.
pub proof fn law_complete_frames_are_not_padded(config: CodecConfig, pcm: Seq<i16>)
    requires
        config.is_valid(),
        pcm.len() % config.frame_samples() == 0,
    ensures
        framing::joined(codec::encoder_frames(config, pcm)) == pcm,
        codec::encoder_frames(config, pcm).len() == pcm.len() / config.frame_samples(),
{
    codec::law_frames_cover_the_buffer(config, pcm);
}

/// While the processor holds no microphone audio, a successful outgoing call
/// replaces the complete blocks by their processed frames at once, sample for
/// sample, and the processor holds none afterwards.
pub proof fn law_processor_adds_no_delay<
    P,
    C: Fn(P, [i16; FRAME_SAMPLES]) -> (P, Result<[i16; FRAME_SAMPLES], EngineFault>),
>(
    capture: C,
    engine: P,
    pipeline: PipelineModel,
    mic: Seq<i16>,
    calls: framing::Calls<P, Seq<i16>, EngineFault>,
)
    requires
        pipeline.wf(),
        pipeline.processor.capture.len() == 0,
        pipeline.processor.carry.len() == 0,
        calls.is_run(
            engine,
            pipeline.processor.capture_frames(pipeline.complete(mic)),
            processor::capturing(capture),
        ),
        !framing::failed(calls.answers),
    ensures
        ({
            let (after, processed, _) = pipeline.processor.captured(
                pipeline.complete(mic),
                calls.answers,
            );
            &&& after == pipeline.processor
            &&& processed == framing::joined(framing::results(calls.answers))
            &&& processed.len() == pipeline.complete(mic).len()
        }),
{
    law_outgoing_audio_is_conserved(pipeline, mic);
    processor::law_aligned_chunk_passes_through(
        capture,
        engine,
        pipeline.processor,
        pipeline.complete(mic),
        calls,
    );
    processor::law_stream_is_conserved(
        capture,
        engine,
        pipeline.processor,
        pipeline.complete(mic),
        calls,
    );
}

/// A lost slot is reconstructed from the packet right behind it if that one is
/// there and error correction is on; otherwise it is concealed.
pub proof fn law_lost_slot_is_recovered_or_concealed(jitter: JitterModel, use_fec: bool)
    requires
        jitter.wf(),
        jitter.has_headroom(),
        !jitter.knows(jitter.next_seq),
    ensures
        ({
            let following = (jitter.next_seq + 1) as i64;
            decoder_input(jitter.slot_event(), use_fec) == (if use_fec
                && jitter.packets.contains_key(following) {
                (jitter.packets[following].payload, true)
            } else {
                (Seq::<u8>::empty(), false)
            })
        }),
{
}

/// A reset pipeline cannot be told from a new one with its configuration.
pub proof fn law_reset_pipeline_is_new(pipeline: PipelineModel)
    requires
        pipeline.wf(),
    ensures
        PipelineModel::fresh(
            AudioPipelineConfig {
                codec: pipeline.codec,
                jitter: pipeline.jitter.config,
                processor: pipeline.processor.config,
            },
        ) == (PipelineModel {
            codec: pipeline.codec,
            jitter: JitterModel::fresh(pipeline.jitter.config),
            processor: ProcessorModel::fresh(pipeline.processor.config),
            pending: Seq::empty(),
        }),
{
    jitter_laws::law_cleared_buffer_is_new(pipeline.jitter);
}

/// A multiple of a multiple is a multiple.
proof fn lemma_multiple_of_multiple(count: int, block: nat, size: nat)
    requires
        count >= 0,
        size > 0,
        block % size == 0,
    ensures
        (count * block) % size as int == 0,
{
    vstd::arithmetic::div_mod::lemma_fundamental_div_mod(block as int, size as int);
    let inner = block as int / size as int;
    assert(count * block == (count * inner) * size) by (nonlinear_arith)
        requires
            block == size * inner,
    ;
    vstd::arithmetic::div_mod::lemma_fundamental_div_mod_converse(
        count * block,
        size as int,
        count * inner,
        0,
    );
}

} // verus!
