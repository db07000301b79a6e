//! Opus framing and configuration rules for low-latency voice.
//!
//! The codec itself is handed in as an engine and the calls on it: an encoder
//! turns one frame of PCM into a packet, a decoder fills a PCM buffer from a
//! packet. Every call takes the engine and gives it back in its next state, so
//! the contracts say which calls are made and how many. This module decides
//! which configurations are usable, how an encoder is tuned for speech, how PCM
//! is cut into frames and how much of a decoder's output is kept. All PCM is
//! 16-bit interleaved.

use vstd::prelude::*;
use vstd::slice::slice_subrange;

use crate::audio::framing;
use crate::text;
use crate::text::{push_decimal, push_thousandths};

verus! {

/// Largest possible Opus packet in bytes.
pub const MAX_PACKET_SIZE: usize = 1275;

/// Packet loss, in percent, that an encoder with error correction expects.
pub const EXPECTED_LOSS_PERCENT: i32 = 10;

/// Failure that the codec library reports.
#[derive(Debug, PartialEq, Eq)]
pub struct OpusFault {
    /// Name of the codec function that failed.
    pub function: String,
    /// What the codec library says about the failure.
    pub description: String,
}

impl OpusFault {
    /// The failure as a text.
    pub open spec fn message(self) -> Seq<char> {
        self.function@ + ": "@ + self.description@
    }
}

/// Why an encoder call gave no packet.
#[derive(Debug, PartialEq, Eq)]
pub enum EncodeFault {
    /// The codec library rejected the frame.
    Rejected(OpusFault),
    /// The lock around the encoder was poisoned.
    Poisoned,
}

/// Errors produced by the codec layer.
#[derive(Debug, PartialEq, Eq)]
pub enum CodecError {
    /// The configuration is not usable; the text says why.
    InvalidConfig(String),
    /// The codec rejected a setting or a frame while encoding.
    Encode(OpusFault),
    /// The codec rejected a packet or the output buffer.
    Decode(OpusFault),
    /// The PCM input is not exactly one frame long.
    FrameSizeMismatch {
        /// Number of samples supplied.
        actual: usize,
        /// Samples per frame, all channels interleaved.
        expected: usize,
        /// Configured channel count.
        channels: u8,
    },
    /// The encoder lock was poisoned by a panic in another thread.
    Poisoned,
}

/// Codec settings, by default tuned for low-latency voice.
#[derive(Debug, Clone, Copy, PartialEq, Eq)]
pub struct CodecConfig {
    /// Sample rate in Hz: 8, 12, 16, 24 or 48 kHz.
    pub sample_rate: u32,
    /// Channel count: 1 is mono, 2 is stereo.
    pub channels: u8,
    /// Target bitrate in bits per second.
    pub bitrate: u32,
    /// Frame duration in microseconds: 2.5, 5, 10, 20, 40 or 60 ms.
    pub frame_size_us: u32,
    /// Send nothing during silence.
    pub use_dtx: bool,
    /// Carry a copy of the previous frame in each packet.
    pub use_fec: bool,
    /// Encoder effort from 0 (fastest) to 10 (best quality).
    pub complexity: u8,
}

/// Channel layout of a codec.
#[derive(Debug, Clone, Copy, PartialEq, Eq)]
pub enum ChannelLayout {
    /// One channel.
    Mono,
    /// Two interleaved channels.
    Stereo,
}

/// What an encoder is optimized for.
#[derive(Debug, Clone, Copy, PartialEq, Eq)]
pub enum ApplicationMode {
    /// Intelligibility of speech.
    Voip,
    /// Faithfulness to the input.
    Audio,
    /// Lowest delay.
    LowDelay,
}

/// One tuning step of a new encoder.
#[derive(Debug, Clone, Copy, PartialEq, Eq)]
pub enum EncoderSetting {
    /// Target bitrate in bits per second.
    Bitrate(i32),
    /// Computational complexity.
    Complexity(i32),
    /// Discontinuous transmission.
    Dtx(bool),
    /// In-band forward error correction.
    InbandFec(bool),
    /// Expected packet loss in percent.
    PacketLossPercent(i32),
    /// Hint that the input is speech.
    VoiceSignal,
}

impl CodecConfig {
    /// Whether the codec supports the sample rate.
    pub open spec fn rate_is_supported(self) -> bool {
        ||| self.sample_rate == 8_000
        ||| self.sample_rate == 12_000
        ||| self.sample_rate == 16_000
        ||| self.sample_rate == 24_000
        ||| self.sample_rate == 48_000
    }

    /// Whether the codec supports the frame duration.
    pub open spec fn duration_is_supported(self) -> bool {
        ||| self.frame_size_us == 2_500
        ||| self.frame_size_us == 5_000
        ||| self.frame_size_us == 10_000
        ||| self.frame_size_us == 20_000
        ||| self.frame_size_us == 40_000
        ||| self.frame_size_us == 60_000
    }

    /// First reason why the configuration is not usable, if there is one.
    pub open spec fn fault(self) -> Option<Seq<char>> {
        if !self.rate_is_supported() {
            Some(
                "sample_rate "@ + text::decimal(self.sample_rate as nat)
                    + " Hz is not supported (expected one of [8000, 12000, 16000, 24000, 48000])"@,
            )
        } else if self.channels != 1 && self.channels != 2 {
            Some(
                "channels must be 1 (mono) or 2 (stereo), got "@ + text::decimal(
                    self.channels as nat,
                ),
            )
        } else if !(500 <= self.bitrate <= 512_000) {
            Some(
                "bitrate "@ + text::decimal(self.bitrate as nat)
                    + " bps out of range [500, 512000]"@,
            )
        } else if !self.duration_is_supported() {
            Some(
                "frame_size_ms "@ + text::thousandths(self.frame_size_us as nat)
                    + " is invalid (expected one of [2.5, 5.0, 10.0, 20.0, 40.0, 60.0])"@,
            )
        } else if self.complexity > 10 {
            Some(
                "complexity "@ + text::decimal(self.complexity as nat) + " out of range [0, 10]"@,
            )
        } else {
            None
        }
    }

    /// Whether the configuration is usable.
    pub open spec fn is_valid(self) -> bool {
        self.fault() is None
    }

    /// PCM samples of one channel in one frame.
    pub open spec fn channel_samples(self) -> nat {
        self.frame_size_us as nat * self.sample_rate as nat / 1_000_000
    }

    /// PCM samples in one frame, all channels interleaved.
    pub open spec fn frame_samples(self) -> nat {
        self.channel_samples() * self.channels as nat
    }

    /// Every usable configuration has frames of 20 to 5760 samples.
    pub proof fn lemma_frame_samples(self)
        requires
            self.is_valid(),
        ensures
            20 <= self.channel_samples() <= 2_880,
            20 <= self.frame_samples() <= 5_760,
    {
        assert(self.frame_size_us as nat * self.sample_rate as nat >= 2_500 * 8_000)
            by (nonlinear_arith)
            requires
                self.frame_size_us >= 2_500,
                self.sample_rate >= 8_000,
        ;
        assert(self.frame_size_us as nat * self.sample_rate as nat <= 60_000 * 48_000)
            by (nonlinear_arith)
            requires
                self.frame_size_us <= 60_000,
                self.sample_rate <= 48_000,
        ;
        assert(self.channels == 1 || self.channels == 2);
    }

    /// Check the configuration.
    pub fn validate(&self) -> (checked: Result<(), CodecError>)
        ensures
            match self.fault() {
                None => checked is Ok,
                Some(message) => checked matches Err(CodecError::InvalidConfig(found))
                    && found@ == message,
            },
    {
        let rate = self.sample_rate;
        if rate != 8_000 && rate != 12_000 && rate != 16_000 && rate != 24_000 && rate != 48_000 {
            let mut message = "sample_rate ".to_owned();
            push_decimal(&mut message, rate as u64);
            message.append(
                " Hz is not supported (expected one of [8000, 12000, 16000, 24000, 48000])",
            );
            return Err(CodecError::InvalidConfig(message));
        }
        if self.channels != 1 && self.channels != 2 {
            let mut message = "channels must be 1 (mono) or 2 (stereo), got ".to_owned();
            push_decimal(&mut message, self.channels as u64);
            return Err(CodecError::InvalidConfig(message));
        }
        if self.bitrate < 500 || self.bitrate > 512_000 {
            let mut message = "bitrate ".to_owned();
            push_decimal(&mut message, self.bitrate as u64);
            message.append(" bps out of range [500, 512000]");
            return Err(CodecError::InvalidConfig(message));
        }
        let duration = self.frame_size_us;
        if duration != 2_500 && duration != 5_000 && duration != 10_000 && duration != 20_000
            && duration != 40_000 && duration != 60_000 {
            let mut message = "frame_size_ms ".to_owned();
            push_thousandths(&mut message, duration as u64);
            message.append(" is invalid (expected one of [2.5, 5.0, 10.0, 20.0, 40.0, 60.0])");
            return Err(CodecError::InvalidConfig(message));
        }
        if self.complexity > 10 {
            let mut message = "complexity ".to_owned();
            push_decimal(&mut message, self.complexity as u64);
            message.append(" out of range [0, 10]");
            return Err(CodecError::InvalidConfig(message));
        }
        Ok(())
    }

    /// PCM samples in one frame, all channels interleaved.
    pub fn samples_per_frame(&self) -> (count: usize)
        requires
            self.is_valid(),
        ensures
            count == self.frame_samples(),
    {
        proof {
            self.lemma_frame_samples();
        }
        let ticks: u64 = self.frame_size_us as u64 * self.sample_rate as u64;
        assert(ticks <= 60_000 * 48_000) by (nonlinear_arith)
            requires
                ticks == self.frame_size_us * self.sample_rate,
                self.frame_size_us <= 60_000,
                self.sample_rate <= 48_000,
        ;
        (ticks / 1_000_000) as usize * self.channels as usize
    }

    /// Channel layout of the codec.
    pub fn channel_layout(&self) -> (layout: ChannelLayout)
        ensures
            layout == layout_of(*self),
    {
        if self.channels == 2 {
            ChannelLayout::Stereo
        } else {
            ChannelLayout::Mono
        }
    }
}

impl Default for CodecConfig {
    /// 48 kHz mono speech at 24 kbit/s in 20 ms frames.
    fn default() -> (config: Self)
        ensures
            config == (CodecConfig {
                sample_rate: 48_000,
                channels: 1,
                bitrate: 24_000,
                frame_size_us: 20_000,
                use_dtx: true,
                use_fec: true,
                complexity: 0,
            }),
            config.is_valid(),
            config.frame_samples() == 960,
    {
        CodecConfig {
            sample_rate: 48_000,
            channels: 1,
            bitrate: 24_000,
            frame_size_us: 20_000,
            use_dtx: true,
            use_fec: true,
            complexity: 0,
        }
    }
}

/// Tuning of a new encoder: the settings in the order in which they apply.
pub open spec fn tuning(config: CodecConfig) -> Seq<EncoderSetting> {
    let loss = if config.use_fec {
        seq![EncoderSetting::PacketLossPercent(EXPECTED_LOSS_PERCENT)]
    } else {
        Seq::empty()
    };
    seq![
        EncoderSetting::Bitrate(config.bitrate as i32),
        EncoderSetting::Complexity(config.complexity as i32),
        EncoderSetting::Dtx(config.use_dtx),
        EncoderSetting::InbandFec(config.use_fec),
    ] + loss + seq![EncoderSetting::VoiceSignal]
}

/// Channel layout of a configuration.
pub open spec fn layout_of(config: CodecConfig) -> ChannelLayout {
    if config.channels == 2 {
        ChannelLayout::Stereo
    } else {
        ChannelLayout::Mono
    }
}

/// A tuning call on an encoder.
pub open spec fn tuning_call<S, T: Fn(S, EncoderSetting) -> (S, Result<(), OpusFault>)>(
    tune: T,
) -> spec_fn(S, EncoderSetting, S, Result<(), OpusFault>) -> bool {
    |before: S, setting: EncoderSetting, after: S, answer: Result<(), OpusFault>|
        call_ensures(tune, (before, setting), (after, answer))
}

/// Whether opening an encoder can end in this way.
///
/// An unusable configuration makes no call. Otherwise the codec library makes
/// one encoder for speech, which is then tuned once with each setting, in
/// order, up to the first failure.
pub open spec fn encoder_opened<
    L,
    S,
    O: Fn(L, u32, ChannelLayout, ApplicationMode) -> (L, Result<S, OpusFault>),
    T: Fn(S, EncoderSetting) -> (S, Result<(), OpusFault>),
>(
    config: CodecConfig,
    library: L,
    create: O,
    tune: T,
    after: L,
    made: Result<S, CodecError>,
) -> bool {
    match config.fault() {
        Some(message) => {
            &&& after == library
            &&& made matches Err(CodecError::InvalidConfig(found))
            &&& found@ == message
        },
        None => exists|created: Result<S, OpusFault>| #[trigger]
            call_ensures(
                create,
                (library, config.sample_rate, layout_of(config), ApplicationMode::Voip),
                (after, created),
            ) && match created {
                Err(fault) => made == Err::<S, CodecError>(CodecError::Encode(fault)),
                Ok(engine) => exists|calls: framing::Calls<S, (), OpusFault>| #[trigger]
                    calls.is_run(engine, tuning(config), tuning_call(tune)) && made == (
                    if framing::failed(calls.answers) {
                        Err::<S, CodecError>(CodecError::Encode(calls.answers.last()->Err_0))
                    } else {
                        Ok(calls.end())
                    }),
            },
    }
}

/// Whether opening a decoder can end in this way.
///
/// An unusable configuration makes no call. Otherwise the codec library makes
/// one decoder.
pub open spec fn decoder_opened<
    L,
    S,
    O: Fn(L, u32, ChannelLayout) -> (L, Result<S, OpusFault>),
>(config: CodecConfig, library: L, create: O, after: L, made: Result<S, CodecError>) -> bool {
    match config.fault() {
        Some(message) => {
            &&& after == library
            &&& made matches Err(CodecError::InvalidConfig(found))
            &&& found@ == message
        },
        None => exists|created: Result<S, OpusFault>| #[trigger]
            call_ensures(
                create,
                (library, config.sample_rate, layout_of(config)),
                (after, created),
            ) && match created {
                Ok(engine) => made == Ok::<S, CodecError>(engine),
                Err(fault) => made matches Err(CodecError::InvalidConfig(found)) && found@
                    == "failed to create opus decoder: "@ + fault.message(),
            },
    }
}

/// Error that an encoder call without a packet leads to.
pub open spec fn encode_error(fault: EncodeFault) -> CodecError {
    match fault {
        EncodeFault::Rejected(fault) => CodecError::Encode(fault),
        EncodeFault::Poisoned => CodecError::Poisoned,
    }
}

/// The bytes of several packets.
pub open spec fn packet_bytes(packets: Seq<Vec<u8>>) -> Seq<Seq<u8>> {
    packets.map_values(|packet: Vec<u8>| packet@)
}

/// Whether one call of the encoder on a frame of PCM can end in this way.
pub open spec fn encodes<S, F: Fn(S, &[i16], usize) -> (S, Result<Vec<u8>, EncodeFault>)>(
    encode: F,
    before: S,
    frame: Seq<i16>,
    after: S,
    answer: Result<Seq<u8>, EncodeFault>,
) -> bool {
    exists|pcm: &[i16], packet: Result<Vec<u8>, EncodeFault>|
        pcm@ == frame && #[trigger] call_ensures(
            encode,
            (before, pcm, MAX_PACKET_SIZE),
            (after, packet),
        ) && answer == (match packet {
            Ok(bytes) => Ok::<Seq<u8>, EncodeFault>(bytes@),
            Err(fault) => Err(fault),
        })
}

/// A call of the encoder on a frame of PCM.
pub open spec fn encoding<S, F: Fn(S, &[i16], usize) -> (S, Result<Vec<u8>, EncodeFault>)>(
    encode: F,
) -> spec_fn(S, Seq<i16>, S, Result<Seq<u8>, EncodeFault>) -> bool {
    |before: S, frame: Seq<i16>, after: S, answer: Result<Seq<u8>, EncodeFault>|
        encodes(encode, before, frame, after, answer)
}

/// Whether the encoder accepts every frame of the given length in every state.
pub open spec fn accepts_frames<
    S,
    F: Fn(S, &[i16], usize) -> (S, Result<Vec<u8>, EncodeFault>),
>(encode: F, len: nat) -> bool {
    forall|engine: S, pcm: &[i16]|
        pcm@.len() == len ==> #[trigger] call_requires(encode, (engine, pcm, MAX_PACKET_SIZE))
}

/// Frames that a PCM buffer is encoded in: the last one is padded with silence.
pub open spec fn encoder_frames(config: CodecConfig, pcm: Seq<i16>) -> Seq<Seq<i16>> {
    framing::blocks(framing::padded(pcm, config.frame_samples()), config.frame_samples())
}

/// What encoding a PCM buffer frame by frame gives, for the encoder's answers:
/// one packet per frame, appended in order, up to the first failure.
pub open spec fn encoded(
    before: Seq<Seq<u8>>,
    answers: Seq<Result<Seq<u8>, EncodeFault>>,
) -> (Seq<Seq<u8>>, Result<(), CodecError>) {
    if framing::failed(answers) {
        (
            before + framing::results(answers.drop_last()),
            Err(encode_error(answers.last()->Err_0)),
        )
    } else {
        (before + framing::results(answers), Ok(()))
    }
}

/// Copy of a partial frame, filled up with silence.
fn pad_frame(tail: &[i16], size: usize) -> (frame: Vec<i16>)
    requires
        tail@.len() <= size,
    ensures
        frame@ == tail@ + framing::silence((size - tail@.len()) as nat),
{
    let mut frame: Vec<i16> = Vec::new();
    frame.extend_from_slice(tail);
    assert(frame@ =~= tail@);
    frame.resize(size, 0);
    assert forall|i: int| 0 <= i < size implies frame@[i] == (tail@ + framing::silence(
        (size - tail@.len()) as nat,
    ))[i] by {
        if i < tail@.len() {
            assert(frame@.subrange(0, tail@.len() as int)[i] == frame@[i]);
        }
    }
    assert(frame@ =~= tail@ + framing::silence((size - tail@.len()) as nat));
    frame
}

/// Frame rules of an Opus voice encoder.
#[derive(Debug)]
pub struct OpusEncoder {
    config: CodecConfig,
    samples_per_frame: usize,
}

impl View for OpusEncoder {
    type V = CodecConfig;

    closed spec fn view(&self) -> CodecConfig {
        self.config
    }
}

impl OpusEncoder {
    /// Whether the encoder belongs to a usable configuration.
    pub closed spec fn wf(self) -> bool {
        &&& self.config.is_valid()
        &&& self.samples_per_frame == self.config.frame_samples()
    }

    /// The configuration of an encoder is usable.
    pub proof fn lemma_wf(self)
        requires
            self.wf(),
        ensures
            self@.is_valid(),
    {
    }

    /// Encoder rules for a configuration, if it is usable.
    pub fn new(config: CodecConfig) -> (made: Result<Self, CodecError>)
        ensures
            match config.fault() {
                None => made matches Ok(encoder) && encoder.wf() && encoder@ == config,
                Some(message) => made matches Err(CodecError::InvalidConfig(found)) && found@
                    == message,
            },
    {
        match config.validate() {
            Ok(()) => {
                let samples_per_frame = config.samples_per_frame();
                Ok(OpusEncoder { config, samples_per_frame })
            },
            Err(error) => Err(error),
        }
    }

    /// Encoder for a configuration, with an engine that the codec library makes
    /// for speech and that is tuned with the settings in order.
    ///
    /// Gives back the library and, unless something fails, the encoder with its
    /// engine. The first failure ends it; an unusable configuration makes no
    /// call.
    pub fn open<
        L,
        S,
        O: Fn(L, u32, ChannelLayout, ApplicationMode) -> (L, Result<S, OpusFault>),
        T: Fn(S, EncoderSetting) -> (S, Result<(), OpusFault>),
    >(config: CodecConfig, library: L, create: &O, tune: &T) -> (made: (
        L,
        Result<(Self, S), CodecError>,
    ))
        requires
            call_requires(
                *create,
                (library, config.sample_rate, layout_of(config), ApplicationMode::Voip),
            ),
            forall|engine: S, setting: EncoderSetting| #[trigger]
                call_requires(*tune, (engine, setting)),
        ensures
            made.1 matches Ok((encoder, _)) ==> encoder.wf() && encoder@ == config,
            encoder_opened(
                config,
                library,
                *create,
                *tune,
                made.0,
                match made.1 {
                    Ok((_, engine)) => Ok(engine),
                    Err(error) => Err(error),
                },
            ),
    {
        let encoder = match OpusEncoder::new(config) {
            Ok(encoder) => encoder,
            Err(error) => {
                return (library, Err(error));
            },
        };
        let (after, created) = create(
            library,
            config.sample_rate,
            config.channel_layout(),
            ApplicationMode::Voip,
        );
        let engine = match created {
            Ok(engine) => engine,
            Err(fault) => {
                return (after, Err(CodecError::Encode(fault)));
            },
        };
        let (tuned, answer) = encoder.tuned(engine, tune);
        match answer {
            Ok(()) => (after, Ok((encoder, tuned))),
            Err(fault) => (after, Err(CodecError::Encode(fault))),
        }
    }

    /// The engine after it has been tuned with the settings in order, up to the
    /// first failure.
    fn tuned<S, T: Fn(S, EncoderSetting) -> (S, Result<(), OpusFault>)>(
        &self,
        engine: S,
        tune: &T,
    ) -> (tuned: (S, Result<(), OpusFault>))
        requires
            self.wf(),
            forall|engine: S, setting: EncoderSetting| #[trigger]
                call_requires(*tune, (engine, setting)),
        ensures
            exists|calls: framing::Calls<S, (), OpusFault>| #[trigger]
                calls.is_run(engine, tuning(self@), tuning_call(*tune)) && calls.end() == tuned.0
                    && tuned.1 == (if framing::failed(calls.answers) {
                    Err::<(), OpusFault>(calls.answers.last()->Err_0)
                } else {
                    Ok(())
                }),
    {
        let settings = self.settings();
        let mut running = engine;
        let ghost mut calls: framing::Calls<S, (), OpusFault> = framing::Calls::none(engine);
        let mut i: usize = 0;
        while i < settings.len()
            invariant
                i <= settings@.len(),
                settings@ == tuning(self@),
                forall|engine: S, setting: EncoderSetting| #[trigger]
                    call_requires(*tune, (engine, setting)),
                calls.follows(engine, tuning(self@), tuning_call(*tune)),
                calls.end() == running,
                calls.answers.len() == i,
                forall|j: int|
                    0 <= j < calls.answers.len() ==> (#[trigger] calls.answers[j]) is Ok,
            decreases settings.len() - i,
        {
            let (next, answer) = tune(running, settings[i]);
            proof {
                calls.lemma_and(engine, tuning(self@), tuning_call(*tune), next, answer);
                calls = calls.and(next, answer);
            }
            running = next;
            i = i + 1;
            if answer.is_err() {
                assert(calls.is_run(engine, tuning(self@), tuning_call(*tune)));
                return (running, answer);
            }
        }
        assert(calls.is_run(engine, tuning(self@), tuning_call(*tune)));
        (running, Ok(()))
    }

    /// Settings that tune a new codec instance for voice, in order.
    pub fn settings(&self) -> (settings: Vec<EncoderSetting>)
        requires
            self.wf(),
        ensures
            settings@ == tuning(self@),
    {
        let mut settings: Vec<EncoderSetting> = Vec::new();
        settings.push(EncoderSetting::Bitrate(self.config.bitrate as i32));
        settings.push(EncoderSetting::Complexity(self.config.complexity as i32));
        settings.push(EncoderSetting::Dtx(self.config.use_dtx));
        settings.push(EncoderSetting::InbandFec(self.config.use_fec));
        if self.config.use_fec {
            settings.push(EncoderSetting::PacketLossPercent(EXPECTED_LOSS_PERCENT));
        }
        settings.push(EncoderSetting::VoiceSignal);
        assert(settings@ =~= tuning(self@));
        settings
    }

    /// The configuration in use.
    pub fn config(&self) -> (config: &CodecConfig)
        ensures
            *config == self@,
    {
        &self.config
    }

    /// PCM samples that one encode call takes.
    pub fn samples_per_frame(&self) -> (count: usize)
        requires
            self.wf(),
        ensures
            count == self@.frame_samples(),
            count > 0,
    {
        proof {
            self.config.lemma_frame_samples();
        }
        self.samples_per_frame
    }

    /// Encode exactly one frame of interleaved PCM.
    ///
    /// One call is made on the engine, with the frame and the largest packet
    /// size, if the PCM is one frame long; otherwise none is, and the engine is
    /// given back as it is.
    pub fn encode<S, F: Fn(S, &[i16], usize) -> (S, Result<Vec<u8>, EncodeFault>)>(
        &self,
        pcm: &[i16],
        engine: S,
        encode: &F,
    ) -> (packet: (S, Result<Vec<u8>, CodecError>))
        requires
            self.wf(),
            pcm@.len() == self@.frame_samples() ==> call_requires(
                *encode,
                (engine, pcm, MAX_PACKET_SIZE),
            ),
        ensures
            pcm@.len() != self@.frame_samples() ==> packet == (
                engine,
                Err::<Vec<u8>, CodecError>(
                    CodecError::FrameSizeMismatch {
                        actual: pcm@.len() as usize,
                        expected: self@.frame_samples() as usize,
                        channels: self@.channels,
                    },
                ),
            ),
            pcm@.len() == self@.frame_samples() ==> exists|answer: Result<Vec<u8>, EncodeFault>|
                #[trigger] call_ensures(
                    *encode,
                    (engine, pcm, MAX_PACKET_SIZE),
                    (packet.0, answer),
                ) && packet.1 == (match answer {
                    Ok(bytes) => Ok::<Vec<u8>, CodecError>(bytes),
                    Err(fault) => Err(encode_error(fault)),
                }),
    {
        if pcm.len() != self.samples_per_frame {
            let error = CodecError::FrameSizeMismatch {
                actual: pcm.len(),
                expected: self.samples_per_frame,
                channels: self.config.channels,
            };
            return (engine, Err(error));
        }
        let (after, answer) = encode(engine, pcm, MAX_PACKET_SIZE);
        let ghost outcome = answer;
        let packet = match answer {
            Ok(packet) => Ok(packet),
            Err(EncodeFault::Rejected(fault)) => Err(CodecError::Encode(fault)),
            Err(EncodeFault::Poisoned) => Err(CodecError::Poisoned),
        };
        let packet = (after, packet);
        assert(call_ensures(*encode, (engine, pcm, MAX_PACKET_SIZE), (packet.0, outcome)));
        packet
    }

    /// Encode a PCM buffer frame by frame, appending one packet per frame.
    ///
    /// One call is made on the engine per frame; a trailing partial frame is
    /// padded with silence. Encoding stops at the first frame that fails; the
    /// packets before it are kept.
    pub fn encode_frames_into<
        S,
        F: Fn(S, &[i16], usize) -> (S, Result<Vec<u8>, EncodeFault>),
    >(&self, pcm: &[i16], packets: &mut Vec<Vec<u8>>, engine: S, encode: &F) -> (done: (
        S,
        Result<(), CodecError>,
    ))
        requires
            self.wf(),
            accepts_frames(*encode, self@.frame_samples()),
        ensures
            exists|calls: framing::Calls<S, Seq<u8>, EncodeFault>| #[trigger]
                calls.is_run(engine, encoder_frames(self@, pcm@), encoding(*encode))
                    && calls.end() == done.0 && encoded(
                    packet_bytes(old(packets)@),
                    calls.answers,
                ) == (packet_bytes(final(packets)@), done.1),
    {
        let size = self.samples_per_frame;
        let ghost frame = self@.frame_samples();
        let ghost stream = framing::padded(pcm@, frame);
        let ghost frames = encoder_frames(self@, pcm@);
        let ghost step = encoding(*encode);
        let ghost before = packet_bytes(packets@);
        let ghost mut calls: framing::Calls<S, Seq<u8>, EncodeFault> = framing::Calls::none(
            engine,
        );
        let mut running = engine;
        proof {
            self.config.lemma_frame_samples();
            framing::lemma_padded_len(pcm@, frame);
            vstd::arithmetic::div_mod::lemma_fundamental_div_mod(
                stream.len() as int,
                frame as int,
            );
            assert(packet_bytes(packets@) =~= before + framing::results(calls.answers));
            vstd::arithmetic::div_mod::lemma_small_mod(0, frame);
            assert(calls.answers.len() * frame == 0) by (nonlinear_arith)
                requires
                    calls.answers.len() == 0,
            ;
        }
        let mut done: usize = 0;
        while done < pcm.len()
            invariant
                self.wf(),
                accepts_frames(*encode, self@.frame_samples()),
                size == self.samples_per_frame,
                size == frame,
                frame == self@.frame_samples(),
                frame > 0,
                stream == framing::padded(pcm@, frame),
                stream.len() == frame * (stream.len() / frame),
                stream.len() < pcm@.len() + frame,
                pcm@.len() <= stream.len(),
                frames == encoder_frames(self@, pcm@),
                step == encoding(*encode),
                before == packet_bytes(old(packets)@),
                done <= pcm.len(),
                done < pcm.len() ==> done == calls.answers.len() * frame,
                done == pcm.len() ==> calls.answers.len() * frame == stream.len(),
                calls.follows(engine, frames, step),
                calls.end() == running,
                forall|i: int| 0 <= i < calls.answers.len() ==> (#[trigger] calls.answers[i]) is Ok,
                packet_bytes(packets@) == before + framing::results(calls.answers),
            decreases pcm.len() - done,
        {
            let ghost count = calls.answers.len();
            let ghost current = frames[count as int];
            proof {
                assert(count < frames.len()) by (nonlinear_arith)
                    requires
                        count * frame < pcm@.len(),
                        pcm@.len() <= stream.len(),
                        stream.len() == frame * (stream.len() / frame),
                        frames.len() == stream.len() / frame,
                        frame > 0,
                ;
                assert(count * frame + frame <= stream.len()) by (nonlinear_arith)
                    requires
                        count + 1 <= stream.len() / frame,
                        stream.len() == frame * (stream.len() / frame),
                        frame > 0,
                ;
                assert((count + 1) * frame == count * frame + frame) by (nonlinear_arith);
                assert(current == stream.subrange(
                    (count * frame) as int,
                    (count * frame) as int + frame,
                ));
            }
            let rest: usize = pcm.len() - done;
            let ghost state = running;
            let (next, answer) = if rest >= size {
                let chunk = slice_subrange(pcm, done, done + size);
                assert(chunk@ =~= current);
                self.encode(chunk, running, encode)
            } else {
                let chunk = pad_frame(slice_subrange(pcm, done, pcm.len()), size);
                assert(chunk@ =~= current);
                self.encode(chunk.as_slice(), running, encode)
            };
            running = next;
            match answer {
                Ok(packet) => {
                    proof {
                        let answer = Ok::<Seq<u8>, EncodeFault>(packet@);
                        assert(encodes(*encode, state, current, next, answer));
                        calls.lemma_and(engine, frames, step, next, answer);
                        let earlier = calls.answers;
                        calls = calls.and(next, answer);
                        assert(framing::results(calls.answers) =~= framing::results(
                            earlier,
                        ).push(packet@));
                    }
                    let ghost earlier = packets@;
                    packets.push(packet);
                    assert(packet_bytes(packets@) =~= packet_bytes(earlier).push(packet@));
                    assert(packet_bytes(packets@) =~= before + framing::results(calls.answers));
                    proof {
                        if rest <= size {
                            assert((count + 1) * frame == stream.len()) by (nonlinear_arith)
                                requires
                                    count * frame + frame <= stream.len(),
                                    stream.len() < count * frame + rest + frame,
                                    rest <= frame,
                                    stream.len() == frame * (stream.len() / frame),
                                    frame > 0,
                            ;
                        }
                    }
                    done = if rest >= size {
                        done + size
                    } else {
                        pcm.len()
                    };
                },
                Err(error) => {
                    proof {
                        let fault = choose|fault: EncodeFault| encode_error(fault) == error
                            && encodes(*encode, state, current, next, Err(fault));
                        let answer = Err::<Seq<u8>, EncodeFault>(fault);
                        calls.lemma_and(engine, frames, step, next, answer);
                        let all = calls.and(next, answer);
                        assert(all.answers.drop_last() =~= calls.answers);
                        assert(all.is_run(engine, frames, step));
                        assert(encoded(before, all.answers) == (packet_bytes(packets@), Err::<
                            (),
                            CodecError,
                        >(error)));
                    }
                    return (running, Err(error));
                },
            }
        }
        proof {
            assert(calls.answers.len() == frames.len()) by (nonlinear_arith)
                requires
                    calls.answers.len() * frame == stream.len(),
                    stream.len() == frame * (stream.len() / frame),
                    frames.len() == stream.len() / frame,
                    frame > 0,
            ;
            assert(calls.is_run(engine, frames, step));
            assert(encoded(before, calls.answers) == (packet_bytes(packets@), Ok::<
                (),
                CodecError,
            >(())));
        }
        (running, Ok(()))
    }

    /// Encode a PCM buffer frame by frame into new packets.
    ///
    /// A trailing partial frame is padded with silence and becomes its own
    /// packet.
    pub fn encode_frames<S, F: Fn(S, &[i16], usize) -> (S, Result<Vec<u8>, EncodeFault>)>(
        &self,
        pcm: &[i16],
        engine: S,
        encode: &F,
    ) -> (packets: (S, Result<Vec<Vec<u8>>, CodecError>))
        requires
            self.wf(),
            accepts_frames(*encode, self@.frame_samples()),
        ensures
            exists|calls: framing::Calls<S, Seq<u8>, EncodeFault>| #[trigger]
                calls.is_run(engine, encoder_frames(self@, pcm@), encoding(*encode))
                    && calls.end() == packets.0 && match packets.1 {
                    Ok(packets) => !framing::failed(calls.answers) && packet_bytes(packets@)
                        == framing::results(calls.answers),
                    Err(error) => framing::failed(calls.answers) && error == encode_error(
                        calls.answers.last()->Err_0,
                    ),
                },
    {
        let mut packets: Vec<Vec<u8>> = Vec::new();
        let ghost given = engine;
        let (engine, done) = self.encode_frames_into(pcm, &mut packets, engine, encode);
        proof {
            assert(packet_bytes(Seq::empty()) =~= Seq::empty());
            let calls = choose|calls: framing::Calls<S, Seq<u8>, EncodeFault>| #[trigger]
                calls.is_run(given, encoder_frames(self@, pcm@), encoding(*encode)) && calls.end()
                    == engine && encoded(Seq::empty(), calls.answers) == (
                    packet_bytes(packets@),
                    done,
                );
            assert(Seq::<Seq<u8>>::empty() + framing::results(calls.answers)
                =~= framing::results(calls.answers));
        }
        match done {
            Ok(()) => (engine, Ok(packets)),
            Err(error) => (engine, Err(error)),
        }
    }
}

/// Encoding a PCM buffer takes every sample exactly once and in order: its
/// frames put together are the buffer followed by less than one frame of
/// silence, and there is one frame for each started frame of the buffer.
pub proof fn law_frames_cover_the_buffer(config: CodecConfig, pcm: Seq<i16>)
    requires
        config.is_valid(),
    ensures
        framing::joined(encoder_frames(config, pcm)) == framing::padded(
            pcm,
            config.frame_samples(),
        ),
        framing::padded(pcm, config.frame_samples()).take(pcm.len() as int) == pcm,
        encoder_frames(config, pcm).len() == (pcm.len() + config.frame_samples() - 1) as nat
            / config.frame_samples(),
{
    let size = config.frame_samples();
    config.lemma_frame_samples();
    framing::law_padded_blocks_keep_stream(pcm, size);
    framing::lemma_padded_len(pcm, size);
    let all = framing::padded(pcm, size).len() as int;
    vstd::arithmetic::div_mod::lemma_fundamental_div_mod(all, size as int);
    let count = all / size as int;
    assert(all == count * size) by (nonlinear_arith)
        requires
            all == size * count + 0,
    ;
    vstd::arithmetic::div_mod::lemma_fundamental_div_mod_converse(
        pcm.len() + size - 1,
        size as int,
        count,
        pcm.len() + size - 1 - count * size,
    );
}

/// Whether one call of the decoder on a packet can end in this way, given the
/// number of samples per channel that its output buffer has room for.
pub open spec fn decodes<
    S,
    F: Fn(S, &[u8], Vec<i16>, bool) -> (S, Result<(Vec<i16>, usize), OpusFault>),
>(
    decode: F,
    before: S,
    packet: &[u8],
    room: nat,
    fec: bool,
    channels: u8,
    after: S,
    pcm: Result<Seq<i16>, CodecError>,
) -> bool {
    exists|buffer: Vec<i16>, answer: Result<(Vec<i16>, usize), OpusFault>|
        buffer@ == framing::silence(room * channels as nat) && #[trigger] call_ensures(
            decode,
            (before, packet, buffer, fec),
            (after, answer),
        ) && pcm == (match answer {
            Ok((filled, count)) => Ok::<Seq<i16>, CodecError>(written(filled@, count, channels)),
            Err(fault) => Err(CodecError::Decode(fault)),
        })
}

/// The part of an output buffer that holds the given number of samples per
/// channel.
pub open spec fn written(buffer: Seq<i16>, count: usize, channels: u8) -> Seq<i16> {
    if count * channels <= buffer.len() {
        buffer.take((count * channels) as int)
    } else {
        buffer
    }
}

/// The outcome of a decode call with the PCM taken by its samples.
pub open spec fn pcm_samples(pcm: Result<Vec<i16>, CodecError>) -> Result<Seq<i16>, CodecError> {
    match pcm {
        Ok(samples) => Ok(samples@),
        Err(error) => Err(error),
    }
}

/// What decoding a packet gives. An empty packet asks for concealment of one
/// configured frame, with one call of the decoder; any other packet is first
/// asked once how long it is, and decoded with one call if it says so.
pub open spec fn decoded<
    S,
    N: Fn(S, &[u8]) -> (S, Result<usize, OpusFault>),
    F: Fn(S, &[u8], Vec<i16>, bool) -> (S, Result<(Vec<i16>, usize), OpusFault>),
>(
    config: CodecConfig,
    packet: &[u8],
    fec: bool,
    before: S,
    duration: N,
    decode: F,
    after: S,
    pcm: Result<Seq<i16>, CodecError>,
) -> bool {
    if packet@.len() == 0 {
        decodes(
            decode,
            before,
            packet,
            config.channel_samples(),
            fec,
            config.channels,
            after,
            pcm,
        )
    } else {
        exists|between: S, answer: Result<usize, OpusFault>| #[trigger]
            call_ensures(duration, (before, packet), (between, answer)) && match answer {
                Ok(count) => decodes(
                    decode,
                    between,
                    packet,
                    count as nat,
                    fec,
                    config.channels,
                    after,
                    pcm,
                ),
                Err(fault) => after == between && pcm == Err::<Seq<i16>, CodecError>(
                    CodecError::Decode(fault),
                ),
            }
    }
}

/// Whether the duration call and the decoder accept a packet in every state,
/// and the duration fits a buffer.
pub open spec fn accepts_packet<
    S,
    N: Fn(S, &[u8]) -> (S, Result<usize, OpusFault>),
    F: Fn(S, &[u8], Vec<i16>, bool) -> (S, Result<(Vec<i16>, usize), OpusFault>),
>(packet: &[u8], fec: bool, channels: u8, duration: N, decode: F) -> bool {
    &&& forall|engine: S| #[trigger] call_requires(duration, (engine, packet))
    &&& forall|engine: S, after: S, count: usize|
        #![trigger call_ensures(duration, (engine, packet), (after, Ok(count)))]
        call_ensures(duration, (engine, packet), (after, Ok(count))) ==> count * channels
            <= usize::MAX
    &&& forall|engine: S, buffer: Vec<i16>| #[trigger]
        call_requires(decode, (engine, packet, buffer, fec))
}

/// Output rules of an Opus voice decoder.
#[derive(Debug)]
pub struct OpusDecoder {
    config: CodecConfig,
    samples_per_frame: usize,
}

impl View for OpusDecoder {
    type V = CodecConfig;

    closed spec fn view(&self) -> CodecConfig {
        self.config
    }
}

impl OpusDecoder {
    /// Whether the decoder belongs to a usable configuration.
    pub closed spec fn wf(self) -> bool {
        &&& self.config.is_valid()
        &&& self.samples_per_frame == self.config.frame_samples()
    }

    /// Decoder rules for a configuration, if it is usable.
    pub fn new(config: CodecConfig) -> (made: Result<Self, CodecError>)
        ensures
            match config.fault() {
                None => made matches Ok(decoder) && decoder.wf() && decoder@ == config,
                Some(message) => made matches Err(CodecError::InvalidConfig(found)) && found@
                    == message,
            },
    {
        match config.validate() {
            Ok(()) => {
                let samples_per_frame = config.samples_per_frame();
                Ok(OpusDecoder { config, samples_per_frame })
            },
            Err(error) => Err(error),
        }
    }

    /// Decoder for a configuration, with an engine that the codec library makes.
    ///
    /// Gives back the library and, unless something fails, the decoder with its
    /// engine. An unusable configuration makes no call; a library that cannot
    /// make a decoder makes the configuration unusable too.
    pub fn open<L, S, O: Fn(L, u32, ChannelLayout) -> (L, Result<S, OpusFault>)>(
        config: CodecConfig,
        library: L,
        create: &O,
    ) -> (made: (L, Result<(Self, S), CodecError>))
        requires
            call_requires(*create, (library, config.sample_rate, layout_of(config))),
        ensures
            made.1 matches Ok((decoder, _)) ==> decoder.wf() && decoder@ == config,
            decoder_opened(
                config,
                library,
                *create,
                made.0,
                match made.1 {
                    Ok((_, engine)) => Ok(engine),
                    Err(error) => Err(error),
                },
            ),
    {
        let decoder = match OpusDecoder::new(config) {
            Ok(decoder) => decoder,
            Err(error) => {
                return (library, Err(error));
            },
        };
        let (library, created) = create(library, config.sample_rate, config.channel_layout());
        match created {
            Ok(engine) => (library, Ok((decoder, engine))),
            Err(fault) => {
                let mut message = "failed to create opus decoder: ".to_owned();
                message.append(fault.function.as_str());
                message.append(": ");
                message.append(fault.description.as_str());
                proof {
                    assert(message@ =~= "failed to create opus decoder: "@ + fault.message());
                }
                (library, Err(CodecError::InvalidConfig(message)))
            },
        }
    }

    /// The configuration in use.
    pub fn config(&self) -> (config: &CodecConfig)
        ensures
            *config == self@,
    {
        &self.config
    }

    /// PCM samples of one full frame.
    pub fn samples_per_frame(&self) -> (count: usize)
        requires
            self.wf(),
        ensures
            count == self@.frame_samples(),
    {
        self.samples_per_frame
    }

    /// Decode one packet; an empty packet asks for loss concealment.
    pub fn decode<
        S,
        N: Fn(S, &[u8]) -> (S, Result<usize, OpusFault>),
        F: Fn(S, &[u8], Vec<i16>, bool) -> (S, Result<(Vec<i16>, usize), OpusFault>),
    >(&self, packet: &[u8], engine: S, duration: &N, decode: &F) -> (pcm: (
        S,
        Result<Vec<i16>, CodecError>,
    ))
        requires
            self.wf(),
            accepts_packet(packet, false, self@.channels, *duration, *decode),
        ensures
            decoded(
                self@,
                packet,
                false,
                engine,
                *duration,
                *decode,
                pcm.0,
                pcm_samples(pcm.1),
            ),
    {
        self.decode_impl(packet, false, engine, duration, decode)
    }

    /// Reconstruct the frame before a packet from the copy that the packet
    /// carries; an empty packet asks for loss concealment.
    pub fn decode_fec<
        S,
        N: Fn(S, &[u8]) -> (S, Result<usize, OpusFault>),
        F: Fn(S, &[u8], Vec<i16>, bool) -> (S, Result<(Vec<i16>, usize), OpusFault>),
    >(&self, packet: &[u8], engine: S, duration: &N, decode: &F) -> (pcm: (
        S,
        Result<Vec<i16>, CodecError>,
    ))
        requires
            self.wf(),
            accepts_packet(packet, true, self@.channels, *duration, *decode),
        ensures
            decoded(
                self@,
                packet,
                true,
                engine,
                *duration,
                *decode,
                pcm.0,
                pcm_samples(pcm.1),
            ),
    {
        self.decode_impl(packet, true, engine, duration, decode)
    }

    /// Decode with a buffer sized by the packet itself, or by the configured
    /// frame for an empty packet, and keep what the decoder wrote.
    fn decode_impl<
        S,
        N: Fn(S, &[u8]) -> (S, Result<usize, OpusFault>),
        F: Fn(S, &[u8], Vec<i16>, bool) -> (S, Result<(Vec<i16>, usize), OpusFault>),
    >(&self, packet: &[u8], fec: bool, engine: S, duration: &N, decode: &F) -> (pcm: (
        S,
        Result<Vec<i16>, CodecError>,
    ))
        requires
            self.wf(),
            accepts_packet(packet, fec, self@.channels, *duration, *decode),
        ensures
            decoded(
                self@,
                packet,
                fec,
                engine,
                *duration,
                *decode,
                pcm.0,
                pcm_samples(pcm.1),
            ),
    {
        let channels = self.config.channels as usize;
        proof {
            self.config.lemma_frame_samples();
        }
        let ghost given = engine;
        let (engine, room): (S, usize) = if packet.len() == 0 {
            proof {
                vstd::arithmetic::div_mod::lemma_div_multiples_vanish(
                    self.config.channel_samples() as int,
                    channels as int,
                );
                assert(self.samples_per_frame == channels * self.config.channel_samples())
                    by (nonlinear_arith)
                    requires
                        self.samples_per_frame == self.config.channel_samples()
                            * self.config.channels as nat,
                        channels == self.config.channels,
                ;
            }
            (engine, self.samples_per_frame / channels)
        } else {
            let (engine, answer) = duration(engine, packet);
            match answer {
                Ok(count) => (engine, count),
                Err(fault) => {
                    return (engine, Err(CodecError::Decode(fault)));
                },
            }
        };
        assert(room * channels <= usize::MAX);
        let buffer: Vec<i16> = vec![0i16; room * channels];
        assert(buffer@ =~= framing::silence((room * channels) as nat));
        let ghost between = engine;
        let (engine, answer) = decode(engine, packet, buffer, fec);
        let pcm = match answer {
            Ok((filled, count)) => {
                let mut pcm = filled;
                if count <= pcm.len() / channels {
                    assert(count * channels <= filled@.len()) by (nonlinear_arith)
                        requires
                            count <= filled@.len() as int / channels as int,
                            channels > 0,
                    ;
                    pcm.truncate(count * channels);
                } else {
                    assert(count * channels > filled@.len()) by (nonlinear_arith)
                        requires
                            count > filled@.len() as int / channels as int,
                            channels > 0,
                    ;
                }
                assert(pcm@ =~= written(filled@, count, self.config.channels));
                Ok(pcm)
            },
            Err(fault) => Err(CodecError::Decode(fault)),
        };
        assert(decodes(
            *decode,
            between,
            packet,
            room as nat,
            fec,
            self.config.channels,
            engine,
            pcm_samples(pcm),
        ));
        (engine, pcm)
    }
}

} // verus!
