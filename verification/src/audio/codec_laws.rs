//! What single operations of the codec do.
//!
//! The laws relate the arguments of an operation, the calls that it makes on an
//! engine and its result.

use vstd::prelude::*;

use crate::audio::codec;
use crate::audio::codec::{
    ApplicationMode, ChannelLayout, CodecConfig, CodecError, EncodeFault, EncoderSetting,
    OpusDecoder, OpusEncoder, OpusFault,
};
use crate::audio::framing;
use crate::text;

verus! {

/// The codec runs at 8, 12, 16, 24 and 48 kHz.
pub open spec fn is_codec_rate(rate: u32) -> bool {
    rate == 8_000 || rate == 12_000 || rate == 16_000 || rate == 24_000 || rate == 48_000
}

/// The codec has frames of 2.5, 5, 10, 20, 40 and 60 ms.
pub open spec fn is_codec_duration(micros: u32) -> bool {
    micros == 2_500 || micros == 5_000 || micros == 10_000 || micros == 20_000 || micros == 40_000
        || micros == 60_000
}

/// Every setting is one that the codec supports.
pub open spec fn is_usable(config: CodecConfig) -> bool {
    &&& is_codec_rate(config.sample_rate)
    &&& config.channels == 1 || config.channels == 2
    &&& 500 <= config.bitrate <= 512_000
    &&& is_codec_duration(config.frame_size_us)
    &&& config.complexity <= 10
}

/// A configuration is valid exactly if the codec supports every setting.
pub proof fn law_valid_means_supported(config: CodecConfig)
    ensures
        config.is_valid() <==> is_usable(config),
{
}

/// Checking a configuration, making an encoder and making a decoder succeed on
/// exactly the usable configurations, which they use as they are. Otherwise all
/// fail with one text that names the first unsupported setting, in the order
/// rate, channels, bitrate, frame duration, complexity, and its value.
pub proof fn law_unsupported_settings_are_refused_by_name(
    config: CodecConfig,
    checked: Result<(), CodecError>,
    encoder: Result<OpusEncoder, CodecError>,
    decoder: Result<OpusDecoder, CodecError>,
)
    requires
        call_ensures(CodecConfig::validate, (&config,), checked),
        call_ensures(OpusEncoder::new, (config,), encoder),
        call_ensures(OpusDecoder::new, (config,), decoder),
    ensures
        checked is Ok <==> is_usable(config),
        encoder is Ok <==> is_usable(config),
        decoder is Ok <==> is_usable(config),
        encoder matches Ok(encoder) ==> encoder@ == config && encoder.wf(),
        decoder matches Ok(decoder) ==> decoder@ == config && decoder.wf(),
        !is_usable(config) ==> {
            &&& checked matches Err(CodecError::InvalidConfig(text))
            &&& encoder matches Err(CodecError::InvalidConfig(other)) && other@ == text@
            &&& decoder matches Err(CodecError::InvalidConfig(third)) && third@ == text@
            &&& text@ == (if !is_codec_rate(config.sample_rate) {
                "sample_rate "@ + text::decimal(config.sample_rate as nat)
                    + " Hz is not supported (expected one of [8000, 12000, 16000, 24000, 48000])"@
            } else if config.channels != 1 && config.channels != 2 {
                "channels must be 1 (mono) or 2 (stereo), got "@ + text::decimal(
                    config.channels as nat,
                )
            } else if config.bitrate < 500 || config.bitrate > 512_000 {
                "bitrate "@ + text::decimal(config.bitrate as nat)
                    + " bps out of range [500, 512000]"@
            } else if !is_codec_duration(config.frame_size_us) {
                "frame_size_ms "@ + text::thousandths(config.frame_size_us as nat)
                    + " is invalid (expected one of [2.5, 5.0, 10.0, 20.0, 40.0, 60.0])"@
            } else {
                "complexity "@ + text::decimal(config.complexity as nat) + " out of range [0, 10]"@
            })
        },
{
}

/// A frame holds its duration of samples of each channel, exactly.
pub proof fn law_frame_holds_its_duration(config: CodecConfig, count: usize)
    requires
        is_usable(config),
        call_ensures(CodecConfig::samples_per_frame, (&config,), count),
    ensures
        count * 1_000_000 == config.frame_size_us * config.sample_rate * config.channels,
        count == config.frame_samples(),
        config.channel_samples() * 1_000_000 == config.frame_size_us * config.sample_rate,
{
    lemma_exact_frames(config);
}

/// Encoders and decoders work with frames of their configuration.
pub proof fn law_codecs_use_the_frames_of_their_configuration(
    encoder: OpusEncoder,
    decoder: OpusDecoder,
    encoder_count: usize,
    decoder_count: usize,
    encoder_config: &CodecConfig,
    decoder_config: &CodecConfig,
)
    requires
        encoder.wf(),
        decoder.wf(),
        is_usable(encoder@),
        is_usable(decoder@),
        call_ensures(OpusEncoder::samples_per_frame, (&encoder,), encoder_count),
        call_ensures(OpusDecoder::samples_per_frame, (&decoder,), decoder_count),
        call_ensures(OpusEncoder::config, (&encoder,), encoder_config),
        call_ensures(OpusDecoder::config, (&decoder,), decoder_config),
    ensures
        *encoder_config == encoder@,
        *decoder_config == decoder@,
        encoder_count * 1_000_000 == encoder@.frame_size_us * encoder@.sample_rate
            * encoder@.channels,
        decoder_count * 1_000_000 == decoder@.frame_size_us * decoder@.sample_rate
            * decoder@.channels,
{
    lemma_exact_frames(encoder@);
    lemma_exact_frames(decoder@);
}

/// Two channels are stereo, one channel is mono.
pub proof fn law_two_channels_are_stereo(config: CodecConfig, layout: ChannelLayout)
    requires
        is_usable(config),
        call_ensures(CodecConfig::channel_layout, (&config,), layout),
    ensures
        layout is Stereo <==> config.channels == 2,
        layout is Mono <==> config.channels == 1,
{
}

/// Whether these are the settings that tune an encoder: the configured bitrate,
/// effort, silence suppression and error correction, an expected loss of ten
/// percent with error correction only, and speech.
pub open spec fn tunes(config: CodecConfig, settings: Seq<EncoderSetting>) -> bool {
    &&& settings.len() == (if config.use_fec {
        6int
    } else {
        5int
    })
    &&& settings[0] matches EncoderSetting::Bitrate(bits) && bits == config.bitrate
    &&& settings[1] matches EncoderSetting::Complexity(effort) && effort == config.complexity
    &&& settings[2] == EncoderSetting::Dtx(config.use_dtx)
    &&& settings[3] == EncoderSetting::InbandFec(config.use_fec)
    &&& config.use_fec ==> settings[4] == EncoderSetting::PacketLossPercent(10)
    &&& settings.last() == EncoderSetting::VoiceSignal
}

/// An encoder is tuned by the configured settings.
pub proof fn law_encoder_is_tuned_as_configured(
    encoder: OpusEncoder,
    settings: Vec<EncoderSetting>,
)
    requires
        encoder.wf(),
        is_usable(encoder@),
        call_ensures(OpusEncoder::settings, (&encoder,), settings),
    ensures
        tunes(encoder@, settings@),
{
}

/// Whether an encoder was opened: the library is asked for one speech encoder with
/// the configured rate and channels, and the tuning settings are applied to it one
/// after the other. A failure of the library, or of the first setting that fails,
/// ends it; the encoder is what the last setting left.
pub open spec fn is_encoder_opening<
    L,
    S,
    O: Fn(L, u32, ChannelLayout, ApplicationMode) -> (L, Result<S, OpusFault>),
    T: Fn(S, EncoderSetting) -> (S, Result<(), OpusFault>),
>(
    config: CodecConfig,
    library: L,
    create: O,
    tune: T,
    after: L,
    made: Result<S, CodecError>,
) -> bool {
    exists|created: Result<S, OpusFault>, layout: ChannelLayout| #[trigger]
        call_ensures(
            create,
            (library, config.sample_rate, layout, ApplicationMode::Voip),
            (after, created),
        ) && (layout is Stereo <==> config.channels == 2) && match created {
            Err(fault) => made == Err::<S, CodecError>(CodecError::Encode(fault)),
            Ok(engine) => exists|
                settings: Seq<EncoderSetting>,
                calls: framing::Calls<S, (), OpusFault>,
            | #[trigger]
                is_tuning(tune, engine, settings, calls) && tunes(config, settings) && match made {
                    Ok(tuned) => {
                        &&& calls.answers.len() == settings.len()
                        &&& forall|i: int|
                            0 <= i < calls.answers.len() ==> (#[trigger] calls.answers[i]) is Ok
                        &&& tuned == calls.states.last()
                    },
                    Err(error) => {
                        &&& calls.answers.len() > 0
                        &&& calls.answers.last() matches Err(fault)
                        &&& error == CodecError::Encode(fault)
                    },
                },
        }
}

/// Opening an encoder on a usable configuration makes and tunes it.
pub proof fn law_opening_an_encoder_makes_and_tunes_it<
    L,
    S,
    O: Fn(L, u32, ChannelLayout, ApplicationMode) -> (L, Result<S, OpusFault>),
    T: Fn(S, EncoderSetting) -> (S, Result<(), OpusFault>),
>(
    config: CodecConfig,
    library: L,
    create: O,
    tune: T,
    made: (L, Result<(OpusEncoder, S), CodecError>),
)
    requires
        is_usable(config),
        call_ensures(
            OpusEncoder::open::<L, S, O, T>,
            (config, library, &create, &tune),
            made,
        ),
    ensures
        made.1 matches Ok((encoder, _)) ==> encoder@ == config && encoder.wf(),
        is_encoder_opening(
            config,
            library,
            create,
            tune,
            made.0,
            match made.1 {
                Ok((_, engine)) => Ok(engine),
                Err(error) => Err(error),
            },
        ),
{
    let outcome = match made.1 {
        Ok((_, engine)) => Ok::<S, CodecError>(engine),
        Err(error) => Err(error),
    };
    lemma_is_encoder_opening(config, library, create, tune, made.0, outcome);
}

/// What opening an encoder gives comes from making and tuning it.
pub proof fn lemma_is_encoder_opening<
    L,
    S,
    O: Fn(L, u32, ChannelLayout, ApplicationMode) -> (L, Result<S, OpusFault>),
    T: Fn(S, EncoderSetting) -> (S, Result<(), OpusFault>),
>(
    config: CodecConfig,
    library: L,
    create: O,
    tune: T,
    after: L,
    made: Result<S, CodecError>,
)
    requires
        is_usable(config),
        codec::encoder_opened(config, library, create, tune, after, made),
    ensures
        is_encoder_opening(config, library, create, tune, after, made),
{
    let layout = codec::layout_of(config);
    let created = choose|created: Result<S, OpusFault>| #[trigger]
        call_ensures(
            create,
            (library, config.sample_rate, layout, ApplicationMode::Voip),
            (after, created),
        ) && match created {
            Err(fault) => made == Err::<S, CodecError>(CodecError::Encode(fault)),
            Ok(engine) => exists|calls: framing::Calls<S, (), OpusFault>| #[trigger]
                calls.is_run(engine, codec::tuning(config), codec::tuning_call(tune)) && made == (
                if framing::failed(calls.answers) {
                    Err::<S, CodecError>(CodecError::Encode(calls.answers.last()->Err_0))
                } else {
                    Ok(calls.end())
                }),
        };
    assert(tunes(config, codec::tuning(config)));
    if let Ok(engine) = created {
        let calls = choose|calls: framing::Calls<S, (), OpusFault>| #[trigger]
            calls.is_run(engine, codec::tuning(config), codec::tuning_call(tune)) && made == (
            if framing::failed(calls.answers) {
                Err::<S, CodecError>(CodecError::Encode(calls.answers.last()->Err_0))
            } else {
                Ok(calls.end())
            });
        calls.law_run_makes_one_call_per_input(
            engine,
            codec::tuning(config),
            codec::tuning_call(tune),
        );
        lemma_is_tuning(tune, engine, codec::tuning(config), calls);
        assert(is_tuning(tune, engine, codec::tuning(config), calls));
    }
}

/// Whether settings were applied to an engine one after the other, each once and
/// each to what the one before it left, up to the first that failed.
pub open spec fn is_tuning<S, T: Fn(S, EncoderSetting) -> (S, Result<(), OpusFault>)>(
    tune: T,
    engine: S,
    settings: Seq<EncoderSetting>,
    calls: framing::Calls<S, (), OpusFault>,
) -> bool {
    &&& calls.answers.len() <= settings.len()
    &&& calls.states.len() == calls.answers.len() + 1
    &&& calls.states[0] == engine
    &&& forall|i: int|
        0 <= i < calls.answers.len() ==> call_ensures(
            tune,
            (calls.states[i], #[trigger] settings[i]),
            (calls.states[i + 1], calls.answers[i]),
        )
    &&& forall|i: int| 0 <= i < calls.answers.len() - 1 ==> (#[trigger] calls.answers[i]) is Ok
}

/// A run of tuning calls applies the settings one after the other.
proof fn lemma_is_tuning<S, T: Fn(S, EncoderSetting) -> (S, Result<(), OpusFault>)>(
    tune: T,
    engine: S,
    settings: Seq<EncoderSetting>,
    calls: framing::Calls<S, (), OpusFault>,
)
    requires
        calls.is_run(engine, settings, codec::tuning_call(tune)),
    ensures
        is_tuning(tune, engine, settings, calls),
{
    assert forall|i: int| 0 <= i < calls.answers.len() implies call_ensures(
        tune,
        (calls.states[i], #[trigger] settings[i]),
        (calls.states[i + 1], calls.answers[i]),
    ) by {
        assert(codec::tuning_call(tune)(
            calls.states[i],
            settings[i],
            calls.states[i + 1],
            calls.answers[i],
        ));
    }
}

/// Opening a codec on an unusable configuration leaves the library alone.
pub proof fn law_unusable_configuration_opens_nothing<
    L,
    S,
    D,
    O: Fn(L, u32, ChannelLayout, ApplicationMode) -> (L, Result<S, OpusFault>),
    T: Fn(S, EncoderSetting) -> (S, Result<(), OpusFault>),
    P: Fn(L, u32, ChannelLayout) -> (L, Result<D, OpusFault>),
>(
    config: CodecConfig,
    library: L,
    create: O,
    tune: T,
    create_decoder: P,
    encoder: (L, Result<(OpusEncoder, S), CodecError>),
    decoder: (L, Result<(OpusDecoder, D), CodecError>),
)
    requires
        !is_usable(config),
        call_ensures(
            OpusEncoder::open::<L, S, O, T>,
            (config, library, &create, &tune),
            encoder,
        ),
        call_ensures(
            OpusDecoder::open::<L, D, P>,
            (config, library, &create_decoder),
            decoder,
        ),
    ensures
        encoder.0 == library,
        decoder.0 == library,
        encoder.1 matches Err(CodecError::InvalidConfig(_)),
        decoder.1 matches Err(CodecError::InvalidConfig(_)),
{
}

/// Whether a decoder was opened: the library is asked for one decoder with the
/// configured rate and channels, which is given back as it was made. A failure is
/// reported as an unusable configuration, with its function and description.
pub open spec fn is_decoder_opening<
    L,
    S,
    O: Fn(L, u32, ChannelLayout) -> (L, Result<S, OpusFault>),
>(config: CodecConfig, library: L, create: O, after: L, made: Result<S, CodecError>) -> bool {
    exists|created: Result<S, OpusFault>, layout: ChannelLayout| #[trigger]
        call_ensures(create, (library, config.sample_rate, layout), (after, created)) && (
        layout is Stereo <==> config.channels == 2) && match created {
            Ok(engine) => made == Ok::<S, CodecError>(engine),
            Err(fault) => made matches Err(CodecError::InvalidConfig(text)) && text@
                == "failed to create opus decoder: "@ + fault.function@ + ": "@
                + fault.description@,
        }
}

/// Opening a decoder on a usable configuration makes it.
pub proof fn law_opening_a_decoder_makes_it<
    L,
    S,
    O: Fn(L, u32, ChannelLayout) -> (L, Result<S, OpusFault>),
>(
    config: CodecConfig,
    library: L,
    create: O,
    made: (L, Result<(OpusDecoder, S), CodecError>),
)
    requires
        is_usable(config),
        call_ensures(OpusDecoder::open::<L, S, O>, (config, library, &create), made),
    ensures
        made.1 matches Ok((decoder, _)) ==> decoder@ == config && decoder.wf(),
        is_decoder_opening(
            config,
            library,
            create,
            made.0,
            match made.1 {
                Ok((_, engine)) => Ok(engine),
                Err(error) => Err(error),
            },
        ),
{
    let outcome = match made.1 {
        Ok((_, engine)) => Ok::<S, CodecError>(engine),
        Err(error) => Err(error),
    };
    lemma_is_decoder_opening(config, library, create, made.0, outcome);
}

/// What opening a decoder gives comes from making it.
pub proof fn lemma_is_decoder_opening<
    L,
    S,
    O: Fn(L, u32, ChannelLayout) -> (L, Result<S, OpusFault>),
>(config: CodecConfig, library: L, create: O, after: L, made: Result<S, CodecError>)
    requires
        is_usable(config),
        codec::decoder_opened(config, library, create, after, made),
    ensures
        is_decoder_opening(config, library, create, after, made),
{
    let layout = codec::layout_of(config);
    let created = choose|created: Result<S, OpusFault>| #[trigger]
        call_ensures(create, (library, config.sample_rate, layout), (after, created))
            && match created {
            Ok(engine) => made == Ok::<S, CodecError>(engine),
            Err(fault) => made matches Err(CodecError::InvalidConfig(found)) && found@
                == "failed to create opus decoder: "@ + fault.message(),
        };
    if let Err(fault) = created {
        assert("failed to create opus decoder: "@ + fault.message()
            =~= "failed to create opus decoder: "@ + fault.function@ + ": "@
            + fault.description@);
    }
}

/// PCM of exactly one frame goes to the encoder in one call that allows packets
/// of up to 1275 bytes, and its packet or failure is the result. PCM of any other
/// length is refused without a call.
pub proof fn law_one_frame_is_one_encoder_call<
    S,
    F: Fn(S, &[i16], usize) -> (S, Result<Vec<u8>, EncodeFault>),
>(
    encoder: OpusEncoder,
    pcm: &[i16],
    engine: S,
    encode: F,
    packet: (S, Result<Vec<u8>, CodecError>),
)
    requires
        encoder.wf(),
        is_usable(encoder@),
        call_ensures(OpusEncoder::encode::<S, F>, (&encoder, pcm, engine, &encode), packet),
    ensures
        ({
            let total = encoder@.frame_size_us * encoder@.sample_rate * encoder@.channels;
            if pcm@.len() * 1_000_000 == total {
                exists|answer: Result<Vec<u8>, EncodeFault>| #[trigger]
                    call_ensures(encode, (engine, pcm, 1275usize), (packet.0, answer))
                        && match answer {
                        Ok(bytes) => packet.1 == Ok::<Vec<u8>, CodecError>(bytes),
                        Err(EncodeFault::Rejected(fault)) => packet.1 == Err::<
                            Vec<u8>,
                            CodecError,
                        >(CodecError::Encode(fault)),
                        Err(EncodeFault::Poisoned) => packet.1 == Err::<Vec<u8>, CodecError>(
                            CodecError::Poisoned,
                        ),
                    }
            } else {
                &&& packet.0 == engine
                &&& packet.1 matches Err(
                    CodecError::FrameSizeMismatch { actual, expected, channels },
                )
                &&& actual == pcm@.len()
                &&& expected * 1_000_000 == total
                &&& channels == encoder@.channels
            }
        }),
{
    lemma_exact_frames(encoder@);
    encoder@.lemma_frame_samples();
    assert(pcm.len() == pcm@.len());
    if pcm@.len() == encoder@.frame_samples() {
        let answer = choose|answer: Result<Vec<u8>, EncodeFault>| #[trigger]
            call_ensures(
                encode,
                (engine, pcm, codec::MAX_PACKET_SIZE),
                (packet.0, answer),
            ) && packet.1 == (match answer {
                Ok(bytes) => Ok::<Vec<u8>, CodecError>(bytes),
                Err(fault) => Err(codec::encode_error(fault)),
            });
        assert(call_ensures(encode, (engine, pcm, 1275usize), (packet.0, answer)));
    }
}

/// Whether a PCM buffer of whole frames of `size` samples, the last one filled up
/// with silence, went to an encoder frame by frame: one call for each frame, each
/// on what the one before it left, allowing packets of up to 1275 bytes, up to the
/// first failure.
pub open spec fn is_encoding<S, F: Fn(S, &[i16], usize) -> (S, Result<Vec<u8>, EncodeFault>)>(
    encode: F,
    engine: S,
    pcm: Seq<i16>,
    size: nat,
    calls: framing::Calls<S, Seq<u8>, EncodeFault>,
) -> bool {
    let made = calls.answers.len();
    &&& calls.states.len() == made + 1
    &&& calls.states[0] == engine
    &&& made > 0 ==> (made - 1) * size < pcm.len()
    &&& forall|i: int| 0 <= i < made - 1 ==> (#[trigger] calls.answers[i]) is Ok
    &&& made * size < pcm.len() ==> made > 0 && calls.answers.last() is Err
    &&& forall|i: int|
        0 <= i < made ==> is_frame_call(
            encode,
            calls.states[i],
            pcm,
            i * size,
            size,
            calls.states[i + 1],
            #[trigger] calls.answers[i],
        )
}

/// Whether one encoder call was made on the samples from a position on, filled up
/// with silence to a frame.
pub open spec fn is_frame_call<S, F: Fn(S, &[i16], usize) -> (S, Result<Vec<u8>, EncodeFault>)>(
    encode: F,
    before: S,
    pcm: Seq<i16>,
    start: int,
    size: nat,
    after: S,
    answer: Result<Seq<u8>, EncodeFault>,
) -> bool {
    exists|frame: &[i16], packet: Result<Vec<u8>, EncodeFault>| #[trigger]
        call_ensures(encode, (before, frame, 1275usize), (after, packet)) && frame@.len() == size
            && (forall|j: int|
            0 <= j < size ==> #[trigger] frame@[j] == if start + j < pcm.len() {
                pcm[start + j]
            } else {
                0
            }) && match packet {
            Ok(bytes) => answer == Ok::<Seq<u8>, EncodeFault>(bytes@),
            Err(fault) => answer == Err::<Seq<u8>, EncodeFault>(fault),
        }
}

/// A PCM buffer is encoded frame by frame, and the packets of the frames before
/// the first failure are appended in order.
pub proof fn law_buffer_is_encoded_frame_by_frame<
    S,
    F: Fn(S, &[i16], usize) -> (S, Result<Vec<u8>, EncodeFault>),
>(
    encoder: OpusEncoder,
    pcm: &[i16],
    packets: &mut Vec<Vec<u8>>,
    engine: S,
    encode: F,
    done: (S, Result<(), CodecError>),
    size: nat,
)
    requires
        encoder.wf(),
        is_usable(encoder@),
        size * 1_000_000 == encoder@.frame_size_us * encoder@.sample_rate * encoder@.channels,
        call_ensures(
            OpusEncoder::encode_frames_into::<S, F>,
            (&encoder, pcm, packets, engine, &encode),
            done,
        ),
    ensures
        exists|calls: framing::Calls<S, Seq<u8>, EncodeFault>| #[trigger]
            is_encoding(encode, engine, pcm@, size, calls) && done.0 == calls.states.last() && {
                let failed = calls.answers.len() > 0 && calls.answers.last() is Err;
                let good = if failed {
                    calls.answers.len() - 1
                } else {
                    calls.answers.len() as int
                };
                &&& final(packets)@.len() == old(packets)@.len() + good
                &&& forall|i: int|
                    0 <= i < old(packets)@.len() ==> (#[trigger] final(packets)@[i])@ == old(
                        packets,
                    )@[i]@
                &&& forall|i: int|
                    0 <= i < good ==> calls.answers[i] == Ok::<Seq<u8>, EncodeFault>(
                        (#[trigger] final(packets)@[old(packets)@.len() + i])@,
                    )
                &&& done.1 is Ok <==> !failed
                &&& done.1 matches Err(error) ==> match calls.answers.last() {
                    Ok(_) => false,
                    Err(EncodeFault::Rejected(fault)) => error == CodecError::Encode(fault),
                    Err(EncodeFault::Poisoned) => error == CodecError::Poisoned,
                }
            },
{
    lemma_exact_frames(encoder@);
    encoder@.lemma_frame_samples();
    let before = codec::packet_bytes(old(packets)@);
    let after = codec::packet_bytes(final(packets)@);
    let calls = choose|calls: framing::Calls<S, Seq<u8>, EncodeFault>| #[trigger]
        calls.is_run(
            engine,
            codec::encoder_frames(encoder@, pcm@),
            codec::encoding(encode),
        ) && calls.end() == done.0 && codec::encoded(before, calls.answers) == (after, done.1);
    assert(size == encoder@.frame_samples());
    lemma_is_encoding(encoder@, encode, engine, pcm@, calls);
    let failed = calls.answers.len() > 0 && calls.answers.last() is Err;
    let good = if failed {
        calls.answers.len() - 1
    } else {
        calls.answers.len() as int
    };
    assert(after.len() == before.len() + good);
    assert(after.len() == final(packets)@.len());
    assert forall|i: int| 0 <= i < old(packets)@.len() implies (
    #[trigger] final(packets)@[i])@ == old(packets)@[i]@ by {
        assert(before[i] == old(packets)@[i]@);
        assert(after[i] == before[i]);
        assert(after[i] == final(packets)@[i]@);
    }
    assert forall|i: int| 0 <= i < good implies calls.answers[i] == Ok::<Seq<u8>, EncodeFault>(
        (#[trigger] final(packets)@[old(packets)@.len() + i])@,
    ) by {
        assert(after[before.len() + i] == calls.answers[i]->Ok_0);
        if i == calls.answers.len() - 1 {
            assert(calls.answers.last() == calls.answers[i]);
        }
    }
}

/// A run of encoder calls goes through the buffer frame by frame.
pub proof fn lemma_is_encoding<S, F: Fn(S, &[i16], usize) -> (S, Result<Vec<u8>, EncodeFault>)>(
    config: CodecConfig,
    encode: F,
    engine: S,
    pcm: Seq<i16>,
    calls: framing::Calls<S, Seq<u8>, EncodeFault>,
)
    requires
        config.is_valid(),
        calls.is_run(engine, codec::encoder_frames(config, pcm), codec::encoding(encode)),
    ensures
        is_encoding(encode, engine, pcm, config.frame_samples(), calls),
{
    let size = config.frame_samples();
    let all = framing::padded(pcm, size);
    let frames = codec::encoder_frames(config, pcm);
    let made = calls.answers.len() as int;
    config.lemma_frame_samples();
    framing::lemma_padded_len(pcm, size);
    framing::lemma_whole(all.len(), size);
    assert(frames.len() * size == all.len());
    assert(made * size <= frames.len() * size) by (nonlinear_arith)
        requires
            made <= frames.len(),
            size > 0,
    ;
    assert((made - 1) * size == made * size - size) by (nonlinear_arith);
    if made == frames.len() {
    } else {
        assert(made * size + size <= frames.len() * size) by (nonlinear_arith)
            requires
                made + 1 <= frames.len(),
                size > 0,
        ;
    }
    assert forall|i: int| 0 <= i < made implies is_frame_call(
        encode,
        calls.states[i],
        pcm,
        i * size,
        size,
        calls.states[i + 1],
        #[trigger] calls.answers[i],
    ) by {
        let part = frames[i];
        assert(codec::encoding(encode)(
            calls.states[i],
            part,
            calls.states[i + 1],
            calls.answers[i],
        ));
        assert(codec::encodes(
            encode,
            calls.states[i],
            part,
            calls.states[i + 1],
            calls.answers[i],
        ));
        assert(0 <= i * size && i * size + size <= frames.len() * size) by (nonlinear_arith)
            requires
                0 <= i,
                i + 1 <= frames.len(),
                size > 0,
        ;
        let (frame, packet) = choose|frame: &[i16], packet: Result<Vec<u8>, EncodeFault>|
            frame@ == part && #[trigger] call_ensures(
                encode,
                (calls.states[i], frame, codec::MAX_PACKET_SIZE),
                (calls.states[i + 1], packet),
            ) && calls.answers[i] == (match packet {
                Ok(bytes) => Ok::<Seq<u8>, EncodeFault>(bytes@),
                Err(fault) => Err(fault),
            });
        assert(call_ensures(
            encode,
            (calls.states[i], frame, 1275usize),
            (calls.states[i + 1], packet),
        ));
        assert(part == all.subrange(i * size, i * size + size));
    }
}

/// Encoding into new packets is encoding into an empty list.
pub proof fn law_encoding_into_new_packets_starts_an_empty_list<
    S,
    F: Fn(S, &[i16], usize) -> (S, Result<Vec<u8>, EncodeFault>),
>(
    encoder: OpusEncoder,
    pcm: &[i16],
    engine: S,
    encode: F,
    packets: (S, Result<Vec<Vec<u8>>, CodecError>),
    size: nat,
)
    requires
        encoder.wf(),
        is_usable(encoder@),
        size * 1_000_000 == encoder@.frame_size_us * encoder@.sample_rate * encoder@.channels,
        call_ensures(
            OpusEncoder::encode_frames::<S, F>,
            (&encoder, pcm, engine, &encode),
            packets,
        ),
    ensures
        exists|calls: framing::Calls<S, Seq<u8>, EncodeFault>| #[trigger]
            is_encoding(encode, engine, pcm@, size, calls) && packets.0 == calls.states.last()
                && match packets.1 {
                Ok(made) => {
                    &&& made@.len() == calls.answers.len()
                    &&& forall|i: int|
                        0 <= i < made@.len() ==> calls.answers[i] == Ok::<Seq<u8>, EncodeFault>(
                            (#[trigger] made@[i])@,
                        )
                },
                Err(error) => calls.answers.len() > 0 && match calls.answers.last() {
                    Ok(_) => false,
                    Err(EncodeFault::Rejected(fault)) => error == CodecError::Encode(fault),
                    Err(EncodeFault::Poisoned) => error == CodecError::Poisoned,
                },
            },
{
    lemma_exact_frames(encoder@);
    encoder@.lemma_frame_samples();
    assert(size == encoder@.frame_samples());
    let calls = choose|calls: framing::Calls<S, Seq<u8>, EncodeFault>| #[trigger]
        calls.is_run(
            engine,
            codec::encoder_frames(encoder@, pcm@),
            codec::encoding(encode),
        ) && calls.end() == packets.0 && match packets.1 {
            Ok(packets) => !framing::failed(calls.answers) && codec::packet_bytes(packets@)
                == framing::results(calls.answers),
            Err(error) => framing::failed(calls.answers) && error == codec::encode_error(
                calls.answers.last()->Err_0,
            ),
        };
    lemma_is_encoding(encoder@, encode, engine, pcm@, calls);
    if let Ok(made) = packets.1 {
        let bytes = codec::packet_bytes(made@);
        assert(bytes.len() == calls.answers.len());
        assert forall|i: int| 0 <= i < made@.len() implies calls.answers[i] == Ok::<
            Seq<u8>,
            EncodeFault,
        >((#[trigger] made@[i])@) by {
            assert(bytes[i] == framing::results(calls.answers)[i]);
            if i == calls.answers.len() - 1 {
                assert(calls.answers.last() == calls.answers[i]);
            }
        }
    }
}

/// Whether one decoder call was made on a whole packet, with a silent buffer for
/// `room` samples of each channel, and its output taken up to what the decoder
/// says that it wrote.
pub open spec fn is_decoder_call<
    S,
    F: Fn(S, &[u8], Vec<i16>, bool) -> (S, Result<(Vec<i16>, usize), OpusFault>),
>(
    decode: F,
    before: S,
    packet: &[u8],
    room: int,
    channels: int,
    fec: bool,
    after: S,
    pcm: Result<Vec<i16>, CodecError>,
) -> bool {
    exists|buffer: Vec<i16>, answer: Result<(Vec<i16>, usize), OpusFault>| #[trigger]
        call_ensures(decode, (before, packet, buffer, fec), (after, answer)) && buffer@.len()
            == room * channels && (forall|i: int|
            0 <= i < buffer@.len() ==> #[trigger] buffer@[i] == 0) && match answer {
            Ok((filled, count)) => {
                &&& pcm matches Ok(samples)
                &&& samples@.len() == if count * channels <= filled@.len() {
                    count * channels
                } else {
                    filled@.len() as int
                }
                &&& forall|i: int|
                    0 <= i < samples@.len() ==> #[trigger] samples@[i] == filled@[i]
            },
            Err(fault) => pcm == Err::<Vec<i16>, CodecError>(CodecError::Decode(fault)),
        }
}

/// Whether decoding a packet, or reconstructing the frame before it, asked the
/// engine no more than needed: an empty packet is decoded as one configured frame
/// of `frame` samples for each channel; any other packet is asked how long it is
/// and decoded as that long.
pub open spec fn is_decoding<
    S,
    N: Fn(S, &[u8]) -> (S, Result<usize, OpusFault>),
    F: Fn(S, &[u8], Vec<i16>, bool) -> (S, Result<(Vec<i16>, usize), OpusFault>),
>(
    duration: N,
    decode: F,
    before: S,
    packet: &[u8],
    frame: int,
    channels: int,
    fec: bool,
    after: S,
    pcm: Result<Vec<i16>, CodecError>,
) -> bool {
    if packet@.len() == 0 {
        is_decoder_call(decode, before, packet, frame, channels, fec, after, pcm)
    } else {
        exists|between: S, length: Result<usize, OpusFault>| #[trigger]
            call_ensures(duration, (before, packet), (between, length)) && match length {
                Ok(count) => is_decoder_call(
                    decode,
                    between,
                    packet,
                    count as int,
                    channels,
                    fec,
                    after,
                    pcm,
                ),
                Err(fault) => after == between && pcm == Err::<Vec<i16>, CodecError>(
                    CodecError::Decode(fault),
                ),
            }
    }
}

/// Decoding hands the whole packet to the engine without error correction;
/// reconstructing hands it over with error correction.
pub proof fn law_packet_is_decoded_whole<
    S,
    N: Fn(S, &[u8]) -> (S, Result<usize, OpusFault>),
    F: Fn(S, &[u8], Vec<i16>, bool) -> (S, Result<(Vec<i16>, usize), OpusFault>),
>(
    decoder: OpusDecoder,
    packet: &[u8],
    engine: S,
    duration: N,
    decode: F,
    plain: (S, Result<Vec<i16>, CodecError>),
    recovered: (S, Result<Vec<i16>, CodecError>),
    frame: int,
)
    requires
        decoder.wf(),
        is_usable(decoder@),
        frame * 1_000_000 == decoder@.frame_size_us * decoder@.sample_rate,
        call_ensures(
            OpusDecoder::decode::<S, N, F>,
            (&decoder, packet, engine, &duration, &decode),
            plain,
        ),
        call_ensures(
            OpusDecoder::decode_fec::<S, N, F>,
            (&decoder, packet, engine, &duration, &decode),
            recovered,
        ),
    ensures
        is_decoding(
            duration,
            decode,
            engine,
            packet,
            frame,
            decoder@.channels as int,
            false,
            plain.0,
            plain.1,
        ),
        is_decoding(
            duration,
            decode,
            engine,
            packet,
            frame,
            decoder@.channels as int,
            true,
            recovered.0,
            recovered.1,
        ),
{
    lemma_exact_frames(decoder@);
    lemma_is_decoding(decoder@, packet, false, engine, duration, decode, plain.0, plain.1);
    lemma_is_decoding(decoder@, packet, true, engine, duration, decode, recovered.0, recovered.1);
}

/// What decoding gives comes from calls on the whole packet.
pub proof fn lemma_is_decoding<
    S,
    N: Fn(S, &[u8]) -> (S, Result<usize, OpusFault>),
    F: Fn(S, &[u8], Vec<i16>, bool) -> (S, Result<(Vec<i16>, usize), OpusFault>),
>(
    config: CodecConfig,
    packet: &[u8],
    fec: bool,
    before: S,
    duration: N,
    decode: F,
    after: S,
    pcm: Result<Vec<i16>, CodecError>,
)
    requires
        codec::decoded(
            config,
            packet,
            fec,
            before,
            duration,
            decode,
            after,
            codec::pcm_samples(pcm),
        ),
    ensures
        is_decoding(
            duration,
            decode,
            before,
            packet,
            config.channel_samples() as int,
            config.channels as int,
            fec,
            after,
            pcm,
        ),
{
    let channels = config.channels;
    if packet@.len() == 0 {
        lemma_is_decoder_call(
            decode,
            before,
            packet,
            config.channel_samples(),
            fec,
            channels,
            after,
            pcm,
        );
    } else {
        let (between, length) = choose|between: S, length: Result<usize, OpusFault>| #[trigger]
            call_ensures(duration, (before, packet), (between, length)) && match length {
                Ok(count) => codec::decodes(
                    decode,
                    between,
                    packet,
                    count as nat,
                    fec,
                    channels,
                    after,
                    codec::pcm_samples(pcm),
                ),
                Err(fault) => after == between && codec::pcm_samples(pcm) == Err::<
                    Seq<i16>,
                    CodecError,
                >(CodecError::Decode(fault)),
            };
        if let Ok(count) = length {
            lemma_is_decoder_call(
                decode,
                between,
                packet,
                count as nat,
                fec,
                channels,
                after,
                pcm,
            );
        }
    }
}

/// A decoder call starts from a silent buffer and keeps what was written.
proof fn lemma_is_decoder_call<
    S,
    F: Fn(S, &[u8], Vec<i16>, bool) -> (S, Result<(Vec<i16>, usize), OpusFault>),
>(
    decode: F,
    before: S,
    packet: &[u8],
    room: nat,
    fec: bool,
    channels: u8,
    after: S,
    pcm: Result<Vec<i16>, CodecError>,
)
    requires
        codec::decodes(
            decode,
            before,
            packet,
            room,
            fec,
            channels,
            after,
            codec::pcm_samples(pcm),
        ),
    ensures
        is_decoder_call(
            decode,
            before,
            packet,
            room as int,
            channels as int,
            fec,
            after,
            pcm,
        ),
{
    let (buffer, answer) = choose|buffer: Vec<i16>, answer: Result<(Vec<i16>, usize), OpusFault>|
        buffer@ == framing::silence(room * channels as nat) && #[trigger] call_ensures(
            decode,
            (before, packet, buffer, fec),
            (after, answer),
        ) && codec::pcm_samples(pcm) == (match answer {
            Ok((filled, count)) => Ok::<Seq<i16>, CodecError>(
                codec::written(filled@, count, channels),
            ),
            Err(fault) => Err(CodecError::Decode(fault)),
        });
    assert(buffer@.len() == room * channels);
    if let Ok((filled, count)) = answer {
        assert(count * channels >= 0) by (nonlinear_arith)
            requires
                count >= 0,
                channels >= 0,
        ;
    }
}

/// Frames of usable configurations are whole numbers of samples.
pub proof fn lemma_exact_frames(config: CodecConfig)
    requires
        is_usable(config),
    ensures
        config.channel_samples() * 1_000_000 == config.frame_size_us * config.sample_rate,
        config.frame_samples() * 1_000_000 == config.frame_size_us * config.sample_rate
            * config.channels,
{
    let steps = (config.frame_size_us / 500) as int;
    let pace = (config.sample_rate / 2_000) as int;
    let product = config.frame_size_us as int * config.sample_rate as int;
    assert(product == 1_000_000 * (steps * pace)) by (nonlinear_arith)
        requires
            product == config.frame_size_us as int * config.sample_rate as int,
            config.frame_size_us == 500 * steps,
            config.sample_rate == 2_000 * pace,
    ;
    let samples = config.channel_samples() as int;
    assert(samples * 1_000_000 == product);
    let channels = config.channels as int;
    assert(samples * channels * 1_000_000 == product * channels) by (nonlinear_arith)
        requires
            samples * 1_000_000 == product,
    ;
}

/// The default settings are usable: speech at 24 kbit/s in frames of 20 ms.
pub proof fn law_default_settings_are_usable(
    config: CodecConfig,
    checked: Result<(), CodecError>,
    count: usize,
)
    requires
        call_ensures(<CodecConfig as Default>::default, (), config),
        call_ensures(CodecConfig::validate, (&config,), checked),
        call_ensures(CodecConfig::samples_per_frame, (&config,), count),
    ensures
        is_usable(config),
        checked is Ok,
        count == 960,
        config.sample_rate == 48_000,
        config.channels == 1,
        config.bitrate == 24_000,
        config.frame_size_us == 20_000,
        config.use_dtx,
        config.use_fec,
        config.complexity == 0,
{
}

} // verus!
