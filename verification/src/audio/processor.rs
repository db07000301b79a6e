//! Framing and configuration rules of microphone audio processing.
//!
//! The processing engine works at 48 kHz on frames of exactly 10 ms. It is handed
//! in together with the calls on it, each of which takes the engine and gives it
//! back in its next state. This module adapts arbitrary chunks of 16-bit samples
//! to the engine's frames: incomplete frames wait for a later chunk, and
//! processed samples that do not fit into the current chunk are delivered at
//! the front of the next one. The processed stream is an in-order, one-to-one
//! transform of the input stream.

use vstd::prelude::*;

use crate::audio::framing;

verus! {

/// Samples per engine frame: 10 ms at 48 kHz, mono.
pub const FRAME_SAMPLES: usize = 480;

/// Fixed sample rate of the engine in Hz.
pub const SAMPLE_RATE_HZ: u32 = 48_000;

/// Failure that the processing engine reports.
#[derive(Debug, PartialEq, Eq)]
pub struct EngineFault {
    /// What the engine says about the failure.
    pub description: String,
}

/// Errors produced by the audio processor.
#[derive(Debug, PartialEq, Eq)]
pub enum ProcessorError {
    /// The engine rejected its configuration.
    Config(EngineFault),
    /// The engine rejected a capture or render frame.
    Process(EngineFault),
}

/// Strength of noise suppression.
#[derive(Debug, Clone, Copy, PartialEq, Eq)]
pub enum NoiseSuppressionLevel {
    /// Lower suppression.
    Low,
    /// Moderate suppression.
    Moderate,
    /// Higher suppression.
    High,
    /// Even higher suppression.
    VeryHigh,
}

/// Strength of echo suppression.
#[derive(Debug, Clone, Copy, PartialEq, Eq)]
pub enum EchoCancellationSuppressionLevel {
    /// Lowest suppression.
    Lowest,
    /// Lower suppression.
    Lower,
    /// Low suppression.
    Low,
    /// Moderate suppression.
    Moderate,
    /// High suppression.
    High,
}

/// Mode of gain control.
#[derive(Debug, Clone, Copy, PartialEq, Eq)]
pub enum GainControlMode {
    /// Adapt the gain to the signal.
    AdaptiveDigital,
    /// Apply a fixed gain.
    FixedDigital,
}

/// Sensitivity of voice detection.
#[derive(Debug, Clone, Copy, PartialEq, Eq)]
pub enum VoiceDetectionLikelihood {
    /// Very low likelihood.
    VeryLow,
    /// Low likelihood.
    Low,
    /// Moderate likelihood.
    Moderate,
    /// High likelihood.
    High,
}

/// Engine settings for echo cancellation.
#[derive(Debug, Clone, Copy, PartialEq, Eq)]
pub struct EchoCancellation {
    /// Aggressiveness of the suppressor.
    pub suppression_level: EchoCancellationSuppressionLevel,
    /// Use the extended filter mode.
    pub enable_extended_filter: bool,
    /// Estimate the delay between playback and capture.
    pub enable_delay_agnostic: bool,
    /// Known delay between playback and capture.
    pub stream_delay_ms: Option<i32>,
}

/// Engine settings for gain control.
#[derive(Debug, Clone, Copy, PartialEq, Eq)]
pub struct GainControl {
    /// Type of gain control.
    pub mode: GainControlMode,
    /// Target level below full scale, as a positive number of decibels.
    pub target_level_dbfs: i32,
    /// Largest gain of the compression stage in decibels.
    pub compression_gain_db: i32,
    /// Limit the signal to the target level.
    pub enable_limiter: bool,
}

/// Engine settings for noise suppression.
#[derive(Debug, Clone, Copy, PartialEq, Eq)]
pub struct NoiseSuppression {
    /// Aggressiveness of the suppression.
    pub suppression_level: NoiseSuppressionLevel,
}

/// Engine settings for voice detection.
#[derive(Debug, Clone, Copy, PartialEq, Eq)]
pub struct VoiceDetection {
    /// Likelihood that a frame is declared to contain voice.
    pub detection_likelihood: VoiceDetectionLikelihood,
}

/// Settings that an engine runs with; an absent part is switched off.
#[derive(Debug, Clone, Copy, PartialEq, Eq)]
pub struct EngineConfig {
    /// Echo cancellation.
    pub echo_cancellation: Option<EchoCancellation>,
    /// Gain control.
    pub gain_control: Option<GainControl>,
    /// Noise suppression.
    pub noise_suppression: Option<NoiseSuppression>,
    /// Voice detection.
    pub voice_detection: Option<VoiceDetection>,
    /// Suppress transient noise.
    pub enable_transient_suppressor: bool,
    /// Remove DC offset and low-frequency noise.
    pub enable_high_pass_filter: bool,
}

/// Parameters that an engine is created with.
#[derive(Debug, Clone, Copy, PartialEq, Eq)]
pub struct EngineInit {
    /// Microphone channels.
    pub num_capture_channels: i32,
    /// Playback channels.
    pub num_render_channels: i32,
    /// Use the experimental gain control.
    pub enable_experimental_agc: bool,
    /// Use the intelligibility enhancer.
    pub enable_intelligibility_enhancer: bool,
}

/// Tuning of the microphone path, by default with everything switched on.
#[derive(Debug, Clone, Copy, PartialEq, Eq)]
pub struct ProcessorConfig {
    /// Acoustic echo cancellation.
    pub enable_aec: bool,
    /// Noise suppression.
    pub enable_ns: bool,
    /// Automatic gain control.
    pub enable_agc: bool,
    /// Voice activity detection.
    pub enable_vad: bool,
    /// Gain control target below full scale, as a positive number of decibels.
    pub agc_target_level_dbfs: i32,
    /// Largest gain that gain control applies, in decibels.
    pub agc_compression_gain_db: i32,
    /// Noise suppression strength.
    pub ns_level: NoiseSuppressionLevel,
    /// Echo suppression strength.
    pub aec_suppression: EchoCancellationSuppressionLevel,
}

impl ProcessorConfig {
    /// Engine settings of this configuration.
    pub open spec fn engine_config(self) -> EngineConfig {
        EngineConfig {
            echo_cancellation: if self.enable_aec {
                Some(
                    EchoCancellation {
                        suppression_level: self.aec_suppression,
                        enable_extended_filter: true,
                        enable_delay_agnostic: true,
                        stream_delay_ms: None,
                    },
                )
            } else {
                None
            },
            gain_control: if self.enable_agc {
                Some(
                    GainControl {
                        mode: GainControlMode::AdaptiveDigital,
                        target_level_dbfs: self.agc_target_level_dbfs,
                        compression_gain_db: self.agc_compression_gain_db,
                        enable_limiter: true,
                    },
                )
            } else {
                None
            },
            noise_suppression: if self.enable_ns {
                Some(NoiseSuppression { suppression_level: self.ns_level })
            } else {
                None
            },
            voice_detection: if self.enable_vad {
                Some(VoiceDetection { detection_likelihood: VoiceDetectionLikelihood::Low })
            } else {
                None
            },
            enable_transient_suppressor: false,
            enable_high_pass_filter: true,
        }
    }

    /// Parameters that the engine of this configuration is created with: one
    /// channel each way.
    pub open spec fn engine_init(self) -> EngineInit {
        EngineInit {
            num_capture_channels: 1,
            num_render_channels: 1,
            enable_experimental_agc: self.enable_agc,
            enable_intelligibility_enhancer: false,
        }
    }

    /// Engine settings of this configuration, with only the requested parts.
    pub fn to_engine_config(&self) -> (engine: EngineConfig)
        ensures
            engine == self.engine_config(),
    {
        let echo_cancellation = if self.enable_aec {
            Some(
                EchoCancellation {
                    suppression_level: self.aec_suppression,
                    enable_extended_filter: true,
                    enable_delay_agnostic: true,
                    stream_delay_ms: None,
                },
            )
        } else {
            None
        };
        let gain_control = if self.enable_agc {
            Some(
                GainControl {
                    mode: GainControlMode::AdaptiveDigital,
                    target_level_dbfs: self.agc_target_level_dbfs,
                    compression_gain_db: self.agc_compression_gain_db,
                    enable_limiter: true,
                },
            )
        } else {
            None
        };
        let noise_suppression = if self.enable_ns {
            Some(NoiseSuppression { suppression_level: self.ns_level })
        } else {
            None
        };
        let voice_detection = if self.enable_vad {
            Some(VoiceDetection { detection_likelihood: VoiceDetectionLikelihood::Low })
        } else {
            None
        };
        EngineConfig {
            echo_cancellation,
            gain_control,
            noise_suppression,
            voice_detection,
            enable_transient_suppressor: false,
            enable_high_pass_filter: true,
        }
    }

    /// Parameters that the engine of this configuration is created with.
    pub fn to_engine_init(&self) -> (init: EngineInit)
        ensures
            init == self.engine_init(),
    {
        EngineInit {
            num_capture_channels: 1,
            num_render_channels: 1,
            enable_experimental_agc: self.enable_agc,
            enable_intelligibility_enhancer: false,
        }
    }
}

impl Default for ProcessorConfig {
    /// Everything on, with moderate suppression and speech at -3 dBFS.
    fn default() -> (config: Self)
        ensures
            config == (ProcessorConfig {
                enable_aec: true,
                enable_ns: true,
                enable_agc: true,
                enable_vad: true,
                agc_target_level_dbfs: 3,
                agc_compression_gain_db: 9,
                ns_level: NoiseSuppressionLevel::Moderate,
                aec_suppression: EchoCancellationSuppressionLevel::Moderate,
            }),
    {
        ProcessorConfig {
            enable_aec: true,
            enable_ns: true,
            enable_agc: true,
            enable_vad: true,
            agc_target_level_dbfs: 3,
            agc_compression_gain_db: 9,
            ns_level: NoiseSuppressionLevel::Moderate,
            aec_suppression: EchoCancellationSuppressionLevel::Moderate,
        }
    }
}

/// Measurements that an engine reports; a metric is absent until the engine
/// has enough data for it.
#[derive(Debug, Clone, Copy, PartialEq, Eq)]
pub struct EngineStats {
    /// Voice in the current frame.
    pub has_voice: Option<bool>,
    /// Possible echo in the current frame.
    pub has_echo: Option<bool>,
    /// Signal level in dBFS.
    pub rms_dbfs: Option<i32>,
}

/// Snapshot of the microphone path.
#[derive(Debug, Clone, Copy, PartialEq, Eq)]
pub struct ProcessorStats {
    /// Voice in the most recently processed frame.
    pub has_voice: bool,
    /// Echo in the most recently processed frame.
    pub has_echo: bool,
    /// Signal level in dBFS, once there is one.
    pub rms_dbfs: Option<i32>,
}

/// What a processor holds between calls.
#[verifier::ext_equal]
pub struct ProcessorModel {
    /// Configuration of the microphone path.
    pub config: ProcessorConfig,
    /// Microphone samples awaiting a complete frame.
    pub capture: Seq<i16>,
    /// Playback samples awaiting a complete frame.
    pub render: Seq<i16>,
    /// Processed samples awaiting delivery.
    pub carry: Seq<i16>,
}

/// Whether making an engine can end in this way: the engine library makes one
/// engine, which is configured once if it was made.
pub open spec fn engine_made<
    L,
    S,
    O: Fn(L, EngineInit) -> (L, Result<S, EngineFault>),
    G: Fn(S, EngineConfig) -> S,
>(
    config: ProcessorConfig,
    library: L,
    create: O,
    configure: G,
    after: L,
    made: Result<S, EngineFault>,
) -> bool {
    exists|created: Result<S, EngineFault>| #[trigger]
        call_ensures(create, (library, config.engine_init()), (after, created)) && match created {
            Ok(engine) => made matches Ok(configured) && call_ensures(
                configure,
                (engine, config.engine_config()),
                configured,
            ),
            Err(fault) => made == Err::<S, EngineFault>(fault),
        }
}

/// Whether the calls that make an engine accept a configuration.
pub open spec fn accepts_config<
    L,
    S,
    O: Fn(L, EngineInit) -> (L, Result<S, EngineFault>),
    G: Fn(S, EngineConfig) -> S,
>(config: ProcessorConfig, library: L, create: O, configure: G) -> bool {
    &&& call_requires(create, (library, config.engine_init()))
    &&& forall|engine: S| #[trigger] call_requires(configure, (engine, config.engine_config()))
}

/// Whether one call of the engine on a playback frame can end in this way.
pub open spec fn renders<S, R: Fn(S, [i16; FRAME_SAMPLES]) -> (S, Result<(), EngineFault>)>(
    render: R,
    before: S,
    frame: Seq<i16>,
    after: S,
    answer: Result<(), EngineFault>,
) -> bool {
    exists|samples: [i16; FRAME_SAMPLES]|
        samples@ == frame && #[trigger] call_ensures(render, (before, samples), (after, answer))
}

/// A call of the engine on a playback frame.
pub open spec fn rendering<S, R: Fn(S, [i16; FRAME_SAMPLES]) -> (S, Result<(), EngineFault>)>(
    render: R,
) -> spec_fn(S, Seq<i16>, S, Result<(), EngineFault>) -> bool {
    |before: S, frame: Seq<i16>, after: S, answer: Result<(), EngineFault>|
        renders(render, before, frame, after, answer)
}

/// Whether one call of the engine on a microphone frame can end in this way.
pub open spec fn captures<
    S,
    C: Fn(S, [i16; FRAME_SAMPLES]) -> (S, Result<[i16; FRAME_SAMPLES], EngineFault>),
>(
    capture: C,
    before: S,
    frame: Seq<i16>,
    after: S,
    answer: Result<Seq<i16>, EngineFault>,
) -> bool {
    exists|samples: [i16; FRAME_SAMPLES], processed: Result<[i16; FRAME_SAMPLES], EngineFault>|
        samples@ == frame && #[trigger] call_ensures(
            capture,
            (before, samples),
            (after, processed),
        ) && answer == (match processed {
            Ok(samples) => Ok::<Seq<i16>, EngineFault>(samples@),
            Err(fault) => Err(fault),
        })
}

/// A call of the engine on a microphone frame.
pub open spec fn capturing<
    S,
    C: Fn(S, [i16; FRAME_SAMPLES]) -> (S, Result<[i16; FRAME_SAMPLES], EngineFault>),
>(capture: C) -> spec_fn(S, Seq<i16>, S, Result<Seq<i16>, EngineFault>) -> bool {
    |before: S, frame: Seq<i16>, after: S, answer: Result<Seq<i16>, EngineFault>|
        captures(capture, before, frame, after, answer)
}

/// Whether the engine accepts every playback frame in every state.
pub open spec fn accepts_render<
    S,
    R: Fn(S, [i16; FRAME_SAMPLES]) -> (S, Result<(), EngineFault>),
>(render: R) -> bool {
    forall|engine: S, samples: [i16; FRAME_SAMPLES]| #[trigger]
        call_requires(render, (engine, samples))
}

/// Whether the engine accepts every microphone frame in every state.
pub open spec fn accepts_capture<
    S,
    C: Fn(S, [i16; FRAME_SAMPLES]) -> (S, Result<[i16; FRAME_SAMPLES], EngineFault>),
>(capture: C) -> bool {
    forall|engine: S, samples: [i16; FRAME_SAMPLES]| #[trigger]
        call_requires(capture, (engine, samples))
}

impl ProcessorModel {
    /// A processor that holds no samples.
    pub open spec fn fresh(config: ProcessorConfig) -> Self {
        ProcessorModel {
            config,
            capture: Seq::empty(),
            render: Seq::empty(),
            carry: Seq::empty(),
        }
    }

    /// Playback frames that are complete once a chunk has been added.
    pub open spec fn render_frames(self, far_end: Seq<i16>) -> Seq<Seq<i16>> {
        framing::blocks(self.render + far_end, FRAME_SAMPLES as nat)
    }

    /// Microphone frames that are complete once a chunk has been added.
    pub open spec fn capture_frames(self, near_end: Seq<i16>) -> Seq<Seq<i16>> {
        framing::blocks(self.capture + near_end, FRAME_SAMPLES as nat)
    }

    /// State and result after a playback chunk, for the engine's answers.
    /// Frames that were handed to the engine are gone, even after a failure.
    pub open spec fn rendered(
        self,
        far_end: Seq<i16>,
        answers: Seq<Result<(), EngineFault>>,
    ) -> (ProcessorModel, Result<(), ProcessorError>) {
        (
            ProcessorModel {
                render: (self.render + far_end).skip((answers.len() * FRAME_SAMPLES) as int),
                ..self
            },
            if framing::failed(answers) {
                Err(ProcessorError::Process(answers.last()->Err_0))
            } else {
                Ok(())
            },
        )
    }

    /// Processed samples that can be delivered, for the engine's answers.
    pub open spec fn deliverable(self, answers: Seq<Result<Seq<i16>, EngineFault>>) -> Seq<i16> {
        self.carry + framing::joined(framing::results(answers))
    }

    /// Whether this is the state and result after the complete microphone
    /// frames went through the engine, for the engine's answers.
    spec fn drained(
        self,
        answers: Seq<Result<Seq<i16>, EngineFault>>,
        after: ProcessorModel,
        result: Result<Vec<i16>, ProcessorError>,
    ) -> bool {
        &&& after == (ProcessorModel {
            capture: self.capture.skip((answers.len() * FRAME_SAMPLES) as int),
            ..self
        })
        &&& match result {
            Ok(produced) => !framing::failed(answers) && produced@ == framing::joined(
                framing::results(answers),
            ),
            Err(error) => framing::failed(answers) && error == ProcessorError::Process(
                answers.last()->Err_0,
            ),
        }
    }

    /// State, chunk and result after a microphone chunk, for the engine's
    /// answers. Processed samples replace the front of the chunk; after a
    /// failure the chunk and the samples awaiting delivery are unchanged.
    pub open spec fn captured(
        self,
        near_end: Seq<i16>,
        answers: Seq<Result<Seq<i16>, EngineFault>>,
    ) -> (ProcessorModel, Seq<i16>, Result<(), ProcessorError>) {
        let rest = (self.capture + near_end).skip((answers.len() * FRAME_SAMPLES) as int);
        if framing::failed(answers) {
            (
                ProcessorModel { capture: rest, ..self },
                near_end,
                Err(ProcessorError::Process(answers.last()->Err_0)),
            )
        } else {
            let out = self.deliverable(answers);
            if out.len() <= near_end.len() {
                (
                    ProcessorModel { capture: rest, carry: Seq::empty(), ..self },
                    out + near_end.skip(out.len() as int),
                    Ok(()),
                )
            } else {
                (
                    ProcessorModel {
                        capture: rest,
                        carry: out.skip(near_end.len() as int),
                        ..self
                    },
                    out.take(near_end.len() as int),
                    Ok(()),
                )
            }
        }
    }
}

/// The frames of a stream by their positions.
pub proof fn lemma_frames(stream: Seq<i16>)
    ensures
        framing::blocks(stream, FRAME_SAMPLES as nat).len() == stream.len() / 480,
        forall|i: int|
            0 <= i < stream.len() / 480 ==> #[trigger] framing::blocks(
                stream,
                FRAME_SAMPLES as nat,
            )[i] == stream.subrange(i * 480, i * 480 + 480),
{
    assert(FRAME_SAMPLES == 480);
}

/// Copy of the frame that starts at a position.
fn frame_at(samples: &Vec<i16>, start: usize) -> (frame: [i16; FRAME_SAMPLES])
    requires
        start + FRAME_SAMPLES <= samples.len(),
    ensures
        frame@ == samples@.subrange(start as int, start + FRAME_SAMPLES),
{
    let mut frame: [i16; FRAME_SAMPLES] = [0i16; FRAME_SAMPLES];
    let mut i: usize = 0;
    while i < FRAME_SAMPLES
        invariant
            i <= FRAME_SAMPLES,
            start + FRAME_SAMPLES <= samples.len(),
            forall|j: int| 0 <= j < i ==> frame@[j] == samples@[start + j],
        decreases FRAME_SAMPLES - i,
    {
        frame[i] = samples[start + i];
        i = i + 1;
    }
    assert(frame@ =~= samples@.subrange(start as int, start + FRAME_SAMPLES));
    frame
}

/// Whether replacing an engine can end in this way: by the new engine, or by
/// the old one as it is if making a new one fails.
pub open spec fn engine_replaced<
    L,
    S,
    O: Fn(L, EngineInit) -> (L, Result<S, EngineFault>),
    G: Fn(S, EngineConfig) -> S,
>(
    config: ProcessorConfig,
    library: L,
    engine: S,
    create: O,
    configure: G,
    rebuilt: (L, S, Result<(), EngineFault>),
) -> bool {
    match rebuilt.2 {
        Ok(()) => engine_made(config, library, create, configure, rebuilt.0, Ok(rebuilt.1)),
        Err(fault) => rebuilt.1 == engine && engine_made(
            config,
            library,
            create,
            configure,
            rebuilt.0,
            Err::<S, EngineFault>(fault),
        ),
    }
}

/// Make an engine and configure it.
fn make_engine<
    L,
    S,
    O: Fn(L, EngineInit) -> (L, Result<S, EngineFault>),
    G: Fn(S, EngineConfig) -> S,
>(config: &ProcessorConfig, library: L, create: &O, configure: &G) -> (made: (
    L,
    Result<S, EngineFault>,
))
    requires
        accepts_config(*config, library, *create, *configure),
    ensures
        engine_made(*config, library, *create, *configure, made.0, made.1),
{
    let (after, created) = create(library, config.to_engine_init());
    match created {
        Ok(engine) => (after, Ok(configure(engine, config.to_engine_config()))),
        Err(fault) => (after, Err(fault)),
    }
}

/// Adapts arbitrary chunks of samples to the frames of a processing engine.
#[derive(Debug)]
pub struct AudioProcessor {
    config: ProcessorConfig,
    pending_capture: Vec<i16>,
    pending_render: Vec<i16>,
    carry_out: Vec<i16>,
}

impl View for AudioProcessor {
    type V = ProcessorModel;

    closed spec fn view(&self) -> ProcessorModel {
        ProcessorModel {
            config: self.config,
            capture: self.pending_capture@,
            render: self.pending_render@,
            carry: self.carry_out@,
        }
    }
}

impl AudioProcessor {
    /// A processor that holds no samples.
    pub fn new(config: ProcessorConfig) -> (processor: Self)
        ensures
            processor@ == ProcessorModel::fresh(config),
    {
        AudioProcessor {
            config,
            pending_capture: Vec::new(),
            pending_render: Vec::new(),
            carry_out: Vec::new(),
        }
    }

    /// A processor that holds no samples, with an engine that the engine
    /// library makes and that is configured at once.
    ///
    /// Gives back the library and, unless making the engine fails, the processor
    /// with its engine.
    pub fn open<
        L,
        S,
        O: Fn(L, EngineInit) -> (L, Result<S, EngineFault>),
        G: Fn(S, EngineConfig) -> S,
    >(config: ProcessorConfig, library: L, create: &O, configure: &G) -> (made: (
        L,
        Result<(Self, S), ProcessorError>,
    ))
        requires
            accepts_config(config, library, *create, *configure),
        ensures
            match made.1 {
                Ok((processor, engine)) => processor@ == ProcessorModel::fresh(config)
                    && engine_made(config, library, *create, *configure, made.0, Ok(engine)),
                Err(ProcessorError::Config(fault)) => engine_made(
                    config,
                    library,
                    *create,
                    *configure,
                    made.0,
                    Err::<S, EngineFault>(fault),
                ),
                Err(ProcessorError::Process(_)) => false,
            },
    {
        let (after, engine) = make_engine(&config, library, create, configure);
        match engine {
            Ok(engine) => (after, Ok((AudioProcessor::new(config), engine))),
            Err(fault) => (after, Err(ProcessorError::Config(fault))),
        }
    }

    /// The configuration in use.
    pub fn config(&self) -> (config: &ProcessorConfig)
        ensures
            *config == self@.config,
    {
        &self.config
    }

    /// Number of microphone samples awaiting a complete frame.
    pub fn pending_capture(&self) -> (count: usize)
        ensures
            count == self@.capture.len(),
    {
        self.pending_capture.len()
    }

    /// Number of playback samples awaiting a complete frame.
    pub fn pending_render(&self) -> (count: usize)
        ensures
            count == self@.render.len(),
    {
        self.pending_render.len()
    }

    /// Number of processed samples awaiting delivery.
    pub fn carried(&self) -> (count: usize)
        ensures
            count == self@.carry.len(),
    {
        self.carry_out.len()
    }

    /// Process a microphone chunk in place.
    ///
    /// One call is made on the engine per complete frame, in order, up to the
    /// first failure. Chunks of any length are accepted.
    pub fn process<
        S,
        C: Fn(S, [i16; FRAME_SAMPLES]) -> (S, Result<[i16; FRAME_SAMPLES], EngineFault>),
    >(&mut self, near_end: &mut [i16], engine: S, capture: &C) -> (done: (
        S,
        Result<(), ProcessorError>,
    ))
        requires
            accepts_capture(*capture),
        ensures
            exists|calls: framing::Calls<S, Seq<i16>, EngineFault>| #[trigger]
                calls.is_run(
                    engine,
                    old(self)@.capture_frames(old(near_end)@),
                    capturing(*capture),
                ) && calls.end() == done.0 && old(self)@.captured(
                    old(near_end)@,
                    calls.answers,
                ) == (final(self)@, final(near_end)@, done.1),
    {
        self.pending_capture.extend_from_slice(near_end);
        assert(self.pending_capture@ =~= old(self)@.capture + old(near_end)@);
        let ghost before = self@;
        assert(before.capture == old(self)@.capture + old(near_end)@);
        let (after, drained) = self.drain_capture_frames(engine, capture);
        let ghost calls = choose|calls: framing::Calls<S, Seq<i16>, EngineFault>| #[trigger]
            calls.is_run(
                engine,
                framing::blocks(before.capture, FRAME_SAMPLES as nat),
                capturing(*capture),
            ) && calls.end() == after && before.drained(calls.answers, self@, drained);
        assert(calls.is_run(
            engine,
            old(self)@.capture_frames(old(near_end)@),
            capturing(*capture),
        ));
        match drained {
            Ok(produced) => {
                self.deliver(produced, near_end);
                assert(old(self)@.captured(old(near_end)@, calls.answers) == (
                    self@,
                    near_end@,
                    Ok::<(), ProcessorError>(()),
                ));
                (after, Ok(()))
            },
            Err(error) => {
                assert(old(self)@.captured(old(near_end)@, calls.answers) == (
                    self@,
                    near_end@,
                    Err::<(), ProcessorError>(error),
                ));
                (after, Err(error))
            },
        }
    }

    /// Process a microphone chunk together with the playback that was heard
    /// while it was captured.
    ///
    /// The playback goes through the engine first; if that fails, the
    /// microphone chunk is not touched.
    pub fn process_with_reference<
        S,
        R: Fn(S, [i16; FRAME_SAMPLES]) -> (S, Result<(), EngineFault>),
        C: Fn(S, [i16; FRAME_SAMPLES]) -> (S, Result<[i16; FRAME_SAMPLES], EngineFault>),
    >(
        &mut self,
        near_end: &mut [i16],
        far_end: &[i16],
        engine: S,
        render: &R,
        capture: &C,
    ) -> (done: (S, Result<(), ProcessorError>))
        requires
            accepts_render(*render),
            accepts_capture(*capture),
        ensures
            exists|played: framing::Calls<S, (), EngineFault>| #[trigger]
                played.is_run(
                    engine,
                    old(self)@.render_frames(far_end@),
                    rendering(*render),
                ) && {
                    let (between, rendered) = old(self)@.rendered(far_end@, played.answers);
                    if rendered is Err {
                        final(self)@ == between && final(near_end)@ == old(near_end)@ && done == (
                            played.end(),
                            rendered,
                        )
                    } else {
                        exists|calls: framing::Calls<S, Seq<i16>, EngineFault>| #[trigger]
                            calls.is_run(
                                played.end(),
                                between.capture_frames(old(near_end)@),
                                capturing(*capture),
                            ) && calls.end() == done.0 && between.captured(
                                old(near_end)@,
                                calls.answers,
                            ) == (final(self)@, final(near_end)@, done.1)
                    }
                },
    {
        let (between, rendered) = self.process_render(far_end, engine, render);
        match rendered {
            Ok(()) => self.process(near_end, between, capture),
            Err(error) => (between, Err(error)),
        }
    }

    /// Feed a playback chunk to the engine without processing microphone
    /// audio.
    ///
    /// One call is made on the engine per complete frame, in order, up to the
    /// first failure.
    pub fn process_render<S, R: Fn(S, [i16; FRAME_SAMPLES]) -> (S, Result<(), EngineFault>)>(
        &mut self,
        far_end: &[i16],
        engine: S,
        render: &R,
    ) -> (done: (S, Result<(), ProcessorError>))
        requires
            accepts_render(*render),
        ensures
            exists|calls: framing::Calls<S, (), EngineFault>| #[trigger]
                calls.is_run(
                    engine,
                    old(self)@.render_frames(far_end@),
                    rendering(*render),
                ) && calls.end() == done.0 && old(self)@.rendered(far_end@, calls.answers) == (
                    final(self)@,
                    done.1,
                ),
    {
        self.pending_render.extend_from_slice(far_end);
        let ghost stream = old(self)@.render + far_end@;
        assert(self.pending_render@ =~= stream);
        let ghost frames = old(self)@.render_frames(far_end@);
        let ghost mut calls: framing::Calls<S, (), EngineFault> = framing::Calls::none(engine);
        let mut running = engine;
        proof {
            lemma_frames(stream);
        }
        let mut start: usize = 0;
        while self.pending_render.len() - start >= FRAME_SAMPLES
            invariant
                accepts_render(*render),
                self@ == (ProcessorModel { render: stream, ..old(self)@ }),
                stream == old(self)@.render + far_end@,
                self.pending_render@ == stream,
                frames == old(self)@.render_frames(far_end@),
                frames.len() == stream.len() / 480,
                forall|i: int|
                    0 <= i < frames.len() ==> #[trigger] frames[i] == stream.subrange(
                        i * 480,
                        i * 480 + 480,
                    ),
                start <= stream.len(),
                start == calls.answers.len() * 480,
                calls.follows(engine, frames, rendering(*render)),
                calls.end() == running,
                forall|i: int|
                    0 <= i < calls.answers.len() ==> (#[trigger] calls.answers[i]) is Ok,
            decreases stream.len() - start,
        {
            let ghost state = running;
            let frame = frame_at(&self.pending_render, start);
            let (next, answer) = render(running, frame);
            running = next;
            start = start + FRAME_SAMPLES;
            proof {
                assert(frames[calls.answers.len() as int] == frame@);
                assert(renders(*render, state, frame@, next, answer));
                calls.lemma_and(engine, frames, rendering(*render), next, answer);
                calls = calls.and(next, answer);
            }
            match answer {
                Ok(()) => {},
                Err(fault) => {
                    self.pending_render = self.pending_render.split_off(start);
                    proof {
                        assert(calls.is_run(engine, frames, rendering(*render)));
                        assert(self.pending_render@ =~= stream.skip(
                            (calls.answers.len() * FRAME_SAMPLES) as int,
                        ));
                        assert(old(self)@.rendered(far_end@, calls.answers).0 == self@);
                    }
                    return (running, Err(ProcessorError::Process(fault)));
                },
            }
        }
        self.pending_render = self.pending_render.split_off(start);
        proof {
            assert(calls.is_run(engine, frames, rendering(*render)));
            assert(self.pending_render@ =~= stream.skip(
                (calls.answers.len() * FRAME_SAMPLES) as int,
            ));
            assert(old(self)@.rendered(far_end@, calls.answers).0 == self@);
        }
        (running, Ok(()))
    }

    /// Forget all buffered samples and make the engine anew.
    ///
    /// Gives back the library and the engine to go on with: the new one, or the
    /// old one untouched if making a new one fails.
    pub fn reset<
        L,
        S,
        O: Fn(L, EngineInit) -> (L, Result<S, EngineFault>),
        G: Fn(S, EngineConfig) -> S,
    >(&mut self, library: L, engine: S, create: &O, configure: &G) -> (rebuilt: (
        L,
        S,
        Result<(), EngineFault>,
    ))
        requires
            accepts_config(old(self)@.config, library, *create, *configure),
        ensures
            final(self)@ == ProcessorModel::fresh(old(self)@.config),
            engine_replaced(old(self)@.config, library, engine, *create, *configure, rebuilt),
    {
        self.pending_capture.clear();
        self.pending_render.clear();
        self.carry_out.clear();
        let (after, made) = make_engine(&self.config, library, create, configure);
        match made {
            Ok(new) => (after, new, Ok(())),
            Err(fault) => (after, engine, Err(fault)),
        }
    }

    /// Snapshot for the measurements of the engine; absent flags count as
    /// false.
    pub fn stats(&self, measured: EngineStats) -> (stats: ProcessorStats)
        ensures
            stats == (ProcessorStats {
                has_voice: measured.has_voice == Some(true),
                has_echo: measured.has_echo == Some(true),
                rms_dbfs: measured.rms_dbfs,
            }),
    {
        let has_voice = match measured.has_voice {
            Some(found) => found,
            None => false,
        };
        let has_echo = match measured.has_echo {
            Some(found) => found,
            None => false,
        };
        ProcessorStats { has_voice, has_echo, rms_dbfs: measured.rms_dbfs }
    }

    /// Put every complete buffered microphone frame through the engine.
    fn drain_capture_frames<
        S,
        C: Fn(S, [i16; FRAME_SAMPLES]) -> (S, Result<[i16; FRAME_SAMPLES], EngineFault>),
    >(&mut self, engine: S, capture: &C) -> (drained: (S, Result<Vec<i16>, ProcessorError>))
        requires
            accepts_capture(*capture),
        ensures
            exists|calls: framing::Calls<S, Seq<i16>, EngineFault>| #[trigger]
                calls.is_run(
                    engine,
                    framing::blocks(old(self)@.capture, FRAME_SAMPLES as nat),
                    capturing(*capture),
                ) && calls.end() == drained.0 && old(self)@.drained(
                    calls.answers,
                    final(self)@,
                    drained.1,
                ),
    {
        let ghost stream = self@.capture;
        let ghost frames = framing::blocks(stream, FRAME_SAMPLES as nat);
        let ghost mut calls: framing::Calls<S, Seq<i16>, EngineFault> = framing::Calls::none(
            engine,
        );
        let mut running = engine;
        proof {
            lemma_frames(stream);
        }
        let mut out: Vec<i16> = Vec::new();
        let mut start: usize = 0;
        while self.pending_capture.len() - start >= FRAME_SAMPLES
            invariant
                accepts_capture(*capture),
                self@ == old(self)@,
                stream == old(self)@.capture,
                self.pending_capture@ == stream,
                frames == framing::blocks(stream, FRAME_SAMPLES as nat),
                frames.len() == stream.len() / 480,
                forall|i: int|
                    0 <= i < frames.len() ==> #[trigger] frames[i] == stream.subrange(
                        i * 480,
                        i * 480 + 480,
                    ),
                start <= stream.len(),
                start == calls.answers.len() * 480,
                out@ == framing::joined(framing::results(calls.answers)),
                calls.follows(engine, frames, capturing(*capture)),
                calls.end() == running,
                forall|i: int|
                    0 <= i < calls.answers.len() ==> (#[trigger] calls.answers[i]) is Ok,
            decreases stream.len() - start,
        {
            let ghost state = running;
            let ghost earlier = calls.answers;
            let frame = frame_at(&self.pending_capture, start);
            let (next, answer) = capture(running, frame);
            running = next;
            start = start + FRAME_SAMPLES;
            assert(frames[earlier.len() as int] == frame@);
            match answer {
                Ok(processed) => {
                    let ghost produced = out@;
                    out.extend_from_slice(processed.as_slice());
                    proof {
                        let answer = Ok::<Seq<i16>, EngineFault>(processed@);
                        assert(captures(*capture, state, frame@, next, answer));
                        calls.lemma_and(engine, frames, capturing(*capture), next, answer);
                        calls = calls.and(next, answer);
                        assert(framing::results(calls.answers).drop_last() =~= framing::results(
                            earlier,
                        ));
                        assert(out@ =~= produced + processed@);
                    }
                },
                Err(fault) => {
                    self.pending_capture = self.pending_capture.split_off(start);
                    proof {
                        let answer = Err::<Seq<i16>, EngineFault>(fault);
                        assert(captures(*capture, state, frame@, next, answer));
                        calls.lemma_and(engine, frames, capturing(*capture), next, answer);
                        calls = calls.and(next, answer);
                        assert(calls.is_run(engine, frames, capturing(*capture)));
                        assert(self.pending_capture@ =~= stream.skip(
                            (calls.answers.len() * FRAME_SAMPLES) as int,
                        ));
                    }
                    return (running, Err(ProcessorError::Process(fault)));
                },
            }
        }
        self.pending_capture = self.pending_capture.split_off(start);
        proof {
            assert(calls.is_run(engine, frames, capturing(*capture)));
            assert(self.pending_capture@ =~= stream.skip(
                (calls.answers.len() * FRAME_SAMPLES) as int,
            ));
        }
        (running, Ok(out))
    }

    /// Write processed samples to the front of a chunk and keep the surplus
    /// for the next one.
    fn deliver(&mut self, produced: Vec<i16>, near_end: &mut [i16])
        ensures
            final(self)@ == (ProcessorModel {
                carry: if (old(self)@.carry + produced@).len() <= old(near_end)@.len() {
                    Seq::empty()
                } else {
                    (old(self)@.carry + produced@).skip(old(near_end)@.len() as int)
                },
                ..old(self)@
            }),
            final(near_end)@ == (if (old(self)@.carry + produced@).len() <= old(
                near_end,
            )@.len() {
                (old(self)@.carry + produced@) + old(near_end)@.skip(
                    (old(self)@.carry + produced@).len() as int,
                )
            } else {
                (old(self)@.carry + produced@).take(old(near_end)@.len() as int)
            }),
    {
        let mut produced = produced;
        let ghost out = self@.carry + produced@;
        self.carry_out.append(&mut produced);
        assert(self.carry_out@ =~= out);
        let count: usize = if self.carry_out.len() <= near_end.len() {
            self.carry_out.len()
        } else {
            near_end.len()
        };
        let mut i: usize = 0;
        while i < count
            invariant
                i <= count,
                count <= near_end@.len(),
                count <= out.len(),
                self.carry_out@ == out,
                self@ == (ProcessorModel { carry: out, ..old(self)@ }),
                near_end@.len() == old(near_end)@.len(),
                forall|j: int| 0 <= j < i ==> near_end@[j] == out[j],
                forall|j: int| i <= j < near_end@.len() ==> near_end@[j] == old(near_end)@[j],
            decreases count - i,
        {
            near_end[i] = self.carry_out[i];
            i = i + 1;
        }
        self.carry_out = self.carry_out.split_off(count);
        assert(self.carry_out@ =~= if out.len() <= near_end@.len() {
            Seq::empty()
        } else {
            out.skip(near_end@.len() as int)
        });
    }
}

/// Every processed frame is as long as an engine frame.
pub proof fn lemma_captured_lengths<
    S,
    C: Fn(S, [i16; FRAME_SAMPLES]) -> (S, Result<[i16; FRAME_SAMPLES], EngineFault>),
>(
    capture: C,
    engine: S,
    frames: Seq<Seq<i16>>,
    calls: framing::Calls<S, Seq<i16>, EngineFault>,
)
    requires
        calls.is_run(engine, frames, capturing(capture)),
        !framing::failed(calls.answers),
    ensures
        calls.answers.len() == frames.len(),
        framing::joined(framing::results(calls.answers)).len() == frames.len() * 480,
{
    let answers = calls.answers;
    let parts = framing::results(answers);
    assert forall|i: int| 0 <= i < parts.len() implies (#[trigger] parts[i]).len() == 480 by {
        assert(answers[i] is Ok) by {
            if i == answers.len() - 1 {
                assert(answers.last() == answers[i]);
            }
        }
        assert(capturing(capture)(calls.states[i], frames[i], calls.states[i + 1], answers[i]));
        assert(captures(capture, calls.states[i], frames[i], calls.states[i + 1], answers[i]));
    }
    framing::lemma_joined_len(parts, 480);
}

/// A successful call neither loses nor repeats nor reorders a sample: what was
/// held and what came in are the frames handed to the engine followed by what
/// is held afterwards, the engine gives back as many samples as it got, and
/// the samples to deliver are those written to the chunk followed by those
/// kept for later.
pub proof fn law_stream_is_conserved<
    S,
    C: Fn(S, [i16; FRAME_SAMPLES]) -> (S, Result<[i16; FRAME_SAMPLES], EngineFault>),
>(
    capture: C,
    engine: S,
    before: ProcessorModel,
    near_end: Seq<i16>,
    calls: framing::Calls<S, Seq<i16>, EngineFault>,
)
    requires
        calls.is_run(engine, before.capture_frames(near_end), capturing(capture)),
        !framing::failed(calls.answers),
    ensures
        ({
            let (after, chunk, _) = before.captured(near_end, calls.answers);
            let delivered = before.deliverable(calls.answers).len() - after.carry.len();
            &&& framing::joined(before.capture_frames(near_end)) + after.capture
                == before.capture + near_end
            &&& framing::joined(framing::results(calls.answers)).len() == framing::joined(
                before.capture_frames(near_end),
            ).len()
            &&& chunk.take(delivered) + after.carry == before.deliverable(calls.answers)
            &&& chunk.len() == near_end.len()
            &&& chunk.skip(delivered) == near_end.skip(delivered)
            &&& before.capture.len() + before.carry.len() + near_end.len() == after.capture.len()
                + after.carry.len() + delivered
        }),
{
    let (after, chunk, _) = before.captured(near_end, calls.answers);
    let stream = before.capture + near_end;
    let frames = before.capture_frames(near_end);
    lemma_captured_lengths(capture, engine, frames, calls);
    lemma_frames(stream);
    framing::law_blocks_join_to_stream(stream, FRAME_SAMPLES as nat);
    assert(FRAME_SAMPLES == 480);
    assert(framing::whole(stream.len(), 480) == stream.len() / 480 * 480);
    assert(framing::joined(frames) + after.capture =~= stream);
    let out = before.deliverable(calls.answers);
    let delivered = out.len() - after.carry.len();
    assert(chunk.take(delivered) + after.carry =~= out);
    assert(chunk.skip(delivered) =~= near_end.skip(delivered));
}

/// A processor that holds no microphone samples replaces a chunk of complete
/// frames by its processed frames and holds none afterwards.
pub proof fn law_aligned_chunk_passes_through<
    S,
    C: Fn(S, [i16; FRAME_SAMPLES]) -> (S, Result<[i16; FRAME_SAMPLES], EngineFault>),
>(
    capture: C,
    engine: S,
    before: ProcessorModel,
    near_end: Seq<i16>,
    calls: framing::Calls<S, Seq<i16>, EngineFault>,
)
    requires
        calls.is_run(engine, before.capture_frames(near_end), capturing(capture)),
        !framing::failed(calls.answers),
        before.capture.len() == 0,
        before.carry.len() == 0,
        near_end.len() % 480 == 0,
    ensures
        before.captured(near_end, calls.answers) == (
            before,
            framing::joined(framing::results(calls.answers)),
            Ok::<(), ProcessorError>(()),
        ),
{
    let stream = before.capture + near_end;
    assert(stream =~= near_end);
    lemma_captured_lengths(capture, engine, before.capture_frames(near_end), calls);
    lemma_frames(stream);
    let out = before.deliverable(calls.answers);
    let (after, chunk, _) = before.captured(near_end, calls.answers);
    assert(out =~= framing::joined(framing::results(calls.answers)));
    assert(out.len() == near_end.len());
    assert(chunk =~= out);
    assert(after.capture =~= before.capture);
    assert(after.carry =~= before.carry);
    assert(after =~= before);
}

/// A chunk that completes no frame waits: the engine is not called and the
/// samples are held for a later call.
pub proof fn law_partial_frame_waits(before: ProcessorModel, near_end: Seq<i16>)
    requires
        before.capture.len() + near_end.len() < 480,
    ensures
        before.capture_frames(near_end).len() == 0,
        before.captured(near_end, Seq::empty()).0.capture == before.capture + near_end,
        before.captured(near_end, Seq::empty()).2 is Ok,
        before.carry.len() == 0 ==> before.captured(near_end, Seq::empty()).1 == near_end,
{
    lemma_frames(before.capture + near_end);
    assert(before.captured(near_end, Seq::empty()).0.capture =~= before.capture + near_end);
    let none = Seq::<Result<Seq<i16>, EngineFault>>::empty();
    assert(before.deliverable(none) =~= before.carry);
    if before.carry.len() == 0 {
        assert(before.captured(near_end, none).1 =~= near_end);
    }
}

/// How a microphone stream is cut into chunks does not matter to the engine:
/// two chunks in a row complete the same frames as the two put together.
pub proof fn law_chunking_does_not_matter(
    before: ProcessorModel,
    first: Seq<i16>,
    second: Seq<i16>,
    answers: Seq<Result<Seq<i16>, EngineFault>>,
)
    requires
        answers.len() == before.capture_frames(first).len(),
        !framing::failed(answers),
    ensures
        before.capture_frames(first + second) == before.capture_frames(first) + before.captured(
            first,
            answers,
        ).0.capture_frames(second),
{
    let stream = before.capture + first;
    lemma_frames(stream);
    assert(FRAME_SAMPLES == 480);
    framing::law_blocks_do_not_depend_on_chunking(stream, second, FRAME_SAMPLES as nat);
    assert(before.capture + (first + second) =~= stream + second);
    assert(framing::whole(stream.len(), 480) == answers.len() * FRAME_SAMPLES);
}

/// How a playback stream is cut into chunks does not matter to the engine:
/// two chunks in a row complete the same frames as the two put together.
pub proof fn law_playback_chunking_does_not_matter(
    before: ProcessorModel,
    first: Seq<i16>,
    second: Seq<i16>,
    answers: Seq<Result<(), EngineFault>>,
)
    requires
        answers.len() == before.render_frames(first).len(),
    ensures
        before.render_frames(first + second) == before.render_frames(first) + before.rendered(
            first,
            answers,
        ).0.render_frames(second),
{
    let stream = before.render + first;
    lemma_frames(stream);
    assert(FRAME_SAMPLES == 480);
    framing::law_blocks_do_not_depend_on_chunking(stream, second, FRAME_SAMPLES as nat);
    assert(before.render + (first + second) =~= stream + second);
    assert(framing::whole(stream.len(), 480) == answers.len() * FRAME_SAMPLES);
}

} // verus!
