use llm_rtc::audio::processor::{
    AudioProcessor, EchoCancellation, EchoCancellationSuppressionLevel, EngineConfig, EngineFault,
    EngineInit, EngineStats, GainControl, GainControlMode, NoiseSuppression,
    NoiseSuppressionLevel, ProcessorConfig, ProcessorError, ProcessorStats, VoiceDetection,
    VoiceDetectionLikelihood, FRAME_SAMPLES, SAMPLE_RATE_HZ,
};

fn fault(text: &str) -> EngineFault {
    EngineFault {
        description: text.to_string(),
    }
}

/// A 440 Hz sine, as a stand-in for speech.
fn sine(len: usize, amplitude: i16) -> Vec<i16> {
    (0..len)
        .map(|i| {
            (amplitude as f32
                * (2.0 * std::f32::consts::PI * 440.0 * i as f32 / SAMPLE_RATE_HZ as f32).sin())
                as i16
        })
        .collect()
}

/// Stands for the engine: inverts the signal and counts its calls.
fn invert(calls: u32, frame: [i16; 480]) -> (u32, Result<[i16; 480], EngineFault>) {
    (calls + 1, Ok(frame.map(|sample| sample.wrapping_neg())))
}

fn listen(calls: u32, _frame: [i16; 480]) -> (u32, Result<(), EngineFault>) {
    (calls + 1, Ok(()))
}

/// Stands for the engine library, which counts the engines that it makes.
fn create(made: u32, _init: EngineInit) -> (u32, Result<u32, EngineFault>) {
    (made + 1, Ok(0))
}

fn create_none(made: u32, _init: EngineInit) -> (u32, Result<u32, EngineFault>) {
    (made, Err(fault("no engine")))
}

fn configure(calls: u32, config: EngineConfig) -> u32 {
    assert!(config.enable_high_pass_filter);
    calls
}

/// A processor with a new engine.
fn opened(config: ProcessorConfig) -> (AudioProcessor, u32) {
    let (made, opened) = AudioProcessor::open(config, 0, &create, &configure);
    assert_eq!(made, 1);
    opened.expect("processor construction")
}

#[test]
fn config_defaults_and_translation() {
    let cfg = ProcessorConfig::default();
    assert!(cfg.enable_aec && cfg.enable_ns && cfg.enable_agc && cfg.enable_vad);
    assert_eq!(cfg.agc_target_level_dbfs, 3);
    assert_eq!(cfg.agc_compression_gain_db, 9);
    assert_eq!(cfg.ns_level, NoiseSuppressionLevel::Moderate);
    assert_eq!(
        cfg.aec_suppression,
        EchoCancellationSuppressionLevel::Moderate
    );

    let engine = cfg.to_engine_config();
    assert!(engine.echo_cancellation.is_some());
    assert!(engine.noise_suppression.is_some());
    assert!(engine.gain_control.is_some());
    assert!(engine.voice_detection.is_some());
    assert!(engine.enable_high_pass_filter);

    // Disabled modules must translate to `None`.
    let off = ProcessorConfig {
        enable_aec: false,
        enable_agc: false,
        ..Default::default()
    }
    .to_engine_config();
    assert!(off.echo_cancellation.is_none());
    assert!(off.gain_control.is_none());
    assert!(off.noise_suppression.is_some());
}

#[test]
fn settings_reach_the_engine() {
    let cfg = ProcessorConfig {
        agc_target_level_dbfs: 6,
        agc_compression_gain_db: 12,
        ns_level: NoiseSuppressionLevel::VeryHigh,
        aec_suppression: EchoCancellationSuppressionLevel::Lowest,
        ..ProcessorConfig::default()
    };
    assert_eq!(
        cfg.to_engine_config(),
        EngineConfig {
            echo_cancellation: Some(EchoCancellation {
                suppression_level: EchoCancellationSuppressionLevel::Lowest,
                enable_extended_filter: true,
                enable_delay_agnostic: true,
                stream_delay_ms: None,
            }),
            gain_control: Some(GainControl {
                mode: GainControlMode::AdaptiveDigital,
                target_level_dbfs: 6,
                compression_gain_db: 12,
                enable_limiter: true,
            }),
            noise_suppression: Some(NoiseSuppression {
                suppression_level: NoiseSuppressionLevel::VeryHigh,
            }),
            voice_detection: Some(VoiceDetection {
                detection_likelihood: VoiceDetectionLikelihood::Low,
            }),
            enable_transient_suppressor: false,
            enable_high_pass_filter: true,
        }
    );
    assert_eq!(
        cfg.to_engine_init(),
        EngineInit {
            num_capture_channels: 1,
            num_render_channels: 1,
            enable_experimental_agc: true,
            enable_intelligibility_enhancer: false,
        }
    );
}

#[test]
fn engines_are_made_and_configured_once() {
    let create = |made: Vec<EngineInit>, init: EngineInit| {
        let mut made = made;
        made.push(init);
        (made, Ok::<Vec<EngineConfig>, EngineFault>(Vec::new()))
    };
    let configure = |applied: Vec<EngineConfig>, config: EngineConfig| {
        let mut applied = applied;
        applied.push(config);
        applied
    };
    let config = ProcessorConfig {
        enable_agc: false,
        ..ProcessorConfig::default()
    };
    let (made, opened) = AudioProcessor::open(config, Vec::new(), &create, &configure);
    let (mut proc, applied) = opened.unwrap();
    assert_eq!(made, vec![config.to_engine_init()]);
    assert_eq!(applied, vec![config.to_engine_config()]);

    let (made, applied, rebuilt) = proc.reset(made, applied, &create, &configure);
    assert_eq!(made.len(), 2);
    assert_eq!(applied, vec![config.to_engine_config()]);
    assert_eq!(rebuilt, Ok(()));
}

#[test]
fn sine_wave_processing_produces_full_length_output() {
    let (mut proc, engine) = opened(ProcessorConfig {
        enable_aec: false, // no render reference in this test
        ..Default::default()
    });

    // Two full frames (960 samples) so processing definitely happens.
    let mut samples = sine(2 * FRAME_SAMPLES, 8_000);
    let (calls, done) = proc.process(&mut samples, engine, &invert);
    done.expect("processing");
    assert_eq!(calls, 2);

    assert_eq!(samples.len(), 2 * FRAME_SAMPLES);
    assert!(
        samples.iter().any(|&s| s != 0),
        "processed output must not be silent"
    );
    let expected: Vec<i16> = sine(2 * FRAME_SAMPLES, 8_000).iter().map(|s| -s).collect();
    assert_eq!(samples, expected);
}

#[test]
fn process_with_reference_runs() {
    let (mut proc, engine) = opened(ProcessorConfig::default());

    let mut near = sine(3 * FRAME_SAMPLES, 8_000);
    let far = sine(3 * FRAME_SAMPLES, 4_000);
    let (calls, done) = proc.process_with_reference(&mut near, &far, engine, &listen, &invert);
    done.expect("process_with_reference");
    assert_eq!(near.len(), 3 * FRAME_SAMPLES);
    assert_eq!(calls, 6);
}

#[test]
fn playback_reaches_the_engine_before_the_microphone() {
    let render = |mut log: Vec<&'static str>, _: [i16; 480]| {
        log.push("render");
        (log, Ok(()))
    };
    let capture = |mut log: Vec<&'static str>, frame: [i16; 480]| {
        log.push("capture");
        (log, Ok(frame))
    };
    let mut proc = AudioProcessor::new(ProcessorConfig::default());
    let (log, done) = proc.process_with_reference(
        &mut [0; 480],
        &[0; 960],
        Vec::new(),
        &render,
        &capture,
    );
    assert_eq!(done, Ok(()));
    assert_eq!(log, vec!["render", "render", "capture"]);
}

#[test]
fn reset_rebuilds_engine() {
    let (mut proc, engine) = opened(ProcessorConfig::default());

    let mut first = sine(FRAME_SAMPLES, 8_000);
    let (engine, done) = proc.process(&mut first, engine, &invert);
    done.expect("pre-reset processing");
    assert_eq!(engine, 1);

    let (made, engine, rebuilt) = proc.reset(0, engine, &create, &configure);
    assert_eq!((made, engine, rebuilt), (1, 0, Ok(())));

    let mut second = sine(FRAME_SAMPLES, 8_000);
    let (_, done) = proc.process(&mut second, engine, &invert);
    done.expect("post-reset processing");
    assert_eq!(second.len(), FRAME_SAMPLES);
}

#[test]
fn reset_forgets_buffered_audio_and_keeps_the_old_engine_without_a_new_one() {
    let mut proc = AudioProcessor::new(ProcessorConfig::default());
    let (engine, _) = proc.process(&mut vec![1; 100], 0, &invert);
    let (engine, _) = proc.process(&mut vec![1; 400], engine, &invert);
    let (engine, _) = proc.process_render(&[1; 7], engine, &listen);
    assert_eq!(
        (proc.pending_capture(), proc.pending_render(), proc.carried()),
        (20, 7, 80)
    );
    assert_eq!(
        proc.reset(0, engine, &create_none, &configure),
        (0, 1, Err(fault("no engine")))
    );
    assert_eq!(
        (proc.pending_capture(), proc.pending_render(), proc.carried()),
        (0, 0, 0)
    );
    assert_eq!(proc.config(), &ProcessorConfig::default());
}

#[test]
fn a_failing_engine_rejects_the_configuration() {
    let (made, opened) =
        AudioProcessor::open(ProcessorConfig::default(), 0, &create_none, &configure);
    assert_eq!(made, 0);
    assert_eq!(
        opened.unwrap_err(),
        ProcessorError::Config(fault("no engine"))
    );
}

#[test]
fn partial_frames_are_buffered() {
    let (mut proc, engine) = opened(ProcessorConfig {
        enable_aec: false,
        ..Default::default()
    });

    // 100 samples: less than one 480-sample frame, nothing to process.
    let mut short = sine(100, 8_000);
    let (engine, done) = proc.process(&mut short, engine, &invert);
    done.expect("partial chunk");
    assert_eq!(engine, 0);
    assert_eq!(short, sine(100, 8_000));

    // Complete the frame: 100 + 380 = 480 samples, exactly one frame.
    let mut rest = sine(380, 8_000);
    let (engine, done) = proc.process(&mut rest, engine, &invert);
    done.expect("completing chunk");
    assert_eq!(engine, 1);

    // Call 1 delivered no output; call 2's buffer only fit 380 of the
    // 480 processed samples, so 100 remain carried over for next time.
    assert_eq!(proc.carried(), 100);
    // Buffer must be empty again: every buffered sample was consumed.
    assert_eq!(proc.pending_capture(), 0);
}

#[test]
fn the_processed_stream_is_in_order() {
    let mut proc = AudioProcessor::new(ProcessorConfig::default());
    let input: Vec<i16> = (0..4_000).collect();
    let mut output = Vec::new();
    let mut held = 0;
    for chunk in input.chunks(333) {
        let before = held + chunk.len();
        let mut near = chunk.to_vec();
        assert_eq!(proc.process(&mut near, 0, &invert).1, Ok(()));
        held = proc.pending_capture() + proc.carried();
        output.extend_from_slice(&near[..before - held]);
    }
    let expected: Vec<i16> = input.iter().map(|s| -s).collect();
    assert!(output.len() > 3_000);
    assert_eq!(output, expected[..output.len()]);
}

#[test]
fn chunking_does_not_change_the_frames() {
    let record = |chunks: &[usize]| {
        let capture = |mut seen: Vec<Vec<i16>>, frame: [i16; 480]| {
            seen.push(frame.to_vec());
            (seen, Ok(frame))
        };
        let mut proc = AudioProcessor::new(ProcessorConfig::default());
        let mut next = 0i16;
        let mut seen = Vec::new();
        for size in chunks {
            let mut chunk: Vec<i16> = (next..next + *size as i16).collect();
            next += *size as i16;
            seen = proc.process(&mut chunk, seen, &capture).0;
        }
        seen
    };
    assert_eq!(record(&[1_440]), record(&[7, 900, 1, 532]));
    assert_eq!(record(&[1_440]).len(), 3);
}

#[test]
fn a_failing_frame_is_lost_and_the_rest_waits() {
    let second_fails = |calls: u32, frame: [i16; 480]| {
        if calls == 1 {
            (calls + 1, Err(fault("bad frame")))
        } else {
            (calls + 1, Ok(frame))
        }
    };
    let mut proc = AudioProcessor::new(ProcessorConfig::default());
    let mut near: Vec<i16> = vec![5; 4 * 480];
    assert_eq!(
        proc.process(&mut near, 0, &second_fails),
        (2, Err(ProcessorError::Process(fault("bad frame"))))
    );
    assert_eq!(near, vec![5; 4 * 480]);
    assert_eq!((proc.pending_capture(), proc.carried()), (960, 0));

    let render_fails =
        |calls: u32, _: [i16; 480]| (calls + 1, Err::<(), EngineFault>(fault("bad playback")));
    assert_eq!(
        proc.process_with_reference(&mut near, &[0; 1_000], 0, &render_fails, &invert),
        (1, Err(ProcessorError::Process(fault("bad playback"))))
    );
    assert_eq!((proc.pending_capture(), proc.pending_render()), (960, 520));
}

#[test]
fn missing_measurements_are_neutral() {
    let proc = AudioProcessor::new(ProcessorConfig::default());
    assert_eq!(
        proc.stats(EngineStats {
            has_voice: None,
            has_echo: None,
            rms_dbfs: None,
        }),
        ProcessorStats {
            has_voice: false,
            has_echo: false,
            rms_dbfs: None,
        }
    );
    assert_eq!(
        proc.stats(EngineStats {
            has_voice: Some(true),
            has_echo: Some(false),
            rms_dbfs: Some(-20),
        }),
        ProcessorStats {
            has_voice: true,
            has_echo: false,
            rms_dbfs: Some(-20),
        }
    );
}

#[test]
fn playback_chunking_does_not_change_the_frames() {
    let record = |chunks: &[usize]| {
        let render = |mut seen: Vec<Vec<i16>>, frame: [i16; 480]| {
            seen.push(frame.to_vec());
            (seen, Ok(()))
        };
        let mut proc = AudioProcessor::new(ProcessorConfig::default());
        let mut next = 0i16;
        let mut seen = Vec::new();
        for size in chunks {
            let chunk: Vec<i16> = (next..next + *size as i16).collect();
            next += *size as i16;
            seen = proc.process_render(&chunk, seen, &render).0;
        }
        seen
    };
    assert_eq!(record(&[1_000]), record(&[479, 1, 520]));
    assert_eq!(record(&[1_000]).len(), 2);
}
