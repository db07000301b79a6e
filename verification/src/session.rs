//! Voice session rules: how the parts are configured together, when playout
//! runs and what a received packet does.

use vstd::prelude::*;
use vstd::slice::slice_subrange;

use crate::audio::codec::CodecConfig;
use crate::audio::jitter::{AudioPacket, JitterBufferConfig};
use crate::audio::jitter_model::{JitterModel, PacketModel};
use crate::audio::pipeline::{AudioPipeline, AudioPipelineConfig, PipelineError, PipelineModel};
use crate::peer::PeerConfig;

verus! {

/// Shortest pause between two decoded frames, in nanoseconds.
pub const MIN_RECOVERY_INTERVAL_NS: u64 = 1_000_000;

/// Errors produced by a voice session.
#[derive(Debug, PartialEq, Eq)]
pub enum SessionError {
    /// The audio pipeline failed.
    Pipeline(PipelineError),
    /// The peer connection failed.
    Peer(String),
    /// Writing encoded audio to the local track failed.
    Track(String),
}

/// Configuration of a voice session.
#[derive(Debug)]
pub struct SessionConfig {
    /// Peer connection settings.
    pub peer: PeerConfig,
    /// Audio pipeline settings.
    pub pipeline: AudioPipelineConfig,
    /// PCM sample rate in Hz of the microphone and playout path.
    pub sample_rate: u32,
    /// Channels of the PCM path.
    pub channels: u8,
}

impl Clone for SessionConfig {
    fn clone(&self) -> (copy: Self)
        ensures
            copy.peer.ice_servers@.len() == self.peer.ice_servers@.len(),
            forall|i: int|
                0 <= i < copy.peer.ice_servers@.len() ==> (#[trigger] copy.peer.ice_servers@[i])@
                    == self.peer.ice_servers@[i]@,
            copy.peer.codec_mime_type@ == self.peer.codec_mime_type@,
            copy.peer.ice_transport_policy@ == self.peer.ice_transport_policy@,
            copy.peer.bundle_policy@ == self.peer.bundle_policy@,
            copy.pipeline == self.pipeline,
            copy.sample_rate == self.sample_rate,
            copy.channels == self.channels,
    {
        SessionConfig {
            peer: self.peer.clone(),
            pipeline: self.pipeline,
            sample_rate: self.sample_rate,
            channels: self.channels,
        }
    }
}

impl Default for SessionConfig {
    /// Default peer and pipeline, 48 kHz mono.
    fn default() -> (config: Self)
        ensures
            config.peer.is_standard(),
            config.pipeline == AudioPipelineConfig::standard(),
            config.sample_rate == 48_000,
            config.channels == 1,
    {
        SessionConfig {
            peer: PeerConfig::default(),
            pipeline: AudioPipelineConfig::default(),
            sample_rate: 48_000,
            channels: 1,
        }
    }
}

impl SessionConfig {
    /// Pipeline settings of the session: the codec and the jitter buffer use
    /// the session's PCM format.
    pub open spec fn aligned(self) -> AudioPipelineConfig {
        AudioPipelineConfig {
            codec: CodecConfig {
                sample_rate: self.sample_rate,
                channels: self.channels,
                ..self.pipeline.codec
            },
            jitter: JitterBufferConfig { sample_rate: self.sample_rate, ..self.pipeline.jitter },
            processor: self.pipeline.processor,
        }
    }

    /// Pipeline settings of the session.
    pub fn pipeline_config(&self) -> (config: AudioPipelineConfig)
        ensures
            config == self.aligned(),
    {
        let mut config = self.pipeline;
        config.codec.sample_rate = self.sample_rate;
        config.codec.channels = self.channels;
        config.jitter.sample_rate = self.sample_rate;
        config
    }
}

/// Duration of one codec frame in nanoseconds.
pub fn frame_duration_ns(config: &CodecConfig) -> (duration: u64)
    ensures
        duration == config.frame_size_us * 1_000,
{
    config.frame_size_us as u64 * 1_000
}

/// What the playout loop does next.
#[derive(Debug, Clone, Copy, PartialEq, Eq)]
pub enum PlayoutStep {
    /// Nothing will ever be played again.
    Stop,
    /// Nothing is buffered; wait for a packet or the end of the stream.
    WaitForPacket,
    /// Sleep until a time in nanoseconds, unless a packet moves the deadline.
    SleepUntil(u128),
    /// Look at the buffer again.
    Reconsider,
    /// Play the next slot.
    Decode,
}

/// What ended a wait of the playout loop.
#[derive(Debug, Clone, Copy, PartialEq, Eq)]
pub enum Wakeup {
    /// The time to sleep is over.
    TimeReached,
    /// A packet moved the next deadline.
    PacketReady,
    /// The receiver reported its state.
    ReceiverChanged,
    /// The receiver is gone without a report.
    ReceiverLost,
}

/// Paces playout on deadlines, with a limit on catching up.
#[derive(Debug, Clone, Copy, PartialEq, Eq)]
pub struct PlayoutSchedule {
    /// Pause after a decoded frame, in nanoseconds.
    pub recovery_interval_ns: u64,
    /// Earliest time of the next decode, in nanoseconds.
    pub next_decode_at: u128,
}

impl PlayoutSchedule {
    /// Schedule of a stream that starts at a time: half a frame, but at least
    /// the shortest pause, between two decoded frames.
    pub open spec fn starting(frame_ns: u64, now: u64) -> Self {
        PlayoutSchedule {
            recovery_interval_ns: if frame_ns / 2 >= MIN_RECOVERY_INTERVAL_NS {
                frame_ns / 2
            } else {
                MIN_RECOVERY_INTERVAL_NS
            },
            next_decode_at: now as u128,
        }
    }

    /// What to do, given the next deadline, whether slots await playout and
    /// whether the receiver is done.
    pub open spec fn next_step(
        self,
        deadline: Option<u128>,
        pending: bool,
        receiver_done: bool,
    ) -> PlayoutStep {
        if receiver_done && !pending {
            PlayoutStep::Stop
        } else {
            match deadline {
                None => PlayoutStep::WaitForPacket,
                Some(deadline) => PlayoutStep::SleepUntil(
                    if deadline >= self.next_decode_at {
                        deadline
                    } else {
                        self.next_decode_at
                    },
                ),
            }
        }
    }

    /// Schedule after a decode that ended at a time.
    pub open spec fn after_decode(self, decoded: bool, now: u64) -> Self {
        if decoded {
            PlayoutSchedule {
                next_decode_at: (now + self.recovery_interval_ns) as u128,
                ..self
            }
        } else {
            self
        }
    }

    /// Schedule of a stream that starts now.
    pub fn new(frame_ns: u64, now: u64) -> (schedule: Self)
        ensures
            schedule == PlayoutSchedule::starting(frame_ns, now),
    {
        let half: u64 = frame_ns / 2;
        PlayoutSchedule {
            recovery_interval_ns: if half >= MIN_RECOVERY_INTERVAL_NS {
                half
            } else {
                MIN_RECOVERY_INTERVAL_NS
            },
            next_decode_at: now as u128,
        }
    }

    /// What to do next.
    pub fn plan(&self, deadline: Option<u128>, pending: bool, receiver_done: bool) -> (step:
        PlayoutStep)
        ensures
            step == self.next_step(deadline, pending, receiver_done),
    {
        if receiver_done && !pending {
            return PlayoutStep::Stop;
        }
        match deadline {
            None => PlayoutStep::WaitForPacket,
            Some(deadline) => PlayoutStep::SleepUntil(
                if deadline >= self.next_decode_at {
                    deadline
                } else {
                    self.next_decode_at
                },
            ),
        }
    }

    /// Take note of a decode that ended now.
    pub fn record_decode(&mut self, decoded: bool, now: u64)
        ensures
            *final(self) == old(self).after_decode(decoded, now),
    {
        if decoded {
            self.next_decode_at = now as u128 + self.recovery_interval_ns as u128;
        }
    }
}

/// What the playout loop does next for the present state of a pipeline.
pub fn playout_step(
    schedule: &PlayoutSchedule,
    pipeline: &AudioPipeline,
    receiver_done: bool,
) -> (step: PlayoutStep)
    requires
        pipeline.wf(),
    ensures
        step == planned(*schedule, pipeline@.jitter, receiver_done),
{
    let deadline = pipeline.next_playout_deadline();
    let pending = pipeline.has_pending_playout();
    schedule.plan(deadline, pending, receiver_done)
}

/// What the playout loop does next for the present state of a jitter buffer.
pub open spec fn planned(
    schedule: PlayoutSchedule,
    jitter: JitterModel,
    receiver_done: bool,
) -> PlayoutStep {
    schedule.next_step(
        match jitter.next_deadline() {
            Some(deadline) => Some(deadline as u128),
            None => None,
        },
        jitter.pending(),
        receiver_done,
    )
}

/// What the end of a wait leads to.
///
/// A lost receiver ends playout only while nothing is buffered; a sleep is
/// ended by its time, which plays the slot, or cut short to look again.
pub open spec fn step_after(waiting: PlayoutStep, wakeup: Wakeup) -> PlayoutStep {
    match (waiting, wakeup) {
        (PlayoutStep::Stop, _) => PlayoutStep::Stop,
        (PlayoutStep::WaitForPacket, Wakeup::ReceiverLost) => PlayoutStep::Stop,
        (PlayoutStep::SleepUntil(_), Wakeup::TimeReached) => PlayoutStep::Decode,
        _ => PlayoutStep::Reconsider,
    }
}

/// What the end of a wait leads to.
pub fn resume(waiting: PlayoutStep, wakeup: Wakeup) -> (step: PlayoutStep)
    ensures
        step == step_after(waiting, wakeup),
{
    match (waiting, wakeup) {
        (PlayoutStep::Stop, _) => PlayoutStep::Stop,
        (PlayoutStep::WaitForPacket, Wakeup::ReceiverLost) => PlayoutStep::Stop,
        (PlayoutStep::SleepUntil(_), Wakeup::TimeReached) => PlayoutStep::Decode,
        _ => PlayoutStep::Reconsider,
    }
}

/// Audio packet of a received RTP packet whose payload is the front of a
/// buffer.
pub fn received_packet(
    sequence_number: u16,
    timestamp: u32,
    buffer: &[u8],
    payload_len: usize,
) -> (packet: AudioPacket)
    requires
        payload_len <= buffer@.len(),
    ensures
        packet@ == (PacketModel {
            sequence_number,
            timestamp,
            payload: buffer@.take(payload_len as int),
        }),
{
    let mut payload: Vec<u8> = Vec::new();
    payload.extend_from_slice(slice_subrange(buffer, 0, payload_len));
    assert(payload@ =~= buffer@.take(payload_len as int));
    AudioPacket { sequence_number, timestamp, payload }
}

/// Push a received packet and tell whether the playout loop has to look at the
/// buffer again: it has to if the next deadline changed.
pub fn ingest(pipeline: &mut AudioPipeline, packet: AudioPacket, now: u64) -> (outcome: (
    bool,
    bool,
))
    requires
        old(pipeline).wf(),
        old(pipeline)@.jitter.has_headroom(),
    ensures
        final(pipeline).wf(),
        final(pipeline)@ == (PipelineModel {
            jitter: old(pipeline)@.jitter.received(packet@, now),
            ..old(pipeline)@
        }),
        outcome.0 == (old(pipeline)@.jitter.accepts(packet@)
            && final(pipeline)@.jitter.packets.contains_key(
            old(pipeline)@.jitter.slot_of(packet@),
        )),
        outcome.1 == (final(pipeline)@.jitter.next_deadline()
            != old(pipeline)@.jitter.next_deadline()),
{
    let previous = pipeline.next_playout_deadline();
    let accepted = pipeline.push_incoming(packet, now);
    let wake = match (previous, pipeline.next_playout_deadline()) {
        (None, None) => false,
        (Some(before), Some(after)) => before != after,
        _ => true,
    };
    (accepted, wake)
}

/// Playout never runs ahead of a deadline, and after a decoded frame it pauses
/// for at least half a frame: it never plays faster than twice the media rate.
pub proof fn law_catching_up_is_limited(
    config: CodecConfig,
    started: u64,
    decoded_at: u64,
    deadline: u128,
    pending: bool,
    receiver_done: bool,
)
    requires
        pending || !receiver_done,
    ensures
        ({
            let frame_ns = (config.frame_size_us * 1_000) as u64;
            let schedule = PlayoutSchedule::starting(frame_ns, started).after_decode(
                true,
                decoded_at,
            );
            schedule.next_step(Some(deadline), pending, receiver_done) matches
                PlayoutStep::SleepUntil(wake) && wake >= deadline && 2 * (wake - decoded_at)
                >= frame_ns && wake >= decoded_at + MIN_RECOVERY_INTERVAL_NS
        }),
{
}

/// Playout stops if and only if the receiver is done and no slot awaits
/// playout; while a slot does, playout sleeps towards it.
pub proof fn law_buffered_tail_is_played(
    schedule: PlayoutSchedule,
    jitter: JitterModel,
    receiver_done: bool,
)
    ensures
        planned(schedule, jitter, receiver_done) is Stop <==> receiver_done && !jitter.pending(),
        planned(schedule, jitter, receiver_done) is SleepUntil <==> jitter.pending(),
        planned(schedule, jitter, receiver_done) is WaitForPacket <==> !receiver_done
            && !jitter.pending(),
{
}

/// A change of the buffer that does not move the next deadline leaves the plan
/// as it is: the loop need not be woken for it.
pub proof fn law_unmoved_deadline_keeps_the_plan(
    schedule: PlayoutSchedule,
    before: JitterModel,
    after: JitterModel,
    receiver_done: bool,
)
    requires
        after.next_deadline() == before.next_deadline(),
    ensures
        planned(schedule, after, receiver_done) == planned(schedule, before, receiver_done),
{
}

/// The session's PCM format reaches the codec and the jitter buffer, and
/// aligning a configuration again changes nothing.
pub proof fn law_aligned_configuration_agrees(config: SessionConfig)
    ensures
        config.aligned().codec.sample_rate == config.sample_rate,
        config.aligned().codec.channels == config.channels,
        config.aligned().jitter.sample_rate == config.sample_rate,
        (SessionConfig { pipeline: config.aligned(), ..config }).aligned() == config.aligned(),
{
}

/// Aligning a configuration changes the rate and the channels of the codec and the
/// rate of the jitter buffer, and nothing else.
pub proof fn law_aligning_changes_the_format_only(
    config: SessionConfig,
    aligned: AudioPipelineConfig,
)
    requires
        call_ensures(SessionConfig::pipeline_config, (&config,), aligned),
    ensures
        aligned.codec.sample_rate == config.sample_rate,
        aligned.codec.channels == config.channels,
        aligned.jitter.sample_rate == config.sample_rate,
        aligned.codec.bitrate == config.pipeline.codec.bitrate,
        aligned.codec.frame_size_us == config.pipeline.codec.frame_size_us,
        aligned.codec.use_dtx == config.pipeline.codec.use_dtx,
        aligned.codec.use_fec == config.pipeline.codec.use_fec,
        aligned.codec.complexity == config.pipeline.codec.complexity,
        aligned.jitter.max_latency_ms == config.pipeline.jitter.max_latency_ms,
        aligned.jitter.target_latency_ms == config.pipeline.jitter.target_latency_ms,
        aligned.jitter.max_packets == config.pipeline.jitter.max_packets,
        aligned.jitter.frame_size_ms == config.pipeline.jitter.frame_size_ms,
        aligned.processor == config.pipeline.processor,
{
}

/// A configuration that has the session's format already is used as it is.
pub proof fn law_matching_configuration_is_kept(config: SessionConfig, aligned: AudioPipelineConfig)
    requires
        call_ensures(SessionConfig::pipeline_config, (&config,), aligned),
        config.pipeline.codec.sample_rate == config.sample_rate,
        config.pipeline.codec.channels == config.channels,
        config.pipeline.jitter.sample_rate == config.sample_rate,
    ensures
        aligned == config.pipeline,
{
}

/// A copy of a configuration has the same settings, text for text.
pub proof fn law_copied_configuration_is_the_same(config: SessionConfig, copy: SessionConfig)
    requires
        call_ensures(SessionConfig::clone, (&config,), copy),
    ensures
        copy.pipeline == config.pipeline,
        copy.sample_rate == config.sample_rate,
        copy.channels == config.channels,
        copy.peer.ice_servers@.len() == config.peer.ice_servers@.len(),
        forall|i: int|
            0 <= i < config.peer.ice_servers@.len() ==> (#[trigger] copy.peer.ice_servers@[i])@
                == config.peer.ice_servers@[i]@,
        copy.peer.codec_mime_type@ == config.peer.codec_mime_type@,
        copy.peer.ice_transport_policy@ == config.peer.ice_transport_policy@,
        copy.peer.bundle_policy@ == config.peer.bundle_policy@,
{
}

/// The default session uses 48 kHz mono throughout, so that aligning it changes
/// nothing, one public server, any path and balanced bundling.
pub proof fn law_default_session_is_aligned(config: SessionConfig, aligned: AudioPipelineConfig)
    requires
        call_ensures(<SessionConfig as Default>::default, (), config),
        call_ensures(SessionConfig::pipeline_config, (&config,), aligned),
    ensures
        config.sample_rate == 48_000,
        config.channels == 1,
        aligned == config.pipeline,
        aligned.codec.frame_size_us == 10_000,
        config.peer.ice_servers@.len() == 1,
        config.peer.ice_servers@[0]@ == "stun:stun.l.google.com:19302"@,
        config.peer.codec_mime_type@ == "audio/opus"@,
        config.peer.ice_transport_policy@ == "all"@,
        config.peer.bundle_policy@ == "balanced"@,
{
}

/// A codec frame lasts its configured microseconds.
pub proof fn law_frame_lasts_its_duration(config: CodecConfig, duration: u64)
    requires
        call_ensures(frame_duration_ns, (&config,), duration),
    ensures
        duration == config.frame_size_us * 1_000,
{
}

/// A new schedule may decode at once, and pauses for half a frame, to the
/// nanosecond, or one millisecond, whichever is longer.
pub proof fn law_new_schedule_pauses_half_a_frame(
    frame_ns: u64,
    now: u64,
    schedule: PlayoutSchedule,
)
    requires
        call_ensures(PlayoutSchedule::new, (frame_ns, now), schedule),
    ensures
        schedule.next_decode_at == now,
        schedule.recovery_interval_ns >= 1_000_000,
        frame_ns - 1 <= 2 * schedule.recovery_interval_ns,
        2 * schedule.recovery_interval_ns <= frame_ns || schedule.recovery_interval_ns
            == 1_000_000,
{
}

/// Playout stops exactly if the receiver is done and nothing awaits playout.
/// Otherwise it waits for a packet exactly if there is no deadline, and else sleeps
/// until the later of the deadline and the end of the pause.
pub proof fn law_plan_sleeps_until_the_later_time(
    schedule: PlayoutSchedule,
    deadline: Option<u128>,
    pending: bool,
    receiver_done: bool,
    step: PlayoutStep,
)
    requires
        call_ensures(
            PlayoutSchedule::plan,
            (&schedule, deadline, pending, receiver_done),
            step,
        ),
    ensures
        step is Stop <==> receiver_done && !pending,
        step is WaitForPacket <==> (pending || !receiver_done) && deadline is None,
        step is SleepUntil <==> (pending || !receiver_done) && deadline is Some,
        step matches PlayoutStep::SleepUntil(wake) ==> {
            &&& wake >= deadline->Some_0
            &&& wake >= schedule.next_decode_at
            &&& wake == deadline->Some_0 || wake == schedule.next_decode_at
        },
{
}

/// A decoded frame starts a pause from the time of its decode; anything else
/// leaves the schedule as it is.
pub proof fn law_decoded_frame_starts_a_pause(
    schedule: &mut PlayoutSchedule,
    decoded: bool,
    now: u64,
)
    requires
        call_ensures(PlayoutSchedule::record_decode, (schedule, decoded, now), ()),
    ensures
        final(schedule).recovery_interval_ns == old(schedule).recovery_interval_ns,
        decoded ==> final(schedule).next_decode_at == now + old(schedule).recovery_interval_ns,
        !decoded ==> final(schedule).next_decode_at == old(schedule).next_decode_at,
{
}

/// The step for a pipeline is the plan for what the pipeline reports.
pub proof fn law_step_is_planned_for_the_pipeline(
    schedule: PlayoutSchedule,
    pipeline: AudioPipeline,
    receiver_done: bool,
    deadline: Option<u128>,
    pending: bool,
    plan: PlayoutStep,
    step: PlayoutStep,
)
    requires
        pipeline.wf(),
        call_ensures(AudioPipeline::next_playout_deadline, (&pipeline,), deadline),
        call_ensures(AudioPipeline::has_pending_playout, (&pipeline,), pending),
        call_ensures(
            PlayoutSchedule::plan,
            (&schedule, deadline, pending, receiver_done),
            plan,
        ),
        call_ensures(playout_step, (&schedule, &pipeline, receiver_done), step),
    ensures
        step == plan,
{
}

/// A sleep that ends in time leads to decoding, and nothing else does. Playout
/// stays stopped, and a lost receiver stops it only while it waits for a packet.
/// Everything else leads to looking at the buffer again.
pub proof fn law_only_a_finished_sleep_decodes(
    waiting: PlayoutStep,
    wakeup: Wakeup,
    step: PlayoutStep,
)
    requires
        call_ensures(resume, (waiting, wakeup), step),
    ensures
        step is Decode <==> waiting is SleepUntil && wakeup is TimeReached,
        step is Stop <==> waiting is Stop || (waiting is WaitForPacket && wakeup is ReceiverLost),
        step is Decode || step is Stop || step is Reconsider,
{
}

/// A received packet has the number, the timestamp and the payload that arrived,
/// byte for byte, and nothing of the buffer behind the payload.
pub proof fn law_received_packet_has_the_payload(
    sequence_number: u16,
    timestamp: u32,
    buffer: &[u8],
    payload_len: usize,
    packet: AudioPacket,
)
    requires
        payload_len <= buffer@.len(),
        call_ensures(
            received_packet,
            (sequence_number, timestamp, buffer, payload_len),
            packet,
        ),
    ensures
        packet.sequence_number == sequence_number,
        packet.timestamp == timestamp,
        packet.payload@.len() == payload_len,
        forall|i: int| 0 <= i < payload_len ==> #[trigger] packet.payload@[i] == buffer@[i],
{
    assert(packet@.sequence_number == sequence_number);
    assert(packet@.timestamp == timestamp);
    assert(packet@.payload == buffer@.take(payload_len as int));
}

/// Taking a packet in is receiving it, and the playout loop is woken exactly if the
/// deadline that the pipeline reports is another one afterwards.
pub proof fn law_moved_deadline_wakes_the_loop(
    pipeline: &mut AudioPipeline,
    other: &mut AudioPipeline,
    packet: AudioPacket,
    now: u64,
    outcome: (bool, bool),
    accepted: bool,
    earlier: AudioPipeline,
    later: AudioPipeline,
    deadline_before: Option<u128>,
    deadline_after: Option<u128>,
)
    requires
        old(pipeline).wf(),
        old(other).wf(),
        old(pipeline)@.jitter.has_headroom(),
        old(other)@ == old(pipeline)@,
        call_ensures(ingest, (pipeline, packet, now), outcome),
        call_ensures(AudioPipeline::push_incoming, (other, packet, now), accepted),
        earlier.wf(),
        earlier@ == old(other)@,
        later.wf(),
        later@ == final(other)@,
        call_ensures(AudioPipeline::next_playout_deadline, (&earlier,), deadline_before),
        call_ensures(AudioPipeline::next_playout_deadline, (&later,), deadline_after),
    ensures
        final(pipeline)@ == final(other)@,
        outcome.0 == accepted,
        outcome.1 <==> deadline_before != deadline_after,
{
}

} // verus!
