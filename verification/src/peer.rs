//! Settings of a peer connection and the names of its tracks.

use vstd::prelude::*;

use crate::text;
use crate::text::push_decimal;

verus! {

/// Which network paths may carry media.
#[derive(Debug, Clone, Copy, PartialEq, Eq)]
pub enum IceTransportPolicy {
    /// Any path.
    All,
    /// Relayed paths only.
    Relay,
}

/// How media sections share a transport.
#[derive(Debug, Clone, Copy, PartialEq, Eq)]
pub enum BundlePolicy {
    /// One transport per type of media.
    Balanced,
    /// One transport per track.
    MaxCompat,
    /// One transport for everything.
    MaxBundle,
}

/// Configuration of a peer connection.
#[derive(Debug)]
pub struct PeerConfig {
    /// URLs of STUN and TURN servers.
    pub ice_servers: Vec<String>,
    /// MIME type of the audio codec.
    pub codec_mime_type: String,
    /// `"all"` or `"relay"`.
    pub ice_transport_policy: String,
    /// `"balanced"`, `"max-compat"` or `"max-bundle"`.
    pub bundle_policy: String,
}

/// A connectivity server of a peer connection.
#[derive(Debug, PartialEq, Eq)]
pub struct IceServer {
    /// URLs of the server.
    pub urls: Vec<String>,
}

/// Settings that a peer connection is opened with.
#[derive(Debug, PartialEq, Eq)]
pub struct ConnectionSettings {
    /// Connectivity servers, in the configured order.
    pub ice_servers: Vec<IceServer>,
    /// Which network paths may carry media.
    pub ice_transport_policy: IceTransportPolicy,
    /// How media sections share a transport.
    pub bundle_policy: BundlePolicy,
}

/// Path policy that a name stands for; every name but `relay` means any path.
pub open spec fn ice_transport_policy_named(name: Seq<char>) -> IceTransportPolicy {
    if text::lower(name) == text::lower("relay"@) {
        IceTransportPolicy::Relay
    } else {
        IceTransportPolicy::All
    }
}

/// Bundle policy that a name stands for; unknown names mean `balanced`.
pub open spec fn bundle_policy_named(name: Seq<char>) -> BundlePolicy {
    if text::lower(name) == "max-compat"@ {
        BundlePolicy::MaxCompat
    } else if text::lower(name) == "max-bundle"@ {
        BundlePolicy::MaxBundle
    } else {
        BundlePolicy::Balanced
    }
}

/// Identifier of the local audio track with a number.
pub open spec fn audio_track_id(ssid: u32) -> Seq<char> {
    "audio-"@ + text::decimal(ssid as nat)
}

/// Identifier of the media stream with a number.
pub open spec fn audio_stream_id(ssid: u32) -> Seq<char> {
    "llm-rtc-stream-"@ + text::decimal(ssid as nat)
}

/// MIME type of Opus audio: a copy of `webrtc::api::media_engine::MIME_TYPE_OPUS`,
/// which is the text `audio/opus`.
#[verifier::external_body]
fn opus_mime_type() -> (mime: String)
    ensures
        mime@ == "audio/opus"@,
{
    webrtc::api::media_engine::MIME_TYPE_OPUS.to_string()
}

impl Clone for PeerConfig {
    fn clone(&self) -> (copy: Self)
        ensures
            copy.ice_servers@.len() == self.ice_servers@.len(),
            forall|i: int|
                0 <= i < copy.ice_servers@.len() ==> (#[trigger] copy.ice_servers@[i])@
                    == self.ice_servers@[i]@,
            copy.codec_mime_type@ == self.codec_mime_type@,
            copy.ice_transport_policy@ == self.ice_transport_policy@,
            copy.bundle_policy@ == self.bundle_policy@,
    {
        let mut ice_servers: Vec<String> = Vec::new();
        let mut i: usize = 0;
        while i < self.ice_servers.len()
            invariant
                i <= self.ice_servers@.len(),
                ice_servers@.len() == i,
                forall|j: int| 0 <= j < i ==> (#[trigger] ice_servers@[j])@
                    == self.ice_servers@[j]@,
            decreases self.ice_servers.len() - i,
        {
            ice_servers.push(self.ice_servers[i].clone());
            i = i + 1;
        }
        PeerConfig {
            ice_servers,
            codec_mime_type: self.codec_mime_type.clone(),
            ice_transport_policy: self.ice_transport_policy.clone(),
            bundle_policy: self.bundle_policy.clone(),
        }
    }
}

impl Default for PeerConfig {
    /// One public STUN server, Opus audio, any path, balanced bundling.
    fn default() -> (config: Self)
        ensures
            config.is_standard(),
            ice_transport_policy_named(config.ice_transport_policy@) == IceTransportPolicy::All,
            bundle_policy_named(config.bundle_policy@) == BundlePolicy::Balanced,
    {
        proof {
            reveal_strlit("all");
            reveal_strlit("relay");
            reveal_strlit("balanced");
            reveal_strlit("max-compat");
            reveal_strlit("max-bundle");
            assert(text::lower("all"@).len() != text::lower("relay"@).len());
            assert(text::lower("balanced"@).len() != "max-compat"@.len());
            assert(text::lower("balanced"@).len() != "max-bundle"@.len());
        }
        let mut ice_servers: Vec<String> = Vec::new();
        ice_servers.push("stun:stun.l.google.com:19302".to_owned());
        PeerConfig {
            ice_servers,
            codec_mime_type: opus_mime_type(),
            ice_transport_policy: "all".to_owned(),
            bundle_policy: "balanced".to_owned(),
        }
    }
}

impl PeerConfig {
    /// One public STUN server, Opus audio, any path, balanced bundling.
    pub open spec fn is_standard(self) -> bool {
        &&& self.ice_servers@.len() == 1
        &&& self.ice_servers@[0]@ == "stun:stun.l.google.com:19302"@
        &&& self.codec_mime_type@ == "audio/opus"@
        &&& self.ice_transport_policy@ == "all"@
        &&& self.bundle_policy@ == "balanced"@
    }

    /// Settings to open a connection with: one server per URL, in order, and
    /// the policies that the names stand for.
    pub fn connection_settings(&self) -> (settings: ConnectionSettings)
        ensures
            settings.ice_servers@.len() == self.ice_servers@.len(),
            forall|i: int|
                0 <= i < settings.ice_servers@.len() ==> (#[trigger] settings.ice_servers@[i]).urls@.len()
                    == 1 && settings.ice_servers@[i].urls@[0]@ == self.ice_servers@[i]@,
            settings.ice_transport_policy == ice_transport_policy_named(
                self.ice_transport_policy@,
            ),
            settings.bundle_policy == bundle_policy_named(self.bundle_policy@),
    {
        let mut ice_servers: Vec<IceServer> = Vec::new();
        let mut i: usize = 0;
        while i < self.ice_servers.len()
            invariant
                i <= self.ice_servers@.len(),
                ice_servers@.len() == i,
                forall|j: int|
                    0 <= j < i ==> (#[trigger] ice_servers@[j]).urls@.len() == 1
                        && ice_servers@[j].urls@[0]@ == self.ice_servers@[j]@,
            decreases self.ice_servers.len() - i,
        {
            let mut urls: Vec<String> = Vec::new();
            urls.push(self.ice_servers[i].clone());
            ice_servers.push(IceServer { urls });
            i = i + 1;
        }
        ConnectionSettings {
            ice_servers,
            ice_transport_policy: parse_ice_transport_policy(self.ice_transport_policy.as_str()),
            bundle_policy: parse_bundle_policy(self.bundle_policy.as_str()),
        }
    }
}

/// Path policy that a name stands for.
pub fn parse_ice_transport_policy(s: &str) -> (policy: IceTransportPolicy)
    ensures
        policy == ice_transport_policy_named(s@),
{
    if s.eq_ignore_ascii_case("relay") {
        IceTransportPolicy::Relay
    } else {
        IceTransportPolicy::All
    }
}

/// Bundle policy that a name stands for.
pub fn parse_bundle_policy(s: &str) -> (policy: BundlePolicy)
    ensures
        policy == bundle_policy_named(s@),
{
    let name = s.to_ascii_lowercase();
    if name == "max-compat".to_owned() {
        BundlePolicy::MaxCompat
    } else if name == "max-bundle".to_owned() {
        BundlePolicy::MaxBundle
    } else {
        BundlePolicy::Balanced
    }
}

/// Identifier of the local audio track with a number.
pub fn track_id(ssid: u32) -> (id: String)
    ensures
        id@ == audio_track_id(ssid),
{
    let mut id = "audio-".to_owned();
    push_decimal(&mut id, ssid as u64);
    id
}

/// Identifier of the media stream with a number.
pub fn stream_id(ssid: u32) -> (id: String)
    ensures
        id@ == audio_stream_id(ssid),
{
    let mut id = "llm-rtc-stream-".to_owned();
    push_decimal(&mut id, ssid as u64);
    id
}

/// Upper and lower case do not matter in policy names.
pub proof fn law_policies_ignore_case(name: Seq<char>, other: Seq<char>)
    requires
        text::lower(name) == text::lower(other),
    ensures
        ice_transport_policy_named(name) == ice_transport_policy_named(other),
        bundle_policy_named(name) == bundle_policy_named(other),
{
}

/// Tracks with different numbers have different identifiers, and so have their
/// streams.
pub proof fn law_track_ids_are_distinct(one: u32, other: u32)
    requires
        one != other,
    ensures
        audio_track_id(one) != audio_track_id(other),
        audio_stream_id(one) != audio_stream_id(other),
{
    text::lemma_decimal_is_injective(one as nat, other as nat);
    let first = "audio-"@;
    assert(audio_track_id(one).skip(first.len() as int) =~= text::decimal(one as nat));
    assert(audio_track_id(other).skip(first.len() as int) =~= text::decimal(other as nat));
    let second = "llm-rtc-stream-"@;
    assert(audio_stream_id(one).skip(second.len() as int) =~= text::decimal(one as nat));
    assert(audio_stream_id(other).skip(second.len() as int) =~= text::decimal(other as nat));
}

/// Only the name `relay` restricts the paths, in any mix of upper and lower case.
pub proof fn law_only_relay_restricts_the_paths(name: &str, policy: IceTransportPolicy)
    requires
        call_ensures(parse_ice_transport_policy, (name,), policy),
    ensures
        policy is Relay <==> text::lower(name@) == "relay"@,
        policy is All <==> text::lower(name@) != "relay"@,
{
    reveal_strlit("relay");
    assert(text::lower("relay"@) =~= "relay"@);
}

/// The names `max-compat` and `max-bundle`, in any mix of upper and lower case,
/// stand for their policies; every other name means balanced.
pub proof fn law_bundle_policies_have_their_names(name: &str, policy: BundlePolicy)
    requires
        call_ensures(parse_bundle_policy, (name,), policy),
    ensures
        policy is MaxCompat <==> text::lower(name@) == "max-compat"@,
        policy is MaxBundle <==> text::lower(name@) == "max-bundle"@,
        policy is Balanced <==> text::lower(name@) != "max-compat"@ && text::lower(name@)
            != "max-bundle"@,
{
    reveal_strlit("max-compat");
    reveal_strlit("max-bundle");
    assert("max-compat"@[4] != "max-bundle"@[4]);
}

/// The settings of a connection have one server for each configured URL, in order,
/// and the policies that the names give by themselves.
pub proof fn law_connection_uses_every_server_and_both_policies(
    config: PeerConfig,
    settings: ConnectionSettings,
    paths: &str,
    bundling: &str,
    path_policy: IceTransportPolicy,
    bundle_policy: BundlePolicy,
)
    requires
        call_ensures(PeerConfig::connection_settings, (&config,), settings),
        paths@ == config.ice_transport_policy@,
        bundling@ == config.bundle_policy@,
        call_ensures(parse_ice_transport_policy, (paths,), path_policy),
        call_ensures(parse_bundle_policy, (bundling,), bundle_policy),
    ensures
        settings.ice_servers@.len() == config.ice_servers@.len(),
        forall|i: int|
            0 <= i < config.ice_servers@.len() ==> (#[trigger] settings.ice_servers@[i]).urls@.len()
                == 1 && settings.ice_servers@[i].urls@[0]@ == config.ice_servers@[i]@,
        settings.ice_transport_policy == path_policy,
        settings.bundle_policy == bundle_policy,
{
}

/// The default connection uses one public server, any path and balanced bundling.
pub proof fn law_default_connection_is_unrestricted(
    config: PeerConfig,
    settings: ConnectionSettings,
)
    requires
        call_ensures(<PeerConfig as Default>::default, (), config),
        call_ensures(PeerConfig::connection_settings, (&config,), settings),
    ensures
        config.codec_mime_type@ == "audio/opus"@,
        settings.ice_servers@.len() == 1,
        settings.ice_servers@[0].urls@[0]@ == "stun:stun.l.google.com:19302"@,
        settings.ice_transport_policy is All,
        settings.bundle_policy is Balanced,
{
    assert(settings.ice_servers@[0].urls@.len() == 1);
}

/// A copy of the settings has the same texts.
pub proof fn law_copied_settings_are_the_same(config: PeerConfig, copy: PeerConfig)
    requires
        call_ensures(PeerConfig::clone, (&config,), copy),
    ensures
        copy.ice_servers@.len() == config.ice_servers@.len(),
        forall|i: int|
            0 <= i < config.ice_servers@.len() ==> (#[trigger] copy.ice_servers@[i])@
                == config.ice_servers@[i]@,
        copy.codec_mime_type@ == config.codec_mime_type@,
        copy.ice_transport_policy@ == config.ice_transport_policy@,
        copy.bundle_policy@ == config.bundle_policy@,
{
}

/// An identifier is a fixed name followed by the number in decimal notation, from
/// which the number can be read back.
pub proof fn law_identifiers_end_in_the_number(ssid: u32, track: String, stream: String)
    requires
        call_ensures(track_id, (ssid,), track),
        call_ensures(stream_id, (ssid,), stream),
    ensures
        "audio-"@.is_prefix_of(track@),
        text::is_number(track@.skip("audio-"@.len() as int)),
        text::read_number(track@.skip("audio-"@.len() as int)) == ssid,
        "llm-rtc-stream-"@.is_prefix_of(stream@),
        text::is_number(stream@.skip("llm-rtc-stream-"@.len() as int)),
        text::read_number(stream@.skip("llm-rtc-stream-"@.len() as int)) == ssid,
{
    text::law_decimal_reads_as_its_value(ssid as nat);
    assert(track@.skip("audio-"@.len() as int) =~= text::decimal(ssid as nat));
    assert(stream@.skip("llm-rtc-stream-"@.len() as int) =~= text::decimal(ssid as nat));
}

} // verus!
