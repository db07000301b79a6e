//! SRTP transport settings and the protection profiles they may name.

use vstd::prelude::*;

use crate::text;

verus! {

/// Errors of SRTP settings.
#[derive(Debug, PartialEq, Eq)]
pub enum SrtpError {
    /// The protection profile is not supported; holds its name as given.
    UnsupportedProfile(String),
}

/// Settings of the SRTP transport.
#[derive(Debug, PartialEq, Eq)]
pub struct SrtpConfig {
    /// Name of the protection profile.
    pub profile: String,
    /// Carry RTP and RTCP on one transport.
    pub enable_rtp_rtcp_mux: bool,
    /// Sequence numbers in the anti-replay window.
    pub replay_protection_window: usize,
}

/// Whether a profile is supported; upper and lower case do not matter.
pub open spec fn is_supported(profile: Seq<char>) -> bool {
    ||| text::lower(profile) == text::lower("DTLS_SRTP_SHA2_256"@)
    ||| text::lower(profile) == text::lower("DTLS_SRTP_SHA1_80"@)
}

/// Whether this is the outcome of checking a profile name.
pub open spec fn profile_checked(profile: Seq<char>, checked: Result<(), SrtpError>) -> bool {
    if is_supported(profile) {
        checked is Ok
    } else {
        checked matches Err(SrtpError::UnsupportedProfile(rejected)) && rejected@ == profile
    }
}

impl Clone for SrtpConfig {
    fn clone(&self) -> (copy: Self)
        ensures
            copy.profile@ == self.profile@,
            copy.enable_rtp_rtcp_mux == self.enable_rtp_rtcp_mux,
            copy.replay_protection_window == self.replay_protection_window,
    {
        SrtpConfig {
            profile: self.profile.clone(),
            enable_rtp_rtcp_mux: self.enable_rtp_rtcp_mux,
            replay_protection_window: self.replay_protection_window,
        }
    }
}

impl Default for SrtpConfig {
    /// The strongest supported profile, one transport and a window of 64.
    fn default() -> (config: Self)
        ensures
            config.profile@ == "DTLS_SRTP_SHA2_256"@,
            config.enable_rtp_rtcp_mux,
            config.replay_protection_window == 64,
            is_supported(config.profile@),
    {
        SrtpConfig {
            profile: "DTLS_SRTP_SHA2_256".to_owned(),
            enable_rtp_rtcp_mux: true,
            replay_protection_window: 64,
        }
    }
}

impl SrtpConfig {
    /// Check that the protection profile is supported.
    pub fn validate(&self) -> (checked: Result<(), SrtpError>)
        ensures
            profile_checked(self.profile@, checked),
    {
        validate_profile(self.profile.as_str())
    }
}

/// Check that a protection profile is supported.
pub fn validate_profile(profile: &str) -> (checked: Result<(), SrtpError>)
    ensures
        profile_checked(profile@, checked),
{
    if "DTLS_SRTP_SHA2_256".eq_ignore_ascii_case(profile)
        || "DTLS_SRTP_SHA1_80".eq_ignore_ascii_case(profile) {
        Ok(())
    } else {
        Err(SrtpError::UnsupportedProfile(profile.to_owned()))
    }
}

/// Upper and lower case do not matter in profile names.
pub proof fn law_profile_ignores_case(profile: Seq<char>, other: Seq<char>)
    requires
        text::lower(profile) == text::lower(other),
    ensures
        is_supported(profile) == is_supported(other),
{
}

/// Two profiles are supported, in any mix of upper and lower case; every other name
/// is refused and reported as it was given.
pub proof fn law_two_profiles_are_supported(profile: &str, checked: Result<(), SrtpError>)
    requires
        call_ensures(validate_profile, (profile,), checked),
    ensures
        checked is Ok <==> text::lower(profile@) == "dtls_srtp_sha2_256"@ || text::lower(profile@)
            == "dtls_srtp_sha1_80"@,
        checked matches Err(SrtpError::UnsupportedProfile(rejected)) ==> rejected@ == profile@,
{
    reveal_strlit("DTLS_SRTP_SHA2_256");
    reveal_strlit("dtls_srtp_sha2_256");
    reveal_strlit("DTLS_SRTP_SHA1_80");
    reveal_strlit("dtls_srtp_sha1_80");
    assert(text::lower("DTLS_SRTP_SHA2_256"@) =~= "dtls_srtp_sha2_256"@);
    assert(text::lower("DTLS_SRTP_SHA1_80"@) =~= "dtls_srtp_sha1_80"@);
}

/// Checking settings is checking the profile that they name, whatever else they say.
pub proof fn law_checked_settings_name_a_profile(
    config: SrtpConfig,
    checked: Result<(), SrtpError>,
    profile: &str,
    alone: Result<(), SrtpError>,
)
    requires
        call_ensures(SrtpConfig::validate, (&config,), checked),
        profile@ == config.profile@,
        call_ensures(validate_profile, (profile,), alone),
    ensures
        match (checked, alone) {
            (Ok(()), Ok(())) => true,
            (
                Err(SrtpError::UnsupportedProfile(one)),
                Err(SrtpError::UnsupportedProfile(other)),
            ) => one@ == other@ && one@ == config.profile@,
            _ => false,
        },
{
}

/// The default settings are usable, and a copy of settings is the same.
pub proof fn law_default_settings_are_supported(
    standard: SrtpConfig,
    checked: Result<(), SrtpError>,
    config: SrtpConfig,
    copy: SrtpConfig,
)
    requires
        call_ensures(<SrtpConfig as Default>::default, (), standard),
        call_ensures(SrtpConfig::validate, (&standard,), checked),
        call_ensures(SrtpConfig::clone, (&config,), copy),
    ensures
        checked is Ok,
        standard.profile@ == "DTLS_SRTP_SHA2_256"@,
        standard.enable_rtp_rtcp_mux,
        standard.replay_protection_window == 64,
        copy.profile@ == config.profile@,
        copy.enable_rtp_rtcp_mux == config.enable_rtp_rtcp_mux,
        copy.replay_protection_window == config.replay_protection_window,
{
}

} // verus!
