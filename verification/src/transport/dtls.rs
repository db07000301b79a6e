//! DTLS transport settings and the fingerprint algorithms they may name.

use vstd::prelude::*;

use crate::text;

verus! {

/// Supported hash algorithms of certificate fingerprints.
#[derive(Debug, Clone, Copy, PartialEq, Eq)]
pub enum DtlsFingerprintAlgorithm {
    /// SHA-256, the default.
    Sha256,
    /// SHA-1, for old endpoints.
    Sha1,
}

/// Algorithm that an SDP name stands for, in any mix of upper and lower case.
pub open spec fn algorithm_named(name: Seq<char>) -> Option<DtlsFingerprintAlgorithm> {
    if text::lower(name) == "sha-256"@ {
        Some(DtlsFingerprintAlgorithm::Sha256)
    } else if text::lower(name) == "sha-1"@ {
        Some(DtlsFingerprintAlgorithm::Sha1)
    } else {
        None
    }
}

impl DtlsFingerprintAlgorithm {
    /// SDP name of the algorithm.
    pub open spec fn name(self) -> Seq<char> {
        match self {
            DtlsFingerprintAlgorithm::Sha256 => "sha-256"@,
            DtlsFingerprintAlgorithm::Sha1 => "sha-1"@,
        }
    }

    /// SDP name of the algorithm.
    pub fn as_str(self) -> (name: &'static str)
        ensures
            name@ == self.name(),
    {
        match self {
            DtlsFingerprintAlgorithm::Sha256 => "sha-256",
            DtlsFingerprintAlgorithm::Sha1 => "sha-1",
        }
    }
}

/// Errors of DTLS settings.
#[derive(Debug, PartialEq, Eq)]
pub enum DtlsError {
    /// The fingerprint algorithm is not supported; holds its lower-case name.
    UnsupportedFingerprintAlgorithm(String),
}

/// Settings of the DTLS transport.
#[derive(Debug, PartialEq, Eq)]
pub struct DtlsConfig {
    /// SDP name of the fingerprint algorithm.
    pub fingerprint_algorithm: String,
    /// Skip certificate verification; for development only.
    pub insecure_skip_verify: bool,
}

impl Clone for DtlsConfig {
    fn clone(&self) -> (copy: Self)
        ensures
            copy.fingerprint_algorithm@ == self.fingerprint_algorithm@,
            copy.insecure_skip_verify == self.insecure_skip_verify,
    {
        DtlsConfig {
            fingerprint_algorithm: self.fingerprint_algorithm.clone(),
            insecure_skip_verify: self.insecure_skip_verify,
        }
    }
}

impl Default for DtlsConfig {
    /// SHA-256 fingerprints, with verification.
    fn default() -> (config: Self)
        ensures
            config.fingerprint_algorithm@ == "sha-256"@,
            !config.insecure_skip_verify,
            algorithm_named(config.fingerprint_algorithm@) == Some(
                DtlsFingerprintAlgorithm::Sha256,
            ),
    {
        proof {
            law_name_round_trip(DtlsFingerprintAlgorithm::Sha256);
        }
        DtlsConfig { fingerprint_algorithm: "sha-256".to_owned(), insecure_skip_verify: false }
    }
}

/// Whether this is the outcome of looking up an algorithm name.
pub open spec fn looked_up(
    name: Seq<char>,
    found: Result<DtlsFingerprintAlgorithm, DtlsError>,
) -> bool {
    match algorithm_named(name) {
        Some(algorithm) => found == Ok::<DtlsFingerprintAlgorithm, DtlsError>(algorithm),
        None => found matches Err(DtlsError::UnsupportedFingerprintAlgorithm(rejected))
            && rejected@ == text::lower(name),
    }
}

impl DtlsConfig {
    /// Algorithm that the settings name, if it is supported.
    pub fn validate(&self) -> (found: Result<DtlsFingerprintAlgorithm, DtlsError>)
        ensures
            looked_up(self.fingerprint_algorithm@, found),
    {
        fingerprint_algorithm_enum(self.fingerprint_algorithm.as_str())
    }
}

/// Algorithm that an SDP name stands for, in any mix of upper and lower case.
pub fn fingerprint_algorithm_enum(alg: &str) -> (found: Result<
    DtlsFingerprintAlgorithm,
    DtlsError,
>)
    ensures
        looked_up(alg@, found),
{
    let name = alg.to_ascii_lowercase();
    if name == "sha-256".to_owned() {
        Ok(DtlsFingerprintAlgorithm::Sha256)
    } else if name == "sha-1".to_owned() {
        Ok(DtlsFingerprintAlgorithm::Sha1)
    } else {
        Err(DtlsError::UnsupportedFingerprintAlgorithm(name))
    }
}

/// Looking up the name of an algorithm gives that algorithm back.
pub proof fn law_name_round_trip(algorithm: DtlsFingerprintAlgorithm)
    ensures
        algorithm_named(algorithm.name()) == Some(algorithm),
{
    reveal_strlit("sha-256");
    reveal_strlit("sha-1");
    assert(text::lower(algorithm.name()) =~= algorithm.name());
    assert("sha-256"@.len() != "sha-1"@.len());
}

/// Upper and lower case do not matter in algorithm names.
pub proof fn law_lookup_ignores_case(name: Seq<char>, other: Seq<char>)
    requires
        text::lower(name) == text::lower(other),
    ensures
        algorithm_named(name) == algorithm_named(other),
{
}

/// The names `sha-256` and `sha-1`, in any mix of upper and lower case, stand for
/// their algorithms; every other name is refused and reported in lower case.
pub proof fn law_algorithms_have_their_names(
    name: &str,
    found: Result<DtlsFingerprintAlgorithm, DtlsError>,
)
    requires
        call_ensures(fingerprint_algorithm_enum, (name,), found),
    ensures
        found == Ok::<DtlsFingerprintAlgorithm, DtlsError>(DtlsFingerprintAlgorithm::Sha256)
            <==> text::lower(name@) == "sha-256"@,
        found == Ok::<DtlsFingerprintAlgorithm, DtlsError>(DtlsFingerprintAlgorithm::Sha1)
            <==> text::lower(name@) == "sha-1"@,
        found matches Err(DtlsError::UnsupportedFingerprintAlgorithm(rejected)) ==> {
            &&& rejected@ == text::lower(name@)
            &&& rejected@ != "sha-256"@
            &&& rejected@ != "sha-1"@
        },
{
    reveal_strlit("sha-256");
    reveal_strlit("sha-1");
    assert("sha-256"@.len() != "sha-1"@.len());
}

/// The name that an algorithm gives is looked up as that algorithm.
pub proof fn law_given_name_is_found(
    algorithm: DtlsFingerprintAlgorithm,
    name: &'static str,
    found: Result<DtlsFingerprintAlgorithm, DtlsError>,
)
    requires
        call_ensures(DtlsFingerprintAlgorithm::as_str, (algorithm,), name),
        call_ensures(fingerprint_algorithm_enum, (name,), found),
    ensures
        found == Ok::<DtlsFingerprintAlgorithm, DtlsError>(algorithm),
        algorithm is Sha256 <==> name@ == "sha-256"@,
        algorithm is Sha1 <==> name@ == "sha-1"@,
{
    law_name_round_trip(algorithm);
    reveal_strlit("sha-256");
    reveal_strlit("sha-1");
    assert("sha-256"@.len() != "sha-1"@.len());
}

/// Checking settings is looking up the algorithm that they name, whether or not
/// certificates are verified.
pub proof fn law_checked_settings_name_an_algorithm(
    config: DtlsConfig,
    checked: Result<DtlsFingerprintAlgorithm, DtlsError>,
    name: &str,
    found: Result<DtlsFingerprintAlgorithm, DtlsError>,
)
    requires
        call_ensures(DtlsConfig::validate, (&config,), checked),
        name@ == config.fingerprint_algorithm@,
        call_ensures(fingerprint_algorithm_enum, (name,), found),
    ensures
        match (checked, found) {
            (Ok(one), Ok(other)) => one == other,
            (
                Err(DtlsError::UnsupportedFingerprintAlgorithm(one)),
                Err(DtlsError::UnsupportedFingerprintAlgorithm(other)),
            ) => one@ == other@,
            _ => false,
        },
{
}

/// The default settings verify certificates with SHA-256 fingerprints, and a copy of
/// settings is the same.
pub proof fn law_default_settings_verify(
    standard: DtlsConfig,
    checked: Result<DtlsFingerprintAlgorithm, DtlsError>,
    config: DtlsConfig,
    copy: DtlsConfig,
)
    requires
        call_ensures(<DtlsConfig as Default>::default, (), standard),
        call_ensures(DtlsConfig::validate, (&standard,), checked),
        call_ensures(DtlsConfig::clone, (&config,), copy),
    ensures
        checked == Ok::<DtlsFingerprintAlgorithm, DtlsError>(DtlsFingerprintAlgorithm::Sha256),
        !standard.insecure_skip_verify,
        copy.fingerprint_algorithm@ == config.fingerprint_algorithm@,
        copy.insecure_skip_verify == config.insecure_skip_verify,
{
}

} // verus!
