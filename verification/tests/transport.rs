use llm_rtc::transport::dtls::{
    fingerprint_algorithm_enum, DtlsConfig, DtlsError, DtlsFingerprintAlgorithm,
};
use llm_rtc::transport::srtp::{validate_profile, SrtpConfig, SrtpError};

#[test]
fn dtls_default_config() {
    let cfg = DtlsConfig::default();
    assert_eq!(cfg.fingerprint_algorithm, "sha-256");
    assert!(!cfg.insecure_skip_verify);
    assert_eq!(cfg.validate(), Ok(DtlsFingerprintAlgorithm::Sha256));
}

#[test]
fn fingerprint_parsing() {
    assert_eq!(
        fingerprint_algorithm_enum("sha-256"),
        Ok(DtlsFingerprintAlgorithm::Sha256)
    );
    assert_eq!(
        fingerprint_algorithm_enum("sha-1"),
        Ok(DtlsFingerprintAlgorithm::Sha1)
    );
    assert!(matches!(
        fingerprint_algorithm_enum("sha-512"),
        Err(DtlsError::UnsupportedFingerprintAlgorithm(_))
    ));
}

#[test]
fn fingerprint_names_round_trip() {
    for algorithm in [
        DtlsFingerprintAlgorithm::Sha256,
        DtlsFingerprintAlgorithm::Sha1,
    ] {
        assert_eq!(fingerprint_algorithm_enum(algorithm.as_str()), Ok(algorithm));
    }
    assert_eq!(DtlsFingerprintAlgorithm::Sha256.as_str(), "sha-256");
    assert_eq!(DtlsFingerprintAlgorithm::Sha1.as_str(), "sha-1");
}

#[test]
fn fingerprint_names_ignore_case() {
    assert_eq!(
        fingerprint_algorithm_enum("SHA-256"),
        Ok(DtlsFingerprintAlgorithm::Sha256)
    );
    assert_eq!(
        fingerprint_algorithm_enum("Sha-1"),
        Ok(DtlsFingerprintAlgorithm::Sha1)
    );
}

#[test]
fn rejected_fingerprint_is_reported_in_lower_case() {
    assert_eq!(
        fingerprint_algorithm_enum("MD5-Ü"),
        Err(DtlsError::UnsupportedFingerprintAlgorithm(
            "md5-Ü".to_string()
        ))
    );
    assert_eq!(
        fingerprint_algorithm_enum(""),
        Err(DtlsError::UnsupportedFingerprintAlgorithm(String::new()))
    );
    let config = DtlsConfig {
        fingerprint_algorithm: "SHA-512".to_string(),
        ..DtlsConfig::default()
    };
    assert_eq!(
        config.clone().validate(),
        Err(DtlsError::UnsupportedFingerprintAlgorithm(
            "sha-512".to_string()
        ))
    );
    assert_eq!(config.clone(), config);
}

#[test]
fn srtp_default_config() {
    let cfg = SrtpConfig::default();
    assert_eq!(cfg.profile, "DTLS_SRTP_SHA2_256");
    assert!(cfg.enable_rtp_rtcp_mux);
    assert_eq!(cfg.replay_protection_window, 64);
    assert!(cfg.validate().is_ok());
}

#[test]
fn profile_validation() {
    assert!(validate_profile("DTLS_SRTP_SHA2_256").is_ok());
    assert!(validate_profile("dtls_srtp_sha1_80").is_ok());
    assert!(matches!(
        validate_profile("DTLS_SRTP_AES128_GCM"),
        Err(SrtpError::UnsupportedProfile(_))
    ));
}

#[test]
fn rejected_profile_is_reported_as_given() {
    assert_eq!(
        validate_profile("Dtls_Srtp_None"),
        Err(SrtpError::UnsupportedProfile("Dtls_Srtp_None".to_string()))
    );
    let config = SrtpConfig {
        profile: "x".to_string(),
        ..SrtpConfig::default()
    };
    assert_eq!(
        config.clone().validate(),
        Err(SrtpError::UnsupportedProfile("x".to_string()))
    );
}
