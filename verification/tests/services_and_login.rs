use glass_core::asc_login::{format_tester_name, key_file_missing_message, prepare_asc_login, AscLoginRequest};
use glass_core::audio::Sound;
use glass_core::service_hub::ServiceError;

#[test]
fn login_fields_are_trimmed_and_profile_defaults() {
    let req = prepare_asc_login("  ", " KEY1 ", "\tISSUER ", "  \"/tmp/AuthKey.p8\" ").unwrap();
    assert_eq!(
        req,
        AscLoginRequest {
            profile_name: "default".to_string(),
            key_id: "KEY1".to_string(),
            issuer_id: "ISSUER".to_string(),
            private_key_path: "/tmp/AuthKey.p8".to_string(),
        }
    );
    let named = prepare_asc_login(" Work ", "K", "I", "'/k.p8'").unwrap();
    assert_eq!(named.profile_name, "Work");
    assert_eq!(named.private_key_path, "/k.p8");
}

#[test]
fn login_refuses_blank_required_fields() {
    let msg = "Please fill in Key ID, Issuer ID, and Private Key Path";
    assert_eq!(prepare_asc_login("p", " ", "I", "/k").unwrap_err(), msg);
    assert_eq!(prepare_asc_login("p", "K", "", "/k").unwrap_err(), msg);
    assert_eq!(prepare_asc_login("p", "K", "I", " '' ").unwrap_err(), msg);
    assert_eq!(
        key_file_missing_message("/k.p8"),
        "Private key file not found: /k.p8"
    );
}

#[test]
fn testers_are_named_from_what_is_known() {
    let s = |x: &str| Some(x.to_string());
    assert_eq!(format_tester_name(&s("Ada"), &s("Lovelace")), "Ada Lovelace");
    assert_eq!(format_tester_name(&s("Ada"), &None), "Ada");
    assert_eq!(format_tester_name(&None, &s("Lovelace")), "Lovelace");
    assert_eq!(format_tester_name(&None, &None), "Anonymous");
}

#[test]
fn sounds_live_under_sounds_as_wav() {
    assert_eq!(Sound::AgentDone.file(), "agent_done");
    assert_eq!(Sound::AgentDone.asset_path(), "sounds/agent_done.wav");
}

#[test]
fn service_errors_read_as_messages() {
    assert_eq!(
        ServiceError::UnknownProvider("vercel".to_string()).message(),
        "service provider `vercel` is not supported"
    );
    assert_eq!(
        ServiceError::UnexpectedArtifactKind {
            expected: "ipa or pkg".to_string(),
            actual: "app".to_string()
        }
        .message(),
        "service operation requires artifact kind `ipa or pkg`, got `app`"
    );
    assert_eq!(
        ServiceError::MissingInput("key_id".to_string()).message(),
        "service input `key_id` is required"
    );
    assert_eq!(
        ServiceError::ArtifactRequired.message(),
        "service operation requires an artifact"
    );
}
