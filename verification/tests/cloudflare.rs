use telebots::cloudflare::{AiError, Input, Model};

#[test]
fn default_is_flux_1_schnell() {
    assert_eq!(Model::default(), Model::Flux1Schnell);
    assert_eq!(Model::default().path(), "@cf/black-forest-labs/flux-1-schnell");
}

#[test]
fn from_alias_matches_canonical_and_aliases_case_insensitively() {
    assert_eq!(Model::from_alias("flux-2-dev"), Some(Model::Flux2Dev));
    assert_eq!(Model::from_alias("FLUX2DEV"), Some(Model::Flux2Dev));
    assert_eq!(Model::from_alias("schnell"), Some(Model::Flux1Schnell));
    assert_eq!(Model::from_alias("sd-xl-base"), Some(Model::SdXlBase1));
}

#[test]
fn from_alias_rejects_unknown_tokens() {
    assert_eq!(Model::from_alias("flux"), None);
    assert_eq!(Model::from_alias(""), None);
}

#[test]
fn from_str_reports_the_bad_token() {
    let err = "flux".parse::<Model>().unwrap_err();
    assert!(err.message().contains("flux"));
}

#[test]
fn display_uses_canonical_name() {
    assert_eq!(Model::Flux2Dev.to_display(), "flux-2-dev");
    assert_eq!(Model::SdXlBase1.to_display(), "sd-xl-base");
}

#[test]
fn input_encoding_by_model() {
    assert_eq!(Model::Flux2Dev.input(), Input::Multipart);
    assert_eq!(Model::Flux2Klein4b.input(), Input::Multipart);
    assert_eq!(Model::Flux2Klein9b.input(), Input::Multipart);
    assert_eq!(Model::Flux1Schnell.input(), Input::Json);
    assert_eq!(Model::SdXlLightning.input(), Input::Json);
    assert_eq!(Model::Dreamshaper8Lcm.input(), Input::Json);
    assert_eq!(Model::SdXlBase1.input(), Input::Json);
}

#[test]
fn from_alias_trims_and_every_alias_resolves_to_its_model() {
    assert_eq!(Model::from_alias("  Klein-9B \n"), Some(Model::Flux2Klein9b));
    for m in Model::all() {
        for a in m.aliases() {
            assert_eq!(Model::from_alias(a), Some(m));
        }
        assert_eq!(m.as_str(), m.aliases()[0]);
    }
    assert_eq!(Model::all().len(), 7);
}

#[test]
fn parse_reports_the_trimmed_token() {
    match Model::parse("  nope ") {
        Err(AiError::InvalidModel(name)) => assert_eq!(name, "nope"),
        other => panic!("unexpected {:?}", other.map(|m| m.as_str())),
    }
    assert_eq!(Model::parse("lcm").ok(), Some(Model::Dreamshaper8Lcm));
    assert_eq!(Model::Dreamshaper8Lcm.description(), "Dreamshaper 8 LCM — fast");
    assert_eq!(AiError::MissingResponse.message(), "Cloudflare success response missing result.response");
}

use telebots::cloudflare::CloudflareAiClient;

#[test]
fn extracts_message_from_error_envelope() {
    let body = br#"{"errors":[{"code":10000,"message":"model not found"}],"success":false}"#;
    assert_eq!(
        CloudflareAiClient::error_detail(body).as_deref(),
        Some("model not found")
    );
}

#[test]
fn no_message_when_envelope_is_irregular() {
    assert_eq!(CloudflareAiClient::error_detail(b"not json"), None);
}

#[test]
fn decodes_chat_response() -> Result<(), String> {
    let body =
        br#"{"result":{"response":"Hello, World!"},"success":true,"errors":[],"messages":[]}"#;
    let chat = CloudflareAiClient::decode_chat(body).map_err(|e| e.message())?;
    assert_eq!(chat.text, "Hello, World!");
    assert_eq!(chat.usage, None);
    Ok(())
}

#[test]
fn decodes_chat_usage() -> Result<(), String> {
    let body = br#"{"result":{"response":"hi","usage":{"prompt_tokens":10,"completion_tokens":20,"total_tokens":30}},"success":true,"errors":[],"messages":[]}"#;
    let chat = CloudflareAiClient::decode_chat(body).map_err(|e| e.message())?;
    let usage = chat.usage.expect("usage present");
    assert_eq!(usage.prompt_tokens, 10);
    assert_eq!(usage.completion_tokens, 20);
    assert_eq!(usage.total_tokens, 30);
    Ok(())
}

#[test]
fn derives_total_tokens_when_missing() -> Result<(), String> {
    let body = br#"{"result":{"response":"hi","usage":{"prompt_tokens":10,"completion_tokens":20}},"success":true,"errors":[],"messages":[]}"#;
    let chat = CloudflareAiClient::decode_chat(body).map_err(|e| e.message())?;
    assert_eq!(chat.usage.expect("usage present").total_tokens, 30);
    Ok(())
}

#[test]
fn rejects_chat_with_success_false() {
    let body = br#"{"result":{},"success":false,"errors":[{"code":10000,"message":"model not found"}],"messages":[]}"#;
    let err = CloudflareAiClient::decode_chat(body).unwrap_err();
    assert!(err.message().contains("model not found"));
}

#[test]
fn rejects_chat_missing_response() {
    let body = br#"{"result":{},"success":true,"errors":[],"messages":[]}"#;
    assert!(CloudflareAiClient::decode_chat(body).is_err());
}

#[test]
fn non_json_chat_body_is_an_unexpected_payload() {
    match CloudflareAiClient::decode_chat(b"\x89PNG") {
        Err(AiError::UnexpectedPayload(_)) => {}
        other => panic!("unexpected {:?}", other.map(|c| c.text)),
    }
    let body = br#"{"success":"yes","result":{"response":"x"}}"#;
    match CloudflareAiClient::decode_chat(body) {
        Err(AiError::NotSuccess { detail }) => assert_eq!(detail, ""),
        other => panic!("unexpected {:?}", other.map(|c| c.text)),
    }
}

#[test]
fn usage_fields_default_to_zero() -> Result<(), String> {
    let body = br#"{"result":{"response":"hi","usage":{"total_tokens":0,"prompt_tokens":-1}},"success":true}"#;
    let chat = CloudflareAiClient::decode_chat(body).map_err(|e| e.message())?;
    let usage = chat.usage.expect("usage present");
    assert_eq!((usage.prompt_tokens, usage.completion_tokens, usage.total_tokens), (0, 0, 0));
    Ok(())
}

#[test]
fn every_name_selects_its_model() {
    for m in Model::all() {
        for name in m.aliases() {
            assert_eq!(Model::from_alias(name), Some(m), "{name}");
            assert_eq!(Model::from_alias(&format!("  {}\t", name.to_uppercase())), Some(m), "{name}");
        }
    }
}

#[test]
fn chat_requests_and_failed_statuses() {
    let client = CloudflareAiClient::new("acct".to_string(), "tok".to_string()).unwrap();
    assert_eq!(
        client.chat_url("@cf/meta/llama"),
        "https://api.cloudflare.com/client/v4/accounts/acct/ai/run/@cf/meta/llama"
    );
    let body = br#"{"errors":[{"message":"quota exceeded"}],"success":false}"#;
    match CloudflareAiClient::chat_outcome(429, body) {
        Err(AiError::Api { status, detail }) => {
            assert_eq!(status, 429);
            assert_eq!(detail, "quota exceeded");
        }
        _ => panic!("expected an API error"),
    }
    match CloudflareAiClient::chat_outcome(500, b"oops") {
        Err(AiError::Api { detail, .. }) => assert_eq!(detail, ""),
        _ => panic!("expected an API error"),
    }
    let ok = br#"{"result":{"response":"hi"},"success":true}"#;
    assert_eq!(CloudflareAiClient::chat_outcome(200, ok).unwrap().text, "hi");
}

#[test]
fn error_detail_needs_an_errors_array() {
    let keyed = br#"{"errors":{"0":{"message":"not a list"}},"success":false}"#;
    assert_eq!(CloudflareAiClient::error_detail(keyed), None);
    let empty = br#"{"errors":[],"success":false}"#;
    assert_eq!(CloudflareAiClient::error_detail(empty), None);
    let usage = br#"{"result":{"response":"x","usage":[]},"success":true}"#;
    let u = CloudflareAiClient::decode_chat(usage).unwrap().usage.unwrap();
    assert_eq!((u.prompt_tokens, u.completion_tokens, u.total_tokens), (0, 0, 0));
}
