use base64::engine::general_purpose::URL_SAFE_NO_PAD;
use base64::Engine;
use codex_auth::auth::{
    auth_info_from_json, convert_cpa_auth_json, decode_jwt_payload, load_active_auth_info,
    parse_auth_info_data, parse_plan_type, split_jwt, standard_auth_json, AuthError, AuthInfo,
    JwtAuthClaim, JwtClaims,
};
use codex_auth::json::Json;
use codex_auth::model::{AuthMode, PlanType};

fn text(value: &serde_json::Value, name: &str) -> Option<String> {
    value.get(name).and_then(|v| v.as_str()).map(|s| s.to_owned())
}

fn read_claims(payload: Vec<u8>) -> Option<JwtClaims> {
    let value: serde_json::Value = serde_json::from_slice(&payload).ok()?;
    value.as_object()?;
    Some(JwtClaims {
        email: text(&value, "email"),
        auth: value.get("https://api.openai.com/auth").map(|auth| JwtAuthClaim {
            chatgpt_account_id: text(auth, "chatgpt_account_id"),
            chatgpt_plan_type: text(auth, "chatgpt_plan_type"),
            chatgpt_user_id: text(auth, "chatgpt_user_id"),
            user_id: text(auth, "user_id"),
        }),
    })
}

fn token(claims: &str) -> String {
    format!("header.{}.signature", URL_SAFE_NO_PAD.encode(claims))
}

fn file(id_token: &str, account_id: &str) -> String {
    standard_auth_json(id_token, "access", "refresh", account_id, "2024-05-01")
}

fn parse(data: &str) -> Result<AuthInfo, AuthError> {
    parse_auth_info_data(data.as_bytes(), read_claims)
}

const CLAIMS: &str = r#"{"email":"John@Example.com","https://api.openai.com/auth":{"chatgpt_account_id":"acc-1","chatgpt_plan_type":"Team","chatgpt_user_id":"user-1"}}"#;

#[test]
fn full_auth_file() {
    let info = parse(&file(&token(CLAIMS), "acc-1")).unwrap();
    assert_eq!(info.email.as_deref(), Some("john@example.com"));
    assert_eq!(info.chatgpt_account_id.as_deref(), Some("acc-1"));
    assert_eq!(info.chatgpt_user_id.as_deref(), Some("user-1"));
    assert_eq!(info.record_key.as_deref(), Some("user-1::acc-1"));
    assert_eq!(info.access_token.as_deref(), Some("access"));
    assert_eq!(info.last_refresh.as_deref(), Some("2024-05-01"));
    assert_eq!(info.plan, Some(PlanType::Team));
    assert_eq!(info.auth_mode, AuthMode::Chatgpt);
    assert!(info.openai_api_key.is_none());
}

#[test]
fn user_id_stands_in_for_chatgpt_user_id() {
    let claims = r#"{"https://api.openai.com/auth":{"chatgpt_account_id":"acc-1","user_id":"u2"}}"#;
    let info = parse(&file(&token(claims), "acc-1")).unwrap();
    assert_eq!(info.record_key.as_deref(), Some("u2::acc-1"));
    assert!(info.email.is_none());
    assert!(info.plan.is_none());
}

#[test]
fn claims_about_another_account_name_no_user() {
    let info = parse(&file(&token(CLAIMS), "acc-2")).unwrap();
    assert!(info.record_key.is_none());
    assert!(info.email.is_none());
    assert_eq!(info.chatgpt_account_id.as_deref(), Some("acc-2"));
    assert_eq!(info.access_token.as_deref(), Some("access"));
}

#[test]
fn no_identity_token() {
    let info = parse(&file("", "acc-1")).unwrap();
    assert!(info.record_key.is_none());
    assert_eq!(info.chatgpt_account_id.as_deref(), Some("acc-1"));
    assert_eq!(info.auth_mode, AuthMode::Chatgpt);
}

#[test]
fn api_key_file() {
    let data = format!(r#"{{"OPENAI_API_KEY":"sk-1","tokens":{{"id_token":"{}"}}}}"#, token(CLAIMS));
    let info = parse(&data).unwrap();
    assert_eq!(info.auth_mode, AuthMode::Apikey);
    assert_eq!(info.openai_api_key.as_deref(), Some("sk-1"));
    assert!(info.record_key.is_none());
    assert!(info.access_token.is_none());
    let empty = parse(r#"{"OPENAI_API_KEY":""}"#).unwrap();
    assert_eq!(empty.auth_mode, AuthMode::Chatgpt);
}

#[test]
fn refused_auth_files() {
    assert_eq!(parse("{").unwrap_err(), AuthError::InvalidJson);
    assert_eq!(parse("[1]").unwrap_err(), AuthError::NotAnObject);
    assert_eq!(parse(&file("only.two", "a")).unwrap_err(), AuthError::InvalidJwt);
    assert_eq!(parse(&file("a.!!.c", "a")).unwrap_err(), AuthError::InvalidBase64);
    assert_eq!(parse(&file(&token("[]"), "a")).unwrap_err(), AuthError::InvalidClaims);
    assert_eq!(AuthError::InvalidJson.message(), "invalid auth json");
    assert_eq!(AuthError::NotAnObject.message(), "auth file root must be an object");
    assert_eq!(AuthError::InvalidJwt.message(), "invalid jwt");
    assert_eq!(AuthError::InvalidBase64.message(), "invalid base64url jwt payload");
    assert_eq!(AuthError::InvalidClaims.message(), "invalid jwt payload json");
}

#[test]
fn document_without_bytes() {
    let root = Json::Object(vec![("OPENAI_API_KEY".to_owned(), Json::Text("k".to_owned()))]);
    let info = auth_info_from_json(&root, read_claims).unwrap();
    assert_eq!(info.openai_api_key.as_deref(), Some("k"));
    assert_eq!(
        auth_info_from_json(&Json::Array(Vec::new()), read_claims).unwrap_err(),
        AuthError::NotAnObject
    );
}

#[test]
fn token_parts() {
    assert_eq!(split_jwt("a.b.c").as_deref(), Some("b"));
    assert_eq!(split_jwt("a.b.c.d").as_deref(), Some("b"));
    assert_eq!(split_jwt("..").as_deref(), Some(""));
    assert!(split_jwt("a.b").is_none());
    assert!(split_jwt("").is_none());
    assert_eq!(decode_jwt_payload("x.eyJhIjoxfQ.y").unwrap(), b"{\"a\":1}".to_vec());
}

#[test]
fn active_auth_file() {
    assert!(load_active_auth_info(None, read_claims).is_none());
    assert!(load_active_auth_info(Some(b"nonsense"), read_claims).is_none());
    let data = file(&token(CLAIMS), "acc-1");
    let info = load_active_auth_info(Some(data.as_bytes()), read_claims).unwrap();
    assert_eq!(info.record_key.as_deref(), Some("user-1::acc-1"));
}

#[test]
fn service_plans() {
    assert_eq!(parse_plan_type("free"), PlanType::Free);
    assert_eq!(parse_plan_type("PLUS"), PlanType::Plus);
    assert_eq!(parse_plan_type("Pro"), PlanType::Pro);
    assert_eq!(parse_plan_type("team"), PlanType::Team);
    assert_eq!(parse_plan_type("business"), PlanType::Business);
    assert_eq!(parse_plan_type("enterprise"), PlanType::Enterprise);
    assert_eq!(parse_plan_type("edu"), PlanType::Edu);
    assert_eq!(parse_plan_type("prolite"), PlanType::Unknown);
    assert_eq!(parse_plan_type(""), PlanType::Unknown);
}

#[test]
fn cpa_file_becomes_a_standard_file() {
    let data = br#"{"refresh_token":"r","id_token":"i\"\n","account_id":"acc","extra":1}"#;
    let expected = "{\n  \"auth_mode\": \"chatgpt\",\n  \"OPENAI_API_KEY\": null,\n  \"tokens\": {\n    \"id_token\": \"i\\\"\\n\",\n    \"access_token\": \"\",\n    \"refresh_token\": \"r\",\n    \"account_id\": \"acc\"\n  },\n  \"last_refresh\": \"\"\n}\n";
    let converted = convert_cpa_auth_json(data).unwrap();
    assert_eq!(String::from_utf8(converted).unwrap(), expected);
}

#[test]
fn converted_tokens_are_read_back() {
    let id_token = token(CLAIMS);
    let data = format!(
        r#"{{"refresh_token":"r","id_token":"{id_token}","access_token":"caf\u00e9 \\ \t","account_id":"acc-1","last_refresh":"now"}}"#
    );
    let converted = convert_cpa_auth_json(data.as_bytes()).unwrap();
    let value: serde_json::Value = serde_json::from_slice(&converted).unwrap();
    assert_eq!(value["tokens"]["refresh_token"].as_str(), Some("r"));
    assert_eq!(value["auth_mode"].as_str(), Some("chatgpt"));
    assert!(value["OPENAI_API_KEY"].is_null());
    let info = parse_auth_info_data(&converted, read_claims).unwrap();
    assert_eq!(info.access_token.as_deref(), Some("café \\ \t"));
    assert_eq!(info.chatgpt_account_id.as_deref(), Some("acc-1"));
    assert_eq!(info.last_refresh.as_deref(), Some("now"));
    assert_eq!(info.record_key.as_deref(), Some("user-1::acc-1"));
}

#[test]
fn refused_cpa_files() {
    assert_eq!(convert_cpa_auth_json(b"nope").unwrap_err(), AuthError::InvalidCpaJson);
    assert_eq!(convert_cpa_auth_json(b"[]").unwrap_err(), AuthError::InvalidCpaFormat);
    assert_eq!(convert_cpa_auth_json(b"{}").unwrap_err(), AuthError::MissingRefreshToken);
    assert_eq!(
        convert_cpa_auth_json(br#"{"refresh_token":""}"#).unwrap_err(),
        AuthError::MissingRefreshToken
    );
    assert_eq!(AuthError::InvalidCpaJson.message(), "invalid CPA json");
    assert_eq!(AuthError::InvalidCpaFormat.message(), "invalid CPA format");
    assert_eq!(AuthError::MissingRefreshToken.message(), "missing refresh_token");
}
