//! What an `auth.json` file says of the account that it signs in.

use vstd::prelude::*;
use vstd::utf8::encode_utf8;

use crate::encoding::{base64url_bytes, base64url_decode, json_literal, json_string};
use crate::json::{document_of, parse, standard_file_is_read, Json, JsonView};
use crate::model::{AuthMode, PlanType};
use crate::text::{
    ascii_lower, chars_of, concat, copy_option, option_str_view, option_view, same, string_of,
    to_lower,
};

verus! {

/// Why an auth file was refused.
#[derive(Debug, Clone, Copy, PartialEq, Eq, Structural)]
pub enum AuthError {
    InvalidJson,
    NotAnObject,
    InvalidJwt,
    InvalidBase64,
    InvalidClaims,
    InvalidCpaJson,
    InvalidCpaFormat,
    MissingRefreshToken,
}

/// The message of an error.
pub open spec fn auth_error_text(error: AuthError) -> Seq<char> {
    match error {
        AuthError::InvalidJson => "invalid auth json"@,
        AuthError::NotAnObject => "auth file root must be an object"@,
        AuthError::InvalidJwt => "invalid jwt"@,
        AuthError::InvalidBase64 => "invalid base64url jwt payload"@,
        AuthError::InvalidClaims => "invalid jwt payload json"@,
        AuthError::InvalidCpaJson => "invalid CPA json"@,
        AuthError::InvalidCpaFormat => "invalid CPA format"@,
        AuthError::MissingRefreshToken => "missing refresh_token"@,
    }
}

impl AuthError {
    /// The message for the user.
    pub fn message(self) -> (s: &'static str)
        ensures
            s@ == auth_error_text(self),
    {
        match self {
            AuthError::InvalidJson => "invalid auth json",
            AuthError::NotAnObject => "auth file root must be an object",
            AuthError::InvalidJwt => "invalid jwt",
            AuthError::InvalidBase64 => "invalid base64url jwt payload",
            AuthError::InvalidClaims => "invalid jwt payload json",
            AuthError::InvalidCpaJson => "invalid CPA json",
            AuthError::InvalidCpaFormat => "invalid CPA format",
            AuthError::MissingRefreshToken => "missing refresh_token",
        }
    }
}

/// What an auth file says.
#[derive(Debug)]
pub struct AuthInfo {
    pub email: Option<String>,
    pub chatgpt_account_id: Option<String>,
    pub chatgpt_user_id: Option<String>,
    pub record_key: Option<String>,
    pub access_token: Option<String>,
    pub last_refresh: Option<String>,
    pub plan: Option<PlanType>,
    pub auth_mode: AuthMode,
    pub openai_api_key: Option<String>,
}

/// The model of [`AuthInfo`].
#[verifier::ext_equal]
pub struct AuthView {
    pub email: Option<Seq<char>>,
    pub chatgpt_account_id: Option<Seq<char>>,
    pub chatgpt_user_id: Option<Seq<char>>,
    pub record_key: Option<Seq<char>>,
    pub access_token: Option<Seq<char>>,
    pub last_refresh: Option<Seq<char>>,
    pub plan: Option<PlanType>,
    pub auth_mode: AuthMode,
    pub openai_api_key: Option<Seq<char>>,
}

impl View for AuthInfo {
    type V = AuthView;

    open spec fn view(&self) -> AuthView {
        AuthView {
            email: option_view(self.email),
            chatgpt_account_id: option_view(self.chatgpt_account_id),
            chatgpt_user_id: option_view(self.chatgpt_user_id),
            record_key: option_view(self.record_key),
            access_token: option_view(self.access_token),
            last_refresh: option_view(self.last_refresh),
            plan: self.plan,
            auth_mode: self.auth_mode,
            openai_api_key: option_view(self.openai_api_key),
        }
    }
}

impl Clone for AuthInfo {
    fn clone(&self) -> (r: Self)
        ensures
            r@ == self@,
    {
        AuthInfo {
            email: copy_option(&self.email),
            chatgpt_account_id: copy_option(&self.chatgpt_account_id),
            chatgpt_user_id: copy_option(&self.chatgpt_user_id),
            record_key: copy_option(&self.record_key),
            access_token: copy_option(&self.access_token),
            last_refresh: copy_option(&self.last_refresh),
            plan: self.plan,
            auth_mode: self.auth_mode,
            openai_api_key: copy_option(&self.openai_api_key),
        }
    }
}

/// The part of the claims of an identity token that is about the account.
#[derive(Debug)]
pub struct JwtAuthClaim {
    pub chatgpt_account_id: Option<String>,
    pub chatgpt_plan_type: Option<String>,
    pub chatgpt_user_id: Option<String>,
    pub user_id: Option<String>,
}

/// The claims of an identity token.
#[derive(Debug)]
pub struct JwtClaims {
    pub email: Option<String>,
    pub auth: Option<JwtAuthClaim>,
}

/// The model of [`JwtAuthClaim`].
#[verifier::ext_equal]
pub struct AuthClaimView {
    pub chatgpt_account_id: Option<Seq<char>>,
    pub chatgpt_plan_type: Option<Seq<char>>,
    pub chatgpt_user_id: Option<Seq<char>>,
    pub user_id: Option<Seq<char>>,
}

impl View for JwtAuthClaim {
    type V = AuthClaimView;

    open spec fn view(&self) -> AuthClaimView {
        AuthClaimView {
            chatgpt_account_id: option_view(self.chatgpt_account_id),
            chatgpt_plan_type: option_view(self.chatgpt_plan_type),
            chatgpt_user_id: option_view(self.chatgpt_user_id),
            user_id: option_view(self.user_id),
        }
    }
}

/// The model of [`JwtClaims`].
#[verifier::ext_equal]
pub struct ClaimsView {
    pub email: Option<Seq<char>>,
    pub auth: Option<AuthClaimView>,
}

impl View for JwtClaims {
    type V = ClaimsView;

    open spec fn view(&self) -> ClaimsView {
        ClaimsView {
            email: option_view(self.email),
            auth: match self.auth {
                Some(auth) => Some(auth@),
                None => None,
            },
        }
    }
}

/// The plan that a service names, in any case; a name that it does not use for a plan is unknown.
pub open spec fn plan_of(value: Seq<char>) -> PlanType {
    let name = ascii_lower(value);
    if name == "free"@ {
        PlanType::Free
    } else if name == "plus"@ {
        PlanType::Plus
    } else if name == "pro"@ {
        PlanType::Pro
    } else if name == "team"@ {
        PlanType::Team
    } else if name == "business"@ {
        PlanType::Business
    } else if name == "enterprise"@ {
        PlanType::Enterprise
    } else if name == "edu"@ {
        PlanType::Edu
    } else {
        PlanType::Unknown
    }
}

/// The plan that a service names.
pub fn parse_plan_type(value: &str) -> (plan: PlanType)
    ensures
        plan == plan_of(value@),
{
    let lower = to_lower(value);
    let name = lower.as_str();
    if same(name, "free") {
        PlanType::Free
    } else if same(name, "plus") {
        PlanType::Plus
    } else if same(name, "pro") {
        PlanType::Pro
    } else if same(name, "team") {
        PlanType::Team
    } else if same(name, "business") {
        PlanType::Business
    } else if same(name, "enterprise") {
        PlanType::Enterprise
    } else if same(name, "edu") {
        PlanType::Edu
    } else {
        PlanType::Unknown
    }
}

/// The first dot at or behind a position, or the length where there is none.
pub open spec fn dot_from(s: Seq<char>, from: int) -> int
    decreases s.len() - from,
{
    if from >= s.len() {
        s.len() as int
    } else if s[from] == '.' {
        from
    } else {
        dot_from(s, from + 1)
    }
}

/// The second of the parts between dots, where there are at least three.
pub open spec fn jwt_payload(jwt: Seq<char>) -> Option<Seq<char>> {
    let first = dot_from(jwt, 0);
    let second = dot_from(jwt, first + 1);
    if second < jwt.len() {
        Some(jwt.subrange(first + 1, second))
    } else {
        None
    }
}

/// The decoded payload of a token.
pub open spec fn jwt_bytes(jwt: Seq<char>) -> Result<Seq<u8>, AuthError> {
    match jwt_payload(jwt) {
        Some(payload) => match base64url_bytes(payload) {
            Some(data) => Ok(data),
            None => Err(AuthError::InvalidBase64),
        },
        None => Err(AuthError::InvalidJwt),
    }
}

fn find_dot(chars: &Vec<char>, from: usize) -> (i: usize)
    requires
        from <= chars.len(),
    ensures
        from <= i <= chars.len(),
        i == dot_from(chars@, from as int),
{
    let mut i: usize = from;
    while i < chars.len() && chars[i] != '.'
        invariant
            from <= i <= chars.len(),
            dot_from(chars@, from as int) == dot_from(chars@, i as int),
        decreases chars.len() - i,
    {
        i = i + 1;
    }
    i
}

/// The text between the first two dots of a token.
pub fn split_jwt(jwt: &str) -> (r: Option<String>)
    ensures
        option_view(r) == jwt_payload(jwt@),
{
    let chars = chars_of(jwt);
    let first = find_dot(&chars, 0);
    if first == chars.len() {
        return None;
    }
    let second = find_dot(&chars, first + 1);
    if second == chars.len() {
        return None;
    }
    Some(string_of(vstd::slice::slice_subrange(chars.as_slice(), first + 1, second)))
}

/// The decoded payload of a token.
pub fn decode_jwt_payload(jwt: &str) -> (r: Result<Vec<u8>, AuthError>)
    ensures
        match r {
            Ok(data) => jwt_bytes(jwt@) == Ok::<Seq<u8>, AuthError>(data@),
            Err(error) => jwt_bytes(jwt@) == Err::<Seq<u8>, AuthError>(error),
        },
{
    match split_jwt(jwt) {
        Some(payload) => match base64url_decode(payload.as_str()) {
            Ok(data) => Ok(data),
            Err(_) => Err(AuthError::InvalidBase64),
        },
        None => Err(AuthError::InvalidJwt),
    }
}

/// A text of the `tokens` object that is there and not empty.
pub open spec fn token_of(root: JsonView, name: Seq<char>) -> Option<Seq<char>> {
    match root.member("tokens"@) {
        Some(tokens) => tokens.filled_member(name),
        None => None,
    }
}

/// The file holds nothing but an API key.
pub open spec fn api_key_auth(key: Seq<char>) -> AuthView {
    AuthView {
        email: None,
        chatgpt_account_id: None,
        chatgpt_user_id: None,
        record_key: None,
        access_token: None,
        last_refresh: None,
        plan: None,
        auth_mode: AuthMode::Apikey,
        openai_api_key: Some(key),
    }
}

/// The file names no user: what its tokens say, and no more.
pub open spec fn unidentified_auth(root: JsonView) -> AuthView {
    AuthView {
        email: None,
        chatgpt_account_id: token_of(root, "account_id"@),
        chatgpt_user_id: None,
        record_key: None,
        access_token: token_of(root, "access_token"@),
        last_refresh: root.filled_member("last_refresh"@),
        plan: None,
        auth_mode: AuthMode::Chatgpt,
        openai_api_key: None,
    }
}

/// The key of an account: the user, two colons, the account of the service.
pub open spec fn record_key_of(user: Seq<char>, account: Seq<char>) -> Seq<char> {
    user + "::"@ + account
}

/// The user that the claims name.
pub open spec fn claimed_user(auth: AuthClaimView) -> Option<Seq<char>> {
    match auth.chatgpt_user_id {
        Some(user) => Some(user),
        None => auth.user_id,
    }
}

/// The file with the claims of its identity token: the user is taken from the claims only where
/// they are about the account that the tokens name.
pub open spec fn claimed_auth(root: JsonView, claims: ClaimsView) -> AuthView {
    match (token_of(root, "account_id"@), claims.auth) {
        (Some(account), Some(auth)) => match claimed_user(auth) {
            Some(user) => if auth.chatgpt_account_id == Some(account) {
                AuthView {
                    email: match claims.email {
                        Some(email) => Some(ascii_lower(email)),
                        None => None,
                    },
                    chatgpt_account_id: Some(account),
                    chatgpt_user_id: Some(user),
                    record_key: Some(record_key_of(user, account)),
                    access_token: token_of(root, "access_token"@),
                    last_refresh: root.filled_member("last_refresh"@),
                    plan: match auth.chatgpt_plan_type {
                        Some(plan) => Some(plan_of(plan)),
                        None => None,
                    },
                    auth_mode: AuthMode::Chatgpt,
                    openai_api_key: None,
                }
            } else {
                unidentified_auth(root)
            },
            None => unidentified_auth(root),
        },
        _ => unidentified_auth(root),
    }
}

/// How far the file itself goes, before the claims of an identity token are read.
pub enum AuthStepView {
    Done(Result<AuthView, AuthError>),
    /// The payload of the identity token holds the claims.
    ReadClaims(Seq<u8>),
}

/// What the document of an auth file says.
pub open spec fn auth_step(root: JsonView) -> AuthStepView {
    if !(root is Object) {
        AuthStepView::Done(Err(AuthError::NotAnObject))
    } else if let Some(key) = root.filled_member("OPENAI_API_KEY"@) {
        AuthStepView::Done(Ok(api_key_auth(key)))
    } else if let Some(id_token) = token_of(root, "id_token"@) {
        match jwt_bytes(id_token) {
            Ok(payload) => AuthStepView::ReadClaims(payload),
            Err(error) => AuthStepView::Done(Err(error)),
        }
    } else {
        AuthStepView::Done(Ok(unidentified_auth(root)))
    }
}

/// What the file says once the claims are read, or could not be.
pub open spec fn auth_with_claims(root: JsonView, claims: Option<ClaimsView>) -> Result<
    AuthView,
    AuthError,
> {
    match claims {
        Some(claims) => Ok(claimed_auth(root, claims)),
        None => Err(AuthError::InvalidClaims),
    }
}

/// The model of a result.
pub open spec fn auth_result_view(r: Result<AuthInfo, AuthError>) -> Result<AuthView, AuthError> {
    match r {
        Ok(info) => Ok(info@),
        Err(error) => Err(error),
    }
}

/// The model of claims that may be missing.
pub open spec fn option_claims_view(claims: Option<JwtClaims>) -> Option<ClaimsView> {
    match claims {
        Some(claims) => Some(claims@),
        None => None,
    }
}

/// `r` is what the document says, where `read_claims` reads the payload of the identity token.
pub open spec fn auth_outcome<F: Fn(Vec<u8>) -> Option<JwtClaims>>(
    root: JsonView,
    read_claims: F,
    r: Result<AuthView, AuthError>,
) -> bool {
    match auth_step(root) {
        AuthStepView::Done(done) => r == done,
        AuthStepView::ReadClaims(payload) => exists|data: Vec<u8>, claims: Option<JwtClaims>|
            {
                &&& data@ == payload
                &&& #[trigger] read_claims.ensures((data,), claims)
                &&& r == auth_with_claims(root, option_claims_view(claims))
            },
    }
}

fn owned(s: Option<&str>) -> (r: Option<String>)
    ensures
        option_view(r) == option_str_view(s),
{
    match s {
        Some(s) => Some(s.to_owned()),
        None => None,
    }
}

fn token<'a>(root: &'a Json, name: &str) -> (r: Option<&'a str>)
    ensures
        option_str_view(r) == token_of(root@, name@),
{
    match root.get("tokens") {
        Some(tokens) => tokens.filled_member(name),
        None => None,
    }
}

fn unidentified(root: &Json) -> (info: AuthInfo)
    ensures
        info@ == unidentified_auth(root@),
{
    AuthInfo {
        email: None,
        chatgpt_account_id: owned(token(root, "account_id")),
        chatgpt_user_id: None,
        record_key: None,
        access_token: owned(token(root, "access_token")),
        last_refresh: owned(root.filled_member("last_refresh")),
        plan: None,
        auth_mode: AuthMode::Chatgpt,
        openai_api_key: None,
    }
}

/// What a file says with the claims of its identity token.
pub fn auth_info_from_claims(root: &Json, claims: JwtClaims) -> (info: AuthInfo)
    ensures
        info@ == claimed_auth(root@, claims@),
{
    let JwtClaims { email, auth } = claims;
    let (account, auth) = match (token(root, "account_id"), auth) {
        (Some(account), Some(auth)) => (account, auth),
        _ => {
            return unidentified(root);
        },
    };
    let JwtAuthClaim { chatgpt_account_id, chatgpt_plan_type, chatgpt_user_id, user_id } = auth;
    let user = match chatgpt_user_id {
        Some(user) => Some(user),
        None => user_id,
    };
    match (chatgpt_account_id, user) {
        (Some(claimed), Some(user)) if same(account, claimed.as_str()) => {
            let key = concat(concat(user.as_str(), "::").as_str(), account);
            AuthInfo {
                email: match email {
                    Some(email) => Some(to_lower(email.as_str())),
                    None => None,
                },
                chatgpt_account_id: Some(account.to_owned()),
                chatgpt_user_id: Some(user),
                record_key: Some(key),
                access_token: owned(token(root, "access_token")),
                last_refresh: owned(root.filled_member("last_refresh")),
                plan: match chatgpt_plan_type {
                    Some(plan) => Some(parse_plan_type(plan.as_str())),
                    None => None,
                },
                auth_mode: AuthMode::Chatgpt,
                openai_api_key: None,
            }
        },
        _ => unidentified(root),
    }
}

/// What the document of an auth file says. `read_claims` reads the claims in the payload of an
/// identity token, or nothing where they are malformed.
pub fn auth_info_from_json<F: Fn(Vec<u8>) -> Option<JwtClaims>>(root: &Json, read_claims: F) -> (r:
    Result<AuthInfo, AuthError>)
    requires
        forall|payload: Vec<u8>| #[trigger] read_claims.requires((payload,)),
    ensures
        auth_outcome(root@, read_claims, auth_result_view(r)),
{
    if !root.is_object() {
        return Err(AuthError::NotAnObject);
    }
    if let Some(key) = root.filled_member("OPENAI_API_KEY") {
        return Ok(
            AuthInfo {
                email: None,
                chatgpt_account_id: None,
                chatgpt_user_id: None,
                record_key: None,
                access_token: None,
                last_refresh: None,
                plan: None,
                auth_mode: AuthMode::Apikey,
                openai_api_key: Some(key.to_owned()),
            },
        );
    }
    if let Some(id_token) = token(root, "id_token") {
        let payload = match decode_jwt_payload(id_token) {
            Ok(payload) => payload,
            Err(error) => {
                return Err(error);
            },
        };
        let claims = read_claims(payload);
        match claims {
            Some(claims) => Ok(auth_info_from_claims(root, claims)),
            None => Err(AuthError::InvalidClaims),
        }
    } else {
        Ok(unidentified(root))
    }
}

/// `r` is what the bytes of an auth file say, where `read_claims` reads the payload of the identity
/// token.
pub open spec fn auth_data_outcome<F: Fn(Vec<u8>) -> Option<JwtClaims>>(
    data: Seq<u8>,
    read_claims: F,
    r: Result<AuthView, AuthError>,
) -> bool {
    match document_of(data) {
        Some(root) => auth_outcome(root, read_claims, r),
        None => r == Err::<AuthView, AuthError>(AuthError::InvalidJson),
    }
}

/// What the bytes of an auth file say.
pub fn parse_auth_info_data<F: Fn(Vec<u8>) -> Option<JwtClaims>>(
    data: &[u8],
    read_claims: F,
) -> (r: Result<AuthInfo, AuthError>)
    requires
        forall|payload: Vec<u8>| #[trigger] read_claims.requires((payload,)),
    ensures
        auth_data_outcome(data@, read_claims, auth_result_view(r)),
        standard_file_is_read(data@, document_of(data@)),
{
    match parse(data) {
        Some(root) => auth_info_from_json(&root, read_claims),
        None => Err(AuthError::InvalidJson),
    }
}

/// What the active auth file says, where there is one and it can be read as one.
pub fn load_active_auth_info<F: Fn(Vec<u8>) -> Option<JwtClaims>>(
    data: Option<&[u8]>,
    read_claims: F,
) -> (r: Option<AuthInfo>)
    requires
        forall|payload: Vec<u8>| #[trigger] read_claims.requires((payload,)),
    ensures
        match data {
            Some(data) => exists|outcome: Result<AuthView, AuthError>|
                {
                    &&& #[trigger] auth_data_outcome(data@, read_claims, outcome)
                    &&& r is Some == outcome is Ok
                    &&& r matches Some(info) ==> outcome->Ok_0 == info@
                },
            None => r is None,
        },
{
    match data {
        Some(data) => {
            let outcome = parse_auth_info_data(data, read_claims);
            assert(auth_data_outcome(data@, read_claims, auth_result_view(outcome)));
            match outcome {
                Ok(info) => Some(info),
                Err(_) => None,
            }
        },
        None => None,
    }
}

/// What a standard auth file is made of.
#[verifier::ext_equal]
pub struct TokensView {
    pub id_token: Seq<char>,
    pub access_token: Seq<char>,
    pub refresh_token: Seq<char>,
    pub account_id: Seq<char>,
    pub last_refresh: Seq<char>,
}

/// The file as Codex itself writes it, with the given tokens.
pub open spec fn standard_auth_text(tokens: TokensView) -> Seq<char> {
    "{\n  \"auth_mode\": \"chatgpt\",\n  \"OPENAI_API_KEY\": null,\n  \"tokens\": {\n    \"id_token\": "@
        + json_literal(tokens.id_token) + ",\n    \"access_token\": "@ + json_literal(
        tokens.access_token,
    ) + ",\n    \"refresh_token\": "@ + json_literal(tokens.refresh_token)
        + ",\n    \"account_id\": "@ + json_literal(tokens.account_id)
        + "\n  },\n  \"last_refresh\": "@ + json_literal(tokens.last_refresh) + "\n}\n"@
}

/// The document that a standard auth file with the given tokens spells.
pub open spec fn is_standard_document(root: JsonView, tokens: TokensView) -> bool {
    &&& root is Object
    &&& root.text_member("auth_mode"@) == Some("chatgpt"@)
    &&& root.member("OPENAI_API_KEY"@) == Some(JsonView::Null)
    &&& root.text_member("last_refresh"@) == Some(tokens.last_refresh)
    &&& root.member("tokens"@) matches Some(inner) && {
        &&& inner is Object
        &&& inner.text_member("id_token"@) == Some(tokens.id_token)
        &&& inner.text_member("access_token"@) == Some(tokens.access_token)
        &&& inner.text_member("refresh_token"@) == Some(tokens.refresh_token)
        &&& inner.text_member("account_id"@) == Some(tokens.account_id)
    }
}

/// A text member, or the empty text.
pub open spec fn text_or_empty(root: JsonView, name: Seq<char>) -> Seq<char> {
    match root.text_member(name) {
        Some(s) => s,
        None => Seq::empty(),
    }
}

/// The tokens of a CPA document, where it is one.
pub open spec fn cpa_tokens(root: JsonView) -> Result<TokensView, AuthError> {
    if !(root is Object) {
        Err(AuthError::InvalidCpaFormat)
    } else {
        match root.filled_member("refresh_token"@) {
            Some(refresh_token) => Ok(
                TokensView {
                    id_token: text_or_empty(root, "id_token"@),
                    access_token: text_or_empty(root, "access_token"@),
                    refresh_token,
                    account_id: text_or_empty(root, "account_id"@),
                    last_refresh: text_or_empty(root, "last_refresh"@),
                },
            ),
            None => Err(AuthError::MissingRefreshToken),
        }
    }
}

/// The standard file that a CPA document becomes.
pub open spec fn converted_cpa(root: JsonView) -> Result<Seq<char>, AuthError> {
    match cpa_tokens(root) {
        Ok(tokens) => Ok(standard_auth_text(tokens)),
        Err(error) => Err(error),
    }
}

fn text_field<'a>(root: &'a Json, name: &str) -> (r: &'a str)
    ensures
        r@ == text_or_empty(root@, name@),
{
    match root.text_member(name) {
        Some(s) => s,
        None => {
            proof {
                reveal_strlit("");
                assert(""@ =~= Seq::empty());
            }
            ""
        },
    }
}

/// The standard file with the given tokens.
pub fn standard_auth_json(
    id_token: &str,
    access_token: &str,
    refresh_token: &str,
    account_id: &str,
    last_refresh: &str,
) -> (r: String)
    ensures
        r@ == standard_auth_text(
            TokensView {
                id_token: id_token@,
                access_token: access_token@,
                refresh_token: refresh_token@,
                account_id: account_id@,
                last_refresh: last_refresh@,
            },
        ),
{
    let mut r = "{\n  \"auth_mode\": \"chatgpt\",\n  \"OPENAI_API_KEY\": null,\n  \"tokens\": {\n    \"id_token\": ".to_owned();
    r.append(json_string(id_token).as_str());
    r.append(",\n    \"access_token\": ");
    r.append(json_string(access_token).as_str());
    r.append(",\n    \"refresh_token\": ");
    r.append(json_string(refresh_token).as_str());
    r.append(",\n    \"account_id\": ");
    r.append(json_string(account_id).as_str());
    r.append("\n  },\n  \"last_refresh\": ");
    r.append(json_string(last_refresh).as_str());
    r.append("\n}\n");
    r
}

/// The standard file that a CPA document becomes.
pub fn standard_auth_from_cpa(root: &Json) -> (r: Result<String, AuthError>)
    ensures
        match r {
            Ok(file) => converted_cpa(root@) == Ok::<Seq<char>, AuthError>(file@),
            Err(error) => converted_cpa(root@) == Err::<Seq<char>, AuthError>(error),
        },
{
    if !root.is_object() {
        return Err(AuthError::InvalidCpaFormat);
    }
    match root.filled_member("refresh_token") {
        Some(refresh_token) => Ok(
            standard_auth_json(
                text_field(root, "id_token"),
                text_field(root, "access_token"),
                refresh_token,
                text_field(root, "account_id"),
                text_field(root, "last_refresh"),
            ),
        ),
        None => Err(AuthError::MissingRefreshToken),
    }
}

/// The bytes of the standard file that the bytes of a CPA file become.
pub open spec fn converted_cpa_data(data: Seq<u8>) -> Result<Seq<u8>, AuthError> {
    match document_of(data) {
        Some(root) => match converted_cpa(root) {
            Ok(file) => Ok(encode_utf8(file)),
            Err(error) => Err(error),
        },
        None => Err(AuthError::InvalidCpaJson),
    }
}

/// Turns a CPA file into a standard auth file.
pub fn convert_cpa_auth_json(data: &[u8]) -> (r: Result<Vec<u8>, AuthError>)
    ensures
        match r {
            Ok(file) => converted_cpa_data(data@) == Ok::<Seq<u8>, AuthError>(file@),
            Err(error) => converted_cpa_data(data@) == Err::<Seq<u8>, AuthError>(error),
        },
{
    match parse(data) {
        Some(root) => match standard_auth_from_cpa(&root) {
            Ok(file) => Ok(file.as_str().as_bytes_vec()),
            Err(error) => Err(error),
        },
        None => Err(AuthError::InvalidCpaJson),
    }
}

/// A file that holds an API key is an API key file, whatever else it holds.
pub proof fn api_key_wins(root: JsonView, key: Seq<char>)
    requires
        root.filled_member("OPENAI_API_KEY"@) == Some(key),
    ensures
        auth_step(root) == AuthStepView::Done(Ok(api_key_auth(key))),
{
}

/// The text, where it is not empty.
pub open spec fn filled(s: Seq<char>) -> Option<Seq<char>> {
    if s.len() > 0 {
        Some(s)
    } else {
        None
    }
}

/// A standard auth file gives back the tokens that it was made of, as far as they are not empty: it
/// is never taken for an API key file, and its identity token decides what else it says.
pub proof fn standard_document_reads_back(root: JsonView, tokens: TokensView)
    requires
        is_standard_document(root, tokens),
    ensures
        root.filled_member("OPENAI_API_KEY"@) is None,
        token_of(root, "id_token"@) == filled(tokens.id_token),
        token_of(root, "access_token"@) == filled(tokens.access_token),
        token_of(root, "refresh_token"@) == filled(tokens.refresh_token),
        token_of(root, "account_id"@) == filled(tokens.account_id),
        root.filled_member("last_refresh"@) == filled(tokens.last_refresh),
        auth_step(root) == match filled(tokens.id_token) {
            None => AuthStepView::Done(Ok(unidentified_auth(root))),
            Some(id_token) => match jwt_bytes(id_token) {
                Ok(payload) => AuthStepView::ReadClaims(payload),
                Err(error) => AuthStepView::Done(Err(error)),
            },
        },
        unidentified_auth(root).access_token == filled(tokens.access_token),
        unidentified_auth(root).chatgpt_account_id == filled(tokens.account_id),
        unidentified_auth(root).last_refresh == filled(tokens.last_refresh),
        forall|claims: ClaimsView|
            {
                let auth = #[trigger] claimed_auth(root, claims);
                &&& auth.access_token == filled(tokens.access_token)
                &&& auth.chatgpt_account_id == filled(tokens.account_id)
                &&& auth.last_refresh == filled(tokens.last_refresh)
            },
{
}

/// An account gets a key only where the claims and the tokens agree on the account and the claims
/// name a user; the key is then made of these two.
pub proof fn record_key_needs_identity(root: JsonView, claims: ClaimsView)
    ensures
        claimed_auth(root, claims).record_key is Some <==> {
            &&& token_of(root, "account_id"@) is Some
            &&& claims.auth matches Some(auth) && auth.chatgpt_account_id == token_of(
                root,
                "account_id"@,
            ) && claimed_user(auth) is Some
        },
        claimed_auth(root, claims).record_key matches Some(key) ==> {
            let info = claimed_auth(root, claims);
            &&& info.chatgpt_user_id is Some
            &&& info.chatgpt_account_id is Some
            &&& key == record_key_of(info.chatgpt_user_id->0, info.chatgpt_account_id->0)
        },
        unidentified_auth(root).record_key is None,
{
}

/// Lower case is lower case: folding a text twice changes nothing more. Every email of an account
/// is folded, so emails that differ in case alone are one.
pub proof fn lower_is_final(s: Seq<char>)
    ensures
        ascii_lower(ascii_lower(s)) == ascii_lower(s),
{
    assert(ascii_lower(ascii_lower(s)) =~= ascii_lower(s));
}

}
