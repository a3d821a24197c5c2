//! The OAuth session: credentials, tokens, the authorization URL, the
//! requests to the token endpoint, and the redirect that brings the
//! authorization code back.

use vstd::prelude::*;
use vstd::string::StringExecFns;
use crate::config::{DEFAULT_DRIVE_FOLDER_ID, OAUTH_REDIRECT_PORT, OAUTH_SCOPES};
use crate::error::AppError;
use crate::text::{decimal, decimal_text};
use crate::urlencoding::{encode, encoded};

verus! {

/// The client credentials that the user supplies, and the cloud folder to
/// sync into.
#[derive(Debug)]
pub struct OAuthCredentials {
    pub client_id: String,
    pub client_secret: String,
    pub folder_id: String,
}

impl Clone for OAuthCredentials {
    fn clone(&self) -> (r: Self)
        ensures
            r == *self,
    {
        OAuthCredentials {
            client_id: self.client_id.clone(),
            client_secret: self.client_secret.clone(),
            folder_id: self.folder_id.clone(),
        }
    }
}

/// What the durable token file holds. The access token stands under `token`
/// or, in files of another origin, under `access_token`.
#[derive(Debug)]
pub struct TokenFile {
    pub token: Option<String>,
    pub access_token: Option<String>,
    pub refresh_token: Option<String>,
    pub client_id: Option<String>,
    pub client_secret: Option<String>,
    pub token_uri: Option<String>,
}

/// The answer of the token endpoint to a refresh.
#[derive(Debug)]
pub struct RefreshResponse {
    pub access_token: String,
}

/// The answer of the token endpoint to the exchange of an authorization
/// code.
#[derive(Debug)]
pub struct OAuthTokenResponse {
    pub access_token: String,
    pub refresh_token: Option<String>,
}

/// The session as loaded from the durable files.
#[derive(Debug)]
pub struct OAuthState {
    pub access_token: String,
    pub refresh_token: Option<String>,
    pub client_id: Option<String>,
    pub client_secret: Option<String>,
    pub folder_id: String,
}

/// The cloud folder used when the user has not chosen one.
pub fn default_folder_id() -> (r: String)
    ensures
        r@ == DEFAULT_DRIVE_FOLDER_ID@,
{
    String::from_str(DEFAULT_DRIVE_FOLDER_ID)
}

/// The access token of a token file: what stands under `token`, else what
/// stands under `access_token`.
pub open spec fn access_token_of(file: TokenFile) -> Option<String> {
    match file.token {
        Some(t) => Some(t),
        None => file.access_token,
    }
}

/// Builds the session from the token file and the credentials, if there are
/// any. The folder is that of the credentials, or the default folder without
/// them.
///
/// Fails exactly when the token file holds no access token.
pub fn load_oauth_state(file: TokenFile, credentials: Option<OAuthCredentials>) -> (res: Result<
    OAuthState,
    AppError,
>)
    ensures
        match res {
            Ok(state) => {
                &&& access_token_of(file) == Some(state.access_token)
                &&& state.refresh_token == file.refresh_token
                &&& state.client_id == file.client_id
                &&& state.client_secret == file.client_secret
                &&& state.folder_id@ == match credentials {
                    Some(c) => c.folder_id@,
                    None => DEFAULT_DRIVE_FOLDER_ID@,
                }
            },
            Err(e) => {
                &&& access_token_of(file) is None
                &&& e is OAuth
                &&& e.message() == "No access token in token.json"@
            },
        },
{
    let access_token = match file.token {
        Some(t) => Some(t),
        None => file.access_token,
    };
    let access_token = match access_token {
        Some(t) => t,
        None => {
            return Err(AppError::oauth("No access token in token.json"));
        },
    };
    let folder_id = match credentials {
        Some(c) => c.folder_id,
        None => default_folder_id(),
    };
    Ok(
        OAuthState {
            access_token,
            refresh_token: file.refresh_token,
            client_id: file.client_id,
            client_secret: file.client_secret,
            folder_id,
        },
    )
}

/// Whether credentials are configured.
pub fn has_oauth_credentials(credentials: &Option<OAuthCredentials>) -> (r: bool)
    ensures
        r == credentials is Some,
{
    credentials.is_some()
}

/// The address to which the provider sends the user back: the local
/// listener.
pub open spec fn redirect_uri_text() -> Seq<char> {
    "http://localhost:"@ + decimal_text(OAUTH_REDIRECT_PORT as nat)
}

/// The address to which the provider sends the user back.
pub fn redirect_uri() -> (r: String)
    ensures
        r@ == redirect_uri_text(),
{
    String::from_str("http://localhost:").concat(decimal(OAUTH_REDIRECT_PORT as u64).as_str())
}

/// The authorization URL for the client: the client id, the local redirect
/// address, the requested scope, and the flags that ask for a refresh token.
pub open spec fn oauth_url_text(client_id: Seq<char>) -> Seq<char> {
    "https://accounts.google.com/o/oauth2/v2/auth?client_id="@ + encoded(client_id)
        + "&redirect_uri="@ + encoded(redirect_uri_text()) + "&response_type=code&scope="@
        + encoded(OAUTH_SCOPES@) + "&access_type=offline&prompt=consent"@
}

/// Builds the authorization URL that the user's browser is sent to.
pub fn get_oauth_url(credentials: &OAuthCredentials) -> (url: String)
    ensures
        url@ == oauth_url_text(credentials.client_id@),
{
    let mut url = String::from_str("https://accounts.google.com/o/oauth2/v2/auth?client_id=");
    url.append(encode(credentials.client_id.as_str()).as_str());
    url.append("&redirect_uri=");
    url.append(encode(redirect_uri().as_str()).as_str());
    url.append("&response_type=code&scope=");
    url.append(encode(OAUTH_SCOPES).as_str());
    url.append("&access_type=offline&prompt=consent");
    url
}

/// The form that asks the token endpoint for a new access token.
pub open spec fn refresh_form_text(
    refresh_token: Seq<char>,
    client_id: Seq<char>,
    client_secret: Seq<char>,
) -> Seq<char> {
    "client_id="@ + encoded(client_id) + "&client_secret="@ + encoded(client_secret)
        + "&refresh_token="@ + encoded(refresh_token) + "&grant_type=refresh_token"@
}

/// Builds the form that asks the token endpoint for a new access token.
pub fn refresh_form(refresh_token: &str, client_id: &str, client_secret: &str) -> (body: String)
    ensures
        body@ == refresh_form_text(refresh_token@, client_id@, client_secret@),
{
    let mut body = String::from_str("client_id=");
    body.append(encode(client_id).as_str());
    body.append("&client_secret=");
    body.append(encode(client_secret).as_str());
    body.append("&refresh_token=");
    body.append(encode(refresh_token).as_str());
    body.append("&grant_type=refresh_token");
    body
}

/// The form that exchanges an authorization code for tokens.
pub open spec fn exchange_form_text(
    client_id: Seq<char>,
    client_secret: Seq<char>,
    code: Seq<char>,
) -> Seq<char> {
    "client_id="@ + encoded(client_id) + "&client_secret="@ + encoded(client_secret) + "&code="@
        + encoded(code) + "&grant_type=authorization_code&redirect_uri="@ + encoded(
        redirect_uri_text(),
    )
}

/// Builds the form that exchanges an authorization code for tokens.
pub fn exchange_form(credentials: &OAuthCredentials, code: &str) -> (body: String)
    ensures
        body@ == exchange_form_text(credentials.client_id@, credentials.client_secret@, code@),
{
    let mut body = String::from_str("client_id=");
    body.append(encode(credentials.client_id.as_str()).as_str());
    body.append("&client_secret=");
    body.append(encode(credentials.client_secret.as_str()).as_str());
    body.append("&code=");
    body.append(encode(code).as_str());
    body.append("&grant_type=authorization_code&redirect_uri=");
    body.append(encode(redirect_uri().as_str()).as_str());
    body
}

} // verus!
