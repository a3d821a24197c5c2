//! The cloud session of the task store: credentials, login state, and the
//! end of the authorization flow.
//!
//! A session goes through these states:
//!
//! - Unauthenticated: no session is open ([`Storage::logged_in`] is false).
//!   Starting the flow sends the user to the authorization URL
//!   ([`Storage::get_oauth_url`]).
//! - Awaiting the callback: the local listener answers each request and
//!   waits for the one that carries the code
//!   ([`receive`](crate::storage::callback::receive)).
//! - Code received: the code is exchanged for tokens, which are written to
//!   the durable token file ([`complete_oauth_flow_blocking`]).
//! - Authenticated: the tokens are loaded and the cloud is switched on
//!   ([`Storage::reload_oauth_state`]).
//! - Refreshing: a request was refused because the access token has expired;
//!   a new one is asked for, once, and the request is sent again
//!   ([`Awaiting::Refresh`](crate::storage::sync::Awaiting)).
//! - Failed: the refresh failed or the request was refused again; the flow
//!   ends with an error.
//!
//! Disconnecting returns to the first state from any other
//! ([`Storage::disconnect_drive`]).

use vstd::prelude::*;
use vstd::string::StringExecFns;
use crate::error::AppError;
use crate::storage::oauth::{
    get_oauth_url, oauth_url_text, OAuthCredentials, OAuthTokenResponse, TokenFile,
};
use crate::storage::Storage;

verus! {

/// What the durable token file holds after a successful authorization: the
/// access token under `token`, the refresh token if one was given, and the
/// client id and secret that were used.
pub open spec fn token_file_for(
    credentials: OAuthCredentials,
    access_token: String,
    refresh_token: Option<String>,
) -> TokenFile {
    TokenFile {
        token: Some(access_token),
        access_token: None,
        refresh_token,
        client_id: Some(credentials.client_id),
        client_secret: Some(credentials.client_secret),
        token_uri: None,
    }
}

/// Builds what is written to the durable token file after a successful
/// authorization.
pub fn save_oauth_tokens(
    credentials: &OAuthCredentials,
    access_token: String,
    refresh_token: Option<String>,
) -> (file: TokenFile)
    ensures
        file == token_file_for(*credentials, access_token, refresh_token),
{
    TokenFile {
        token: Some(access_token),
        access_token: None,
        refresh_token,
        client_id: Some(credentials.client_id.clone()),
        client_secret: Some(credentials.client_secret.clone()),
        token_uri: None,
    }
}

/// Ends the authorization flow once the code has been exchanged: the tokens
/// of a successful exchange are to be written to the durable token file, with
/// the credentials that were used.
///
/// Fails exactly when the exchange failed, and names its cause.
pub fn complete_oauth_flow_blocking(
    credentials: &OAuthCredentials,
    exchange: Result<OAuthTokenResponse, String>,
) -> (res: Result<TokenFile, AppError>)
    ensures
        match (exchange, res) {
            (Ok(tokens), Ok(file)) => file == token_file_for(
                *credentials,
                tokens.access_token,
                tokens.refresh_token,
            ),
            (Err(cause), Err(e)) => e is OAuth && e.message() == "Token exchange failed: "@
                + cause@,
            _ => false,
        },
{
    match exchange {
        Ok(tokens) => Ok(save_oauth_tokens(credentials, tokens.access_token, tokens.refresh_token)),
        Err(cause) => Err(
            AppError::OAuth(String::from_str("Token exchange failed: ").concat(cause.as_str())),
        ),
    }
}

impl Storage {
    /// Whether the user has supplied credentials.
    pub fn has_oauth_credentials(&self) -> (r: bool)
        ensures
            r == self.credentials is Some,
    {
        self.credentials.is_some()
    }

    /// Whether a cloud session is open: the cloud is switched on and an
    /// access token is at hand.
    pub open spec fn logged_in(&self) -> bool {
        self.use_drive && self.access_token is Some
    }

    /// Whether a cloud session is open.
    pub fn is_logged_in(&self) -> (r: bool)
        ensures
            r == self.logged_in(),
    {
        self.use_drive && self.access_token.is_some()
    }

    /// The status of the session: whether credentials are there, and whether
    /// a session is open.
    pub open spec fn oauth_status(&self) -> (bool, bool) {
        (self.credentials is Some, self.logged_in())
    }

    /// Whether credentials are there, and whether a session is open.
    pub fn get_oauth_status(&self) -> (r: (bool, bool))
        ensures
            r == self.oauth_status(),
    {
        (self.has_oauth_credentials(), self.is_logged_in())
    }

    /// Takes the credentials that the user supplies. They are to be written
    /// to the durable credentials file.
    pub fn save_oauth_credentials(&mut self, credentials: &OAuthCredentials)
        ensures
            *final(self) == (Storage { credentials: Some(*credentials), ..*old(self) }),
    {
        self.credentials = Some(credentials.clone());
    }

    /// The credentials that the user has supplied, if any.
    pub fn get_oauth_credentials(&self) -> (r: Option<OAuthCredentials>)
        ensures
            r == self.credentials,
    {
        match &self.credentials {
            Some(c) => Some(c.clone()),
            None => None,
        }
    }

    /// The directory in which the durable files live.
    pub fn get_app_data_path(&self) -> (r: &str)
        ensures
            r@ == self.app_data_path@,
    {
        self.app_data_path.as_str()
    }

    /// The authorization URL for the user's credentials.
    ///
    /// Fails exactly when the user has supplied no credentials.
    pub fn get_oauth_url(&self) -> (res: Result<String, AppError>)
        ensures
            match res {
                Ok(url) => self.credentials is Some && url@ == oauth_url_text(
                    self.credentials->0.client_id@,
                ),
                Err(e) => self.credentials is None && e is OAuth && e.message()
                    == "No credentials found"@,
            },
    {
        match &self.credentials {
            Some(c) => Ok(get_oauth_url(c)),
            None => Err(AppError::oauth("No credentials found")),
        }
    }

    /// Closes the cloud session: the cloud is switched off and every field of
    /// the session is cleared. The durable token file is to be deleted. The
    /// credentials stay, so that the user can connect again without entering
    /// them anew: the status afterwards shows the credentials as before, and
    /// no session.
    pub fn disconnect_drive(&mut self)
        ensures
            *final(self) == (Storage {
                use_drive: false,
                access_token: None,
                refresh_token: None,
                client_id: None,
                client_secret: None,
                folder_id: None,
                file_id: None,
                ..*old(self)
            }),
            final(self).oauth_status() == (old(self).credentials is Some, false),
    {
        self.use_drive = false;
        self.access_token = None;
        self.refresh_token = None;
        self.client_id = None;
        self.client_secret = None;
        self.folder_id = None;
        self.file_id = None;
    }

}

} // verus!
