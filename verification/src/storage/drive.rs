//! The cloud backend: the requests it makes, and what its answers mean.
//!
//! The synced store is one file, `reminders.json`, in a folder of the user's
//! cloud drive. Sending requests is the caller's business; which request to
//! send, and what to make of a status or a listing, is decided here.

use vstd::prelude::*;
use vstd::string::StringExecFns;
use crate::clock::{utc_now, Instant};
use crate::error::AppError;
use crate::storage::local::{load_snapshot_at, loaded_from, Snapshot};
use crate::storage::merge::ReminderStore;
use crate::text::{decimal, decimal_text};
use crate::urlencoding::{encode, encoded};

verus! {

/// The status with which the cloud says that the access token has expired.
pub const STATUS_UNAUTHORIZED: u16 = 401;

/// The boundary between the parts of an upload.
pub const UPLOAD_BOUNDARY: &'static str = "reminder_app_boundary";

/// The address to which a new file is uploaded.
pub const CREATE_URL: &'static str =
    "https://www.googleapis.com/upload/drive/v3/files?uploadType=multipart&fields=id";

/// The content type of the upload of a new file.
pub const CREATE_CONTENT_TYPE: &'static str = "multipart/related; boundary=reminder_app_boundary";

/// Why a request to the cloud failed.
#[derive(Debug)]
pub enum DriveError {
    /// The cloud refused the access token: it has expired.
    AuthExpired,
    /// The cloud answered with another failure status.
    Api(u16),
    /// The request did not get through.
    Transport(String),
}

impl DriveError {
    /// The message of the failure.
    pub open spec fn text(&self) -> Seq<char> {
        match self {
            DriveError::AuthExpired => "Token expired"@,
            DriveError::Api(code) => "Drive API error: "@ + decimal_text(*code as nat),
            DriveError::Transport(cause) => cause@,
        }
    }

    /// Renders the failure as a message.
    pub fn message(&self) -> (s: String)
        ensures
            s@ == self.text(),
    {
        match self {
            DriveError::AuthExpired => String::from_str("Token expired"),
            DriveError::Api(code) => String::from_str("Drive API error: ").concat(
                decimal(*code as u64).as_str(),
            ),
            DriveError::Transport(cause) => cause.clone(),
        }
    }

    /// Whether the failure says that the access token has expired.
    pub fn is_auth_expired(&self) -> (r: bool)
        ensures
            r == self is AuthExpired,
    {
        match self {
            DriveError::AuthExpired => true,
            _ => false,
        }
    }
}

/// What a failure status means: 401 says that the access token has expired;
/// any other status is a failure of the request itself.
pub fn classify_status(code: u16) -> (e: DriveError)
    ensures
        e == if code == STATUS_UNAUTHORIZED {
            DriveError::AuthExpired
        } else {
            DriveError::Api(code)
        },
{
    if code == STATUS_UNAUTHORIZED {
        DriveError::AuthExpired
    } else {
        DriveError::Api(code)
    }
}

/// The value of the authorization header for an access token.
pub fn bearer(access_token: &str) -> (r: String)
    ensures
        r@ == "Bearer "@ + access_token@,
{
    String::from_str("Bearer ").concat(access_token)
}

/// The query that finds the synced file in a folder.
pub open spec fn search_query_text(folder_id: Seq<char>) -> Seq<char> {
    "name='reminders.json' and '"@ + folder_id + "' in parents and trashed=false"@
}

/// The address that lists the synced file of a folder.
pub open spec fn search_url_text(folder_id: Seq<char>) -> Seq<char> {
    "https://www.googleapis.com/drive/v3/files?q="@ + encoded(search_query_text(folder_id))
        + "&fields=files(id)"@
}

/// Builds the address that lists the synced file of a folder.
pub fn search_url(folder_id: &str) -> (url: String)
    ensures
        url@ == search_url_text(folder_id@),
{
    let mut query = String::from_str("name='reminders.json' and '");
    query.append(folder_id);
    query.append("' in parents and trashed=false");
    let mut url = String::from_str("https://www.googleapis.com/drive/v3/files?q=");
    url.append(encode(query.as_str()).as_str());
    url.append("&fields=files(id)");
    url
}

/// Builds the address from which the content of a file is fetched.
pub fn download_url(file_id: &str) -> (url: String)
    ensures
        url@ == "https://www.googleapis.com/drive/v3/files/"@ + file_id@ + "?alt=media"@,
{
    let mut url = String::from_str("https://www.googleapis.com/drive/v3/files/");
    url.append(file_id);
    url.append("?alt=media");
    url
}

/// Builds the address at which the content of a file is overwritten.
pub fn upload_url(file_id: &str) -> (url: String)
    ensures
        url@ == "https://www.googleapis.com/upload/drive/v3/files/"@ + file_id@
            + "?uploadType=media"@,
{
    let mut url = String::from_str("https://www.googleapis.com/upload/drive/v3/files/");
    url.append(file_id);
    url.append("?uploadType=media");
    url
}

/// The body that creates a file: its description and its content, each a
/// part of its own between boundaries.
pub open spec fn multipart_text(metadata: Seq<char>, content: Seq<char>) -> Seq<char> {
    "--"@ + UPLOAD_BOUNDARY@ + "\r\nContent-Type: application/json; charset=UTF-8\r\n\r\n"@
        + metadata + "\r\n--"@ + UPLOAD_BOUNDARY@ + "\r\nContent-Type: application/json\r\n\r\n"@
        + content + "\r\n--"@ + UPLOAD_BOUNDARY@ + "--"@
}

/// Builds the body that creates a file from its description and its content,
/// both JSON text.
pub fn multipart_body(metadata: &str, content: &str) -> (body: String)
    ensures
        body@ == multipart_text(metadata@, content@),
{
    let mut body = String::from_str("--");
    body.append(UPLOAD_BOUNDARY);
    body.append("\r\nContent-Type: application/json; charset=UTF-8\r\n\r\n");
    body.append(metadata);
    body.append("\r\n--");
    body.append(UPLOAD_BOUNDARY);
    body.append("\r\nContent-Type: application/json\r\n\r\n");
    body.append(content);
    body.append("\r\n--");
    body.append(UPLOAD_BOUNDARY);
    body.append("--");
    body
}

/// One entry of a listing of files.
#[derive(Debug)]
pub struct DriveFileEntry {
    pub id: Option<String>,
}

/// What to do after the folder has been searched.
#[derive(Debug)]
pub enum Located {
    /// The file exists and has this id.
    Found(String),
    /// The file has to be created, seeded with the current store.
    Create,
}

/// Decides what to do after the folder has been searched: the first entry
/// of the listing is the file, if it has an id; without it the file has to
/// be created.
pub fn after_search(files: Vec<DriveFileEntry>) -> (r: Located)
    ensures
        r == if files.len() > 0 && files[0].id is Some {
            Located::Found(files[0].id->0)
        } else {
            Located::Create
        },
{
    let mut files = files;
    if files.len() > 0 {
        let first = files.swap_remove(0);
        match first.id {
            Some(id) => Located::Found(id),
            None => Located::Create,
        }
    } else {
        Located::Create
    }
}

/// The id of a file that was created, from the answer to its creation.
///
/// Fails exactly when the answer names no id.
pub fn created_file_id(id: Option<String>) -> (res: Result<String, AppError>)
    ensures
        match res {
            Ok(file_id) => id == Some(file_id),
            Err(e) => id is None && e is Drive && e.message() == "No file ID in response"@,
        },
{
    match id {
        Some(file_id) => Ok(file_id),
        None => Err(AppError::drive("No file ID in response")),
    }
}

/// Decides what the content fetched from the cloud stands for, taking `now`
/// as the current time: the content as it is if it reads as the current
/// format; else the migrated content if it reads as the older format; else
/// the empty store.
pub fn load_from_drive_at(content: Snapshot, now: Instant) -> (store: ReminderStore)
    ensures
        store@ == loaded_from(Some(content), now).0,
{
    load_snapshot_at(Some(content), now).store
}

/// Decides what the content fetched from the cloud stands for, at the time
/// the clock shows.
pub fn load_from_drive(content: Snapshot) -> (store: ReminderStore)
    ensures
        exists|now: Instant| store@ == loaded_from(Some(content), now).0,
{
    let now = utc_now();
    load_from_drive_at(content, now)
}

} // verus!
