use reminder_app::error::AppError;
use reminder_app::storage::callback::{
    after_bind_failure, extract_code, receive, BindStep, Reception, CODE_RECEIVED_REPLY,
    NOT_FOUND_REPLY,
};
use reminder_app::storage::merge::ReminderStore;
use reminder_app::storage::oauth::{
    default_folder_id, exchange_form, get_oauth_url, has_oauth_credentials, load_oauth_state,
    redirect_uri, refresh_form, OAuthCredentials, OAuthState, OAuthTokenResponse, TokenFile,
};
use reminder_app::storage::session::{complete_oauth_flow_blocking, save_oauth_tokens};
use reminder_app::storage::Storage;
use reminder_app::urlencoding::encode;

fn credentials() -> OAuthCredentials {
    OAuthCredentials {
        client_id: "id 1@apps".to_string(),
        client_secret: "s3cret/+".to_string(),
        folder_id: "folder".to_string(),
    }
}

fn token_file(token: Option<&str>, access_token: Option<&str>) -> TokenFile {
    TokenFile {
        token: token.map(String::from),
        access_token: access_token.map(String::from),
        refresh_token: Some("r".to_string()),
        client_id: Some("c".to_string()),
        client_secret: None,
        token_uri: None,
    }
}

#[test]
fn encode_keeps_unreserved_characters() {
    assert_eq!(encode("AZaz09-_.~"), "AZaz09-_.~");
    assert_eq!(encode(""), "");
}

#[test]
fn encode_escapes_everything_else() {
    assert_eq!(encode(" "), "%20");
    assert_eq!(encode("'"), "%27");
    assert_eq!(encode("a b"), "a%20b");
    assert_eq!(encode("/?&=:+"), "%2F%3F%26%3D%3A%2B");
    assert_eq!(encode("\n"), "%0A");
    assert_eq!(encode("\u{7f}"), "%7F");
}

#[test]
fn encode_escapes_each_byte_of_a_character() {
    assert_eq!(encode("é"), "%C3%A9");
    assert_eq!(encode("€"), "%E2%82%AC");
    assert_eq!(encode("😀"), "%F0%9F%98%80");
    assert_eq!(encode("naïve café"), "na%C3%AFve%20caf%C3%A9");
}

#[test]
fn redirect_goes_to_the_local_port() {
    assert_eq!(redirect_uri(), "http://localhost:8085");
}

#[test]
fn oauth_url_names_client_redirect_scope_and_flags() {
    assert_eq!(
        get_oauth_url(&credentials()),
        "https://accounts.google.com/o/oauth2/v2/auth?client_id=id%201%40apps&redirect_uri=http%3A%2F%2Flocalhost%3A8085&response_type=code&scope=https%3A%2F%2Fwww.googleapis.com%2Fauth%2Fdrive&access_type=offline&prompt=consent"
    );
}

#[test]
fn refresh_form_is_encoded() {
    assert_eq!(
        refresh_form("1//r t", "id@x", "a&b"),
        "client_id=id%40x&client_secret=a%26b&refresh_token=1%2F%2Fr%20t&grant_type=refresh_token"
    );
}

#[test]
fn exchange_form_is_encoded() {
    assert_eq!(
        exchange_form(&credentials(), "4/0A=b"),
        "client_id=id%201%40apps&client_secret=s3cret%2F%2B&code=4%2F0A%3Db&grant_type=authorization_code&redirect_uri=http%3A%2F%2Flocalhost%3A8085"
    );
}

#[test]
fn default_folder_is_the_configured_one() {
    assert_eq!(default_folder_id(), "1F0qYeAVU_7H73kX9uz-1ZF3i2KS_V-mk");
}

#[test]
fn state_takes_the_token_field_first() {
    let state = load_oauth_state(token_file(Some("t1"), Some("t2")), Some(credentials())).unwrap();
    assert_eq!(state.access_token, "t1");
    assert_eq!(state.refresh_token.as_deref(), Some("r"));
    assert_eq!(state.client_id.as_deref(), Some("c"));
    assert_eq!(state.client_secret, None);
    assert_eq!(state.folder_id, "folder");
}

#[test]
fn state_falls_back_to_the_access_token_field_and_the_default_folder() {
    let state = load_oauth_state(token_file(None, Some("t2")), None).unwrap();
    assert_eq!(state.access_token, "t2");
    assert_eq!(state.folder_id, "1F0qYeAVU_7H73kX9uz-1ZF3i2KS_V-mk");
}

#[test]
fn state_needs_an_access_token() {
    let res = load_oauth_state(token_file(None, None), Some(credentials()));
    assert!(matches!(res, Err(AppError::OAuth(m)) if m == "No access token in token.json"));
}

#[test]
fn credentials_are_there_or_not() {
    assert!(has_oauth_credentials(&Some(credentials())));
    assert!(!has_oauth_credentials(&None));
}

#[test]
fn code_is_read_from_the_root_path() {
    assert_eq!(
        extract_code("GET /?code=4/0Abc&scope=drive HTTP/1.1\r\nHost: localhost:8085\r\n\r\n"),
        Some("4/0Abc".to_string())
    );
    assert_eq!(extract_code("GET /?state=x&code=abc HTTP/1.1\r\n"), Some("abc".to_string()));
    assert_eq!(extract_code("GET /?code=abc"), Some("abc".to_string()));
    assert_eq!(extract_code("GET /?code= HTTP/1.1"), Some("".to_string()));
    assert_eq!(extract_code("  GET \t /?code=abc\u{3000}HTTP/1.1"), Some("abc".to_string()));
}

#[test]
fn code_value_ends_at_the_second_equals_sign() {
    assert_eq!(extract_code("GET /?code=a=b HTTP/1.1"), Some("a".to_string()));
    assert_eq!(extract_code("GET /?code=abc?x=1&code=z HTTP/1.1"), Some("abc".to_string()));
}

#[test]
fn code_without_a_value_is_passed_over() {
    assert_eq!(extract_code("GET /?code&code=later HTTP/1.1"), Some("later".to_string()));
    assert_eq!(extract_code("GET /?code HTTP/1.1"), None);
}

#[test]
fn other_requests_carry_no_code() {
    assert_eq!(extract_code(""), None);
    assert_eq!(extract_code("GET"), None);
    assert_eq!(extract_code("GET /favicon.ico HTTP/1.1\r\n"), None);
    assert_eq!(extract_code("GET /callback?code=abc HTTP/1.1\r\n"), None);
    assert_eq!(extract_code("GET / HTTP/1.1\r\n"), None);
    assert_eq!(extract_code("GET /? HTTP/1.1\r\n"), None);
    assert_eq!(extract_code("GET /?xcode=abc&codex=1 HTTP/1.1\r\n"), None);
    assert_eq!(extract_code("GET /?error=denied HTTP/1.1\r\n"), None);
    assert_eq!(extract_code("\nGET /?code=abc HTTP/1.1\r\n"), None);
    assert_eq!(extract_code("GET\n/?code=abc HTTP/1.1\r\n"), None);
    assert_eq!(extract_code("GET /??code=abc HTTP/1.1\r\n"), None);
}

#[test]
fn extract_code_agrees_with_the_iterator_formulation() {
    let samples = [
        "GET /?code=abc HTTP/1.1\r\n",
        "GET /?a=1&code=x=y&code=z HTTP/1.1",
        "GET /?code&b=2 HTTP/1.1",
        "POST /?&&code=q& HTTP/1.1",
        "GET /?=code&code==x HTTP/1.1",
        "GET /x?code=1 HTTP/1.1",
        "   ",
        "GET /?code=\u{e9}t\u{e9} HTTP/1.1",
        "GET\r/?code=cr HTTP/1.1",
    ];
    for request in samples {
        let expected = request.lines().next().and_then(|line| {
            line.split_whitespace().nth(1).and_then(|path| {
                if !path.starts_with("/?") {
                    return None;
                }
                path.split('?').nth(1).and_then(|query| {
                    query.split('&').find_map(|param| {
                        let mut parts = param.split('=');
                        if parts.next() == Some("code") {
                            parts.next().map(String::from)
                        } else {
                            None
                        }
                    })
                })
            })
        });
        assert_eq!(extract_code(request), expected, "request {:?}", request);
    }
}

#[test]
fn listener_answers_and_decides() {
    let got = receive("GET /?code=abc HTTP/1.1\r\n\r\n");
    assert!(matches!(&got, Reception::CodeReceived(code) if code == "abc"));
    assert_eq!(got.reply(), CODE_RECEIVED_REPLY);
    assert!(got.reply().starts_with("HTTP/1.1 200 OK\r\n"));
    let got = receive("GET /favicon.ico HTTP/1.1\r\n\r\n");
    assert!(matches!(got, Reception::KeepWaiting));
    assert_eq!(got.reply(), NOT_FOUND_REPLY);
    assert_eq!(got.reply(), "HTTP/1.1 404 Not Found\r\nConnection: close\r\n\r\n");
}

#[test]
fn binding_is_retried_five_times() {
    assert_eq!(after_bind_failure(0), BindStep::RetryAfter(1, 1));
    assert_eq!(after_bind_failure(4), BindStep::RetryAfter(1, 5));
    assert_eq!(after_bind_failure(5), BindStep::GiveUp);
    assert_eq!(after_bind_failure(u32::MAX), BindStep::GiveUp);
}

#[test]
fn tokens_are_saved_with_the_credentials() {
    let file = save_oauth_tokens(&credentials(), "acc".to_string(), Some("ref".to_string()));
    assert_eq!(file.token.as_deref(), Some("acc"));
    assert_eq!(file.access_token, None);
    assert_eq!(file.refresh_token.as_deref(), Some("ref"));
    assert_eq!(file.client_id.as_deref(), Some("id 1@apps"));
    assert_eq!(file.client_secret.as_deref(), Some("s3cret/+"));
    assert_eq!(file.token_uri, None);
}

#[test]
fn flow_ends_with_the_token_file_or_the_cause() {
    let ok = complete_oauth_flow_blocking(
        &credentials(),
        Ok(OAuthTokenResponse { access_token: "acc".to_string(), refresh_token: None }),
    )
    .unwrap();
    assert_eq!(ok.token.as_deref(), Some("acc"));
    assert_eq!(ok.refresh_token, None);
    let err = complete_oauth_flow_blocking(&credentials(), Err("status 400".to_string()));
    assert!(matches!(err, Err(AppError::OAuth(m)) if m == "Token exchange failed: status 400"));
}

#[test]
fn disconnect_keeps_the_credentials() {
    let mut storage = Storage::new("/tmp/test".to_string(), ReminderStore::default());
    assert_eq!(storage.get_oauth_status(), (false, false));
    storage.save_oauth_credentials(&credentials());
    assert_eq!(storage.get_oauth_status(), (true, false));
    let state = OAuthState {
        access_token: "acc".to_string(),
        refresh_token: Some("ref".to_string()),
        client_id: Some("id".to_string()),
        client_secret: Some("sec".to_string()),
        folder_id: "folder".to_string(),
    };
    assert!(storage.reload_oauth_state(state).is_ok());
    assert!(storage.is_logged_in());
    assert_eq!(storage.get_oauth_status(), (true, true));
    storage.file_id = Some("file".to_string());

    storage.disconnect_drive();
    assert_eq!(storage.get_oauth_status(), (true, false));
    assert!(!storage.is_logged_in());
    assert!(storage.has_oauth_credentials());
    assert_eq!(storage.access_token, None);
    assert_eq!(storage.refresh_token, None);
    assert_eq!(storage.client_id, None);
    assert_eq!(storage.client_secret, None);
    assert_eq!(storage.folder_id, None);
    assert_eq!(storage.file_id, None);
    assert_eq!(storage.get_oauth_credentials().unwrap().client_id, "id 1@apps");
}

#[test]
fn url_needs_credentials() {
    let mut storage = Storage::new("/data".to_string(), ReminderStore::default());
    assert!(matches!(storage.get_oauth_url(), Err(AppError::OAuth(m)) if m == "No credentials found"));
    assert!(storage.get_oauth_credentials().is_none());
    storage.save_oauth_credentials(&credentials());
    assert_eq!(storage.get_oauth_url().unwrap(), get_oauth_url(&credentials()));
    assert_eq!(storage.get_app_data_path(), "/data");
}
