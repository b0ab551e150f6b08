use vault_client::client::{Request, Response, VaultClient};
use vault_client::errors::Error;

/// What a service holds once the command in `args` has been run against it: the URL path
/// of the secret as the client asks for it, and the payload that is sent for it.
fn vault_root(args: &[&str]) -> (String, Vec<u8>) {
    assert_eq!(args[0], "write");
    let path = args[1].replace('/', "%2F");
    let (key, value) = args[2].split_once('=').unwrap();
    let payload = format!("{{\"data\":{{\"{}\":\"{}\"}}}}", key, value);
    (path, payload.into_bytes())
}

/// Stands for a service that listens on `port`, knows one token and holds `stored`.
fn vault_answer(
    port: &str,
    stored: &[(String, Vec<u8>)],
    request: Request,
) -> Result<Response, String> {
    let root = "http://127.0.0.1:".to_string() + port + "/v1/";
    if request.token.fmt_header() != "vault-dev-root-token" {
        return Ok(Response { status: 403, reason: "Forbidden".to_string(), body: Vec::new() });
    }
    for (path, payload) in stored {
        if request.url == root.clone() + path {
            return Ok(Response { status: 200, reason: "OK".to_string(), body: payload.clone() });
        }
    }
    Ok(Response { status: 404, reason: "Not Found".to_string(), body: Vec::new() })
}

fn create_client(port: &str) -> VaultClient {
    VaultClient::new(
        &("http://127.0.0.1:".to_string() + port),
        "vault-dev-root-token".to_string(),
    )
    .unwrap()
}

#[test]
fn test_generic_raw() {
    let output = vault_root(&["write", "/secret/test-secret", "qwer=1234"]);
    println!("{:?}", output);

    let client = create_client("8200");
    let buf = client
        .get_secret_raw("/secret/test-secret", |request| {
            vault_answer("8200", &[output.clone()], request)
        })
        .unwrap();
    println!("{:?}", String::from_utf8(buf).unwrap());
    assert_eq!(4, 4);
}

#[test]
fn test_generic_error() {
    let client = create_client("8201");
    let buf = client.get_secret_raw("/qwerqwer", |request| vault_answer("8201", &[], request));
    println!("{:?}", buf);
    assert!(buf.is_err());
}

#[test]
fn stored_secret_comes_back_as_it_is() {
    let stored = vault_root(&["write", "/secret/test-secret", "qwer=1234"]);
    let client = create_client("8200");
    let buf = client
        .get_secret_raw("/secret/test-secret", |request| {
            vault_answer("8200", &[stored.clone()], request)
        })
        .unwrap();
    assert!(!buf.is_empty());
    assert_eq!(buf, b"{\"data\":{\"qwer\":\"1234\"}}".to_vec());
}

#[test]
fn missing_secret_is_an_http_error() {
    let stored = vault_root(&["write", "/secret/test-secret", "qwer=1234"]);
    let client = create_client("8200");
    let res = client.get_secret_raw("/does-not-exist", |request| {
        vault_answer("8200", &[stored.clone()], request)
    });
    assert_eq!(
        res,
        Err(Error::HttpError { status: 404, reason: "Not Found".to_string() })
    );
}

#[test]
fn unreachable_service_is_a_transport_error() {
    let client = create_client("8202");
    let res = client.get_secret_raw("/secret/test-secret", |_request| {
        Err("connection refused".to_string())
    });
    assert_eq!(res, Err(Error::TransportError("connection refused".to_string())));
}

#[test]
fn wrong_token_is_reported_with_its_status() {
    let stored = vault_root(&["write", "/secret/test-secret", "qwer=1234"]);
    let client = VaultClient::new("http://127.0.0.1:8200", String::new()).unwrap();
    let res = client.get_secret_raw("/secret/test-secret", |request| {
        vault_answer("8200", &[stored.clone()], request)
    });
    assert_eq!(
        res,
        Err(Error::HttpError { status: 403, reason: "Forbidden".to_string() })
    );
}

#[test]
fn repeated_fetch_returns_the_same_bytes() {
    let stored = [vault_root(&["write", "/secret/test-secret", "qwer=1234"])];
    let client = create_client("8200");
    let first =
        client.get_secret_raw("/secret/test-secret", |request| vault_answer("8200", &stored, request));
    let second =
        client.get_secret_raw("/secret/test-secret", |request| vault_answer("8200", &stored, request));
    assert_eq!(first, Ok(stored[0].1.clone()));
    assert_eq!(first, second);
}

#[test]
fn request_carries_url_and_token() {
    let client = create_client("8200");
    let request = client.request("secret").unwrap();
    assert_eq!(request.url, "http://127.0.0.1:8200/v1/secret");
    assert_eq!(request.token.fmt_header(), "vault-dev-root-token");
}

#[test]
fn request_is_sent_once() {
    let client = create_client("8200");
    let mut seen: Vec<String> = Vec::new();
    let res = client.get_secret_raw("secret", |request| {
        seen.push(request.url);
        Ok(Response { status: 204, reason: "No Content".to_string(), body: Vec::new() })
    });
    assert_eq!(res, Ok(Vec::new()));
    assert_eq!(seen, vec!["http://127.0.0.1:8200/v1/secret".to_string()]);
}

#[test]
fn nothing_is_sent_for_a_path_that_gives_no_url() {
    let client = create_client("8200");
    let mut sent = false;
    let res = client.get_secret_raw(" ..", |_request| {
        sent = true;
        Ok(Response { status: 200, reason: "OK".to_string(), body: Vec::new() })
    });
    assert_eq!(res, Err(Error::UrlParseError));
    assert!(!sent);
    assert_eq!(client.request(" ..").map(|request| request.url), Err(Error::UrlParseError));
}

#[test]
fn dot_segments_ask_for_the_address_itself() {
    let client = create_client("8200");
    let mut seen: Vec<String> = Vec::new();
    let res = client.get_secret_raw("..", |request| {
        seen.push(request.url);
        Ok(Response { status: 200, reason: "OK".to_string(), body: b"root".to_vec() })
    });
    assert_eq!(res, Ok(b"root".to_vec()));
    assert_eq!(seen, vec!["http://127.0.0.1:8200/v1".to_string()]);
    assert_eq!(
        client.request(".").map(|request| request.url),
        Ok("http://127.0.0.1:8200/v1".to_string())
    );
}

#[test]
fn client_new_fails_as_the_address_does() {
    let res = VaultClient::new("127.0.0.1:8200", "token".to_string());
    assert!(matches!(res, Err(Error::UrlParseError)));
    let res = VaultClient::new("", "token".to_string());
    assert!(matches!(res, Err(Error::UrlParseError)));
}

#[test]
fn client_new_accepts_an_empty_token() {
    let client = VaultClient::new("http://127.0.0.1:8200", String::new()).unwrap();
    let request = client.request("secret").unwrap();
    assert_eq!(request.token.fmt_header(), "");
    assert_eq!(client.address().as_str(), "http://127.0.0.1:8200/v1");
}

#[test]
fn client_from_env_takes_both_values() {
    let client = VaultClient::from_env(
        Some("http://127.0.0.1:8200".to_string()),
        Some("vault-dev-root-token".to_string()),
    )
    .unwrap();
    assert_eq!(client.address().as_str(), "http://127.0.0.1:8200/v1");
    assert_eq!(client.token().fmt_header(), "vault-dev-root-token");
}

#[test]
fn client_from_env_reports_the_first_failure() {
    let res = VaultClient::from_env(None, None);
    assert!(matches!(res, Err(Error::ConfigMissing)));
    let res = VaultClient::from_env(None, Some("token".to_string()));
    assert!(matches!(res, Err(Error::ConfigMissing)));
    let res = VaultClient::from_env(Some("not a url".to_string()), None);
    assert!(matches!(res, Err(Error::UrlParseError)));
    let res = VaultClient::from_env(Some("http://127.0.0.1:8200".to_string()), None);
    assert!(matches!(res, Err(Error::ConfigMissing)));
}

#[test]
fn client_from_env_refuses_an_empty_token() {
    let res = VaultClient::from_env(Some("http://127.0.0.1:8200".to_string()), Some(String::new()));
    assert!(matches!(res, Err(Error::ConfigMissing)));
    let res = VaultClient::from_env(Some("not a url".to_string()), Some(String::new()));
    assert!(matches!(res, Err(Error::UrlParseError)));
}

#[test]
fn cloned_client_asks_the_same() {
    let client = create_client("8200");
    let copy = client.clone();
    let a = client.request("secret").unwrap();
    let b = copy.request("secret").unwrap();
    assert_eq!(a.url, b.url);
    assert_eq!(a.token.fmt_header(), b.token.fmt_header());
}
