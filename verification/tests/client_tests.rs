use microtak_admin_cli::cli::RoleArg;
use microtak_admin_cli::client::{mint_token_body, mint_user_body, roles_ascending, set_role_body, text_before};
use microtak_admin_cli::client::{
    is_success_status, member_role_endpoint, mission_endpoint, password_from_mint_reply,
    resolve_socket_text, split_resolve, status_failure, token_endpoint, token_from_mint_reply,
    tokens_endpoint, urlencode, user_endpoint, users_endpoint,
};
use microtak_admin_cli::error::AdminError;

#[test]
fn urlencode_handles_reserved_characters() {
    assert_eq!(urlencode("Recon Alpha"), "Recon%20Alpha");
    assert_eq!(urlencode("50%"), "50%25");
    assert_eq!(urlencode("a/b"), "a%2Fb");
    assert_eq!(urlencode("plain-name_1.2~3"), "plain-name_1.2~3");
}

#[test]
fn urlencode_encodes_each_utf8_byte() {
    assert_eq!(urlencode("é"), "%C3%A9");
    assert_eq!(urlencode(""), "");
    assert_eq!(urlencode("?&="), "%3F%26%3D");
}

fn percent_decode(s: &str) -> Vec<u8> {
    let b = s.as_bytes();
    let mut out = Vec::new();
    let mut i = 0;
    while i < b.len() {
        if b[i] == b'%' && i + 2 < b.len() {
            let hex = std::str::from_utf8(&b[i + 1..i + 3]).unwrap();
            out.push(u8::from_str_radix(hex, 16).unwrap());
            i += 3;
        } else {
            out.push(b[i]);
            i += 1;
        }
    }
    out
}

#[test]
fn urlencode_round_trips_through_decoding() {
    for name in ["Recon Alpha", "50%", "a/b", "ünïcode & more", "%41"] {
        assert_eq!(percent_decode(&urlencode(name)), name.as_bytes());
    }
}

#[test]
fn endpoints_are_built_under_the_server_url() {
    let server = "https://tak.example:8443";
    assert_eq!(tokens_endpoint(server), "https://tak.example:8443/Marti/api/admin/enrollmentTokens");
    assert_eq!(
        token_endpoint(server, "abc"),
        "https://tak.example:8443/Marti/api/admin/enrollmentTokens/abc"
    );
    assert_eq!(users_endpoint(server), "https://tak.example:8443/Marti/api/admin/users");
    assert_eq!(
        user_endpoint(server, "alice smith"),
        "https://tak.example:8443/Marti/api/admin/users/alice%20smith"
    );
    assert_eq!(
        mission_endpoint(server, "Recon Alpha"),
        "https://tak.example:8443/Marti/api/missions/Recon%20Alpha"
    );
    assert_eq!(
        member_role_endpoint(server, "Recon Alpha", "dev/1"),
        "https://tak.example:8443/Marti/api/missions/Recon%20Alpha/role/dev%2F1"
    );
}

#[test]
fn parses_curl_style_resolve_syntax() {
    let parts = split_resolve("microtak-server:8443:127.0.0.1").ok().unwrap();
    assert_eq!(parts.host, "microtak-server");
    assert_eq!(resolve_socket_text(&parts.address, &parts.port), "127.0.0.1:8443");
}

#[test]
fn parses_resolve_with_ipv6_address() {
    let parts = split_resolve("microtak-server:8443:::1").ok().unwrap();
    assert_eq!(parts.host, "microtak-server");
    assert_eq!(parts.address, "::1");
    assert_eq!(resolve_socket_text(&parts.address, &parts.port), "[::1]:8443");
}

#[test]
fn resolve_keeps_an_already_bracketed_address() {
    let parts = split_resolve("h:1:[::1]").ok().unwrap();
    assert_eq!(resolve_socket_text(&parts.address, &parts.port), "[::1]:1");
}

#[test]
fn rejects_resolve_with_too_few_parts() {
    assert!(split_resolve("microtak-server:8443").is_err());
    assert!(split_resolve("microtak-server").is_err());
}

#[test]
fn malformed_resolve_reports_the_spec() {
    match split_resolve("only:one") {
        Err(e) => assert_eq!(
            e.message(),
            "--resolve must be in the form HOST:PORT:ADDRESS, got 'only:one'"
        ),
        Ok(_) => panic!("expected an error"),
    }
}

#[test]
fn success_statuses_are_the_2xx_range() {
    assert!(is_success_status(200));
    assert!(is_success_status(204));
    assert!(is_success_status(299));
    assert!(!is_success_status(199));
    assert!(!is_success_status(300));
    assert!(!is_success_status(404));
}

#[test]
fn failure_message_prefers_the_servers_error_text() {
    let e = status_failure("403 Forbidden", r#"{"error": "not an owner"}"#);
    assert_eq!(e.message(), "server returned 403 Forbidden: not an owner");
    let e = status_failure("500 Internal Server Error", "plain text");
    assert_eq!(e.message(), "server returned 500 Internal Server Error: plain text");
    let e = status_failure("400 Bad Request", r#"{"error": 7}"#);
    assert_eq!(e.message(), r#"server returned 400 Bad Request: {"error": 7}"#);
}

#[test]
fn mint_replies_yield_the_token_or_a_precise_error() {
    assert_eq!(token_from_mint_reply(r#"{"token": "abc123"}"#).ok().unwrap(), "abc123");
    assert!(matches!(token_from_mint_reply("not json"), Err(AdminError::MintReplyUnparsable)));
    assert!(matches!(token_from_mint_reply(r#"{"other": 1}"#), Err(AdminError::TokenFieldMissing)));
    assert_eq!(password_from_mint_reply(r#"{"password": "s3cret"}"#).ok().unwrap(), "s3cret");
    assert!(matches!(
        password_from_mint_reply(r#"{"password": null}"#),
        Err(AdminError::PasswordFieldMissing)
    ));
    assert_eq!(
        AdminError::TokenFieldMissing.message(),
        "mint response had no 'token' field"
    );
}

#[test]
fn request_bodies_are_compact_json_with_optional_members() {
    assert_eq!(mint_token_body(None, None), "{}");
    assert_eq!(mint_token_body(Some(86400), None), r#"{"expiresInSecs":86400}"#);
    assert_eq!(
        mint_token_body(Some(-5), Some("for \"jz\"")),
        r#"{"expiresInSecs":-5,"note":"for \"jz\""}"#
    );
    assert_eq!(mint_user_body("alice", None), r#"{"username":"alice"}"#);
    assert_eq!(
        mint_user_body("alice", Some("pw\n")),
        r#"{"username":"alice","password":"pw\n"}"#
    );
    assert_eq!(set_role_body("dev1", RoleArg::Owner), r#"{"uid":"dev1","role":"owner"}"#);
}

#[test]
fn role_order_follows_string_order() {
    assert!(text_before("a", "b"));
    assert!(text_before("ab", "abc"));
    assert!(!text_before("abc", "ab"));
    assert!(!text_before("same", "same"));
    assert!(text_before("Z", "a"));
    let pair = |u: &str| (u.to_string(), "owner".to_string());
    assert!(roles_ascending(&[pair("dev1"), pair("dev2"), pair("dev3")]));
    assert!(!roles_ascending(&[pair("dev2"), pair("dev1")]));
    assert!(!roles_ascending(&[pair("dev1"), pair("dev1")]));
    assert!(roles_ascending(&[]));
}

#[test]
fn json_strings_escape_quotes_backslashes_and_controls() {
    assert_eq!(
        mint_token_body(None, Some("a\"b\\c\u{1}\u{8}\t\n\u{c}\r\u{1f}é/")),
        "{\"note\":\"a\\\"b\\\\c\\u0001\\b\\t\\n\\f\\r\\u001fé/\"}"
    );
    assert_eq!(mint_token_body(Some(i64::MIN), None), "{\"expiresInSecs\":-9223372036854775808}");
}
