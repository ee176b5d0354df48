use microtak_admin_cli::cli::RoleArg;
use microtak_admin_cli::client::{EnrollmentToken, Mission, UserInfo};
use microtak_admin_cli::report::{
    format_unix, handout_written_message, join_texts, mission_detail_lines, mission_summary_line,
    now_unix, revoked_message, role_assigned_message, role_revoked_message, token_status,
    token_table_lines, unix_seconds_from, unix_time_or_seconds, user_minted_message,
    user_table_lines, TokenStatus,
};
use microtak_admin_cli::text::{decimal_string, pad_right};

fn token(revoked: bool, used: bool, expires: Option<i64>) -> EnrollmentToken {
    EnrollmentToken {
        token: "abc".to_string(),
        created_at_unix: 0,
        expires_at_unix: expires,
        note: None,
        used,
        used_by_common_name: None,
        revoked,
    }
}

#[test]
fn token_status_precedence_and_expiry() {
    assert!(token_status(&token(true, true, Some(0)), 10) == TokenStatus::Revoked);
    assert!(token_status(&token(false, true, Some(0)), 10) == TokenStatus::Used);
    assert!(token_status(&token(false, false, Some(10)), 9) == TokenStatus::Active);
    assert!(token_status(&token(false, false, Some(10)), 10) == TokenStatus::Expired);
    assert!(token_status(&token(false, false, Some(10)), 1_000_000) == TokenStatus::Expired);
    assert!(token_status(&token(false, false, None), i64::MAX) == TokenStatus::Active);
    assert_eq!(TokenStatus::Expired.label(), "expired");
}

#[test]
fn timestamps_render_as_rfc3339_or_seconds() {
    assert_eq!(format_unix(0), "1970-01-01T00:00:00Z");
    assert_eq!(format_unix(1_700_000_000), "2023-11-14T22:13:20Z");
    assert_eq!(format_unix(i64::MAX), "9223372036854775807");
    assert_eq!(format_unix(i64::MIN), "-9223372036854775808");
    assert_eq!(unix_time_or_seconds(5, None), "5");
    assert_eq!(unix_time_or_seconds(5, Some("x".to_string())), "x");
}

#[test]
fn decimal_and_padding_helpers() {
    assert_eq!(decimal_string(0), "0");
    assert_eq!(decimal_string(-42), "-42");
    assert_eq!(decimal_string(1234567890), "1234567890");
    assert_eq!(pad_right("ab", 5), "ab   ");
    assert_eq!(pad_right("abcdef", 3), "abcdef");
    assert_eq!(pad_right("é", 3), "é  ");
}

#[test]
fn clock_reading_is_plausible() {
    assert!(now_unix() > 1_600_000_000);
    assert_eq!(unix_seconds_from(None), 0);
    assert_eq!(unix_seconds_from(Some(12)), 12);
    assert_eq!(unix_seconds_from(Some(u64::MAX)), -1);
}

#[test]
fn token_table_layout() {
    assert_eq!(token_table_lines(&[], 0), vec!["No enrollment tokens.".to_string()]);
    let mut t = token(false, true, None);
    t.used_by_common_name = Some("dev1".to_string());
    t.note = Some("for alice".to_string());
    let lines = token_table_lines(&[t], 0);
    assert_eq!(lines.len(), 2);
    assert_eq!(
        lines[0],
        format!(
            "{:<66} {:<10} {:<20} {:<20} {:<20} NOTE",
            "TOKEN", "STATUS", "USED BY", "CREATED", "EXPIRES"
        )
    );
    assert_eq!(
        lines[1],
        format!(
            "{:<66} {:<10} {:<20} {:<20} {:<20} {}",
            "abc", "used", "dev1", "1970-01-01T00:00:00Z", "never", "for alice"
        )
    );
}

#[test]
fn user_table_layout() {
    assert_eq!(user_table_lines(&[]), vec!["No user accounts.".to_string()]);
    let users = [
        UserInfo { username: "alice".to_string(), created_at_unix: 0, revoked: false },
        UserInfo { username: "bob".to_string(), created_at_unix: 0, revoked: true },
    ];
    let lines = user_table_lines(&users);
    assert_eq!(lines[0], format!("{:<30} {:<10} CREATED", "USERNAME", "STATUS"));
    assert_eq!(lines[1], format!("{:<30} {:<10} {}", "alice", "active", "1970-01-01T00:00:00Z"));
    assert_eq!(lines[2], format!("{:<30} {:<10} {}", "bob", "revoked", "1970-01-01T00:00:00Z"));
}

#[test]
fn mission_lines() {
    let mission = Mission {
        name: "Recon Alpha".to_string(),
        description: None,
        creator_uid: "dev1".to_string(),
        roles: vec![
            ("dev1".to_string(), "owner".to_string()),
            ("dev2".to_string(), "subscriber".to_string()),
        ],
        subscribers: vec!["dev1".to_string(), "dev2".to_string()],
    };
    assert_eq!(mission_summary_line(&mission), "Recon Alpha  (creator: dev1)");
    assert_eq!(
        mission_detail_lines(&mission),
        vec![
            "Name:        Recon Alpha".to_string(),
            "Description: -".to_string(),
            "Creator:     dev1".to_string(),
            "Subscribers: dev1, dev2".to_string(),
            "Roles:".to_string(),
            format!("  {:<30} {}", "dev1", "owner"),
            format!("  {:<30} {}", "dev2", "subscriber"),
        ]
    );
    assert_eq!(join_texts(&[], ", "), "");
    assert_eq!(join_texts(&["a".to_string()], ", "), "a");
}

#[test]
fn confirmations() {
    assert_eq!(revoked_message(), "Revoked.");
    assert_eq!(user_minted_message("alice", "pw"), "Minted user 'alice' with password: pw");
    assert_eq!(RoleArg::Owner.to_string(), "owner");
    assert_eq!(
        role_assigned_message(RoleArg::Subscriber, "dev2", "Recon Alpha"),
        "Assigned subscriber to 'dev2' on 'Recon Alpha'."
    );
    assert_eq!(
        role_revoked_message("dev2", "Recon Alpha"),
        "Revoked the role 'dev2' held on 'Recon Alpha'."
    );
    assert_eq!(handout_written_message("h.pdf"), "Wrote enrollment handout to h.pdf");
}

#[test]
fn rfc3339_covers_years_zero_to_9999() {
    assert_eq!(format_unix(-62167219200), "0000-01-01T00:00:00Z");
    assert_eq!(format_unix(-62167219201), "-62167219201");
    assert_eq!(format_unix(253402300799), "9999-12-31T23:59:59Z");
    assert_eq!(format_unix(253402300800), "253402300800");
}
