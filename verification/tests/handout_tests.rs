use microtak_admin_cli::pdf::{
    handout_detail_lines, manual_step_lines, rasterize_qr, Expiry, HandoutInfo, MODULE_PIXELS,
    QUIET_ZONE_MODULES,
};
use microtak_admin_cli::qr::{enrollment_payload, terminal_qr};
use microtak_admin_cli::report::{handout_for_mint, handout_without_server, mint_qr_payload};

#[test]
fn payload_carries_url_and_token() {
    let payload = enrollment_payload("http://server:8446", "abc123");
    assert_eq!(payload, "microtak-enroll:?url=http://server:8446&token=abc123");
}

#[test]
fn a_real_token_payload_encodes_and_renders() {
    let payload = enrollment_payload("http://192.168.1.50:8446", &"a".repeat(64));
    let rendered = terminal_qr(&payload).ok().unwrap();
    assert!(!rendered.is_empty());
    assert!(rendered.lines().count() > 5, "expected a real multi-row QR grid");
}

#[test]
fn oversized_payload_cannot_be_encoded() {
    let payload = "x".repeat(8000);
    assert!(terminal_qr(&payload).is_err());
    assert!(rasterize_qr(&payload).is_err());
}

#[test]
fn rasterize_qr_produces_a_real_dark_on_light_code() {
    let image = rasterize_qr("microtak-enroll:?url=http://server:8446&token=abc123").ok().unwrap();

    let finder_x = QUIET_ZONE_MODULES * MODULE_PIXELS + MODULE_PIXELS / 2;
    let finder_y = QUIET_ZONE_MODULES * MODULE_PIXELS + MODULE_PIXELS / 2;
    assert_eq!(image.pixel(finder_x, finder_y), 0, "finder pattern must be dark");

    assert_eq!(image.pixel(0, 0), 255, "quiet zone must stay white");
}

#[test]
fn bitmap_is_square_with_a_white_border() {
    let image = rasterize_qr("hello").ok().unwrap();
    let side = image.side();
    assert_eq!(side, (21 + 8) * 8);
    for i in 0..side {
        for d in 0..32 {
            assert_eq!(image.pixel(i, d), 255);
            assert_eq!(image.pixel(d, i), 255);
            assert_eq!(image.pixel(i, side - 1 - d), 255);
            assert_eq!(image.pixel(side - 1 - d, i), 255);
        }
    }
    for (y, row) in image.rows.iter().enumerate() {
        assert_eq!(row.len(), side);
        for x in (0..side).step_by(8) {
            let first = image.pixel(x, y - y % 8);
            for dy in 0..8 {
                for dx in 0..8 {
                    assert_eq!(image.pixel(x + dx, y - y % 8 + dy), first);
                }
            }
        }
    }
}

#[test]
fn expiry_display_covers_all_three_states() {
    assert_eq!(Expiry::Never.to_string(), "never");
    assert_eq!(Expiry::At("2026-10-01T00:00:00Z".to_string()).to_string(), "2026-10-01T00:00:00Z");
    assert!(Expiry::Unknown.to_string().contains("unknown"));
}

#[test]
fn handout_text_lists_details_and_steps() {
    let info = HandoutInfo {
        token: "abc123",
        enrollment_url: "http://microtak.example.com:8446",
        note: Some("for jz_pixel"),
        expires_at: Expiry::At("2026-10-01T00:00:00Z".to_string()),
    };
    assert_eq!(
        handout_detail_lines(&info),
        vec![
            "Enrollment URL: http://microtak.example.com:8446".to_string(),
            "Token: abc123".to_string(),
            "Expires: 2026-10-01T00:00:00Z".to_string(),
            "Note: for jz_pixel".to_string(),
        ]
    );
    let steps = manual_step_lines(&info);
    assert_eq!(steps.len(), 4);
    assert_eq!(
        steps[1],
        "Run: microtak-admin-cli enroll --enrollment-url http://microtak.example.com:8446 --cn <device-name> --token abc123 --out-cert device.pem --out-key device.key"
    );
}

#[test]
fn mint_follow_ups() {
    assert_eq!(
        mint_qr_payload(None, "t"),
        "microtak-enroll:?url=<set --enrollment-url to embed it in the QR code>&token=t"
    );
    assert_eq!(mint_qr_payload(Some("http://s"), "t"), "microtak-enroll:?url=http://s&token=t");
    match handout_for_mint("t", None, None, None, 0) {
        Err(e) => assert_eq!(
            e.message(),
            "--pdf requires --enrollment-url so the handout has a real URL to show"
        ),
        Ok(_) => panic!("a handout needs a URL"),
    }
    let info = handout_for_mint("t", Some("http://s"), Some("n"), Some(86400), 0).ok().unwrap();
    assert_eq!(info.expires_at.to_string(), "1970-01-02T00:00:00Z");
    let info = handout_for_mint("t", Some("http://s"), None, None, 0).ok().unwrap();
    assert_eq!(info.expires_at.to_string(), "never");
    let info = handout_without_server("t", "http://s", None);
    assert!(info.expires_at.to_string().starts_with("unknown"));
}
