use remotedesk::input::{
    js_key_to_key, remote_key_press, remote_mouse_click, remote_mouse_move, remote_mouse_scroll,
    InputAction, KeyId, MouseButton,
};
use remotedesk::text::{hex_string, u64_to_decimal};
use remotedesk::wol::{magic_packet, parse_mac, wake_packet};

#[test]
fn wake_packet_has_magic_shape() {
    let pkt = wake_packet("AA:BB:CC:DD:EE:FF").expect("parses");
    assert_eq!(pkt.len(), 102);
    let mac = [0xAAu8, 0xBB, 0xCC, 0xDD, 0xEE, 0xFF];
    let mut expected = vec![0xFFu8; 6];
    for _ in 0..16 {
        expected.extend_from_slice(&mac);
    }
    assert_eq!(pkt, expected);
}

#[test]
fn mac_parsing_accepts_both_separators_and_cases() {
    assert_eq!(parse_mac("aa:bb:cc:dd:ee:ff").unwrap(), vec![0xAA, 0xBB, 0xCC, 0xDD, 0xEE, 0xFF]);
    assert_eq!(parse_mac("AA-BB-CC-DD-EE-FF").unwrap(), vec![0xAA, 0xBB, 0xCC, 0xDD, 0xEE, 0xFF]);
    assert_eq!(parse_mac("0:1:2:3:4:5").unwrap(), vec![0, 1, 2, 3, 4, 5]);
    assert_eq!(parse_mac("a:B:c:D:e:F").unwrap(), vec![10, 11, 12, 13, 14, 15]);
}

#[test]
fn malformed_macs_are_rejected() {
    assert!(parse_mac("").is_err());
    assert!(parse_mac("AA:BB:CC:DD:EE").is_err());
    assert!(parse_mac("AA:BB:CC:DD:EE:FF:00").is_err());
    assert!(parse_mac("AA:BB:CC:DD:EE:GG").is_err());
    assert!(parse_mac("AAA:BB:CC:DD:EE:FF").is_err());
    assert!(parse_mac("AA::CC:DD:EE:FF").is_err());
    assert!(parse_mac("AA:BB:CC:DD:EE:FF:").is_err());
    assert!(parse_mac(":AA:BB:CC:DD:EE").is_err());
}

#[test]
fn magic_packet_repeats_address() {
    let mac = vec![1u8, 2, 3, 4, 5, 6];
    let pkt = magic_packet(&mac);
    assert_eq!(pkt.len(), 102);
    for i in 0..6 {
        assert_eq!(pkt[i], 0xFF);
    }
    for k in 0..16 {
        for j in 0..6 {
            assert_eq!(pkt[6 + 6 * k + j], mac[j]);
        }
    }
}

#[test]
fn key_codes_resolve() {
    assert_eq!(js_key_to_key("a", "KeyA"), Some(KeyId::KeyA));
    assert_eq!(js_key_to_key("7", "Digit7"), Some(KeyId::Num7));
    assert_eq!(js_key_to_key("", "F11"), Some(KeyId::F11));
    assert_eq!(js_key_to_key("", "Enter"), Some(KeyId::Return));
    assert_eq!(js_key_to_key("", "NumpadEnter"), Some(KeyId::Return));
    assert_eq!(js_key_to_key("", "ShiftRight"), Some(KeyId::ShiftLeft));
    assert_eq!(js_key_to_key("", "ControlRight"), Some(KeyId::ControlLeft));
    assert_eq!(js_key_to_key("", "AltRight"), Some(KeyId::Alt));
    assert_eq!(js_key_to_key("", "MetaRight"), Some(KeyId::MetaLeft));
    assert_eq!(js_key_to_key("", "ArrowLeft"), Some(KeyId::LeftArrow));
    // The space fallback catches unmapped codes whose key is a space.
    assert_eq!(js_key_to_key(" ", "NoSuchCode"), Some(KeyId::Space));
    // Anything else unmapped is None: a silent no-op, not an error.
    assert_eq!(js_key_to_key("~~", "IntlWeird"), None);
}

#[test]
fn key_press_wraps_key_in_modifiers() {
    let seq = remote_key_press("a", "KeyA", true, false, true, false);
    assert_eq!(
        seq,
        vec![
            InputAction::KeyPress(KeyId::ControlLeft),
            InputAction::KeyPress(KeyId::ShiftLeft),
            InputAction::KeyPress(KeyId::KeyA),
            InputAction::KeyRelease(KeyId::KeyA),
            InputAction::KeyRelease(KeyId::ShiftLeft),
            InputAction::KeyRelease(KeyId::ControlLeft),
        ]
    );
}

#[test]
fn all_modifiers_release_in_reverse_order() {
    let seq = remote_key_press("", "Tab", true, true, true, true);
    assert_eq!(
        seq,
        vec![
            InputAction::KeyPress(KeyId::ControlLeft),
            InputAction::KeyPress(KeyId::Alt),
            InputAction::KeyPress(KeyId::ShiftLeft),
            InputAction::KeyPress(KeyId::MetaLeft),
            InputAction::KeyPress(KeyId::Tab),
            InputAction::KeyRelease(KeyId::Tab),
            InputAction::KeyRelease(KeyId::MetaLeft),
            InputAction::KeyRelease(KeyId::ShiftLeft),
            InputAction::KeyRelease(KeyId::Alt),
            InputAction::KeyRelease(KeyId::ControlLeft),
        ]
    );
}

#[test]
fn unmapped_key_still_cycles_modifiers() {
    let seq = remote_key_press("~~", "IntlWeird", false, true, false, true);
    assert_eq!(
        seq,
        vec![
            InputAction::KeyPress(KeyId::Alt),
            InputAction::KeyPress(KeyId::MetaLeft),
            InputAction::KeyRelease(KeyId::MetaLeft),
            InputAction::KeyRelease(KeyId::Alt),
        ]
    );
}

#[test]
fn bare_key_press_has_no_modifiers() {
    let seq = remote_key_press("x", "KeyX", false, false, false, false);
    assert_eq!(
        seq,
        vec![InputAction::KeyPress(KeyId::KeyX), InputAction::KeyRelease(KeyId::KeyX)]
    );
}

#[test]
fn clicks_press_then_release() {
    assert_eq!(
        remote_mouse_click("right"),
        vec![
            InputAction::ButtonPress(MouseButton::Right),
            InputAction::ButtonRelease(MouseButton::Right),
        ]
    );
    assert_eq!(
        remote_mouse_click("middle"),
        vec![
            InputAction::ButtonPress(MouseButton::Middle),
            InputAction::ButtonRelease(MouseButton::Middle),
        ]
    );
    // Anything unknown is the left button.
    assert_eq!(
        remote_mouse_click("left-ish"),
        vec![
            InputAction::ButtonPress(MouseButton::Left),
            InputAction::ButtonRelease(MouseButton::Left),
        ]
    );
}

#[test]
fn moves_and_scrolls_pass_through() {
    assert_eq!(remote_mouse_move(640, 360), InputAction::MouseMove { x: 640, y: 360 });
    assert_eq!(remote_mouse_scroll(-3, 12), InputAction::Wheel { dx: -3, dy: 12 });
}

#[test]
fn hex_spelling_matches_reference() {
    let bytes: Vec<u8> = (0..=255u8).collect();
    assert_eq!(hex_string(&bytes), hex::encode(&bytes));
    assert_eq!(hex_string(&[]), "");
    assert_eq!(hex_string(&[0x0f, 0xf0]), "0ff0");
}

#[test]
fn decimal_spelling_matches_reference() {
    assert_eq!(u64_to_decimal(0), "0");
    assert_eq!(u64_to_decimal(7), "7");
    assert_eq!(u64_to_decimal(1234567890), "1234567890");
    assert_eq!(u64_to_decimal(u64::MAX), format!("{}", u64::MAX));
}
