use zher::utils::{
    classify_device, generate_room_code, get_device_type, get_random_color, palette_color,
    room_code_of, validate_room_code,
};

#[test]
fn test_generate_room_code() {
    let code = generate_room_code();
    assert_eq!(code.len(), 6);
    assert!(code.chars().all(|c| c.is_ascii_digit()));
}

#[test]
fn test_validate_room_code_valid() {
    assert!(validate_room_code("123456"));
    assert!(validate_room_code("000000"));
    assert!(validate_room_code("999999"));
}

#[test]
fn test_validate_room_code_invalid() {
    assert!(!validate_room_code("12345")); // Too short
    assert!(!validate_room_code("1234567")); // Too long
    assert!(!validate_room_code("12345a")); // Contains letter
    assert!(!validate_room_code("12-456")); // Contains dash
    assert!(!validate_room_code("")); // Empty
}

#[test]
fn test_get_random_color() {
    let color = get_random_color();
    assert!(color.starts_with('#'));
    assert_eq!(color.len(), 7);
}

#[test]
fn test_get_device_type() {
    assert_eq!(get_device_type("Mozilla/5.0 (iPhone)"), "mobile");
    assert_eq!(get_device_type("Mozilla/5.0 (Android)"), "mobile");
    assert_eq!(get_device_type("Mozilla/5.0 (iPad)"), "mobile");
    assert_eq!(get_device_type("Mozilla/5.0 (Windows NT)"), "desktop");
    assert_eq!(get_device_type("Mozilla/5.0 (Macintosh)"), "desktop");
}

#[test]
fn room_code_rejects_digits_outside_ascii() {
    // Six characters, each a digit in another script.
    assert!(!validate_room_code("١٢٣٤٥٦"));
    assert!(!validate_room_code("12345６"));
}

#[test]
fn room_code_of_pads_with_zeros() {
    assert_eq!(room_code_of(0), "000000");
    assert_eq!(room_code_of(42), "000042");
    assert_eq!(room_code_of(999_999), "999999");
    assert_eq!(room_code_of(1_000_000), "1000000");
    assert!(validate_room_code(&room_code_of(7)));
}

#[test]
fn random_colors_come_from_the_palette() {
    let palette = [
        "#ef4444", "#f97316", "#f59e0b", "#84cc16", "#10b981", "#06b6d4", "#3b82f6", "#6366f1",
        "#8b5cf6", "#d946ef",
    ];
    for i in 0..10u32 {
        assert_eq!(palette_color(i), palette[i as usize]);
    }
    for _ in 0..200 {
        let color = get_random_color();
        assert!(palette.contains(&color.as_str()));
    }
}

#[test]
fn tablets_count_as_mobile() {
    assert_eq!(classify_device("android tablet"), "mobile");
    assert_eq!(classify_device("some tablet"), "mobile");
    assert_eq!(classify_device("mozilla/5.0 (ipad; cpu os 17_0)"), "mobile");
    assert_eq!(classify_device(""), "desktop");
    // Matching is done on the lowercase form of the user agent.
    assert_eq!(get_device_type("MOBILE Safari"), "mobile");
    assert_eq!(classify_device("MOBILE Safari"), "desktop");
}

#[test]
fn there_are_two_device_classes() {
    let agents = [
        "",
        "curl/8.0",
        "Mozilla/5.0 (iPad)",
        "Mozilla/5.0 (Linux; Android 14; Tablet)",
        "Mozilla/5.0 (iPhone; CPU iPhone OS 17_0 like Mac OS X) Mobile/15E148",
        "Mozilla/5.0 (Windows NT 10.0; Win64; x64)",
        "Mozilla/5.0 (Macintosh; Intel Mac OS X 10_15_7)",
        "TABLET",
        "mobİle",
    ];
    for agent in agents {
        let class = get_device_type(agent);
        assert!(class == "mobile" || class == "desktop", "{agent}");
    }
}
