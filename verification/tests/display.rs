use launcher::display::parse_resolution;

#[test]
fn plain_resolution() {
    assert_eq!(parse_resolution("1920,1080"), Some((1920, 1080)));
    assert_eq!(parse_resolution("0,0"), Some((0, 0)));
    assert_eq!(parse_resolution("007,010"), Some((7, 10)));
}

#[test]
fn white_space_around_is_taken_off() {
    assert_eq!(parse_resolution("1920,1080\n"), Some((1920, 1080)));
    assert_eq!(parse_resolution("  \t1280,720 \r\n"), Some((1280, 720)));
    assert_eq!(parse_resolution("\u{a0}800,600\u{3000}"), Some((800, 600)));
    assert_eq!(parse_resolution("\u{2003}1,2\u{85}"), Some((1, 2)));
}

#[test]
fn white_space_inside_is_refused() {
    assert_eq!(parse_resolution("1920, 1080"), None);
    assert_eq!(parse_resolution("1920 ,1080"), None);
    assert_eq!(parse_resolution("19 20,1080"), None);
}

#[test]
fn plus_sign_is_accepted_minus_is_not() {
    assert_eq!(parse_resolution("+1920,+1080"), Some((1920, 1080)));
    assert_eq!(parse_resolution("+,1"), None);
    assert_eq!(parse_resolution("1,+"), None);
    assert_eq!(parse_resolution("++1,1"), None);
    assert_eq!(parse_resolution("-1,1"), None);
    assert_eq!(parse_resolution("1,-0"), None);
}

#[test]
fn number_of_parts_must_be_two() {
    assert_eq!(parse_resolution(""), None);
    assert_eq!(parse_resolution("   "), None);
    assert_eq!(parse_resolution("1920"), None);
    assert_eq!(parse_resolution(","), None);
    assert_eq!(parse_resolution("1,"), None);
    assert_eq!(parse_resolution(",1"), None);
    assert_eq!(parse_resolution("1,2,3"), None);
    assert_eq!(parse_resolution("1,,2"), None);
    assert_eq!(parse_resolution(",1,2"), None);
    assert_eq!(parse_resolution("1,2,"), None);
}

#[test]
fn digits_only() {
    assert_eq!(parse_resolution("1920x1080"), None);
    assert_eq!(parse_resolution("19a,10"), None);
    assert_eq!(parse_resolution("19,10px"), None);
    assert_eq!(parse_resolution("0x10,1"), None);
    assert_eq!(parse_resolution("١٢,٣"), None);
    assert_eq!(parse_resolution("1.5,2"), None);
}

#[test]
fn values_must_fit_in_32_bits() {
    assert_eq!(parse_resolution("4294967295,4294967295"), Some((u32::MAX, u32::MAX)));
    assert_eq!(parse_resolution("4294967296,1"), None);
    assert_eq!(parse_resolution("1,4294967296"), None);
    assert_eq!(parse_resolution("99999999999999999999999999,1"), None);
    assert_eq!(parse_resolution("00000000000000000000000001,1"), Some((1, 1)));
    assert_eq!(parse_resolution("42949672950,1"), None);
}

#[test]
fn agrees_with_the_standard_parser() {
    let samples = [
        "1920,1080", " 1,2 ", "+3,4", "-3,4", "3,4,5", "", ",", "12", "1, 2", "4294967295,0",
        "4294967296,0", "0001,0002", "a,b", "\n640,480\n", "1,2\u{200b}", "\u{feff}1,2",
    ];
    for s in samples {
        let parts: Vec<&str> = s.trim().split(',').collect();
        let expected = if parts.len() == 2 {
            match (parts[0].parse::<u32>(), parts[1].parse::<u32>()) {
                (Ok(w), Ok(h)) => Some((w, h)),
                _ => None,
            }
        } else {
            None
        };
        assert_eq!(parse_resolution(s), expected, "for {:?}", s);
    }
}
