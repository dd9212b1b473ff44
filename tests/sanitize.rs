use gm_master::sanitize::sanitize_filename;

fn is_reserved(c: char) -> bool {
    matches!(c, '<' | '>' | ':' | '"' | '/' | '\\' | '|' | '?' | '*')
}

#[test]
fn reserved_characters_become_underscores() {
    assert_eq!(sanitize_filename("a<b>c:d\"e/f\\g|h?i*j"), "a_b_c_d_e_f_g_h_i_j");
}

#[test]
fn control_and_non_ascii_characters_become_underscores() {
    assert_eq!(sanitize_filename("a\tb\u{7f}c"), "a_b_c");
    assert_eq!(sanitize_filename("Elden Ring 艾尔登法环"), "Elden Ring _____");
    assert_eq!(sanitize_filename("x\0y\nz\r"), "x_y_z_");
}

#[test]
fn leading_and_trailing_spaces_and_periods_are_trimmed() {
    assert_eq!(sanitize_filename("  ..My Trainer.. "), "My Trainer");
    assert_eq!(sanitize_filename(". a . b ."), "a . b");
}

#[test]
fn device_names_get_a_prefix() {
    assert_eq!(sanitize_filename("CON"), "_CON");
    assert_eq!(sanitize_filename("nul"), "_nul");
    assert_eq!(sanitize_filename("com7"), "_com7");
    assert_eq!(sanitize_filename("Lpt9"), "_Lpt9");
    assert_eq!(sanitize_filename("COM0"), "COM0");
    assert_eq!(sanitize_filename("CONSOLE"), "CONSOLE");
    assert_eq!(sanitize_filename(" aux. "), "_aux");
}

#[test]
fn empty_names_become_unnamed() {
    assert_eq!(sanitize_filename(""), "unnamed");
    assert_eq!(sanitize_filename(" . . "), "unnamed");
}

#[test]
fn long_names_are_cut_to_240_and_trimmed_again() {
    let long = "a".repeat(300);
    assert_eq!(sanitize_filename(&long), "a".repeat(240));
    let dotted = format!("{}{}", "b".repeat(238), ". .xyz");
    assert_eq!(sanitize_filename(&dotted), "b".repeat(238));
}

#[test]
fn sanitised_names_are_safe_and_stable() {
    let inputs = [
        "", "CON", "a/b", " ..x.. ", "Ω≈ç√", "\u{1}\u{2}", "LPT1.txt", "normal name",
        "trailing...", "<<>>", "   ",
    ];
    for input in inputs {
        let once = sanitize_filename(input);
        assert!(!once.is_empty());
        assert!(once.chars().count() <= 240);
        assert!(!once.chars().any(is_reserved));
        assert_eq!(sanitize_filename(&once), once);
    }
}

#[test]
fn a_long_name_cut_down_to_a_device_name_is_not_stable() {
    let input = format!("CON{}x", ".".repeat(240));
    let once = sanitize_filename(&input);
    assert_eq!(once, "CON");
    assert_eq!(sanitize_filename(&once), "_CON");
}
