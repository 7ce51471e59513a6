use gepetto::names::generate_program_name_variants;

#[test]
fn test_derive_variants_some_counter() {
    let (underscore, readable) = generate_program_name_variants("some-counter");
    assert_eq!(underscore, "some_counter");
    assert_eq!(readable, "Some Counter");
}

#[test]
fn test_underscore_keeps_length_and_drops_dashes() {
    for input in ["a", "a-b", "my-2nd-program", "counter-pinocchio"] {
        let (underscore, _) = generate_program_name_variants(input);
        assert_eq!(underscore.chars().count(), input.chars().count());
        assert!(!underscore.contains('-'));
    }
}

#[test]
fn test_readable_word_count_matches_segments() {
    for input in ["a", "a-b", "my-2nd-program", "one-two-three-four"] {
        let (_, readable) = generate_program_name_variants(input);
        let segments = input.split('-').count();
        assert_eq!(readable.split_whitespace().count(), segments);
    }
}

#[test]
fn test_readable_capitalizes_first_letters_only() {
    let (_, readable) = generate_program_name_variants("my-counter-app");
    assert_eq!(readable, "My Counter App");
    let (_, readable) = generate_program_name_variants("2fast-counter");
    assert_eq!(readable, "2fast Counter");
}

#[test]
fn test_empty_segments_are_preserved() {
    // A doubled separator yields an empty segment and a visible double
    // space; the edge case passes through rather than being special-cased.
    let (underscore, readable) = generate_program_name_variants("a--b");
    assert_eq!(underscore, "a__b");
    assert_eq!(readable, "A  B");
    let (_, readable) = generate_program_name_variants("-a");
    assert_eq!(readable, " A");
}
