use cycle_checker::pack::{Reference, SourceLocation};
use cycle_checker::pack_checker::print_reference_location;
use cycle_checker::text::{append_decimal, contains_text, join};

#[test]
fn numbers_are_decimal() {
    for number in [0, 7, 9, 10, 42, 100, 65535, usize::MAX] {
        let mut text = String::new();
        append_decimal(&mut text, number);
        assert_eq!(text, number.to_string());
    }
}

#[test]
fn separator_stands_between_neighbours_only() {
    let parts: Vec<String> = vec!["a".to_owned(), "b".to_owned(), "c".to_owned()];
    assert_eq!(join(&parts, " -> "), "a -> b -> c");
    assert_eq!(join(&vec!["a".to_owned()], " -> "), "a");
    assert_eq!(join(&vec![], " -> "), "");
}

#[test]
fn text_is_found_whole() {
    let strings = vec!["packs/foo".to_owned(), "packs/bar".to_owned()];
    assert!(contains_text(&strings, &"packs/bar".to_owned()));
    assert!(!contains_text(&strings, &"packs".to_owned()));
    assert!(!contains_text(&vec![], &"packs".to_owned()));
}

#[test]
fn location_is_file_line_and_column() {
    let reference = Reference {
        constant_name: "::Payments".to_owned(),
        referencing_pack_name: "packs/feature_flags".to_owned(),
        relative_referencing_file: "packs/feature_flags/app/services/feature_flags.rb".to_owned(),
        source_location: SourceLocation { line: 2, column: 0 },
        defining_pack_name: None,
        relative_defining_file: None,
    };
    assert_eq!(
        print_reference_location(&reference),
        "packs/feature_flags/app/services/feature_flags.rb:2:0\n"
    );
}
