use luma::casing::convert_case;

#[test]
fn snake_case_splits_words_at_uppercase_letters() {
    assert_eq!(convert_case("MismatchedTypes", "snake_case"), "mismatched_types");
    assert_eq!(convert_case("UnresolvedSymbol", "snake_case"), "unresolved_symbol");
}

#[test]
fn kebab_case_uses_hyphens() {
    assert_eq!(convert_case("CalleeNotFunction", "kebab-case"), "callee-not-function");
}

#[test]
fn screaming_snake_case_keeps_uppercase_and_raises_the_rest() {
    assert_eq!(convert_case("MissingElseBranch", "SCREAMING_SNAKE_CASE"), "MISSING_ELSE_BRANCH");
    assert_eq!(convert_case("Int32", "SCREAMING_SNAKE_CASE"), "INT32");
}

#[test]
fn lowercase_lowers_every_letter_without_separators() {
    assert_eq!(convert_case("UInt64", "lowercase"), "uint64");
    assert_eq!(convert_case("ΣΑΣ", "lowercase"), "σας");
}

#[test]
fn a_leading_uppercase_letter_gets_no_separator() {
    assert_eq!(convert_case("A", "snake_case"), "a");
    assert_eq!(convert_case("", "snake_case"), "");
}

#[test]
fn consecutive_uppercase_letters_each_start_a_word() {
    assert_eq!(convert_case("ABc", "snake_case"), "a_bc");
    assert_eq!(convert_case("ÉtéX", "kebab-case"), "été-x");
}

#[test]
fn an_unknown_case_leaves_the_name() {
    assert_eq!(convert_case("SomeName", "camelCase"), "SomeName");
    assert_eq!(convert_case("SomeName", ""), "SomeName");
}
