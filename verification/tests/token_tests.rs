use commands::token::{Token, TokenMatchResult};

fn expect_value(r: TokenMatchResult, expected: &str) {
    match r {
        TokenMatchResult::Match(Some(s)) => assert_eq!(s, expected),
        TokenMatchResult::Match(None) => panic!("matched, but without a value"),
        TokenMatchResult::NoMatch => panic!("expected a match"),
    }
}

fn expect_no_match(r: TokenMatchResult) {
    assert!(matches!(r, TokenMatchResult::NoMatch));
}

fn strings(items: &[&str]) -> Vec<String> {
    items.iter().map(|s| s.to_string()).collect()
}

#[test]
fn empty_matches_absent_input() {
    match Token::Empty.try_match(None) {
        TokenMatchResult::Match(None) => {}
        _ => panic!("Empty must match absent input without a value"),
    }
}

#[test]
fn only_empty_matches_absent_input() {
    expect_no_match(Token::Value(strings(&["a"])).try_match(None));
    expect_no_match(Token::MultiValue(vec![strings(&["a"])]).try_match(None));
    expect_no_match(Token::FullString.try_match(None));
    expect_no_match(Token::MemberRef.try_match(None));
    expect_no_match(Token::MemberPrivacyTarget.try_match(None));
    expect_no_match(Token::PrivacyLevel.try_match(None));
    expect_no_match(Token::Flag.try_match(None));
}

#[test]
fn empty_rejects_present_input() {
    expect_no_match(Token::Empty.try_match(Some("x".to_string())));
    expect_no_match(Token::Empty.try_match(Some("".to_string())));
}

#[test]
fn value_trims_and_returns_canonical_form() {
    let token = Token::Value(strings(&["a", "b"]));
    expect_value(token.try_match(Some(" a ".to_string())), "a");
}

#[test]
fn value_rejects_unlisted_input() {
    let token = Token::Value(strings(&["a", "b"]));
    expect_no_match(token.try_match(Some("c".to_string())));
}

#[test]
fn value_matches_each_listed_string() {
    let token = Token::Value(strings(&["member", "system"]));
    expect_value(token.try_match(Some("member".to_string())), "member");
    expect_value(token.try_match(Some("\tsystem\n".to_string())), "system");
}

#[test]
fn value_is_case_sensitive() {
    let token = Token::Value(strings(&["member"]));
    expect_no_match(token.try_match(Some("Member".to_string())));
}

#[test]
fn value_with_no_allowed_strings_rejects_everything() {
    let token = Token::Value(Vec::new());
    expect_no_match(token.try_match(Some("a".to_string())));
    expect_no_match(token.try_match(Some("".to_string())));
}

#[test]
fn full_string_returns_input_unchanged() {
    expect_value(Token::FullString.try_match(Some("hello world".to_string())), "hello world");
    expect_value(Token::FullString.try_match(Some("".to_string())), "");
    expect_value(Token::FullString.try_match(Some("   ".to_string())), "   ");
    expect_value(Token::FullString.try_match(Some(" padded ".to_string())), " padded ");
}

#[test]
fn member_ref_returns_input_unchanged() {
    expect_value(Token::MemberRef.try_match(Some("abcde".to_string())), "abcde");
    expect_value(Token::MemberRef.try_match(Some(" My Name ".to_string())), " My Name ");
}

#[test]
fn privacy_level_accepts_exactly_public_and_private() {
    expect_value(Token::PrivacyLevel.try_match(Some("public".to_string())), "public");
    expect_value(Token::PrivacyLevel.try_match(Some("private".to_string())), "private");
    expect_no_match(Token::PrivacyLevel.try_match(Some("Public".to_string())));
    expect_no_match(Token::PrivacyLevel.try_match(Some(" public".to_string())));
    expect_no_match(Token::PrivacyLevel.try_match(Some("secret".to_string())));
    expect_no_match(Token::PrivacyLevel.try_match(Some("".to_string())));
}

#[test]
fn privacy_target_accepts_the_vocabulary() {
    expect_value(
        Token::MemberPrivacyTarget.try_match(Some("visibility".to_string())),
        "visibility",
    );
    expect_value(Token::MemberPrivacyTarget.try_match(Some("name".to_string())), "name");
    expect_value(Token::MemberPrivacyTarget.try_match(Some("todo".to_string())), "todo");
}

#[test]
fn privacy_target_rejects_other_input() {
    expect_no_match(Token::MemberPrivacyTarget.try_match(Some("foo".to_string())));
    expect_no_match(Token::MemberPrivacyTarget.try_match(Some("Visibility".to_string())));
    expect_no_match(Token::MemberPrivacyTarget.try_match(Some("".to_string())));
}

#[test]
fn privacy_target_trims_but_returns_raw_input() {
    expect_value(
        Token::MemberPrivacyTarget.try_match(Some(" name ".to_string())),
        " name ",
    );
}

#[test]
fn vocabulary_lists_the_three_targets() {
    let targets = commands::token::member_privacy_targets();
    assert_eq!(targets, strings(&["visibility", "name", "todo"]));
}
