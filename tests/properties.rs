use key_notation::{parse_key, parse_keys, split_keys, split_modifiers, Error, Key, KeyName, Keys, Modifiers};

fn key(name: KeyName, shift: bool, control: bool, alt: bool) -> Key {
    Key {
        name,
        modifiers: Modifiers {
            shift,
            control,
            alt,
        },
    }
}

#[test]
fn parsing_twice_gives_the_same_result() {
    for input in ["a<C-a>b", "<M-C-B>", "<C-<a>", "", "\\-x", "<X-a>"] {
        assert_eq!(parse_keys(input), parse_keys(input));
        assert_eq!(parse_key(input), parse_key(input));
    }
}

#[test]
fn every_letter_parses_with_shift_for_upper_case() {
    let lower = "abcdefghijklmnopqrstuvwxyz";
    let upper = "ABCDEFGHIJKLMNOPQRSTUVWXYZ";
    for (l, u) in lower.chars().zip(upper.chars()) {
        let small = parse_key(&l.to_string()).unwrap();
        let big = parse_key(&u.to_string()).unwrap();
        assert_eq!(small.name, big.name);
        assert_eq!(small.modifiers, Modifiers::default());
        assert_eq!(
            big.modifiers,
            Modifiers {
                shift: true,
                control: false,
                alt: false
            }
        );
    }
    assert_eq!(parse_key("z"), Ok(key(KeyName::Z, false, false, false)));
    assert_eq!(parse_key("Q"), Ok(key(KeyName::Q, true, false, false)));
}

#[test]
fn control_group_sets_control_over_any_spelling() {
    assert_eq!(parse_key("<C-x>"), Ok(key(KeyName::X, false, true, false)));
    assert_eq!(parse_key("<C-X>"), Ok(key(KeyName::X, true, true, false)));
    assert_eq!(parse_key("<C-7>"), Ok(key(KeyName::Number7, false, true, false)));
    assert_eq!(parse_key("<C-;>"), Ok(key(KeyName::Semicolon, false, true, false)));
    assert_eq!(parse_key("<C-\\->"), Ok(key(KeyName::Dash, false, true, false)));
    assert_eq!(parse_key("<C-\\>>"), Ok(key(KeyName::GreaterThan, false, true, false)));
    assert_eq!(parse_key("<C-\\>"), Ok(key(KeyName::Backslash, false, true, false)));
}

#[test]
fn modifier_order_does_not_matter() {
    let cm = parse_key("<C-M-a>").unwrap();
    let mc = parse_key("<M-C-a>").unwrap();
    assert_eq!(cm.modifiers, mc.modifiers);
    assert_eq!(cm, key(KeyName::A, false, true, true));
    assert_eq!(parse_key("<C-M-C-a>"), Ok(cm));
    assert_eq!(parse_key("<M-M-b>"), Ok(key(KeyName::B, false, false, true)));
}

#[test]
fn concrete_notation_scenarios() {
    assert_eq!(parse_keys("a"), Ok(Keys(vec![key(KeyName::A, false, false, false)])));
    assert_eq!(parse_keys("<C-a>"), Ok(Keys(vec![key(KeyName::A, false, true, false)])));
    assert_eq!(
        parse_keys("a<C-a>b"),
        Ok(Keys(vec![
            key(KeyName::A, false, false, false),
            key(KeyName::A, false, true, false),
            key(KeyName::B, false, false, false),
        ]))
    );
    assert_eq!(
        parse_keys("<M-a><C-a>B<M-C-B>"),
        Ok(Keys(vec![
            key(KeyName::A, false, false, true),
            key(KeyName::A, false, true, false),
            key(KeyName::B, true, false, false),
            key(KeyName::B, true, true, true),
        ]))
    );
    assert_eq!(parse_keys("<C-<a>"), Err(Error::UnexpectedGroupOpen));
    assert_eq!(parse_keys("a>"), Err(Error::UnexpectedGroupClose));
    assert_eq!(parse_keys("<C-"), Err(Error::UnexpectedEnd));
    assert_eq!(parse_keys("<C>"), Err(Error::IncompleteGroup("C".to_string())));
    assert_eq!(parse_key("\\-"), Ok(key(KeyName::Dash, false, false, false)));
    assert_eq!(parse_key("\\<"), Ok(key(KeyName::LessThan, false, false, false)));
}

#[test]
fn empty_notation_has_no_keys() {
    assert_eq!(parse_keys(""), Ok(Keys(vec![])));
    assert_eq!(split_keys(""), Ok(vec![]));
    assert_eq!(split_modifiers(""), Ok(vec![]));
}

#[test]
fn each_error_has_an_input() {
    assert_eq!(parse_key("<X-a>"), Err(Error::InvalidKeyModifier("X".to_string())));
    assert_eq!(parse_key("<C-X-Y-a>"), Err(Error::InvalidKeyModifier("X".to_string())));
    assert_eq!(parse_key("<CM-a>"), Err(Error::InvalidKeyModifier("CM".to_string())));
    assert_eq!(parse_key("<X-ab>"), Err(Error::InvalidKeyName("ab".to_string())));
    assert_eq!(parse_key("<C-->"), Err(Error::IncompleteGroup("C--".to_string())));
    assert_eq!(parse_key("ab"), Err(Error::InvalidKeyName("ab".to_string())));
    assert_eq!(parse_key(""), Err(Error::InvalidKeyName("".to_string())));
    assert_eq!(parse_key(" "), Err(Error::InvalidKeyName(" ".to_string())));
    assert_eq!(parse_keys("a<C-a><"), Err(Error::UnexpectedEnd));
    assert_eq!(parse_keys("<C-\\>"), Err(Error::UnexpectedEnd));
    assert_eq!(parse_keys("ab>"), Err(Error::UnexpectedGroupClose));
    assert_eq!(parse_keys("a<X-b>c"), Err(Error::InvalidKeyModifier("X".to_string())));
    assert_eq!(parse_keys("a<<"), Err(Error::UnexpectedGroupOpen));
}

#[test]
fn first_error_wins() {
    assert_eq!(parse_keys("x<C-a>>"), Err(Error::UnexpectedGroupClose));
    assert_eq!(parse_keys("?<X-a><Y-b>"), Err(Error::InvalidKeyModifier("X".to_string())));
    assert_eq!(parse_keys("<X-a>>"), Err(Error::UnexpectedGroupClose));
}

#[test]
fn escapes_and_wide_characters() {
    assert_eq!(split_keys("\\"), Ok(vec!["\\"]));
    assert_eq!(parse_keys("\\"), Ok(Keys(vec![key(KeyName::Backslash, false, false, false)])));
    assert_eq!(split_keys("é<C-é>ß"), Ok(vec!["é", "<C-é>", "ß"]));
    assert_eq!(parse_keys("é"), Err(Error::InvalidKeyName("é".to_string())));
    assert_eq!(parse_key("<C-é>"), Err(Error::InvalidKeyName("é".to_string())));
    assert_eq!(split_modifiers("é-\\-x-"), Ok(vec!["é", "\\-x"]));
    assert_eq!(split_keys("<C-\\<>\\>"), Ok(vec!["<C-\\<>", "\\>"]));
    assert_eq!(split_modifiers("C-\\"), Ok(vec!["C", "\\"]));
}

#[test]
fn name_table_lookup() {
    assert_eq!(KeyName::from_str("a"), Some((KeyName::A, false)));
    assert_eq!(KeyName::from_str("A"), Some((KeyName::A, true)));
    assert_eq!(KeyName::from_str("0"), Some((KeyName::Number0, false)));
    assert_eq!(KeyName::from_str("\""), Some((KeyName::DoubleQuote, false)));
    assert_eq!(KeyName::from_str("'"), Some((KeyName::SingleQuote, false)));
    assert_eq!(KeyName::from_str("\\"), Some((KeyName::Backslash, false)));
    assert_eq!(KeyName::from_str("\\>"), Some((KeyName::GreaterThan, false)));
    assert_eq!(KeyName::from_str("\\a"), None);
    assert_eq!(KeyName::from_str("-"), None);
    assert_eq!(KeyName::from_str("<"), None);
    assert_eq!(KeyName::from_str("aa"), None);
    assert_eq!(KeyName::from_str(""), None);
}

#[test]
fn host_modifier_flags() {
    assert_eq!(
        Modifiers::from_flags(true, false, true, false),
        Some(Modifiers {
            shift: true,
            control: false,
            alt: true
        })
    );
    assert_eq!(Modifiers::from_flags(false, false, false, false), Some(Modifiers::default()));
    assert_eq!(Modifiers::from_flags(true, true, true, true), None);
}
