use attribute_store::errors::AttributeStoreErrorKind;
use attribute_store::errors::AttributeStoreErrorKind::InvalidSymbolName;
use attribute_store::symbol::Symbol;

#[test]
fn invalid_symbols() {
    assert!(matches!(
        Symbol::try_from(r"ab\c").unwrap_err().kind,
        InvalidSymbolName(_)
    ));
    assert!(matches!(
        Symbol::try_from(r#"ab"c"#).unwrap_err().kind,
        InvalidSymbolName(_)
    ));
    assert!(matches!(
        Symbol::try_from("").unwrap_err().kind,
        InvalidSymbolName(_)
    ));
    assert!(matches!(
        Symbol::try_from("0123456789".repeat(7)).unwrap_err().kind,
        InvalidSymbolName(_)
    ));
}

#[test]
fn valid_symbols() {
    assert_eq!(
        Symbol::try_from("abc").unwrap(),
        Symbol::try_from(String::from("abc")).unwrap()
    );
    assert_eq!(
        Symbol::try_from("@id").unwrap(),
        Symbol::try_from(String::from("@id")).unwrap()
    );
    assert_eq!(
        Symbol::try_from("@valueType/text").unwrap(),
        Symbol::try_from(String::from("@valueType/text")).unwrap()
    );
}

#[test]
fn symbol_length_bounds() {
    let sixty = "a".repeat(60);
    assert_eq!(Symbol::try_from(sixty.clone()).unwrap().as_str(), sixty);
    let sixty_one = "a".repeat(61);
    assert!(matches!(
        Symbol::try_from(sixty_one).unwrap_err().kind,
        AttributeStoreErrorKind::InvalidSymbolName(_)
    ));
}

#[test]
fn symbol_character_classes() {
    assert!(Symbol::try_from("a b").is_ok());
    assert!(Symbol::try_from("~!@#$%").is_ok());
    assert!(Symbol::try_from("a\tb").is_err());
    assert!(Symbol::try_from("a\nb").is_err());
    assert!(Symbol::try_from("caf\u{e9}").is_err());
}
