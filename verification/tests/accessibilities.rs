use plantuml_parser::accessibilities::Accessibility;
use plantuml_parser::accessibilities::parse_accessibility;

#[test]
fn parse_accessibility_private() {
    let (rest, accessibility) = parse_accessibility("- nombreEquipo: String").unwrap();

    assert_eq!(accessibility, Accessibility::Private);
    assert_eq!(rest, " nombreEquipo: String");
}

#[test]
fn parse_accessibility_public() {
    let (rest, accessibility) = parse_accessibility("+ nombreEquipo: String").unwrap();

    assert_eq!(accessibility, Accessibility::Public);
    assert_eq!(rest, " nombreEquipo: String");
}

#[test]
fn parse_accessibility_protected() {
    let (rest, accessibility) = parse_accessibility("# nombreEquipo: String").unwrap();

    assert_eq!(accessibility, Accessibility::Protected);
    assert_eq!(rest, " nombreEquipo: String");
}

#[test]
fn parse_accessibility_rejects_other_text() {
    assert!(parse_accessibility("nombreEquipo: String").is_err());
    assert!(parse_accessibility(" + late marker").is_err());
    assert!(parse_accessibility("").is_err());
}
