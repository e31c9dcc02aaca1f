use plantuml_parser::modifiers::Modifier;
use plantuml_parser::modifiers::parse_modifier;

#[test]
fn optional_parsing_works() {
    let input = "nombreEquipo: String";

    let parser_output = parse_modifier(input).unwrap();
    assert_eq!(parser_output, (input, Modifier::Absent));
}

#[test]
fn parsing_works() {
    let cases = [
        ("{static} nombreEquipo: String", Modifier::Static),
        ("{abstract} nombreEquipo: String", Modifier::Abstract),
        ("{virtual} nombreEquipo: String", Modifier::Virtual),
        ("{ctor} nombreEquipo: String", Modifier::Constructor),
    ];
    for (input, expected) in cases {
        let parser_output = parse_modifier(input).unwrap();
        assert_eq!(parser_output.0, " nombreEquipo: String");
        assert_eq!(parser_output.1, expected);
    }
}

#[test]
fn unknown_bracket_token_consumes_nothing() {
    let (rest, modifier) = parse_modifier("{} nombreEquipo: String").unwrap();
    assert_eq!(rest, "{} nombreEquipo: String");
    assert_eq!(modifier, Modifier::Absent);
}
