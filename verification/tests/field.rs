use plantuml_parser::accessibilities::Accessibility;
use plantuml_parser::field::PlantUMLField;
use plantuml_parser::field::doesnt_have_spaces;
use plantuml_parser::field::parse_field;
use plantuml_parser::field::parse_field_name;
use plantuml_parser::field::parse_field_type;
use plantuml_parser::modifiers::Modifier;

#[test]
fn parse_plantuml_field() {
    let input = "- nombreEquipo: String";
    let output = parse_field(input).unwrap();

    assert_eq!(
        output.1,
        PlantUMLField {
            name: "nombreEquipo",
            field_type: "String",
            accessibility: Accessibility::Private,
            modifier: Modifier::Absent
        }
    )
}

//PARSE FIELD TYPE
#[test]
fn parse_type() {
    let input = ": String";
    let output = parse_field_type(input).unwrap();

    assert_eq!(output, ("", "String"));
}

#[test]
fn parse_field_type_fails() {
    let input = ": ";
    let output = parse_field_type(input);

    assert!(output.is_err());
}

//PARSE NAME
#[test]
fn parse_name() {
    let input = "nombreEquipo: String";
    let output = parse_field_name(input).unwrap();

    assert_eq!(output, (": String", "nombreEquipo"));
}

#[test]
fn parse_name_fails() {
    let input = ": String";
    let output = parse_field_name(input);

    assert!(output.is_err());
}

#[test]
fn name_cant_have_spaces() {
    let input = "nombre Equipo: String";
    let output = parse_field_name(input);

    assert!(output.is_err());
}

#[test]
fn doesnt_have_spaces_filters_tokens() {
    assert_eq!(doesnt_have_spaces((": rest", "token")).unwrap(), (": rest", "token"));
    assert!(doesnt_have_spaces((": rest", "two words")).is_err());
    assert!(doesnt_have_spaces((": rest", "")).is_err());
}

#[test]
fn field_round_trip_private_no_modifier() {
    let (rest, field) = parse_field("- analizador: AnalizadorEquipos").unwrap();

    assert_eq!(rest, "");
    assert_eq!(
        field,
        PlantUMLField {
            name: "analizador",
            field_type: "AnalizadorEquipos",
            accessibility: Accessibility::Private,
            modifier: Modifier::Absent
        }
    );
}

#[test]
fn field_with_static_modifier() {
    let (rest, field) = parse_field("+ {static} contador: int").unwrap();

    assert_eq!(rest, "");
    assert_eq!(
        field,
        PlantUMLField {
            name: "contador",
            field_type: "int",
            accessibility: Accessibility::Public,
            modifier: Modifier::Static
        }
    );
}

#[test]
fn field_stops_at_end_of_line() {
    let (rest, field) = parse_field("# puntos: u32\n+ void jugar()").unwrap();

    assert_eq!(rest, "\n+ void jugar()");
    assert_eq!(field.name, "puntos");
    assert_eq!(field.field_type, "u32");
    assert_eq!(field.accessibility, Accessibility::Protected);
}

#[test]
fn field_without_accessibility_fails() {
    assert!(parse_field("nombreEquipo: String").is_err());
}
