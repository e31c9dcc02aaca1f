use plantuml_parser::enums::PlantUMLEnum;
use plantuml_parser::enums::PlantUMLEnumVariant;
use plantuml_parser::enums::parse_enum;
use plantuml_parser::enums::parse_enum_variant;

#[test]
fn parse_enum_succeeds() {
    let input = "enum AccionUsuario {
    SALIR
    TOTAL_GOLES
    TOTAL_TIROS_ESQUINA
}\n";
    let (rest, enu) = parse_enum(input).expect("Couldn't parse the enum!");
    assert_eq!("\n", rest);
    assert_eq!(
        enu,
        PlantUMLEnum {
            name: "AccionUsuario",
            variants: vec![
                PlantUMLEnumVariant { name: "SALIR" },
                PlantUMLEnumVariant { name: "TOTAL_GOLES" },
                PlantUMLEnumVariant { name: "TOTAL_TIROS_ESQUINA" },
            ]
        }
    )
}

#[test]
fn parse_enum_fails() {
    let input = "enum Accion Usuario {
    SALIR
    TOTAL_GOLES
    TOTAL_TIROS_ESQUINA
}";
    let res = parse_enum(input);
    assert_eq!(true, res.is_err());

    let input = "enum Accion Usuario {
    SALIR
    TOTAL GOLES
    TOTAL_TIROS_ESQUINA
}";
    let res = parse_enum(input);
    assert_eq!(true, res.is_err());
}

#[test]
fn parse_enum_variant_succeeds() {
    let (rest, output) = parse_enum_variant("\tSALIR\n").expect("Can't parse `SALIR` enum variant");
    assert_eq!(output, PlantUMLEnumVariant { name: "SALIR" });
    assert_eq!("", rest);

    let (rest, output) =
        parse_enum_variant("\tTOTAL_GOLES\n").expect("Can't parse `TOTAL_GOLES` enum variant");
    assert_eq!(output, PlantUMLEnumVariant { name: "TOTAL_GOLES" });
    assert_eq!("", rest);
}

#[test]
fn parse_enum_variant_fails() {
    let error = parse_enum_variant("\tTOTAL GOLES\n");
    assert!(error.is_err());
}

#[test]
fn enum_with_zero_variants() {
    let (rest, enu) = parse_enum("enum E {\n}\n").expect("empty enum should parse");
    assert_eq!(rest, "\n");
    assert_eq!(enu, PlantUMLEnum { name: "E", variants: vec![] });
}

#[test]
fn enum_with_malformed_variant_fails() {
    // the malformed variant truncates the repetition, and the closing brace
    // does not stand at that point, so the whole enum fails
    let res = parse_enum("enum AccionUsuario {\n    SALIR\n    TOTAL_ GOLES\n    OTRA\n}\n");
    assert!(res.is_err());
}

#[test]
fn enum_without_closing_brace_fails() {
    assert!(parse_enum("enum E {\n    SALIR\n").is_err());
}
