use plantuml_parser::PlantUMLFile;
use plantuml_parser::accessibilities::Accessibility;
use plantuml_parser::classes::PlantUMLClass;
use plantuml_parser::enums::PlantUMLEnum;
use plantuml_parser::enums::PlantUMLEnumVariant;
use plantuml_parser::field::PlantUMLField;
use plantuml_parser::methods::MethodArgument;
use plantuml_parser::methods::PlantUMLMethod;
use plantuml_parser::modifiers::Modifier;
use plantuml_parser::parse_uml_from_contents;

#[test]
fn parse_content_fails() {
    let input = "class Ventana Programa {
    - analizador: AnalizadorEquipos
    + {ctor} VentanaPrograma()
    + {static} void main(String[] args)
    + {abstract} AccionUsuario preguntarUsuario()
}

enum AccionUsuario {
    SALIR
    TOTAL_ GOLES
    TOTAL_TIROS_ESQUINA
    TOTAL_TARJETAS_AMARILLAS
    TOTAL_TARJETAS_ROJAS
}\n";
    let res = parse_uml_from_contents(input);
    assert_eq!(true, res.is_err());
}

#[test]
fn parse_content_works() {
    let input = "class VentanaPrograma {
    - analizador: AnalizadorEquipos
    + {ctor} VentanaPrograma()
    + {static} void main(String[] args)
    + {abstract} AccionUsuario preguntarUsuario()
}

enum AccionUsuario {
    SALIR
    TOTAL_GOLES
    TOTAL_TIROS_ESQUINA
    TOTAL_TARJETAS_AMARILLAS
    TOTAL_TARJETAS_ROJAS
}\n";
    let (res, content) = parse_uml_from_contents(input).expect("PlantUML couldn't be parsed!");
    assert_eq!("", res);
    assert_eq!(
        PlantUMLFile {
            enums: vec![PlantUMLEnum {
                name: "AccionUsuario",
                variants: vec![
                    PlantUMLEnumVariant { name: "SALIR" },
                    PlantUMLEnumVariant { name: "TOTAL_GOLES" },
                    PlantUMLEnumVariant { name: "TOTAL_TIROS_ESQUINA" },
                    PlantUMLEnumVariant { name: "TOTAL_TARJETAS_AMARILLAS" },
                    PlantUMLEnumVariant { name: "TOTAL_TARJETAS_ROJAS" },
                ]
            }],
            interfaces: vec![],
            classes: vec![PlantUMLClass {
                name: "VentanaPrograma",
                fields: vec![PlantUMLField {
                    name: "analizador",
                    accessibility: Accessibility::Private,
                    field_type: "AnalizadorEquipos",
                    modifier: Modifier::Absent
                }],
                methods: vec![
                    PlantUMLMethod {
                        name: "VentanaPrograma",
                        accessibility: Accessibility::Public,
                        modifier: Modifier::Constructor,
                        return_type: "",
                        arguments: vec![]
                    },
                    PlantUMLMethod {
                        name: "main",
                        accessibility: Accessibility::Public,
                        modifier: Modifier::Static,
                        return_type: "void",
                        arguments: vec![MethodArgument {
                            name: "args",
                            argument_type: "String[]"
                        }]
                    },
                    PlantUMLMethod {
                        name: "preguntarUsuario",
                        accessibility: Accessibility::Public,
                        modifier: Modifier::Abstract,
                        return_type: "AccionUsuario",
                        arguments: vec![]
                    }
                ]
            }]
        },
        content
    );
}

#[test]
fn malformed_enum_yields_exactly_one_error() {
    // a well-formed class and one malformed enum: the result is a failure
    // with exactly one diagnostic, and the class is not surfaced anywhere
    let input = "class VentanaPrograma {
    - analizador: AnalizadorEquipos
}

enum AccionUsuario {
    SALIR
    TOTAL_ GOLES
    TOTAL_TIROS_ESQUINA
}\n";
    let errors = parse_uml_from_contents(input).unwrap_err();
    assert_eq!(errors.len(), 1);
    assert_eq!(errors[0], "could not parse enum element");
}

#[test]
fn each_element_kind_reports_its_own_error() {
    let errors = parse_uml_from_contents("class Mala Clase {\n}\n").unwrap_err();
    assert_eq!(errors, vec!["could not parse class element".to_string()]);

    let errors = parse_uml_from_contents("interface Mala Interfaz {\n}\n").unwrap_err();
    assert_eq!(errors, vec!["could not parse interface element".to_string()]);

    let errors = parse_uml_from_contents("enum Mala Enumeracion {\n}\n").unwrap_err();
    assert_eq!(errors, vec!["could not parse enum element".to_string()]);
}

#[test]
fn reparsing_remaining_text_is_stable() {
    // the remaining text of a successful parse re-parses to an empty
    // document with the same remaining text: no loops, no growth
    let input = "enum E {\n}\ntrailing";
    let (rest, content) = parse_uml_from_contents(input).expect("document should parse");
    assert_eq!(rest, "trailing");
    assert_eq!(content.enums.len(), 1);

    let (rest2, content2) = parse_uml_from_contents(rest).expect("re-parse should succeed");
    assert_eq!(rest2, rest);
    assert!(content2.classes.is_empty());
    assert!(content2.interfaces.is_empty());
    assert!(content2.enums.is_empty());

    let (rest3, content3) = parse_uml_from_contents("").expect("empty input parses");
    assert_eq!(rest3, "");
    assert!(content3.enums.is_empty());
}

#[test]
fn recovery_without_brace_reaches_end_of_input() {
    // a malformed element with no closing brace anywhere: recovery jumps to
    // the end of the input and exactly one error is reported
    let errors = parse_uml_from_contents("class A {\n    sin cierre\n").unwrap_err();
    assert_eq!(errors.len(), 1);
    assert_eq!(errors[0], "could not parse class element");
}

#[test]
fn lines_without_keywords_are_skipped() {
    let input = "just a note line\n\nenum E {\n    UNO\n}\n";
    let (rest, content) = parse_uml_from_contents(input).expect("document should parse");
    assert_eq!(rest, "");
    assert_eq!(content.enums.len(), 1);
    assert_eq!(content.enums[0].name, "E");
    assert_eq!(content.enums[0].variants, vec![PlantUMLEnumVariant { name: "UNO" }]);
}

#[test]
fn later_commas_do_not_disturb_earlier_arguments() {
    // the single-argument method of the first class ends at its `)`, even
    // though a comma occurs later in the second class
    let input = "class A {
    + void f(String nombre)
}
class B {
    + void g(int a, int b)
}\n";
    let (rest, content) = parse_uml_from_contents(input).expect("document should parse");
    assert_eq!(rest, "");
    assert_eq!(content.classes.len(), 2);
    assert_eq!(content.classes[0].methods[0].arguments, vec![MethodArgument {
        name: "nombre",
        argument_type: "String"
    }]);
    assert_eq!(content.classes[1].methods[0].arguments, vec![
        MethodArgument { name: "a", argument_type: "int" },
        MethodArgument { name: "b", argument_type: "int" }
    ]);
}

#[test]
fn two_malformed_elements_yield_two_errors() {
    let input = "class Ventana Programa {
}

enum Accion Usuario {
}\n";
    let errors = parse_uml_from_contents(input).unwrap_err();
    assert_eq!(errors.len(), 2);
    assert_eq!(errors[0], "could not parse class element");
    assert_eq!(errors[1], "could not parse enum element");
}
