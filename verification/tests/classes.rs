use plantuml_parser::accessibilities::Accessibility;
use plantuml_parser::classes::PlantUMLClass;
use plantuml_parser::classes::parse_class;
use plantuml_parser::field::PlantUMLField;
use plantuml_parser::methods::MethodArgument;
use plantuml_parser::methods::PlantUMLMethod;
use plantuml_parser::modifiers::Modifier;

#[test]
fn parse_class_with_fields_and_methods() {
    let input = "class VentanaPrograma {
    - analizador: AnalizadorEquipos
    + {ctor} VentanaPrograma()
    + {static} void main(String[] args)
    + {abstract} AccionUsuario preguntarUsuario()
}\n";
    let (rest, class) = parse_class(input).expect("Couldn't parse the class!");
    assert_eq!("\n", rest);
    assert_eq!(
        class,
        PlantUMLClass {
            name: "VentanaPrograma",
            fields: vec![PlantUMLField {
                name: "analizador",
                accessibility: Accessibility::Private,
                field_type: "AnalizadorEquipos",
                modifier: Modifier::Absent
            }],
            methods: vec![
                PlantUMLMethod {
                    name: "VentanaPrograma",
                    accessibility: Accessibility::Public,
                    modifier: Modifier::Constructor,
                    return_type: "",
                    arguments: vec![]
                },
                PlantUMLMethod {
                    name: "main",
                    accessibility: Accessibility::Public,
                    modifier: Modifier::Static,
                    return_type: "void",
                    arguments: vec![MethodArgument { name: "args", argument_type: "String[]" }]
                },
                PlantUMLMethod {
                    name: "preguntarUsuario",
                    accessibility: Accessibility::Public,
                    modifier: Modifier::Abstract,
                    return_type: "AccionUsuario",
                    arguments: vec![]
                }
            ]
        }
    );
}

#[test]
fn parse_class_with_zero_members() {
    let (rest, class) = parse_class("class Vacia {\n}\n").expect("empty class");
    assert_eq!(rest, "\n");
    assert_eq!(class, PlantUMLClass { name: "Vacia", fields: vec![], methods: vec![] });
}

#[test]
fn parse_class_name_with_space_fails() {
    assert!(parse_class("class Ventana Programa {\n}\n").is_err());
}

#[test]
fn field_after_method_fails() {
    assert!(parse_class("class A {\n    + void f()\n    - x: T\n}\n").is_err());
}

#[test]
fn class_without_closing_brace_fails() {
    assert!(parse_class("class A {\n    - x: T\n").is_err());
}
