use plantuml_parser::accessibilities::Accessibility;
use plantuml_parser::interfaces::PlantUMLInterface;
use plantuml_parser::interfaces::parse_interface;
use plantuml_parser::interfaces::parse_interface_name;
use plantuml_parser::methods::MethodArgument;
use plantuml_parser::methods::PlantUMLMethod;
use plantuml_parser::modifiers::Modifier;

#[test]
fn parse_interface_name_works() {
    let input = "interface ILlanta {\n";
    let (rest, name) = parse_interface_name(input).expect("The name couldn't be parsed!");
    assert_eq!("ILlanta", name);
    assert_eq!("\n", rest);
}

#[test]
fn parse_interface_name_fails() {
    let input = "interface ILlanta asdf {\n";
    let result = parse_interface_name(input);
    assert_eq!(true, result.is_err());

    let input = "interface ILlanta asdf{\n";
    let result = parse_interface_name(input);
    assert_eq!(true, result.is_err());
}

#[test]
fn parse_interface_works() {
    let input = "interface ICarro {
    - void Avanzar()
    + string Serie()
    # boolean GetEncendido()
    - void SetEncendido(boolean encendido)
}\n";
    let (rest, interface) = parse_interface(input).expect("Coudln't parse the interface!");
    assert_eq!("\n", rest);
    assert_eq!(
        interface,
        PlantUMLInterface {
            name: "ICarro",
            methods: vec![
                PlantUMLMethod {
                    accessibility: Accessibility::Private,
                    modifier: Modifier::Absent,
                    name: "Avanzar",
                    arguments: vec![],
                    return_type: "void",
                },
                PlantUMLMethod {
                    accessibility: Accessibility::Public,
                    modifier: Modifier::Absent,
                    name: "Serie",
                    arguments: vec![],
                    return_type: "string",
                },
                PlantUMLMethod {
                    accessibility: Accessibility::Protected,
                    modifier: Modifier::Absent,
                    name: "GetEncendido",
                    arguments: vec![],
                    return_type: "boolean"
                },
                PlantUMLMethod {
                    accessibility: Accessibility::Private,
                    modifier: Modifier::Absent,
                    name: "SetEncendido",
                    arguments: vec![MethodArgument { name: "encendido", argument_type: "boolean" }],
                    return_type: "void"
                }
            ]
        }
    );
}

#[test]
fn parse_interface_fails() {
    let input = "interface ICarro  assd{
    - void Avanzar()
    + string Serie()
    # boolean GetEncendido()
    - void SetEncendido(boolean encendido)
}\n";
    let result = parse_interface(input);
    assert_eq!(true, result.is_err());
}

#[test]
fn interface_with_zero_methods() {
    let (rest, interface) = parse_interface("interface I {\n}\n").expect("empty interface");
    assert_eq!(rest, "\n");
    assert_eq!(interface, PlantUMLInterface { name: "I", methods: vec![] });
}

#[test]
fn interface_method_without_return_type_fails() {
    assert!(parse_interface("interface I {\n+ Foo()\n}\n").is_err());
}

#[test]
fn interface_with_malformed_method_fails() {
    assert!(parse_interface("interface I {\n    void SinMarcador()\n}\n").is_err());
}
