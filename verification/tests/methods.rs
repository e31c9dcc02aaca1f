use plantuml_parser::accessibilities::Accessibility;
use plantuml_parser::methods::MethodArgument;
use plantuml_parser::methods::PlantUMLMethod;
use plantuml_parser::methods::parse_method;
use plantuml_parser::methods::parse_method_argument;
use plantuml_parser::methods::parse_method_arguments;
use plantuml_parser::modifiers::Modifier;

//METHOD PARSER
#[test]
fn parse_method_without_parameters() {
    let input = "\t+ void setNombreEquipo()\n";
    let (_, output) = parse_method(input).unwrap();
    assert_eq!(
        output,
        PlantUMLMethod {
            name: "setNombreEquipo",
            accessibility: Accessibility::Public,
            modifier: Modifier::Absent,
            return_type: "void",
            arguments: vec![]
        }
    );
}

#[test]
fn parse_method_without_modifier() {
    let input = "\t+ void setNombreEquipo(String nombre)\n";
    let output = parse_method(input);

    assert!(output.is_ok());
    let (_, output) = output.unwrap();
    assert_eq!(
        output,
        PlantUMLMethod {
            name: "setNombreEquipo",
            accessibility: Accessibility::Public,
            modifier: Modifier::Absent,
            return_type: "void",
            arguments: vec![MethodArgument { name: "nombre", argument_type: "String" }]
        }
    );
}

#[test]
fn parse_method_with_modifier() {
    let input = "\t+ {abstract} void setNombreEquipo(String nombre)\n";
    let output = parse_method(input);

    assert!(output.is_ok());
    let (_, output) = output.unwrap();
    assert_eq!(
        output,
        PlantUMLMethod {
            name: "setNombreEquipo",
            accessibility: Accessibility::Public,
            modifier: Modifier::Abstract,
            return_type: "void",
            arguments: vec![MethodArgument { name: "nombre", argument_type: "String" }]
        }
    );
}

#[test]
fn parse_method_multiple_params() {
    let input = "\t+ {abstract} void setNombreEquipo(String nombre, int posicion)\n";
    let output = parse_method(input);

    assert!(output.is_ok());
    let (_, output) = output.unwrap();
    assert_eq!(
        output,
        PlantUMLMethod {
            name: "setNombreEquipo",
            accessibility: Accessibility::Public,
            modifier: Modifier::Abstract,
            return_type: "void",
            arguments: vec![
                MethodArgument { name: "nombre", argument_type: "String" },
                MethodArgument { name: "posicion", argument_type: "int" }
            ]
        }
    );
}

#[test]
fn parse_method_fails() {
    let mut output = parse_method("\t {abstract} void setNombreEquipo(String nombre)\n");

    assert!(output.is_err());
    output = parse_method("\t {abstract} setNombreEquipo(String nombre)\n");
    assert!(output.is_err());
}

//PARSING METHOD ARGUMENTS
#[test]
fn parse_mthd_argument_paren() {
    let input = "String nombre)";
    let output = parse_method_argument(input);

    assert!(output.is_ok());
    let output = output.unwrap();
    assert_eq!(output.1.name, "nombre");
    assert_eq!(output.1.argument_type, "String");
}

#[test]
fn parse_mthd_argument_comma() {
    let input = "String nombre,";
    let output = parse_method_argument(input);

    assert!(output.is_ok());
    let output = output.unwrap();
    assert_eq!(output.1.name, "nombre");
    assert_eq!(output.1.argument_type, "String");
}

#[test]
fn parse_mutliple_method_arguments_spaces() {
    let input = "String nombre_producto, int cantidad)";
    let output = parse_method_arguments(input);

    assert!(output.is_ok());
    let output = output.unwrap();
    assert_eq!(output.1[0], MethodArgument { name: "nombre_producto", argument_type: "String" });
    assert_eq!(output.1[1], MethodArgument { name: "cantidad", argument_type: "int" });
}

#[test]
fn cant_parse_method_argument() {
    let input = "String nombre producto)"; //Parameter has spaces
    let output = parse_method_argument(input);
    assert!(output.is_err(), "Parameter shouldn't have spaces!");

    let input = "String nombre_producto"; //Doesn't have comma or parenthesis
    let output = parse_method_argument(input);
    assert!(output.is_err(), "Parameter should have a comma or parenthesis at the end!");

    let input = "nombre_producto"; //Doesn't have type
    let output = parse_method_argument(input);
    assert!(output.is_err(), "Parameter needs a type");
}

#[test]
fn constructor_line_has_empty_return_type() {
    let (rest, output) = parse_method("+ {ctor} VentanaPrograma()\n").unwrap();

    assert_eq!(rest, "\n");
    assert_eq!(
        output,
        PlantUMLMethod {
            name: "VentanaPrograma",
            accessibility: Accessibility::Public,
            modifier: Modifier::Constructor,
            return_type: "",
            arguments: vec![]
        }
    );
}

#[test]
fn empty_return_type_needs_ctor_modifier() {
    // without the {ctor} modifier a method line must carry a return type
    assert!(parse_method("+ Foo()\n").is_err());

    let (_, output) = parse_method("+ {ctor} Foo()\n").unwrap();
    assert_eq!(output.return_type, "");
    assert_eq!(output.modifier, Modifier::Constructor);
}

#[test]
fn method_name_cant_have_spaces() {
    assert!(parse_method("+ void set Nombre(String nombre)\n").is_err());
}

#[test]
fn method_without_closing_paren_fails() {
    assert!(parse_method("+ void setNombreEquipo(String nombre\n").is_err());
}

#[test]
fn empty_argument_list_is_valid() {
    let (rest, args) = parse_method_arguments(")").unwrap();
    assert_eq!(rest, ")");
    assert!(args.is_empty());
}
