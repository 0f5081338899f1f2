use spite::diagnostic::CompilerError;
use spite::frontend::ast::{Expression, Statement, TypeNode, VarKind, Visibility};
use spite::frontend::parse_decl::parse_syntax_tree;
use spite::frontend::parser::{TypeScriptParser, Visitor};
use spite::frontend::syntax::SyntaxNode;

const SOURCE: &str = r#"import { Foo as Bar, Baz } from "./types";
export type TodoEvent =
  | { type: "Created"; id: string; title: string }
  | { type: "Completed"; id: string };
export type TodoState = { id: string; done: boolean; tags?: string[] };
export class TodoAggregate {
  static initialState: TodoState = { id: "", done: false };
  create(id: string, title?: string): void {
    if (this.state.id !== "") {
      throw new Error("exists");
    } else {
      this.emit({ type: "Created", id, title: title });
    }
    const n = -1 + 2 * 3;
    switch (n) {
      case 1:
        return;
      default:
        break;
    }
  }
  get done(): boolean {
    return this.state.done;
  }
}
"#;

fn leaf(kind: &str, text: &str, row: usize, col: usize) -> SyntaxNode {
    SyntaxNode {
        kind: kind.to_string(),
        field: None,
        text: text.to_string(),
        start_row: row,
        start_column: col,
        end_row: row,
        end_column: col + text.len(),
        children: vec![],
    }
}

fn node(kind: &str, text: &str, row: usize, col: usize, children: Vec<SyntaxNode>) -> SyntaxNode {
    SyntaxNode {
        kind: kind.to_string(),
        field: None,
        text: text.to_string(),
        start_row: row,
        start_column: col,
        end_row: row,
        end_column: col + text.len(),
        children,
    }
}

fn parse_source() -> spite::frontend::ast::ParsedFile {
    let mut parser = TypeScriptParser::new().unwrap();
    parser.parse(SOURCE, "domain/Todo/aggregate.ts").unwrap()
}

#[test]
fn parses_imports_with_aliases() {
    let file = parse_source();
    assert_eq!(file.path, "domain/Todo/aggregate.ts");
    assert_eq!(file.imports.len(), 1);
    let import = &file.imports[0];
    assert_eq!(import.source, "./types");
    assert_eq!(import.specifiers.len(), 2);
    assert_eq!(import.specifiers[0].name, "Bar");
    assert_eq!(import.specifiers[0].alias.as_deref(), Some("Foo"));
    assert_eq!(import.specifiers[1].name, "Baz");
    assert_eq!(import.specifiers[1].alias, None);
    assert_eq!(import.span.start_line, 0);
}

#[test]
fn parses_exported_type_aliases() {
    let file = parse_source();
    assert_eq!(file.type_aliases.len(), 2);
    let events = &file.type_aliases[0];
    assert_eq!(events.name, "TodoEvent");
    assert!(events.exported);
    match &events.type_node {
        TypeNode::Union(variants) => {
            assert_eq!(variants.len(), 2);
            match &variants[0] {
                TypeNode::ObjectLiteral(props) => {
                    assert_eq!(props.len(), 3);
                    assert_eq!(props[0].name, "type");
                    assert!(matches!(&props[0].type_node, TypeNode::Primitive(p) if p == "\"Created\""));
                    assert!(matches!(&props[1].type_node, TypeNode::Primitive(p) if p == "string"));
                },
                other => panic!("unexpected variant {:?}", other),
            }
        },
        other => panic!("unexpected type {:?}", other),
    }
    let state = &file.type_aliases[1];
    assert_eq!(state.name, "TodoState");
    match &state.type_node {
        TypeNode::ObjectLiteral(props) => {
            assert_eq!(props.len(), 3);
            assert_eq!(props[2].name, "tags");
            assert!(props[2].optional);
            assert!(!props[1].optional);
            assert!(matches!(&props[2].type_node, TypeNode::Array(inner) if matches!(&**inner, TypeNode::Primitive(p) if p == "string")));
        },
        other => panic!("unexpected type {:?}", other),
    }
}

#[test]
fn parses_class_members() {
    let file = parse_source();
    assert_eq!(file.classes.len(), 1);
    let class = &file.classes[0];
    assert_eq!(class.name, "TodoAggregate");
    assert!(class.exported);
    assert_eq!(class.properties.len(), 1);
    let initial = &class.properties[0];
    assert_eq!(initial.name, "initialState");
    assert!(initial.is_static);
    assert!(!initial.is_readonly);
    assert!(matches!(&initial.type_node, Some(TypeNode::Reference(r)) if r == "TodoState"));
    assert_eq!(initial.initializer.as_deref(), Some("{ id: \"\", done: false }"));

    assert_eq!(class.methods.len(), 2);
    let create = &class.methods[0];
    assert_eq!(create.name, "create");
    assert_eq!(create.visibility, Visibility::Public);
    assert!(!create.is_async);
    assert_eq!(create.parameters.len(), 2);
    assert_eq!(create.parameters[0].name, "id");
    assert!(!create.parameters[0].optional);
    assert_eq!(create.parameters[1].name, "title");
    assert!(create.parameters[1].optional);
    assert!(matches!(&create.return_type, Some(TypeNode::Primitive(p)) if p == "void"));
    assert!(create.raw_body.as_deref().unwrap().starts_with('{'));
    assert_eq!(class.methods[1].name, "get_done");
}

#[test]
fn parses_method_statements() {
    let file = parse_source();
    let body = &file.classes[0].methods[0].body;
    assert_eq!(body.len(), 3);
    match &body[0] {
        Statement::If { condition, then_branch, else_branch, .. } => {
            match condition {
                Expression::Binary { left, operator, right, .. } => {
                    assert_eq!(operator, "!==");
                    assert!(matches!(&**right, Expression::StringLiteral { value, .. } if value.is_empty()));
                    match &**left {
                        Expression::MemberAccess { object, property, .. } => {
                            assert_eq!(property, "id");
                            assert!(matches!(&**object, Expression::MemberAccess { property, .. } if property == "state"));
                        },
                        other => panic!("unexpected left {:?}", other),
                    }
                },
                other => panic!("unexpected condition {:?}", other),
            }
            assert_eq!(then_branch.len(), 1);
            match &then_branch[0] {
                Statement::Throw { argument: Expression::New { callee, arguments, .. }, .. } => {
                    assert!(matches!(&**callee, Expression::Identifier { name, .. } if name == "Error"));
                    assert!(matches!(&arguments[0], Expression::StringLiteral { value, .. } if value == "exists"));
                },
                other => panic!("unexpected then branch {:?}", other),
            }
            let else_branch = else_branch.as_ref().unwrap();
            match &else_branch[0] {
                Statement::Expression { expression: Expression::Call { callee, arguments, .. }, .. } => {
                    assert!(matches!(&**callee, Expression::MemberAccess { property, .. } if property == "emit"));
                    match &arguments[0] {
                        Expression::ObjectLiteral { properties, .. } => {
                            assert_eq!(properties.len(), 3);
                            assert_eq!(properties[0].0, "type");
                            assert!(matches!(&properties[0].1, Expression::StringLiteral { value, .. } if value == "Created"));
                            assert_eq!(properties[1].0, "id");
                            assert!(matches!(&properties[1].1, Expression::Identifier { name, .. } if name == "id"));
                            assert_eq!(properties[2].0, "title");
                        },
                        other => panic!("unexpected argument {:?}", other),
                    }
                },
                other => panic!("unexpected else branch {:?}", other),
            }
        },
        other => panic!("unexpected statement {:?}", other),
    }
    match &body[1] {
        Statement::VariableDecl { kind, name, initializer: Some(Expression::Binary { left, operator, right, .. }), .. } => {
            assert_eq!(*kind, VarKind::Const);
            assert_eq!(name, "n");
            assert_eq!(operator, "+");
            assert!(matches!(&**left, Expression::Unary { operator, argument, .. } if operator == "-" && matches!(&**argument, Expression::NumberLiteral { value, .. } if value == "1")));
            assert!(matches!(&**right, Expression::Binary { operator, .. } if operator == "*"));
        },
        other => panic!("unexpected statement {:?}", other),
    }
    match &body[2] {
        Statement::Switch { discriminant, cases, .. } => {
            assert!(matches!(discriminant, Expression::Identifier { name, .. } if name == "n"));
            assert_eq!(cases.len(), 2);
            assert!(matches!(&cases[0].test, Some(Expression::NumberLiteral { value, .. }) if value == "1"));
            assert!(matches!(&cases[0].consequent[0], Statement::Return { value: None, .. }));
            assert!(cases[1].test.is_none());
            assert!(cases[1].consequent.is_empty());
        },
        other => panic!("unexpected statement {:?}", other),
    }
}

#[test]
fn throw_without_argument_is_a_syntax_error() {
    let throw = node("throw_statement", "throw;", 4, 2, vec![leaf("throw", "throw", 4, 2), leaf(";", ";", 4, 7)]);
    let block = node("statement_block", "{ throw; }", 3, 10, vec![leaf("{", "{", 3, 10), throw, leaf("}", "}", 5, 0)]);
    let method = node(
        "method_definition",
        "run() { throw; }",
        3,
        2,
        vec![leaf("property_identifier", "run", 3, 2), leaf("formal_parameters", "()", 3, 5), block],
    );
    let body = node("class_body", "{...}", 2, 10, vec![method]);
    let class = node("class_declaration", "class A {...}", 2, 0, vec![leaf("class", "class", 2, 0), leaf("type_identifier", "A", 2, 6), body]);
    let root = node("program", "...", 0, 0, vec![class]);
    match parse_syntax_tree(&root, "a.ts") {
        Err(CompilerError::SyntaxError { message, file, line, column }) => {
            assert_eq!(message, "Missing argument in throw statement");
            assert_eq!(file, "a.ts");
            assert_eq!(line, 4);
            assert_eq!(column, 2);
        },
        other => panic!("unexpected result {:?}", other.is_ok()),
    }
}

#[test]
fn missing_operands_are_reported_or_left_out() {
    let visitor = Visitor::new("b.ts");
    let binary = node("binary_expression", "a +", 1, 4, vec![leaf("identifier", "a", 1, 4), leaf("+", "+", 1, 6)]);
    match visitor.visit_expression(&binary) {
        Err(CompilerError::SyntaxError { message, line, column, .. }) => {
            assert_eq!(message, "Missing right operand");
            assert_eq!((line, column), (1, 4));
        },
        _ => panic!("expected an error"),
    }
    let paren = node("parenthesized_expression", "()", 2, 0, vec![leaf("(", "(", 2, 0), leaf(")", ")", 2, 1)]);
    assert!(matches!(visitor.visit_expression(&paren), Err(CompilerError::SyntaxError { message, .. }) if message == "Empty parenthesized expression"));
    let array = node(
        "array",
        "[1, ()]",
        3,
        0,
        vec![leaf("[", "[", 3, 0), leaf("number", "1", 3, 1), leaf(",", ",", 3, 2), paren, leaf("]", "]", 3, 6)],
    );
    match visitor.visit_expression(&array) {
        Ok(Expression::ArrayLiteral { elements, .. }) => assert_eq!(elements.len(), 1),
        _ => panic!("expected an array"),
    }
}

#[test]
fn literals_and_numbers() {
    let visitor = Visitor::new("c.ts");
    assert!(matches!(visitor.visit_expression(&leaf("string", "'hi'", 0, 0)), Ok(Expression::StringLiteral { value, .. }) if value == "hi"));
    assert!(matches!(visitor.visit_expression(&leaf("template_string", "`t`", 0, 0)), Ok(Expression::StringLiteral { value, .. }) if value == "t"));
    assert!(matches!(visitor.visit_expression(&leaf("number", "2.5e3", 0, 0)), Ok(Expression::NumberLiteral { value, .. }) if value == "2.5e3"));
    assert!(matches!(visitor.visit_expression(&leaf("number", "0x1F", 0, 0)), Ok(Expression::NumberLiteral { value, .. }) if value == "0"));
    assert!(matches!(visitor.visit_expression(&leaf("undefined", "undefined", 0, 0)), Ok(Expression::Identifier { name, .. }) if name == "undefined"));
    assert!(matches!(visitor.visit_expression(&leaf("regex", "/a/", 0, 0)), Ok(Expression::Identifier { name, .. }) if name == "/a/"));
}

#[test]
fn union_with_undefined_is_optional() {
    let visitor = Visitor::new("d.ts");
    let union = node(
        "union_type",
        "number | undefined",
        0,
        0,
        vec![leaf("predefined_type", "number", 0, 0), leaf("|", "|", 0, 7), leaf("type_identifier", "undefined", 0, 9)],
    );
    match visitor.visit_type_node(&union) {
        TypeNode::Optional(inner) => assert!(matches!(*inner, TypeNode::Primitive(p) if p == "number")),
        other => panic!("unexpected type {:?}", other),
    }
}
