use ast_gen::generator::{AstFiles, GenerateAst};
use ast_gen::grammar::{parse_family, parse_rule, AstError, DeclError};

fn lines(v: &[&str]) -> Vec<String> {
    v.iter().map(|s| s.to_string()).collect()
}

fn generate(base: &str, v: &[&str]) -> Result<AstFiles, AstError> {
    GenerateAst::new(".".to_string(), base.to_string(), lines(v)).write_ast()
}

const BINARY_GROUPING_TYPES: &str = "use crate::token::Token;\n\n\
#[derive(Clone, PartialEq, Debug)]\n\
pub enum Expr {\n    BINARY(Binary),\n    GROUPING(Grouping),\n}\n\n\
#[derive(Clone, PartialEq, Debug)]\n\
pub struct Binary {\n    pub lhs: Expr,\n    pub op: Token,\n    pub rhs: Expr,\n}\n\n\
impl Binary {\n   pub fn new(lhs: Expr, op: Token, rhs: Expr) -> Self {\n        Binary {\n            lhs,\n            op,\n            rhs,\n        }\n    }\n}\n\n\
#[derive(Clone, PartialEq, Debug)]\n\
pub struct Grouping {\n    pub expr: Expr,\n}\n\n\
impl Grouping {\n   pub fn new(expr: Expr) -> Self {\n        Grouping {\n            expr,\n        }\n    }\n}\n\n";

const BINARY_GROUPING_VISITOR: &str = "use crate::ast::*;\nuse crate::token::Token;\n\n\
pub trait ExprVisitor<T> {\n\
    \x20   fn visit_expr(&mut self, e: &Expr) -> T;\n\
    \x20   fn visit_binary(&mut self, b: &Binary) -> T;\n\
    \x20   fn visit_grouping(&mut self, g: &Grouping) -> T;\n}\n\n";

#[test]
fn binary_grouping_scenario() {
    let files = generate("Expr", &["Binary : Expr lhs, Token op, Expr rhs", "Grouping : Expr expr"])
        .unwrap();
    assert_eq!(files.types_source, BINARY_GROUPING_TYPES);
    assert_eq!(files.visitor_source, BINARY_GROUPING_VISITOR);
}

#[test]
fn literal_rule_becomes_tagged_union() {
    let files = generate(
        "Expr",
        &["Literal : BOOL bool, NUMBER f64, STRING string, NIL NIL"],
    )
    .unwrap();
    let expected = "use crate::token::Token;\nuse std::fmt; \n\n\
#[derive(Clone, PartialEq, Debug)]\n\
pub enum Expr {\n    LITERAL(Literal),\n}\n\n\
#[derive(Clone, PartialEq, Debug)]\n\
pub enum Literal {\n    BOOL(bool),\n    NUMBER(f64),\n    STRING(string),\n    NIL,\n}\n\n\
impl fmt::Display for Literal {\n\
    \x20   fn fmt(&self, f: &mut fmt::Formatter) -> fmt::Result {\n\
    \x20       match self {\n\
    \x20           Literal::BOOL(val) => write!(f, \"{}\", val),\n\
    \x20           Literal::NUMBER(val) => write!(f, \"{}\", val),\n\
    \x20           Literal::STRING(val) => write!(f, \"{}\", val),\n\
    \x20           Literal::NIL => write!(f, \"NIL\"),\n\
    \x20       }\n    }\n}\n\n";
    assert_eq!(files.types_source, expected);
    assert!(files.visitor_source.contains("    fn visit_literal(&mut self, l: &Literal) -> T;\n"));
}

#[test]
fn nil_marker_ignores_its_type_token() {
    let files = generate("Expr", &["Literal : WHATEVER NIL, NUMBER f64"]).unwrap();
    assert!(files.types_source.contains("pub enum Literal {\n    NIL,\n    NUMBER(f64),\n}\n"));
    assert!(files.types_source.contains("            Literal::NIL => write!(f, \"NIL\"),\n"));
    assert!(!files.types_source.contains("WHATEVER"));
}

#[test]
fn fmt_import_only_with_literal_rule() {
    let files = generate("Stmt", &["Print : Box<Expr> expr"]).unwrap();
    assert!(files.types_source.starts_with("use crate::token::Token;\n\n#[derive"));
    assert!(!files.types_source.contains("fmt"));
}

#[test]
fn generation_is_deterministic() {
    let decls = ["Binary : Expr lhs, Token op, Expr rhs", "Literal : NUMBER f64, NIL NIL"];
    let a = generate("Expr", &decls).unwrap();
    let b = GenerateAst::new("elsewhere".to_string(), "Expr".to_string(), lines(&decls))
        .write_ast()
        .unwrap();
    assert_eq!(a.types_source, b.types_source);
    assert_eq!(a.visitor_source, b.visitor_source);
}

#[test]
fn families_are_independent() {
    let expr = ["Grouping : Box<Expr> expr", "Variable : Token name"];
    let stmt = ["Print : Box<Expr> expr", "Var : Token name, Box<Expr> initializer"];
    let alone = generate("Stmt", &stmt).unwrap();
    let first = generate("Expr", &expr).unwrap();
    let after = generate("Stmt", &stmt).unwrap();
    assert_eq!(alone.types_source, after.types_source);
    assert_eq!(alone.visitor_source, after.visitor_source);
    assert!(!after.types_source.contains("Grouping"));
    assert!(!first.types_source.contains("Print"));
}

#[test]
fn field_order_is_kept() {
    let files = generate("Stmt", &["Var : Token name, Box<Expr> initializer, Span at"]).unwrap();
    let t = &files.types_source;
    assert!(t.contains("    pub name: Token,\n    pub initializer: Box<Expr>,\n    pub at: Span,\n"));
    assert!(t.contains("pub fn new(name: Token, initializer: Box<Expr>, at: Span) -> Self {"));
    assert!(t.contains("            name,\n            initializer,\n            at,\n"));
}

#[test]
fn names_are_cased() {
    let files = generate("Stmt", &["Expression : Box<Expr> expr", "ÉtatFin : u8 x"]).unwrap();
    assert!(files.types_source.contains("    EXPRESSION(Expression),\n"));
    assert!(files.types_source.contains("    ÉTATFIN(ÉtatFin),\n"));
    assert!(files.visitor_source.contains("    fn visit_stmt(&mut self, s: &Stmt) -> T;\n"));
    assert!(files.visitor_source.contains("    fn visit_expression(&mut self, e: &Expression) -> T;\n"));
    assert!(files.visitor_source.contains("    fn visit_étatfin(&mut self, é: &ÉtatFin) -> T;\n"));
}

#[test]
fn file_names_follow_family() {
    let g = GenerateAst::new("out".to_string(), "Expr".to_string(), Vec::new());
    assert_eq!(g.types_file_name(), "Expr.rs");
    assert_eq!(g.visitor_file_name(), "ExprVisit.rs");
    assert_eq!(g.output_dir(), "out");
    assert_eq!(g.base_name(), "Expr");
}

#[test]
fn empty_family_has_only_entry_point() {
    let files = generate("Expr", &[]).unwrap();
    assert_eq!(
        files.types_source,
        "use crate::token::Token;\n\n#[derive(Clone, PartialEq, Debug)]\npub enum Expr {\n}\n\n"
    );
    assert_eq!(
        files.visitor_source,
        "use crate::ast::*;\nuse crate::token::Token;\n\npub trait ExprVisitor<T> {\n    fn visit_expr(&mut self, e: &Expr) -> T;\n}\n\n"
    );
}

#[test]
fn missing_colon_is_rejected() {
    assert!(matches!(parse_rule("Binary Expr lhs"), Err(DeclError::MissingColon)));
    let r = generate("Expr", &["Grouping : Expr expr", "Binary Expr lhs, Token op"]);
    assert!(matches!(r, Err(AstError::Malformed { line: 1, error: DeclError::MissingColon })));
}

#[test]
fn one_token_field_is_rejected() {
    assert!(matches!(parse_rule("Binary : Expr lhs, op"), Err(DeclError::BadField { field: 1 })));
}

#[test]
fn three_token_field_is_rejected() {
    let r = generate("Expr", &["Binary : Expr lhs, Token op extra, Expr rhs"]);
    assert!(matches!(
        r,
        Err(AstError::Malformed { line: 0, error: DeclError::BadField { field: 1 } })
    ));
}

#[test]
fn empty_field_list_is_rejected() {
    assert!(matches!(parse_rule("Empty :"), Err(DeclError::BadField { field: 0 })));
    assert!(matches!(parse_rule("Trailing : Expr e,"), Err(DeclError::BadField { field: 1 })));
}

#[test]
fn duplicate_rule_is_rejected() {
    let r = generate("Expr", &["Unary : Token op, Expr rhs", "Grouping : Expr expr", " Unary: Expr e"]);
    assert!(matches!(r, Err(AstError::DuplicateRule { first: 0, second: 2 })));
}

#[test]
fn whitespace_is_trimmed_and_runs_split() {
    let d = parse_rule("  Ternary\t:  Box<Expr>   cond ,\u{a0}Box<Expr>\tthen_expr  ").unwrap();
    assert_eq!(d.name, "Ternary");
    assert_eq!(d.fields.len(), 2);
    assert_eq!(d.fields[0].ty, "Box<Expr>");
    assert_eq!(d.fields[0].name, "cond");
    assert_eq!(d.fields[1].ty, "Box<Expr>");
    assert_eq!(d.fields[1].name, "then_expr");
}

#[test]
fn later_colons_belong_to_fields() {
    let d = parse_rule("Path : a::B x").unwrap();
    assert_eq!(d.name, "Path");
    assert_eq!(d.fields[0].ty, "a::B");
    assert_eq!(d.fields[0].name, "x");
}

#[test]
fn family_parse_keeps_order() {
    let rules = parse_family(&lines(&["Comma : Box<Expr> lhs, Box<Expr> rhs", "Variable : Token name"]))
        .unwrap();
    assert_eq!(rules.len(), 2);
    assert_eq!(rules[0].name, "Comma");
    assert_eq!(rules[1].name, "Variable");
    assert_eq!(rules[0].fields[1].name, "rhs");
}
