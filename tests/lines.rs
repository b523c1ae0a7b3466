use ast_gen::emit::{field_line_text, rule_line_text, FieldLine, RuleLine};
use ast_gen::grammar::FieldSpec;

fn field(ty: &str, name: &str) -> FieldSpec {
    FieldSpec { ty: ty.to_string(), name: name.to_string() }
}

#[test]
fn field_lines_in_every_shape() {
    let f = field("Token", "op");
    let up = "TOKEN".to_string();
    assert_eq!(field_line_text(FieldLine::Member, &f, &up, 1), "    pub op: Token,\n");
    assert_eq!(field_line_text(FieldLine::Param, &f, &up, 0), "op: Token");
    assert_eq!(field_line_text(FieldLine::Param, &f, &up, 2), ", op: Token");
    assert_eq!(field_line_text(FieldLine::Init, &f, &up, 1), "            op,\n");
    assert_eq!(field_line_text(FieldLine::Tag, &f, &up, 1), "    TOKEN(op),\n");
    assert_eq!(
        field_line_text(FieldLine::Arm, &f, &up, 1),
        "            Literal::TOKEN(val) => write!(f, \"{}\", val),\n"
    );
}

#[test]
fn nil_field_lines_carry_no_payload() {
    let f = field("NUMBER", "NIL");
    let up = "NUMBER".to_string();
    assert_eq!(field_line_text(FieldLine::Tag, &f, &up, 3), "    NIL,\n");
    assert_eq!(
        field_line_text(FieldLine::Arm, &f, &up, 3),
        "            Literal::NIL => write!(f, \"NIL\"),\n"
    );
}

#[test]
fn rule_lines_use_given_casing() {
    let name = "Ternary".to_string();
    assert_eq!(
        rule_line_text(RuleLine::Variant, &name, &"TERNARY".to_string()),
        "    TERNARY(Ternary),\n"
    );
    assert_eq!(
        rule_line_text(RuleLine::Visit, &name, &"ternary".to_string()),
        "    fn visit_ternary(&mut self, t: &Ternary) -> T;\n"
    );
    assert_eq!(
        rule_line_text(RuleLine::Visit, &name, &String::new()),
        "    fn visit_(&mut self, n: &Ternary) -> T;\n"
    );
}
