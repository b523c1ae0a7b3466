//! The text of the two generated files of a family.
use vstd::prelude::*;

use crate::grammar::{models, FieldModel, FieldSpec, RuleDeclaration, RuleModel};
use crate::text::{
    cat, chars_of, lower_of, push_all, push_str, same_text, string_of, to_lower, to_upper, upper_of,
};

verus! {

/// The shapes of line that a single field gives rise to.
#[derive(Clone, Copy, Debug, PartialEq, Eq, Structural)]
pub enum FieldLine {
    /// A variant of the literal tagged union.
    Tag,
    /// A match arm of the literal's stringification.
    Arm,
    /// A public field of a record.
    Member,
    /// A parameter of a record's constructor, after a separator unless first.
    Param,
    /// A field initialiser in a record's constructor.
    Init,
}

/// The name that marks the literal-kind rule.
pub open spec fn is_literal(name: Seq<char>) -> bool {
    name == "Literal"@
}

/// The field name that marks the payload-less literal variant.
pub open spec fn is_nil(f: FieldModel) -> bool {
    f.1 == "NIL"@
}

/// The line that field `f`, at position `i`, gives in the shape `kind`, where
/// `upper` is the upper-cased type token.
pub open spec fn cased_field_line(
    kind: FieldLine,
    f: FieldModel,
    upper: Seq<char>,
    i: int,
) -> Seq<char> {
    match kind {
        FieldLine::Tag => if is_nil(f) {
            "    NIL,\n"@
        } else {
            "    "@ + upper + "("@ + f.1 + "),\n"@
        },
        FieldLine::Arm => if is_nil(f) {
            "            Literal::NIL => write!(f, \"NIL\"),\n"@
        } else {
            "            Literal::"@ + upper + "(val) => write!(f, \"{}\", val),\n"@
        },
        FieldLine::Member => "    pub "@ + f.1 + ": "@ + f.0 + ",\n"@,
        FieldLine::Param => if i == 0 {
            f.1 + ": "@ + f.0
        } else {
            ", "@ + f.1 + ": "@ + f.0
        },
        FieldLine::Init => "            "@ + f.1 + ",\n"@,
    }
}

/// The line that field `f`, at position `i`, gives in the shape `kind`.
pub open spec fn field_line(kind: FieldLine, f: FieldModel, i: int) -> Seq<char> {
    cased_field_line(kind, f, upper_of(f.0), i)
}

/// The lines of all fields in the shape `kind`, in declaration order.
pub open spec fn field_lines(kind: FieldLine, fields: Seq<FieldModel>) -> Seq<Seq<char>> {
    Seq::new(fields.len(), |i: int| field_line(kind, fields[i], i))
}

/// Splitting a concatenation after `i` pieces.
pub proof fn lemma_cat_push(pieces: Seq<Seq<char>>, i: int)
    requires
        0 <= i < pieces.len(),
    ensures
        cat(pieces.subrange(0, i + 1)) == cat(pieces.subrange(0, i)) + pieces[i],
{
    assert(pieces.subrange(0, i + 1).drop_last() =~= pieces.subrange(0, i));
}

fn push_cased_field_line(
    out: &mut Vec<char>,
    kind: FieldLine,
    f: &FieldSpec,
    upper: &Vec<char>,
    i: usize,
)
    ensures
        final(out)@ == old(out)@ + cased_field_line(kind, f@, upper@, i as int),
{
    let ty = chars_of(f.ty.as_str());
    let name = chars_of(f.name.as_str());
    let nil = same_text(&name, &chars_of("NIL"));
    let ghost start = out@;
    match kind {
        FieldLine::Tag => {
            if nil {
                push_str(out, "    NIL,\n");
            } else {
                push_str(out, "    ");
                push_all(out, upper);
                push_str(out, "(");
                push_all(out, &name);
                push_str(out, "),\n");
            }
        },
        FieldLine::Arm => {
            if nil {
                push_str(out, "            Literal::NIL => write!(f, \"NIL\"),\n");
            } else {
                push_str(out, "            Literal::");
                push_all(out, upper);
                push_str(out, "(val) => write!(f, \"{}\", val),\n");
            }
        },
        FieldLine::Member => {
            push_str(out, "    pub ");
            push_all(out, &name);
            push_str(out, ": ");
            push_all(out, &ty);
            push_str(out, ",\n");
        },
        FieldLine::Param => {
            if i != 0 {
                push_str(out, ", ");
            }
            push_all(out, &name);
            push_str(out, ": ");
            push_all(out, &ty);
        },
        FieldLine::Init => {
            push_str(out, "            ");
            push_all(out, &name);
            push_str(out, ",\n");
        },
    }
    assert(out@ =~= start + cased_field_line(kind, f@, upper@, i as int));
}

/// The line that field `f`, at position `i`, gives in the shape `kind`, given
/// its upper-cased type token.
pub fn field_line_text(kind: FieldLine, f: &FieldSpec, upper: &String, i: usize) -> (r: String)
    ensures
        r@ == cased_field_line(kind, f@, upper@, i as int),
{
    let mut out: Vec<char> = Vec::new();
    push_cased_field_line(&mut out, kind, f, &chars_of(upper.as_str()), i);
    assert(out@ =~= cased_field_line(kind, f@, upper@, i as int));
    string_of(&out)
}

fn push_field_line(out: &mut Vec<char>, kind: FieldLine, f: &FieldSpec, i: usize)
    ensures
        final(out)@ == old(out)@ + field_line(kind, f@, i as int),
{
    let upper = to_upper(&chars_of(f.ty.as_str()));
    push_cased_field_line(out, kind, f, &upper, i);
}

fn push_field_lines(out: &mut Vec<char>, kind: FieldLine, fields: &Vec<FieldSpec>)
    ensures
        final(out)@ == old(out)@ + cat(
            field_lines(kind, fields@.map_values(|f: FieldSpec| f@)),
        ),
{
    let ghost lines = field_lines(kind, fields@.map_values(|f: FieldSpec| f@));
    let ghost start = out@;
    let mut i: usize = 0;
    assert(lines.subrange(0, 0) =~= Seq::<Seq<char>>::empty());
    assert(out@ =~= start + cat(lines.subrange(0, 0)));
    while i < fields.len()
        invariant
            i <= fields@.len() == lines.len(),
            lines == field_lines(kind, fields@.map_values(|f: FieldSpec| f@)),
            out@ == start + cat(lines.subrange(0, i as int)),
        decreases fields@.len() - i,
    {
        push_field_line(out, kind, &fields[i], i);
        proof {
            lemma_cat_push(lines, i as int);
        }
        i = i + 1;
        assert(out@ =~= start + cat(lines.subrange(0, i as int)));
    }
    assert(lines.subrange(0, i as int) =~= lines);
}


/// The attribute line that gives every generated type value semantics.
pub open spec fn derive_line() -> Seq<char> {
    "#[derive(Clone, PartialEq, Debug)]\n"@
}

/// The tagged union that stands for the literal-kind rule, with its stringification.
pub open spec fn literal_text(fields: Seq<FieldModel>) -> Seq<char> {
    derive_line() + "pub enum Literal {\n"@ + cat(field_lines(FieldLine::Tag, fields)) + "}\n\n"@
        + "impl fmt::Display for Literal {\n"@
        + "    fn fmt(&self, f: &mut fmt::Formatter) -> fmt::Result {\n"@ + "        match self {\n"@
        + cat(field_lines(FieldLine::Arm, fields)) + "        }\n    }\n}\n\n"@
}

/// The record of an ordinary rule, and its constructor.
pub open spec fn record_text(name: Seq<char>, fields: Seq<FieldModel>) -> Seq<char> {
    derive_line() + "pub struct "@ + name + " {\n"@ + cat(field_lines(FieldLine::Member, fields))
        + "}\n\n"@ + "impl "@ + name + " {\n"@ + "   pub fn new("@ + cat(
        field_lines(FieldLine::Param, fields),
    ) + ") -> Self {\n"@ + "        "@ + name + " {\n"@ + cat(field_lines(FieldLine::Init, fields))
        + "        }\n    }\n}\n\n"@
}

/// The type definition that one rule gives.
pub open spec fn subtype_text(r: RuleModel) -> Seq<char> {
    if is_literal(r.0) {
        literal_text(r.1)
    } else {
        record_text(r.0, r.1)
    }
}

/// The type definitions of all rules, in declaration order.
pub open spec fn subtype_texts(rules: Seq<RuleModel>) -> Seq<Seq<char>> {
    Seq::new(rules.len(), |i: int| subtype_text(rules[i]))
}

fn push_subtype(out: &mut Vec<char>, d: &RuleDeclaration)
    ensures
        final(out)@ == old(out)@ + subtype_text(d@),
{
    let name = chars_of(d.name.as_str());
    let ghost start = out@;
    if same_text(&name, &chars_of("Literal")) {
        push_str(out, "#[derive(Clone, PartialEq, Debug)]\n");
        push_str(out, "pub enum Literal {\n");
        push_field_lines(out, FieldLine::Tag, &d.fields);
        push_str(out, "}\n\n");
        push_str(out, "impl fmt::Display for Literal {\n");
        push_str(out, "    fn fmt(&self, f: &mut fmt::Formatter) -> fmt::Result {\n");
        push_str(out, "        match self {\n");
        push_field_lines(out, FieldLine::Arm, &d.fields);
        push_str(out, "        }\n    }\n}\n\n");
    } else {
        push_str(out, "#[derive(Clone, PartialEq, Debug)]\n");
        push_str(out, "pub struct ");
        push_all(out, &name);
        push_str(out, " {\n");
        push_field_lines(out, FieldLine::Member, &d.fields);
        push_str(out, "}\n\n");
        push_str(out, "impl ");
        push_all(out, &name);
        push_str(out, " {\n");
        push_str(out, "   pub fn new(");
        push_field_lines(out, FieldLine::Param, &d.fields);
        push_str(out, ") -> Self {\n");
        push_str(out, "        ");
        push_all(out, &name);
        push_str(out, " {\n");
        push_field_lines(out, FieldLine::Init, &d.fields);
        push_str(out, "        }\n    }\n}\n\n");
    }
    assert(out@ =~= start + subtype_text(d@));
}

fn push_subtypes(out: &mut Vec<char>, rules: &Vec<RuleDeclaration>)
    ensures
        final(out)@ == old(out)@ + cat(subtype_texts(models(rules@))),
{
    let ghost lines = subtype_texts(models(rules@));
    let ghost start = out@;
    let mut i: usize = 0;
    assert(lines.subrange(0, 0) =~= Seq::<Seq<char>>::empty());
    assert(out@ =~= start + cat(lines.subrange(0, 0)));
    while i < rules.len()
        invariant
            i <= rules@.len() == lines.len(),
            lines == subtype_texts(models(rules@)),
            out@ == start + cat(lines.subrange(0, i as int)),
        decreases rules@.len() - i,
    {
        push_subtype(out, &rules[i]);
        proof {
            lemma_cat_push(lines, i as int);
        }
        i = i + 1;
        assert(out@ =~= start + cat(lines.subrange(0, i as int)));
    }
    assert(lines.subrange(0, i as int) =~= lines);
}


/// The shapes of line that a single rule gives rise to.
#[derive(Clone, Copy, Debug, PartialEq, Eq, Structural)]
pub enum RuleLine {
    /// A variant of the family's sum type.
    Variant,
    /// A dispatch method of the family's visitor interface.
    Visit,
}

/// The name of the parameter of a dispatch method, from the lower-cased type name.
pub open spec fn param_name(lower: Seq<char>) -> Seq<char> {
    if lower.len() > 0 {
        seq![lower[0]]
    } else {
        "n"@
    }
}

/// The dispatch method for a value of the type `name`, whose lower-cased form is `lower`.
pub open spec fn visit_text(name: Seq<char>, lower: Seq<char>) -> Seq<char> {
    "    fn visit_"@ + lower + "(&mut self, "@ + param_name(lower) + ": &"@ + name + ") -> T;\n"@
}

/// The dispatch method for a value of the type `name`.
pub open spec fn visit_line(name: Seq<char>) -> Seq<char> {
    visit_text(name, lower_of(name))
}

/// The line that the rule `name` gives in the shape `kind`, where `cased` is the
/// name upper-cased for a variant and lower-cased for a dispatch method.
pub open spec fn cased_rule_line(kind: RuleLine, name: Seq<char>, cased: Seq<char>) -> Seq<char> {
    match kind {
        RuleLine::Variant => "    "@ + cased + "("@ + name + "),\n"@,
        RuleLine::Visit => visit_text(name, cased),
    }
}

/// The casing that the shape `kind` applies to a rule name.
pub open spec fn cased(kind: RuleLine, name: Seq<char>) -> Seq<char> {
    match kind {
        RuleLine::Variant => upper_of(name),
        RuleLine::Visit => lower_of(name),
    }
}

/// The line that rule `r` gives in the shape `kind`.
pub open spec fn rule_line(kind: RuleLine, r: RuleModel) -> Seq<char> {
    cased_rule_line(kind, r.0, cased(kind, r.0))
}

/// The lines of all rules in the shape `kind`, in declaration order.
pub open spec fn rule_lines(kind: RuleLine, rules: Seq<RuleModel>) -> Seq<Seq<char>> {
    Seq::new(rules.len(), |i: int| rule_line(kind, rules[i]))
}

/// Whether the family declares the literal-kind rule.
pub open spec fn has_literal(rules: Seq<RuleModel>) -> bool {
    exists|i: int| 0 <= i < rules.len() && is_literal(#[trigger] rules[i].0)
}

/// The type-definition file: imports, the sum type, then one definition per rule.
pub open spec fn types_text(base: Seq<char>, rules: Seq<RuleModel>) -> Seq<char> {
    "use crate::token::Token;\n"@ + (if has_literal(rules) {
        "use std::fmt; \n\n"@
    } else {
        "\n"@
    }) + derive_line() + "pub enum "@ + base + " {\n"@ + cat(rule_lines(RuleLine::Variant, rules))
        + "}\n\n"@ + cat(subtype_texts(rules))
}

/// The visitor file: one entry point for the family, then one method per rule.
pub open spec fn visitor_text(base: Seq<char>, rules: Seq<RuleModel>) -> Seq<char> {
    "use crate::ast::*;\nuse crate::token::Token;\n\n"@ + "pub trait "@ + base + "Visitor<T> {\n"@
        + visit_line(base) + cat(rule_lines(RuleLine::Visit, rules)) + "}\n\n"@
}

fn push_cased_rule_line(out: &mut Vec<char>, kind: RuleLine, name: &Vec<char>, cased: &Vec<char>)
    ensures
        final(out)@ == old(out)@ + cased_rule_line(kind, name@, cased@),
{
    let ghost start = out@;
    match kind {
        RuleLine::Variant => {
            push_str(out, "    ");
            push_all(out, cased);
            push_str(out, "(");
            push_all(out, name);
            push_str(out, "),\n");
        },
        RuleLine::Visit => {
            push_str(out, "    fn visit_");
            push_all(out, cased);
            push_str(out, "(&mut self, ");
            if cased.len() > 0 {
                out.push(cased[0]);
            } else {
                push_str(out, "n");
            }
            push_str(out, ": &");
            push_all(out, name);
            push_str(out, ") -> T;\n");
        },
    }
    assert(out@ =~= start + cased_rule_line(kind, name@, cased@));
}

/// The line that the rule `name` gives in the shape `kind`, given the name
/// upper-cased (for a variant) or lower-cased (for a dispatch method).
pub fn rule_line_text(kind: RuleLine, name: &String, cased: &String) -> (r: String)
    ensures
        r@ == cased_rule_line(kind, name@, cased@),
{
    let mut out: Vec<char> = Vec::new();
    push_cased_rule_line(&mut out, kind, &chars_of(name.as_str()), &chars_of(cased.as_str()));
    assert(out@ =~= cased_rule_line(kind, name@, cased@));
    string_of(&out)
}

fn push_rule_line(out: &mut Vec<char>, kind: RuleLine, name: &Vec<char>)
    ensures
        final(out)@ == old(out)@ + cased_rule_line(kind, name@, cased(kind, name@)),
{
    let c = match kind {
        RuleLine::Variant => to_upper(name),
        RuleLine::Visit => to_lower(name),
    };
    push_cased_rule_line(out, kind, name, &c);
}

fn push_rule_lines(out: &mut Vec<char>, kind: RuleLine, rules: &Vec<RuleDeclaration>)
    ensures
        final(out)@ == old(out)@ + cat(rule_lines(kind, models(rules@))),
{
    let ghost lines = rule_lines(kind, models(rules@));
    let ghost start = out@;
    let mut i: usize = 0;
    assert(lines.subrange(0, 0) =~= Seq::<Seq<char>>::empty());
    assert(out@ =~= start + cat(lines.subrange(0, 0)));
    while i < rules.len()
        invariant
            i <= rules@.len() == lines.len(),
            lines == rule_lines(kind, models(rules@)),
            out@ == start + cat(lines.subrange(0, i as int)),
        decreases rules@.len() - i,
    {
        let ghost before = out@;
        push_rule_line(out, kind, &chars_of(rules[i].name.as_str()));
        assert(out@ =~= before + lines[i as int]);
        proof {
            lemma_cat_push(lines, i as int);
        }
        i = i + 1;
        assert(out@ =~= start + cat(lines.subrange(0, i as int)));
    }
    assert(lines.subrange(0, i as int) =~= lines);
}

fn declares_literal(rules: &Vec<RuleDeclaration>) -> (r: bool)
    ensures
        r == has_literal(models(rules@)),
{
    let lit = chars_of("Literal");
    let mut i: usize = 0;
    while i < rules.len()
        invariant
            i <= rules@.len(),
            lit@ == "Literal"@,
            forall|k: int| 0 <= k < i ==> !is_literal(#[trigger] models(rules@)[k].0),
        decreases rules@.len() - i,
    {
        if same_text(&chars_of(rules[i].name.as_str()), &lit) {
            assert(is_literal(models(rules@)[i as int].0));
            return true;
        }
        i = i + 1;
    }
    false
}

/// The type-definition file of the family `base` with these rules.
pub fn emit_types(base: &String, rules: &Vec<RuleDeclaration>) -> (r: String)
    ensures
        r@ == types_text(base@, models(rules@)),
{
    let mut out: Vec<char> = Vec::new();
    push_str(&mut out, "use crate::token::Token;\n");
    if declares_literal(rules) {
        push_str(&mut out, "use std::fmt; \n\n");
    } else {
        push_str(&mut out, "\n");
    }
    push_str(&mut out, "#[derive(Clone, PartialEq, Debug)]\n");
    push_str(&mut out, "pub enum ");
    push_all(&mut out, &chars_of(base.as_str()));
    push_str(&mut out, " {\n");
    push_rule_lines(&mut out, RuleLine::Variant, rules);
    push_str(&mut out, "}\n\n");
    push_subtypes(&mut out, rules);
    assert(out@ =~= types_text(base@, models(rules@)));
    string_of(&out)
}

/// The visitor file of the family `base` with these rules.
pub fn emit_visitor(base: &String, rules: &Vec<RuleDeclaration>) -> (r: String)
    ensures
        r@ == visitor_text(base@, models(rules@)),
{
    let mut out: Vec<char> = Vec::new();
    let name = chars_of(base.as_str());
    push_str(&mut out, "use crate::ast::*;\nuse crate::token::Token;\n\n");
    push_str(&mut out, "pub trait ");
    push_all(&mut out, &name);
    push_str(&mut out, "Visitor<T> {\n");
    push_rule_line(&mut out, RuleLine::Visit, &name);
    push_rule_lines(&mut out, RuleLine::Visit, rules);
    push_str(&mut out, "}\n\n");
    assert(visit_line(name@) == cased_rule_line(RuleLine::Visit, name@, cased(RuleLine::Visit, name@)));
    assert(out@ =~= visitor_text(base@, models(rules@)));
    string_of(&out)
}

} // verus!
