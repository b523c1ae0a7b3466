//! Properties that hold of every family the generator is given.
use vstd::prelude::*;

use crate::emit::{
    is_literal, field_line, field_lines, lemma_cat_push, param_name, rule_lines, subtype_texts, types_text,
    visitor_text, FieldLine, RuleLine,
};
use crate::generator::{generated, GenerateAst};
use crate::grammar::{
    family_of, field_of, find_from, first_bad, lemma_family_err_stays, rule_of, segments, AstError,
    DeclError, FieldModel, RuleModel,
};
use crate::text::{cat, lower_of, upper_of};

verus! {

/// Whether `part` stands somewhere inside `whole`.
pub open spec fn occurs_in(part: Seq<char>, whole: Seq<char>) -> bool {
    exists|a: int|
        0 <= a && a + part.len() <= whole.len() && #[trigger] whole.subrange(a, a + part.len())
            == part
}

/// Concatenation distributes over joining two sequences of pieces.
pub proof fn lemma_cat_append(a: Seq<Seq<char>>, b: Seq<Seq<char>>)
    ensures
        cat(a + b) == cat(a) + cat(b),
    decreases b.len(),
{
    if b.len() == 0 {
        assert(a + b =~= a);
        assert(cat(a) + cat(b) =~= cat(a));
    } else {
        assert((a + b).drop_last() =~= a + b.drop_last());
        lemma_cat_append(a, b.drop_last());
        assert(cat(a + b) =~= cat(a) + cat(b));
    }
}

/// The concatenation of pieces is the text of the pieces before `i`, then
/// piece `i`, then the text of the pieces after it.
pub proof fn lemma_cat_split(pieces: Seq<Seq<char>>, i: int)
    requires
        0 <= i < pieces.len(),
    ensures
        cat(pieces) == cat(pieces.subrange(0, i)) + pieces[i] + cat(
            pieces.subrange(i + 1, pieces.len() as int),
        ),
{
    let n = pieces.len() as int;
    assert(pieces =~= pieces.subrange(0, i + 1) + pieces.subrange(i + 1, n));
    lemma_cat_append(pieces.subrange(0, i + 1), pieces.subrange(i + 1, n));
    lemma_cat_push(pieces, i);
}

/// A piece of a concatenation occurs in any text that holds the concatenation.
proof fn lemma_piece_occurs(pre: Seq<char>, pieces: Seq<Seq<char>>, post: Seq<char>, i: int)
    requires
        0 <= i < pieces.len(),
    ensures
        occurs_in(pieces[i], pre + cat(pieces) + post),
{
    let n = pieces.len() as int;
    lemma_cat_split(pieces, i);
    let head = pre + cat(pieces.subrange(0, i));
    let whole = pre + cat(pieces) + post;
    assert(whole =~= head + pieces[i] + (cat(pieces.subrange(i + 1, n)) + post));
    let a = head.len() as int;
    assert(whole.subrange(a, a + pieces[i].len()) =~= pieces[i]);
}

/// What stands inside a part of a text stands inside the text.
proof fn lemma_occurs_within(part: Seq<char>, piece: Seq<char>, whole: Seq<char>, b: int)
    requires
        0 <= b && b + part.len() <= piece.len(),
        piece.subrange(b, b + part.len()) == part,
        occurs_in(piece, whole),
    ensures
        occurs_in(part, whole),
{
    let a = choose|a: int|
        0 <= a && a + piece.len() <= whole.len() && #[trigger] whole.subrange(a, a + piece.len())
            == piece;
    assert(whole.subrange(a + b, a + b + part.len()) =~= part);
}

/// Determinism: two requests with the same family name and declarations
/// generate byte-identical texts, wherever their files are to go.
pub proof fn lemma_deterministic(a: GenerateAst, b: GenerateAst)
    requires
        a.base() == b.base(),
        a.lines() == b.lines(),
    ensures
        generated(a.base(), a.lines()) == generated(b.base(), b.lines()),
{
}

/// Field order: in every shape of line that fields give (record fields,
/// constructor parameters, initialisers, literal variants and stringification
/// arms), the line of field `i` comes right after the lines of the fields
/// declared before it, and before those of the fields declared after it.
pub proof fn lemma_field_order(kind: FieldLine, fields: Seq<FieldModel>, i: int)
    requires
        0 <= i < fields.len(),
    ensures
        cat(field_lines(kind, fields)) == cat(field_lines(kind, fields.subrange(0, i)))
            + field_line(kind, fields[i], i) + cat(
            field_lines(kind, fields).subrange(i + 1, fields.len() as int),
        ),
{
    let lines = field_lines(kind, fields);
    lemma_cat_split(lines, i);
    assert(lines.subrange(0, i) =~= field_lines(kind, fields.subrange(0, i)));
}

/// Naming: every accepted rule `R` gives the sum-type variant `UPPER(R)(R)` in the
/// type-definition file, and there the record `pub struct R` unless `R` is the
/// literal-kind rule, and the method `visit_lower(R)` taking `&R` in the visitor
/// file.
pub proof fn lemma_naming(base: Seq<char>, lines: Seq<Seq<char>>, k: int)
    requires
        family_of(lines) is Ok,
        0 <= k < family_of(lines)->Ok_0.len(),
    ensures
        ({
            let r = family_of(lines)->Ok_0[k].0;
            &&& occurs_in(
                "    "@ + upper_of(r) + "("@ + r + "),\n"@,
                generated(base, lines)->Ok_0.0,
            )
            &&& (!is_literal(r) ==> occurs_in(
                "pub struct "@ + r + " {\n"@,
                generated(base, lines)->Ok_0.0,
            ))
            &&& occurs_in(
                "    fn visit_"@ + lower_of(r) + "(&mut self, "@ + param_name(lower_of(r)) + ": &"@
                    + r + ") -> T;\n"@,
                generated(base, lines)->Ok_0.1,
            )
        }),
{
    let rules = family_of(lines)->Ok_0;
    let has = if crate::emit::has_literal(rules) {
        "use std::fmt; \n\n"@
    } else {
        "\n"@
    };
    let pre = "use crate::token::Token;\n"@ + has + crate::emit::derive_line() + "pub enum "@ + base
        + " {\n"@;
    let post = "}\n\n"@ + cat(subtype_texts(rules));
    let variants = rule_lines(RuleLine::Variant, rules);
    assert(types_text(base, rules) =~= pre + cat(variants) + post);
    lemma_piece_occurs(pre, variants, post, k);
    let r = rules[k];
    if !is_literal(r.0) {
        let subs = subtype_texts(rules);
        let spre = pre + cat(variants) + "}\n\n"@;
        assert(types_text(base, rules) =~= spre + cat(subs) + Seq::<char>::empty());
        lemma_piece_occurs(spre, subs, Seq::<char>::empty(), k);
        let part = "pub struct "@ + r.0 + " {\n"@;
        let d = crate::emit::derive_line();
        assert(subs[k].subrange(d.len() as int, (d.len() + part.len()) as int) =~= part);
        lemma_occurs_within(part, subs[k], types_text(base, rules), d.len() as int);
    }
    let vpre = "use crate::ast::*;\nuse crate::token::Token;\n\n"@ + "pub trait "@ + base
        + "Visitor<T> {\n"@ + crate::emit::visit_line(base);
    let visits = rule_lines(RuleLine::Visit, rules);
    assert(visitor_text(base, rules) =~= vpre + cat(visits) + "}\n\n"@);
    lemma_piece_occurs(vpre, visits, "}\n\n"@, k);
}

/// What a run over several families generates: each family on its own.
pub open spec fn run(families: Seq<(Seq<char>, Seq<Seq<char>>)>) -> Seq<
    Result<(Seq<char>, Seq<char>), AstError>,
> {
    families.map_values(|f: (Seq<char>, Seq<Seq<char>>)| generated(f.0, f.1))
}

/// Independence: what a family generates in one run is what it generates in any
/// other run, whatever other families come before or after it.
pub proof fn lemma_families_independent(
    one: Seq<(Seq<char>, Seq<Seq<char>>)>,
    other: Seq<(Seq<char>, Seq<Seq<char>>)>,
    i: int,
    j: int,
)
    requires
        0 <= i < one.len(),
        0 <= j < other.len(),
        one[i] == other[j],
    ensures
        run(one)[i] == run(other)[j],
        run(one)[i] == generated(one[i].0, one[i].1),
{
}

proof fn lemma_find_absent(s: Seq<char>, c: char, i: int)
    requires
        0 <= i <= s.len(),
        forall|j: int| i <= j < s.len() ==> s[j] != c,
    ensures
        find_from(s, c, i) == s.len(),
    decreases s.len() - i,
{
    if i < s.len() {
        lemma_find_absent(s, c, i + 1);
    }
}

proof fn lemma_first_bad_le(segs: Seq<Seq<char>>, j: int, k: int)
    requires
        0 <= j <= k < segs.len(),
        field_of(segs[k]) is None,
    ensures
        j <= first_bad(segs, j) <= k,
    decreases k - j,
{
    if j < k {
        lemma_first_bad_le(segs, j + 1, k);
    }
}

/// A declaration line without a colon is refused as such.
pub proof fn lemma_no_colon(line: Seq<char>)
    requires
        forall|j: int| 0 <= j < line.len() ==> line[j] != ':',
    ensures
        rule_of(line) == Err::<RuleModel, DeclError>(DeclError::MissingColon),
{
    lemma_find_absent(line, ':', 0);
}

/// A declaration line with a field segment that is not exactly two
/// whitespace-separated tokens is refused, naming that field or an earlier one.
pub proof fn lemma_bad_field(line: Seq<char>, k: int)
    requires
        find_from(line, ':', 0) < line.len(),
        0 <= k < segments(line, find_from(line, ':', 0)).len(),
        field_of(segments(line, find_from(line, ':', 0))[k]) is None,
    ensures
        rule_of(line) matches Err(DeclError::BadField { field }) && field <= k,
{
    lemma_first_bad_le(segments(line, find_from(line, ':', 0)), 0, k);
}

/// Rejection: when any declaration line of a family is malformed, the family
/// generates no file at all.
pub proof fn lemma_malformed_rejected(base: Seq<char>, lines: Seq<Seq<char>>, k: int)
    requires
        0 <= k < lines.len(),
        rule_of(lines[k]) is Err,
    ensures
        generated(base, lines) is Err,
{
    let p = lines.subrange(0, k + 1);
    assert(p.drop_last() =~= lines.subrange(0, k));
    assert(p.last() == lines[k]);
    assert(family_of(p) is Err);
    lemma_family_err_stays(lines, k + 1);
}

} // verus!
