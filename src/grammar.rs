//! The declaration mini-language: `Name : Type field, Type field, ...`.
use vstd::prelude::*;

use crate::text::{chars_of, is_white, is_ws, same_text, slice_of, string_of};

verus! {

/// A field as the model sees it: its type token, then its name token.
pub type FieldModel = (Seq<char>, Seq<char>);

/// A declaration as the model sees it: its name, then its fields in order.
pub type RuleModel = (Seq<char>, Seq<FieldModel>);

/// One declared field of a rule.
pub struct FieldSpec {
    pub ty: String,
    pub name: String,
}

impl View for FieldSpec {
    type V = FieldModel;

    open spec fn view(&self) -> FieldModel {
        (self.ty@, self.name@)
    }
}

/// One parsed declaration line: a variant name and its fields in order.
pub struct RuleDeclaration {
    pub name: String,
    pub fields: Vec<FieldSpec>,
}

impl View for RuleDeclaration {
    type V = RuleModel;

    open spec fn view(&self) -> RuleModel {
        (self.name@, self.fields@.map_values(|f: FieldSpec| f@))
    }
}

/// Why a single declaration line was refused.
#[derive(Clone, Copy, Debug, PartialEq, Eq, Structural)]
pub enum DeclError {
    /// The line holds no `:`.
    MissingColon,
    /// The field at this position (counted from 0) is not exactly two tokens.
    BadField { field: usize },
}

/// The first index at or after `i` that holds `c`, or the length if none does.
pub open spec fn find_from(s: Seq<char>, c: char, i: int) -> int
    decreases s.len() - i,
{
    if 0 <= i < s.len() && s[i] != c {
        find_from(s, c, i + 1)
    } else {
        i
    }
}

/// The first index at or after `i` that holds no whitespace.
pub open spec fn skip_ws(s: Seq<char>, i: int) -> int
    decreases s.len() - i,
{
    if 0 <= i < s.len() && is_ws(s[i]) {
        skip_ws(s, i + 1)
    } else {
        i
    }
}

/// The first index at or after `i` that holds whitespace, or the length.
pub open spec fn find_ws(s: Seq<char>, i: int) -> int
    decreases s.len() - i,
{
    if 0 <= i < s.len() && !is_ws(s[i]) {
        find_ws(s, i + 1)
    } else {
        i
    }
}

/// The end of `s[lo..j]` once trailing whitespace is taken off.
pub open spec fn back_ws(s: Seq<char>, lo: int, j: int) -> int
    decreases j - lo,
{
    if lo < j <= s.len() && is_ws(s[j - 1]) {
        back_ws(s, lo, j - 1)
    } else {
        j
    }
}

/// `s` without leading and trailing whitespace.
pub open spec fn trim(s: Seq<char>) -> Seq<char> {
    let lo = skip_ws(s, 0);
    s.subrange(lo, back_ws(s, lo, s.len() as int))
}

/// The pieces of `s[i..]` between occurrences of `sep`, in order; always at least one.
pub open spec fn pieces_from(s: Seq<char>, sep: char, i: int) -> Seq<Seq<char>>
    decreases s.len() + 1 - i,
{
    if i < 0 || i > s.len() {
        Seq::empty()
    } else {
        let e = find_from(s, sep, i);
        if e < i || e >= s.len() {
            seq![s.subrange(i, s.len() as int)]
        } else {
            seq![s.subrange(i, e)] + pieces_from(s, sep, e + 1)
        }
    }
}

/// A field segment, trimmed, split into a type token and a name token that a run
/// of whitespace separates; `None` unless there are exactly two such tokens.
pub open spec fn field_of(seg: Seq<char>) -> Option<FieldModel> {
    let t = trim(seg);
    let k = find_ws(t, 0);
    let m = skip_ws(t, k);
    if k == 0 || m >= t.len() || find_ws(t, m) < t.len() {
        None
    } else {
        Some((t.subrange(0, k), t.subrange(m, t.len() as int)))
    }
}

/// The first segment at or after `j` that is not a well-formed field, or the count.
pub open spec fn first_bad(segs: Seq<Seq<char>>, j: int) -> int
    decreases segs.len() - j,
{
    if 0 <= j < segs.len() && field_of(segs[j]) is Some {
        first_bad(segs, j + 1)
    } else {
        j
    }
}

/// The field segments of a line whose first colon stands at `c`.
pub open spec fn segments(line: Seq<char>, c: int) -> Seq<Seq<char>> {
    pieces_from(line, ',', c + 1)
}

/// What one declaration line means: split at the first colon, the trimmed name
/// before it, and the comma-separated fields after it.
pub open spec fn rule_of(line: Seq<char>) -> Result<RuleModel, DeclError> {
    let c = find_from(line, ':', 0);
    if c >= line.len() {
        Err(DeclError::MissingColon)
    } else {
        let segs = segments(line, c);
        let b = first_bad(segs, 0);
        if b < segs.len() {
            Err(DeclError::BadField { field: b as usize })
        } else {
            Ok((trim(line.subrange(0, c)), Seq::new(segs.len(), |k: int| field_of(segs[k])->0)))
        }
    }
}

fn find_char(s: &Vec<char>, c: char, i: usize) -> (r: usize)
    requires
        i <= s@.len(),
    ensures
        r == find_from(s@, c, i as int),
        i <= r <= s@.len(),
        r < s@.len() ==> s@[r as int] == c,
{
    let mut j: usize = i;
    while j < s.len() && s[j] != c
        invariant
            i <= j <= s@.len(),
            find_from(s@, c, i as int) == find_from(s@, c, j as int),
        decreases s@.len() - j,
    {
        j = j + 1;
    }
    j
}

fn skip_white(s: &Vec<char>, i: usize) -> (r: usize)
    requires
        i <= s@.len(),
    ensures
        r == skip_ws(s@, i as int),
        i <= r <= s@.len(),
{
    let mut j: usize = i;
    while j < s.len() && is_white(s[j])
        invariant
            i <= j <= s@.len(),
            skip_ws(s@, i as int) == skip_ws(s@, j as int),
        decreases s@.len() - j,
    {
        j = j + 1;
    }
    j
}

fn find_white(s: &Vec<char>, i: usize) -> (r: usize)
    requires
        i <= s@.len(),
    ensures
        r == find_ws(s@, i as int),
        i <= r <= s@.len(),
{
    let mut j: usize = i;
    while j < s.len() && !is_white(s[j])
        invariant
            i <= j <= s@.len(),
            find_ws(s@, i as int) == find_ws(s@, j as int),
        decreases s@.len() - j,
    {
        j = j + 1;
    }
    j
}

fn back_white(s: &Vec<char>, lo: usize, hi: usize) -> (r: usize)
    requires
        lo <= hi <= s@.len(),
    ensures
        r == back_ws(s@, lo as int, hi as int),
        lo <= r <= hi,
{
    let mut j: usize = hi;
    while lo < j && is_white(s[j - 1])
        invariant
            lo <= j <= hi <= s@.len(),
            back_ws(s@, lo as int, hi as int) == back_ws(s@, lo as int, j as int),
        decreases j - lo,
    {
        j = j - 1;
    }
    j
}

/// `s` without leading and trailing whitespace.
pub fn trim_text(s: &Vec<char>) -> (r: Vec<char>)
    ensures
        r@ == trim(s@),
{
    let lo = skip_white(s, 0);
    let hi = back_white(s, lo, s.len());
    slice_of(s, lo, hi)
}

/// Reads one field segment as a type token and a name token.
pub fn parse_field(seg: &Vec<char>) -> (r: Option<FieldSpec>)
    ensures
        r is Some <==> field_of(seg@) is Some,
        r is Some ==> r->0@ == field_of(seg@)->0,
{
    let t = trim_text(seg);
    let k = find_white(&t, 0);
    let m = skip_white(&t, k);
    if k == 0 || m >= t.len() || find_white(&t, m) < t.len() {
        None
    } else {
        let ty = slice_of(&t, 0, k);
        let nm = slice_of(&t, m, t.len());
        Some(FieldSpec { ty: string_of(&ty), name: string_of(&nm) })
    }
}


proof fn lemma_first_bad_all_good(segs: Seq<Seq<char>>, j: int)
    requires
        0 <= j <= segs.len(),
        forall|k: int| j <= k < segs.len() ==> field_of(#[trigger] segs[k]) is Some,
    ensures
        first_bad(segs, j) == segs.len(),
    decreases segs.len() - j,
{
    if j < segs.len() {
        lemma_first_bad_all_good(segs, j + 1);
    }
}

proof fn lemma_first_bad_at(segs: Seq<Seq<char>>, j: int, b: int)
    requires
        0 <= j <= b < segs.len(),
        forall|k: int| j <= k < b ==> field_of(#[trigger] segs[k]) is Some,
        field_of(segs[b]) is None,
    ensures
        first_bad(segs, j) == b,
    decreases b - j,
{
    if j < b {
        lemma_first_bad_at(segs, j + 1, b);
    }
}

/// Reads one declaration line `Name : Type field, Type field, ...`.
pub fn parse_rule(line: &str) -> (r: Result<RuleDeclaration, DeclError>)
    ensures
        match r {
            Ok(d) => rule_of(line@) == Ok::<RuleModel, DeclError>(d@),
            Err(e) => rule_of(line@) == Err::<RuleModel, DeclError>(e),
        },
{
    let s = chars_of(line);
    let c = find_char(&s, ':', 0);
    if c == s.len() {
        return Err(DeclError::MissingColon);
    }
    let name = trim_text(&slice_of(&s, 0, c));
    let ghost segs = segments(s@, c as int);
    let ghost mut done: Seq<Seq<char>> = Seq::empty();
    let mut fields: Vec<FieldSpec> = Vec::new();
    let mut i: usize = c + 1;
    loop
        invariant
            s@ == line@,
            c == find_from(line@, ':', 0),
            name@ == trim(line@.subrange(0, c as int)),
            c < s@.len(),
            c + 1 <= i <= s@.len(),
            segs == segments(s@, c as int),
            segs == done + pieces_from(s@, ',', i as int),
            fields@.len() == done.len(),
            forall|k: int| 0 <= k < done.len() ==> field_of(#[trigger] done[k]) is Some,
            forall|k: int| 0 <= k < done.len() ==> (#[trigger] fields@[k])@ == field_of(done[k])->0,
        decreases s@.len() + 1 - i,
    {
        let e = find_char(&s, ',', i);
        let seg = slice_of(&s, i, e);
        let ghost rest = pieces_from(s@, ',', i as int);
        assert(rest[0] == seg@);
        match parse_field(&seg) {
            None => {
                proof {
                    assert(segs[done.len() as int] == seg@);
                    assert forall|k: int| 0 <= k < done.len() implies field_of(
                        #[trigger] segs[k],
                    ) is Some by {
                        assert(segs[k] == done[k]);
                    }
                    lemma_first_bad_at(segs, 0, done.len() as int);
                }
                return Err(DeclError::BadField { field: fields.len() });
            },
            Some(f) => {
                fields.push(f);
            },
        }
        proof {
            done = done.push(seg@);
        }
        if e == s.len() {
            proof {
                assert(rest =~= seq![seg@]);
                assert(segs =~= done);
                lemma_first_bad_all_good(segs, 0);
            }
            let d = RuleDeclaration { name: string_of(&name), fields };
            proof {
                let want = Seq::new(segs.len(), |k: int| field_of(segs[k])->0);
                assert(d@.1 =~= want);
            }
            return Ok(d);
        }
        proof {
            assert(rest =~= seq![seg@] + pieces_from(s@, ',', e + 1));
            assert(segs =~= done + pieces_from(s@, ',', e + 1));
        }
        i = e + 1;
    }
}


/// Why a family's declarations were refused.
#[derive(Clone, Copy, Debug, PartialEq, Eq, Structural)]
pub enum AstError {
    /// The line at this position (counted from 0) is malformed.
    Malformed { line: usize, error: DeclError },
    /// The rule on line `second` has the name of the rule on line `first`.
    DuplicateRule { first: usize, second: usize },
}

/// The views of a sequence of strings.
pub open spec fn texts(lines: Seq<String>) -> Seq<Seq<char>> {
    lines.map_values(|s: String| s@)
}

/// The models of a sequence of declarations.
pub open spec fn models(rules: Seq<RuleDeclaration>) -> Seq<RuleModel> {
    rules.map_values(|d: RuleDeclaration| d@)
}

/// The first position at or after `j` whose rule is named `n`, or the count.
pub open spec fn name_index(rules: Seq<RuleModel>, n: Seq<char>, j: int) -> int
    decreases rules.len() - j,
{
    if 0 <= j < rules.len() && rules[j].0 != n {
        name_index(rules, n, j + 1)
    } else {
        j
    }
}

/// What a family's declaration lines mean: each line read in turn, the first
/// malformed line or the first name that repeats an earlier one refused.
pub open spec fn family_of(lines: Seq<Seq<char>>) -> Result<Seq<RuleModel>, AstError>
    decreases lines.len(),
{
    if lines.len() == 0 {
        Ok(Seq::empty())
    } else {
        let last = (lines.len() - 1) as usize;
        match family_of(lines.drop_last()) {
            Err(e) => Err(e),
            Ok(rules) => match rule_of(lines.last()) {
                Err(d) => Err(AstError::Malformed { line: last, error: d }),
                Ok(r) => {
                    let i = name_index(rules, r.0, 0);
                    if i < rules.len() {
                        Err(AstError::DuplicateRule { first: i as usize, second: last })
                    } else {
                        Ok(rules.push(r))
                    }
                },
            },
        }
    }
}

/// Reads every declaration line of a family, in order.
pub fn parse_family(lines: &Vec<String>) -> (r: Result<Vec<RuleDeclaration>, AstError>)
    ensures
        match r {
            Ok(rules) => family_of(texts(lines@)) == Ok::<Seq<RuleModel>, AstError>(
                models(rules@),
            ),
            Err(e) => family_of(texts(lines@)) == Err::<Seq<RuleModel>, AstError>(e),
        },
{
    let mut rules: Vec<RuleDeclaration> = Vec::new();
    let mut i: usize = 0;
    assert(models(rules@) =~= Seq::<RuleModel>::empty());
    assert(texts(lines@).subrange(0, 0) =~= Seq::<Seq<char>>::empty());
    while i < lines.len()
        invariant
            i <= lines@.len(),
            family_of(texts(lines@).subrange(0, i as int)) == Ok::<Seq<RuleModel>, AstError>(
                models(rules@),
            ),
        decreases lines@.len() - i,
    {
        let ghost prefix = texts(lines@).subrange(0, i as int + 1);
        assert(prefix.drop_last() =~= texts(lines@).subrange(0, i as int));
        assert(prefix.last() == lines@[i as int]@);
        match parse_rule(lines[i].as_str()) {
            Err(d) => {
                proof {
                    lemma_family_err_stays(texts(lines@), i as int + 1);
                }
                return Err(AstError::Malformed { line: i, error: d });
            },
            Ok(d) => {
                let mut j: usize = 0;
                while j < rules.len()
                    invariant
                        i < lines@.len(),
                        j <= rules@.len(),
                        prefix == texts(lines@).subrange(0, i as int + 1),
                        prefix.drop_last() == texts(lines@).subrange(0, i as int),
                        prefix.last() == lines@[i as int]@,
                        rule_of(lines@[i as int]@) == Ok::<RuleModel, DeclError>(d@),
                        family_of(texts(lines@).subrange(0, i as int)) == Ok::<
                            Seq<RuleModel>,
                            AstError,
                        >(models(rules@)),
                        name_index(models(rules@), d@.0, 0) == name_index(
                            models(rules@),
                            d@.0,
                            j as int,
                        ),
                    decreases rules@.len() - j,
                {
                    if rules[j].name == d.name {
                        proof {
                            lemma_family_err_stays(texts(lines@), i as int + 1);
                        }
                        return Err(AstError::DuplicateRule { first: j, second: i });
                    }
                    j = j + 1;
                }
                proof {
                    assert(models(rules@.push(d)) =~= models(rules@).push(d@));
                }
                rules.push(d);
            },
        }
        i = i + 1;
    }
    assert(texts(lines@).subrange(0, lines@.len() as int) =~= texts(lines@));
    Ok(rules)
}

/// Once a prefix of the lines is refused, every longer prefix is refused alike.
pub proof fn lemma_family_err_stays(lines: Seq<Seq<char>>, n: int)
    requires
        0 <= n <= lines.len(),
        family_of(lines.subrange(0, n)) is Err,
    ensures
        family_of(lines) == family_of(lines.subrange(0, n)),
    decreases lines.len() - n,
{
    if n < lines.len() {
        let p = lines.subrange(0, n + 1);
        assert(p.drop_last() =~= lines.subrange(0, n));
        lemma_family_err_stays(lines, n + 1);
    } else {
        assert(lines.subrange(0, n) =~= lines);
    }
}

} // verus!
