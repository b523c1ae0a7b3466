//! One family to generate: where its files go, its name and its declarations.
use vstd::prelude::*;

use crate::emit::{emit_types, emit_visitor, types_text, visitor_text};
use crate::grammar::{family_of, parse_family, texts, AstError};
use crate::text::{chars_of, push_str, string_of};

verus! {

/// A family's generation request: the output directory, the family name, and
/// one declaration line per rule.
pub struct GenerateAst {
    output_dir: String,
    base_name: String,
    types: Vec<String>,
}

/// The two generated source texts of a family.
pub struct AstFiles {
    /// The sum type, the records or literal union, and their constructors.
    pub types_source: String,
    /// The visitor interface.
    pub visitor_source: String,
}

/// What a family generates: the texts of both files, or why its declarations
/// were refused.
pub open spec fn generated(base: Seq<char>, lines: Seq<Seq<char>>) -> Result<
    (Seq<char>, Seq<char>),
    AstError,
> {
    match family_of(lines) {
        Ok(rules) => Ok((types_text(base, rules), visitor_text(base, rules))),
        Err(e) => Err(e),
    }
}

impl GenerateAst {
    pub closed spec fn dir(&self) -> Seq<char> {
        self.output_dir@
    }

    pub closed spec fn base(&self) -> Seq<char> {
        self.base_name@
    }

    pub closed spec fn lines(&self) -> Seq<Seq<char>> {
        texts(self.types@)
    }

    /// A request for the family `base_name`, written into `output_dir`.
    pub fn new(output_dir: String, base_name: String, types: Vec<String>) -> (r: Self)
        ensures
            r.dir() == output_dir@,
            r.base() == base_name@,
            r.lines() == texts(types@),
    {
        GenerateAst { output_dir, base_name, types }
    }

    /// The directory that the files go into.
    pub fn output_dir(&self) -> (r: &String)
        ensures
            r@ == self.dir(),
    {
        &self.output_dir
    }

    /// The family name.
    pub fn base_name(&self) -> (r: &String)
        ensures
            r@ == self.base(),
    {
        &self.base_name
    }

    /// The name of the type-definition file: the family name with `.rs`.
    pub fn types_file_name(&self) -> (r: String)
        ensures
            r@ == self.base() + ".rs"@,
    {
        let mut out = chars_of(self.base_name.as_str());
        push_str(&mut out, ".rs");
        string_of(&out)
    }

    /// The name of the visitor file: the family name with `Visit.rs`.
    pub fn visitor_file_name(&self) -> (r: String)
        ensures
            r@ == self.base() + "Visit.rs"@,
    {
        let mut out = chars_of(self.base_name.as_str());
        push_str(&mut out, "Visit.rs");
        string_of(&out)
    }

    /// Reads the declarations and produces the texts of both files; nothing is
    /// produced when any declaration is refused.
    pub fn write_ast(&self) -> (r: Result<AstFiles, AstError>)
        ensures
            match generated(self.base(), self.lines()) {
                Ok(t) => r is Ok && r->Ok_0.types_source@ == t.0 && r->Ok_0.visitor_source@ == t.1,
                Err(e) => r == Err::<AstFiles, AstError>(e),
            },
    {
        match parse_family(&self.types) {
            Err(e) => Err(e),
            Ok(rules) => {
                let types_source = emit_types(&self.base_name, &rules);
                let visitor_source = emit_visitor(&self.base_name, &rules);
                Ok(AstFiles { types_source, visitor_source })
            },
        }
    }
}

} // verus!
