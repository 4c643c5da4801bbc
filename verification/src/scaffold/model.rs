//! What a new rule directory is made from.

use vstd::prelude::*;

use crate::text::{decimal, owned, push_decimal};

verus! {

broadcast use vstd::string::group_string_axioms;

/// Default pattern type written into a new rule's manifest.
#[derive(Clone, Copy, Debug, PartialEq, Eq, Structural)]
pub enum ScaffoldPatternType {
    Reporting,
    Dataflow,
}

/// The manifest value of a pattern type.
pub open spec fn manifest_value(t: ScaffoldPatternType) -> Seq<char> {
    match t {
        ScaffoldPatternType::Reporting => "REPORTING"@,
        ScaffoldPatternType::Dataflow => "DATAFLOW"@,
    }
}

/// The pattern type a manifest's `type` value names, as a manifest is read:
/// `REPORTING` or `DATAFLOW`, nothing else.
pub open spec fn named_pattern_type(value: Seq<char>) -> Option<ScaffoldPatternType> {
    if value == "REPORTING"@ {
        Some(ScaffoldPatternType::Reporting)
    } else if value == "DATAFLOW"@ {
        Some(ScaffoldPatternType::Dataflow)
    } else {
        None
    }
}

/// The manifest value of a pattern type reads back as that type, so two types
/// never share a value.
pub proof fn lemma_manifest_value_reads_back(t: ScaffoldPatternType, u: ScaffoldPatternType)
    ensures
        named_pattern_type(manifest_value(t)) == Some(t),
        manifest_value(t) == manifest_value(u) ==> t == u,
{
    reveal_strlit("REPORTING");
    reveal_strlit("DATAFLOW");
    assert("REPORTING"@.len() == 9);
    assert("DATAFLOW"@.len() == 8);
    assert("REPORTING"@ != "DATAFLOW"@);
}

/// The analysis a pattern type stands for, as the documents name it.
pub open spec fn analysis_label_of(t: ScaffoldPatternType) -> Seq<char> {
    match t {
        ScaffoldPatternType::Reporting => "AST Matcher / Reporting"@,
        ScaffoldPatternType::Dataflow => "DataFlow"@,
    }
}

impl ScaffoldPatternType {
    /// The value of this type in a manifest.
    pub fn as_manifest_value(self) -> (r: &'static str)
        ensures
            r@ == manifest_value(self),
            named_pattern_type(r@) == Some(self),
    {
        proof {
            lemma_manifest_value_reads_back(self, self);
        }
        match self {
            ScaffoldPatternType::Reporting => "REPORTING",
            ScaffoldPatternType::Dataflow => "DATAFLOW",
        }
    }

    /// The analysis this type stands for.
    pub fn analysis_label(self) -> (r: &'static str)
        ensures
            r@ == analysis_label_of(self),
    {
        match self {
            ScaffoldPatternType::Reporting => "AST Matcher / Reporting",
            ScaffoldPatternType::Dataflow => "DataFlow",
        }
    }
}

/// A path joined with a relative or absolute name, as `Path::join` does on
/// Unix: an absolute name replaces the path; a separator is added where the
/// path does not end with one.
pub open spec fn joined_path(root: Seq<char>, name: Seq<char>) -> Seq<char> {
    if name.len() > 0 && name[0] == '/' {
        name
    } else if root.len() == 0 {
        name
    } else if root.last() == '/' {
        root + name
    } else {
        root + "/"@ + name
    }
}

/// `root` joined with `name`.
pub fn join_path(root: &str, name: &str) -> (r: String)
    ensures
        r@ == joined_path(root@, name@),
{
    let root_chars = crate::text::chars_of(root);
    let name_chars = crate::text::chars_of(name);
    if name_chars.len() > 0 && name_chars[0] == '/' {
        return owned(name);
    }
    if root_chars.len() == 0 {
        return owned(name);
    }
    let mut r = owned(root);
    if root_chars[root_chars.len() - 1] != '/' {
        r.append("/");
    }
    r.append(name);
    r
}

/// What a new rule directory is made from.
#[derive(Clone, Debug)]
pub struct RuleScaffoldSpec {
    /// Directory under which the rule directory is created.
    pub rules_root: String,
    /// Name of the rule directory.
    pub dir_name: String,
    /// Human-readable title; the directory name when absent.
    pub title: Option<String>,
    /// CWE number, if any.
    pub cwe: Option<u32>,
    pub pattern_type: ScaffoldPatternType,
    pub severity: i32,
    pub confidence: i32,
}

/// The title shown in documents.
pub open spec fn title_of(spec: RuleScaffoldSpec) -> Seq<char> {
    match spec.title {
        Some(t) => t@,
        None => spec.dir_name@,
    }
}

/// The CWE label: `CWE-<n>`, or `TODO` without a number.
pub open spec fn cwe_label_of(spec: RuleScaffoldSpec) -> Seq<char> {
    match spec.cwe {
        Some(n) => "CWE-"@ + decimal(n as int),
        None => "TODO"@,
    }
}

/// The heading of the rule's documents.
pub open spec fn document_heading_of(spec: RuleScaffoldSpec) -> Seq<char> {
    match spec.cwe {
        Some(n) => "CWE-"@ + decimal(n as int) + " — "@ + title_of(spec),
        None => title_of(spec),
    }
}

/// The heading of the pattern catalogue.
pub open spec fn catalog_heading_of(spec: RuleScaffoldSpec) -> Seq<char> {
    match spec.cwe {
        Some(n) => "Каталог паттернов CWE-"@ + decimal(n as int),
        None => "Каталог паттернов "@ + title_of(spec),
    }
}

impl RuleScaffoldSpec {
    /// The directory the rule is created in: the directory name under the root.
    pub fn target_path(&self) -> (r: String)
        ensures
            r@ == joined_path(self.rules_root@, self.dir_name@),
    {
        join_path(self.rules_root.as_str(), self.dir_name.as_str())
    }

    /// The title shown in documents: the title if given, else the directory name.
    pub fn display_title(&self) -> (r: &str)
        ensures
            r@ == title_of(*self),
    {
        match &self.title {
            Some(t) => t.as_str(),
            None => self.dir_name.as_str(),
        }
    }

    /// The CWE label: `CWE-<n>`, or `TODO` without a number.
    pub fn cwe_label(&self) -> (r: String)
        ensures
            r@ == cwe_label_of(*self),
    {
        match self.cwe {
            Some(cwe) => {
                let mut s = owned("CWE-");
                push_decimal(&mut s, cwe as i64);
                s
            },
            None => owned("TODO"),
        }
    }

    /// The heading of the rule's documents: `CWE-<n> — <title>`, or the title.
    pub fn document_heading(&self) -> (r: String)
        ensures
            r@ == document_heading_of(*self),
    {
        match self.cwe {
            Some(cwe) => {
                let mut s = owned("CWE-");
                push_decimal(&mut s, cwe as i64);
                s.append(" — ");
                s.append(self.display_title());
                s
            },
            None => owned(self.display_title()),
        }
    }

    /// The heading of the pattern catalogue.
    pub fn pattern_catalog_heading(&self) -> (r: String)
        ensures
            r@ == catalog_heading_of(*self),
    {
        match self.cwe {
            Some(cwe) => {
                let mut s = owned("Каталог паттернов CWE-");
                push_decimal(&mut s, cwe as i64);
                s
            },
            None => {
                let mut s = owned("Каталог паттернов ");
                s.append(self.display_title());
                s
            },
        }
    }
}

/// A created rule directory and the files in it, relative to it.
#[derive(Debug)]
pub struct ScaffoldResult {
    pub target: String,
    pub files: Vec<String>,
}

impl ScaffoldResult {
    /// The created files, relative to the rule directory, in creation order.
    pub fn relative_files(&self) -> (r: &Vec<String>)
        ensures
            r@ == self.files@,
    {
        &self.files
    }
}

} // verus!
