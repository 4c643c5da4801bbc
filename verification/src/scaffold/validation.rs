//! Checks of a new rule's parameters before anything is created.

use vstd::prelude::*;

use crate::scaffold::model::{joined_path, RuleScaffoldSpec};
use crate::text::{
    ascii_upper, ascii_uppercase, chars_equal, chars_of, contains_char, contains_control, has_char,
    has_control, is_blank, owned, str_is_blank, trim, trim_chars,
};

verus! {

broadcast use vstd::string::group_string_axioms;

/// What the file system holds where a rule would be created.
#[derive(Clone, Copy, Debug)]
pub struct PathFacts {
    /// Whether the rules root exists.
    pub root_exists: bool,
    /// Whether the rules root is a directory.
    pub root_is_dir: bool,
    /// Whether the target directory already exists.
    pub target_exists: bool,
}

/// Why a new rule cannot be created.
#[derive(Debug)]
pub enum ScaffoldError {
    RulesRootMissing { path: String },
    RulesRootNotDirectory { path: String },
    EmptyDirectoryName,
    SurroundingWhitespace,
    TrailingDot,
    ControlCharacterInName,
    ForbiddenCharacter,
    NameTooLong,
    NotSingleComponent,
    DotName,
    ReservedName { name: String },
    EmptyTitle,
    ControlCharacterInTitle,
    ZeroCwe,
    SeverityOutOfRange,
    TargetExists { path: String },
    TargetAppeared { path: String },
    /// A staging directory could not be created in `parent`.
    StagingFailed { parent: String, cause: String },
    /// Every staging directory name that is tried is taken in `parent`.
    StagingExhausted { parent: String },
}

/// Characters that Windows does not allow in file names.
pub open spec fn is_forbidden_on_windows(c: char) -> bool {
    c == '<' || c == '>' || c == ':' || c == '"' || c == '/' || c == '\\' || c == '|' || c == '?'
        || c == '*'
}

/// Whether some character of `s` is forbidden on Windows.
pub open spec fn has_forbidden(s: Seq<char>) -> bool {
    exists|i: int| 0 <= i < s.len() && is_forbidden_on_windows(#[trigger] s[i])
}

/// The length of `s` in UTF-16 code units.
pub open spec fn utf16_len(s: Seq<char>) -> nat
    decreases s.len(),
{
    if s.len() == 0 {
        0
    } else {
        utf16_len(s.drop_last()) + if (s.last() as u32) >= 0x10000 {
            2nat
        } else {
            1nat
        }
    }
}

/// Whether a name is one path component that names a file or directory
/// (not `.` nor `..`, no separator).
pub open spec fn is_single_normal_component(name: Seq<char>) -> bool {
    name.len() > 0 && !has_char(name, '/') && name != "."@ && name != ".."@
}

/// The part of `name` before its first dot.
pub open spec fn before_first_dot(name: Seq<char>) -> Seq<char>
    decreases name.len(),
{
    if name.len() == 0 || name[0] == '.' {
        seq![]
    } else {
        seq![name[0]] + before_first_dot(name.drop_first())
    }
}

/// Device names that Windows reserves.
pub open spec fn is_reserved_device(base: Seq<char>) -> bool {
    ||| base == "CON"@
    ||| base == "PRN"@
    ||| base == "AUX"@
    ||| base == "NUL"@
    ||| base == "COM1"@
    ||| base == "COM2"@
    ||| base == "COM3"@
    ||| base == "COM4"@
    ||| base == "COM5"@
    ||| base == "COM6"@
    ||| base == "COM7"@
    ||| base == "COM8"@
    ||| base == "COM9"@
    ||| base == "LPT1"@
    ||| base == "LPT2"@
    ||| base == "LPT3"@
    ||| base == "LPT4"@
    ||| base == "LPT5"@
    ||| base == "LPT6"@
    ||| base == "LPT7"@
    ||| base == "LPT8"@
    ||| base == "LPT9"@
}

/// Whether Windows reserves the name: its part before the first dot is a
/// device name, in any ASCII case.
pub open spec fn is_reserved_name(name: Seq<char>) -> bool {
    is_reserved_device(before_first_dot(name).map_values(|c: char| ascii_upper(c)))
}

/// The first problem of a directory name, in the order of the checks.
pub open spec fn directory_name_problem(name: Seq<char>) -> Option<ScaffoldError> {
    if name.len() == 0 {
        Some(ScaffoldError::EmptyDirectoryName)
    } else if name != trim(name) {
        Some(ScaffoldError::SurroundingWhitespace)
    } else if name.last() == '.' {
        Some(ScaffoldError::TrailingDot)
    } else if has_control(name) {
        Some(ScaffoldError::ControlCharacterInName)
    } else if has_forbidden(name) {
        Some(ScaffoldError::ForbiddenCharacter)
    } else if utf16_len(name) > 255 {
        Some(ScaffoldError::NameTooLong)
    } else if !is_single_normal_component(name) {
        Some(ScaffoldError::NotSingleComponent)
    } else if name == "."@ || name == ".."@ {
        Some(ScaffoldError::DotName)
    } else if is_reserved_name(name) {
        Some(ScaffoldError::ReservedName { name: arbitrary() })
    } else {
        None
    }
}

/// The first problem of a title, in the order of the checks.
pub open spec fn title_problem(title: Option<String>) -> Option<ScaffoldError> {
    match title {
        None => None,
        Some(t) => if is_blank(t@) {
            Some(ScaffoldError::EmptyTitle)
        } else if has_control(t@) {
            Some(ScaffoldError::ControlCharacterInTitle)
        } else {
            None
        },
    }
}

/// Whether Windows forbids `c` in file names.
fn is_invalid_windows_character(c: char) -> (r: bool)
    ensures
        r == is_forbidden_on_windows(c),
{
    c == '<' || c == '>' || c == ':' || c == '"' || c == '/' || c == '\\' || c == '|' || c == '?'
        || c == '*'
}

fn contains_forbidden(v: &Vec<char>) -> (r: bool)
    ensures
        r == has_forbidden(v@),
{
    let mut i: usize = 0;
    while i < v.len()
        invariant
            i <= v@.len(),
            forall|k: int| 0 <= k < i ==> !is_forbidden_on_windows(#[trigger] v@[k]),
        decreases v@.len() - i,
    {
        if is_invalid_windows_character(v[i]) {
            return true;
        }
        i += 1;
    }
    false
}

fn utf16_count(v: &Vec<char>) -> (r: u64)
    requires
        v@.len() < 0x1000_0000,
    ensures
        r == utf16_len(v@),
{
    let mut total: u64 = 0;
    let mut i: usize = 0;
    while i < v.len()
        invariant
            i <= v@.len(),
            v@.len() < 0x1000_0000,
            total == utf16_len(v@.take(i as int)),
            total <= 2 * i,
        decreases v@.len() - i,
    {
        assert(v@.take(i + 1).drop_last() == v@.take(i as int));
        assert(v@.take(i + 1).last() == v@[i as int]);
        if (v[i] as u32) >= 0x10000 {
            total = total + 2;
        } else {
            total = total + 1;
        }
        i += 1;
    }
    assert(v@.take(v@.len() as int) == v@);
    total
}

proof fn lemma_utf16_len_bounds(s: Seq<char>)
    ensures
        s.len() <= utf16_len(s) <= 2 * s.len(),
    decreases s.len(),
{
    if s.len() > 0 {
        lemma_utf16_len_bounds(s.drop_last());
    }
}

fn prefix_before_dot(v: &Vec<char>) -> (r: Vec<char>)
    ensures
        r@ == before_first_dot(v@),
{
    let mut r: Vec<char> = Vec::new();
    let mut i: usize = 0;
    assert(v@.skip(0) =~= v@);
    assert(r@ + before_first_dot(v@) =~= before_first_dot(v@));
    while i < v.len() && v[i] != '.'
        invariant
            i <= v@.len(),
            forall|k: int| 0 <= k < i ==> v@[k] != '.',
            before_first_dot(v@) == r@ + before_first_dot(v@.skip(i as int)),
        decreases v@.len() - i,
    {
        let ghost rest = v@.skip(i as int);
        assert(rest[0] == v@[i as int]);
        assert(rest.drop_first() =~= v@.skip(i + 1));
        let ghost prev = r@;
        r.push(v[i]);
        assert(prev + (seq![v@[i as int]] + before_first_dot(v@.skip(i + 1))) =~= r@
            + before_first_dot(v@.skip(i + 1)));
        i += 1;
    }
    let ghost rest = v@.skip(i as int);
    if i < v.len() {
        assert(rest[0] == '.');
    }
    assert(before_first_dot(rest).len() == 0);
    assert(r@ + before_first_dot(rest) =~= r@);
    r
}

fn chars_is(v: &Vec<char>, lit: &str) -> (r: bool)
    ensures
        r == (v@ == lit@),
{
    let w = chars_of(lit);
    chars_equal(v, &w)
}

/// Whether Windows reserves `name`.
fn is_reserved_windows_name(name: &str) -> (r: bool)
    ensures
        r == is_reserved_name(name@),
{
    let v = chars_of(name);
    let prefix = prefix_before_dot(&v);
    let base = ascii_uppercase(&prefix);
    chars_is(&base, "CON") || chars_is(&base, "PRN") || chars_is(&base, "AUX") || chars_is(&base, "NUL")
        || chars_is(&base, "COM1") || chars_is(&base, "COM2") || chars_is(&base, "COM3") || chars_is(
        &base,
        "COM4",
    ) || chars_is(&base, "COM5") || chars_is(&base, "COM6") || chars_is(&base, "COM7") || chars_is(
        &base,
        "COM8",
    ) || chars_is(&base, "COM9") || chars_is(&base, "LPT1") || chars_is(&base, "LPT2") || chars_is(
        &base,
        "LPT3",
    ) || chars_is(&base, "LPT4") || chars_is(&base, "LPT5") || chars_is(&base, "LPT6") || chars_is(
        &base,
        "LPT7",
    ) || chars_is(&base, "LPT8") || chars_is(&base, "LPT9")
}

/// Checks the name of a new rule directory.
pub fn validate_directory_name(name: &str) -> (r: Result<(), ScaffoldError>)
    ensures
        directory_name_problem(name@) is None ==> r is Ok,
        directory_name_problem(name@) matches Some(e) ==> (r matches Err(f) && (match e {
            ScaffoldError::ReservedName { .. } => f matches ScaffoldError::ReservedName { name: n }
                && n@ == name@,
            _ => f == e,
        })),
{
    let v = chars_of(name);
    if v.len() == 0 {
        return Err(ScaffoldError::EmptyDirectoryName);
    }
    let t = trim_chars(&v);
    if !chars_equal(&v, &t) {
        return Err(ScaffoldError::SurroundingWhitespace);
    }
    if v[v.len() - 1] == '.' {
        return Err(ScaffoldError::TrailingDot);
    }
    if contains_control(&v) {
        return Err(ScaffoldError::ControlCharacterInName);
    }
    if contains_forbidden(&v) {
        return Err(ScaffoldError::ForbiddenCharacter);
    }
    if v.len() > 255 {
        proof {
            lemma_utf16_len_bounds(v@);
        }
        return Err(ScaffoldError::NameTooLong);
    }
    let units = utf16_count(&v);
    if units > 255 {
        return Err(ScaffoldError::NameTooLong);
    }
    if contains_char(&v, '/') || chars_is(&v, ".") || chars_is(&v, "..") {
        return Err(ScaffoldError::NotSingleComponent);
    }
    if is_reserved_windows_name(name) {
        return Err(ScaffoldError::ReservedName { name: owned(name) });
    }
    Ok(())
}

/// Checks the title of a new rule, if given.
pub fn validate_title(title: Option<&str>) -> (r: Result<(), ScaffoldError>)
    ensures
        title matches Some(t) ==> (if is_blank(t@) {
            r matches Err(ScaffoldError::EmptyTitle)
        } else if has_control(t@) {
            r matches Err(ScaffoldError::ControlCharacterInTitle)
        } else {
            r is Ok
        }),
        title is None ==> r is Ok,
{
    let t = match title {
        None => {
            return Ok(());
        },
        Some(t) => t,
    };
    if str_is_blank(t) {
        return Err(ScaffoldError::EmptyTitle);
    }
    let v = chars_of(t);
    if contains_control(&v) {
        return Err(ScaffoldError::ControlCharacterInTitle);
    }
    Ok(())
}

/// Checks that the rules root exists and is a directory.
pub fn validate_rules_root(rules_root: &str, facts: PathFacts) -> (r: Result<(), ScaffoldError>)
    ensures
        !facts.root_exists ==> (r matches Err(ScaffoldError::RulesRootMissing { path }) && path@
            == rules_root@),
        facts.root_exists && !facts.root_is_dir ==> (r matches Err(
            ScaffoldError::RulesRootNotDirectory { path },
        ) && path@ == rules_root@),
        facts.root_exists && facts.root_is_dir ==> r is Ok,
{
    if !facts.root_exists {
        return Err(ScaffoldError::RulesRootMissing { path: owned(rules_root) });
    }
    if !facts.root_is_dir {
        return Err(ScaffoldError::RulesRootNotDirectory { path: owned(rules_root) });
    }
    Ok(())
}

/// The spec's own problem, after the rules root and before the target: the
/// directory name, the title, the CWE number, the severity.
pub open spec fn spec_problem(spec: RuleScaffoldSpec) -> Option<ScaffoldError> {
    if directory_name_problem(spec.dir_name@) is Some {
        directory_name_problem(spec.dir_name@)
    } else if title_problem(spec.title) is Some {
        title_problem(spec.title)
    } else if spec.cwe == Some(0u32) {
        Some(ScaffoldError::ZeroCwe)
    } else if !(0 <= spec.severity <= 3) {
        Some(ScaffoldError::SeverityOutOfRange)
    } else {
        None
    }
}

/// Whether `f` reports the problem `e` of a spec whose directory name is
/// `name` (a reserved name is reported with the name itself).
pub open spec fn reports(e: ScaffoldError, f: ScaffoldError, name: Seq<char>) -> bool {
    match e {
        ScaffoldError::ReservedName { .. } => f matches ScaffoldError::ReservedName { name: n } && n@
            == name,
        _ => f == e,
    }
}

/// What checking `spec` against the file system facts gives: the first
/// problem, in the order rules root, directory name, title, CWE number,
/// severity, existing target; else the directory to create.
pub open spec fn validation_outcome(
    spec: RuleScaffoldSpec,
    facts: PathFacts,
    r: Result<String, ScaffoldError>,
) -> bool {
    if !facts.root_exists {
        r matches Err(ScaffoldError::RulesRootMissing { path }) && path@ == spec.rules_root@
    } else if !facts.root_is_dir {
        r matches Err(ScaffoldError::RulesRootNotDirectory { path }) && path@ == spec.rules_root@
    } else if spec_problem(spec) is Some {
        r matches Err(f) && reports(spec_problem(spec)->0, f, spec.dir_name@)
    } else if facts.target_exists {
        r matches Err(ScaffoldError::TargetExists { path }) && path@ == joined_path(
            spec.rules_root@,
            spec.dir_name@,
        )
    } else {
        r matches Ok(target) && target@ == joined_path(spec.rules_root@, spec.dir_name@)
    }
}

/// Checks, just before the generated directory is moved into place, that
/// nothing has appeared at `target` meanwhile.
pub fn ensure_target_absent(target: &str, target_exists: bool) -> (r: Result<(), ScaffoldError>)
    ensures
        target_exists ==> (r matches Err(ScaffoldError::TargetAppeared { path }) && path@
            == target@),
        !target_exists ==> r is Ok,
{
    if target_exists {
        return Err(ScaffoldError::TargetAppeared { path: owned(target) });
    }
    Ok(())
}

/// Checks a new rule's parameters against the file system facts and gives
/// the directory to create.
pub fn validate_spec(spec: &RuleScaffoldSpec, facts: PathFacts) -> (r: Result<String, ScaffoldError>)
    ensures
        validation_outcome(*spec, facts, r),
{
    validate_rules_root(spec.rules_root.as_str(), facts)?;
    validate_directory_name(spec.dir_name.as_str())?;
    let title = match &spec.title {
        Some(t) => Some(t.as_str()),
        None => None,
    };
    validate_title(title)?;
    if let Some(cwe) = spec.cwe {
        if cwe == 0 {
            return Err(ScaffoldError::ZeroCwe);
        }
    }
    if !(0 <= spec.severity && spec.severity <= 3) {
        return Err(ScaffoldError::SeverityOutOfRange);
    }
    let target = spec.target_path();
    if facts.target_exists {
        return Err(ScaffoldError::TargetExists { path: target });
    }
    Ok(target)
}

/// The message that reports a scaffold error.
pub open spec fn scaffold_error_message(e: ScaffoldError) -> Seq<char> {
    match e {
        ScaffoldError::RulesRootMissing { path } => "rules root does not exist: "@ + path@,
        ScaffoldError::RulesRootNotDirectory { path } => "rules root is not a directory: "@ + path@,
        ScaffoldError::EmptyDirectoryName => "directory name cannot be empty"@,
        ScaffoldError::SurroundingWhitespace =>
            "directory name must not contain leading or trailing whitespace"@,
        ScaffoldError::TrailingDot => "directory name must not end with a dot"@,
        ScaffoldError::ControlCharacterInName => "directory name must not contain control characters"@,
        ScaffoldError::ForbiddenCharacter => "directory name contains a character forbidden on Windows"@,
        ScaffoldError::NameTooLong => "directory name is too long"@,
        ScaffoldError::NotSingleComponent => "directory name must be a single relative path component"@,
        ScaffoldError::DotName => "directory name cannot be `.` or `..`"@,
        ScaffoldError::ReservedName { name } => "directory name is reserved on Windows: "@ + name@,
        ScaffoldError::EmptyTitle => "title cannot be empty"@,
        ScaffoldError::ControlCharacterInTitle => "title must not contain control characters"@,
        ScaffoldError::ZeroCwe => "CWE number must be greater than zero"@,
        ScaffoldError::SeverityOutOfRange => "severity must be between 0 and 3"@,
        ScaffoldError::TargetExists { path } => "target directory already exists: "@ + path@,
        ScaffoldError::TargetAppeared { path } => "target directory appeared during generation: "@
            + path@,
        ScaffoldError::StagingFailed { parent, cause } => "failed to create temporary directory in "@
            + parent@ + ": "@ + cause@,
        ScaffoldError::StagingExhausted { parent } => "failed to allocate a temporary directory in "@
            + parent@,
    }
}

impl ScaffoldError {
    /// The message that reports this error.
    pub fn message(&self) -> (r: String)
        ensures
            r@ == scaffold_error_message(*self),
    {
        match self {
            ScaffoldError::RulesRootMissing { path } => {
                let mut s = owned("rules root does not exist: ");
                s.append(path.as_str());
                s
            },
            ScaffoldError::RulesRootNotDirectory { path } => {
                let mut s = owned("rules root is not a directory: ");
                s.append(path.as_str());
                s
            },
            ScaffoldError::EmptyDirectoryName => owned("directory name cannot be empty"),
            ScaffoldError::SurroundingWhitespace => owned(
                "directory name must not contain leading or trailing whitespace",
            ),
            ScaffoldError::TrailingDot => owned("directory name must not end with a dot"),
            ScaffoldError::ControlCharacterInName => owned(
                "directory name must not contain control characters",
            ),
            ScaffoldError::ForbiddenCharacter => owned(
                "directory name contains a character forbidden on Windows",
            ),
            ScaffoldError::NameTooLong => owned("directory name is too long"),
            ScaffoldError::NotSingleComponent => owned(
                "directory name must be a single relative path component",
            ),
            ScaffoldError::DotName => owned("directory name cannot be `.` or `..`"),
            ScaffoldError::ReservedName { name } => {
                let mut s = owned("directory name is reserved on Windows: ");
                s.append(name.as_str());
                s
            },
            ScaffoldError::EmptyTitle => owned("title cannot be empty"),
            ScaffoldError::ControlCharacterInTitle => owned("title must not contain control characters"),
            ScaffoldError::ZeroCwe => owned("CWE number must be greater than zero"),
            ScaffoldError::SeverityOutOfRange => owned("severity must be between 0 and 3"),
            ScaffoldError::TargetExists { path } => {
                let mut s = owned("target directory already exists: ");
                s.append(path.as_str());
                s
            },
            ScaffoldError::TargetAppeared { path } => {
                let mut s = owned("target directory appeared during generation: ");
                s.append(path.as_str());
                s
            },
            ScaffoldError::StagingFailed { parent, cause } => {
                let mut s = owned("failed to create temporary directory in ");
                s.append(parent.as_str());
                s.append(": ");
                s.append(cause.as_str());
                s
            },
            ScaffoldError::StagingExhausted { parent } => {
                let mut s = owned("failed to allocate a temporary directory in ");
                s.append(parent.as_str());
                s
            },
        }
    }
}

} // verus!
