//! The layout of a new rule directory: its subdirectories and files.

use vstd::prelude::*;

use crate::scaffold::model::{RuleScaffoldSpec, ScaffoldResult};
use crate::scaffold::validation::{validate_spec, validation_outcome, PathFacts, ScaffoldError};
use crate::scaffold::templates::{
    build_script, build_script_text, pattern_catalog, pattern_catalog_text, patterns_manifest,
    patterns_manifest_text, readme, readme_text, rule_metadata, rule_metadata_text,
};
use crate::text::{owned, push_digits, views};

verus! {

broadcast use vstd::string::group_string_axioms;

/// One file of a new rule directory.
#[derive(Debug)]
pub struct ScaffoldFile {
    /// Path relative to the rule directory.
    pub relative_path: String,
    /// Text of the file.
    pub content: String,
    /// Whether the file is made executable.
    pub executable: bool,
}

/// The subdirectories of a new rule directory, parents first.
pub open spec fn scaffold_directory_list() -> Seq<Seq<char>> {
    seq!["docs"@, "rule"@, "rule/patterns"@, "tests"@, "tests/include"@, "tests/src"@]
}

/// The subdirectories of a new rule directory, parents first.
pub fn scaffold_directories() -> (r: Vec<String>)
    ensures
        crate::text::views(r@) == scaffold_directory_list(),
{
    let mut r: Vec<String> = Vec::new();
    r.push(owned("docs"));
    r.push(owned("rule"));
    r.push(owned("rule/patterns"));
    r.push(owned("tests"));
    r.push(owned("tests/include"));
    r.push(owned("tests/src"));
    assert(crate::text::views(r@) =~= scaffold_directory_list());
    r
}

/// Whether `f` is the file at `path` with `content`, executable or not.
pub open spec fn file_is(f: ScaffoldFile, path: Seq<char>, content: Seq<char>, executable: bool) -> bool {
    f.relative_path@ == path && f.content@ == content && f.executable == executable
}

/// Whether `files` are the files of a new rule directory for `spec`, in
/// creation order: the documents, the manifest, the test build script
/// (executable) and two empty placeholders.
pub open spec fn files_for(files: Seq<ScaffoldFile>, spec: RuleScaffoldSpec) -> bool {
    &&& files.len() == 7
    &&& file_is(files[0], "README.md"@, readme_text(spec), false)
    &&& file_is(files[1], "docs/pattern-catalog.md"@, pattern_catalog_text(spec), false)
    &&& file_is(files[2], "rule/rule-metadata.md"@, rule_metadata_text(spec), false)
    &&& file_is(files[3], "rule/patterns/patterns.yaml"@, patterns_manifest_text(spec), false)
    &&& file_is(files[4], "tests/build.sh"@, build_script_text(), true)
    &&& file_is(files[5], "tests/include/.gitkeep"@, ""@, false)
    &&& file_is(files[6], "tests/src/.gitkeep"@, ""@, false)
}

/// The files of a new rule directory, in creation order: the documents, the
/// manifest, the test build script (executable) and two empty placeholders.
pub fn scaffold_files(spec: &RuleScaffoldSpec) -> (r: Vec<ScaffoldFile>)
    ensures
        files_for(r@, *spec),
{
    let mut r: Vec<ScaffoldFile> = Vec::new();
    r.push(ScaffoldFile { relative_path: owned("README.md"), content: readme(spec), executable: false });
    r.push(
        ScaffoldFile {
            relative_path: owned("docs/pattern-catalog.md"),
            content: pattern_catalog(spec),
            executable: false,
        },
    );
    r.push(
        ScaffoldFile {
            relative_path: owned("rule/rule-metadata.md"),
            content: rule_metadata(spec),
            executable: false,
        },
    );
    r.push(
        ScaffoldFile {
            relative_path: owned("rule/patterns/patterns.yaml"),
            content: patterns_manifest(spec),
            executable: false,
        },
    );
    r.push(
        ScaffoldFile {
            relative_path: owned("tests/build.sh"),
            content: owned(build_script()),
            executable: true,
        },
    );
    r.push(
        ScaffoldFile {
            relative_path: owned("tests/include/.gitkeep"),
            content: owned(""),
            executable: false,
        },
    );
    r.push(
        ScaffoldFile {
            relative_path: owned("tests/src/.gitkeep"),
            content: owned(""),
            executable: false,
        },
    );
    r
}

/// Everything a new rule directory is made of.
#[derive(Debug)]
pub struct ScaffoldLayout {
    /// The directory to create.
    pub target: String,
    /// Its subdirectories, parents first.
    pub directories: Vec<String>,
    /// Its files, in creation order.
    pub files: Vec<ScaffoldFile>,
}

/// The paths of `files`, in order.
pub open spec fn file_paths(files: Seq<ScaffoldFile>) -> Seq<Seq<char>> {
    files.map_values(|f: ScaffoldFile| f.relative_path@)
}

impl ScaffoldLayout {
    /// The report of a created layout: its directory and its files.
    pub fn result(&self) -> (r: ScaffoldResult)
        ensures
            r.target@ == self.target@,
            views(r.files@) == file_paths(self.files@),
    {
        let mut files: Vec<String> = Vec::new();
        let mut i: usize = 0;
        while i < self.files.len()
            invariant
                i <= self.files@.len(),
                views(files@) == file_paths(self.files@.take(i as int)),
            decreases self.files@.len() - i,
        {
            let path = self.files[i].relative_path.clone();
            let ghost prev = files@;
            files.push(path);
            assert(views(files@) =~= views(prev).push(path@));
            assert(self.files@.take(i + 1) =~= self.files@.take(i as int).push(self.files@[i as int]));
            assert(file_paths(self.files@.take(i + 1)) =~= file_paths(self.files@.take(i as int)).push(
                self.files@[i as int].relative_path@,
            ));
            i += 1;
        }
        assert(self.files@.take(self.files@.len() as int) =~= self.files@);
        ScaffoldResult { target: self.target.clone(), files }
    }
}

/// The target of a layout result, or its error.
pub open spec fn layout_target(r: Result<ScaffoldLayout, ScaffoldError>) -> Result<String, ScaffoldError> {
    match r {
        Ok(layout) => Ok(layout.target),
        Err(e) => Err(e),
    }
}

/// Plans a new rule directory: checks `spec` against the file system facts,
/// then lays out the directory, its subdirectories and its files.
pub fn create_rule_scaffold(spec: &RuleScaffoldSpec, facts: PathFacts) -> (r: Result<
    ScaffoldLayout,
    ScaffoldError,
>)
    ensures
        validation_outcome(*spec, facts, layout_target(r)),
        r matches Ok(layout) ==> views(layout.directories@) == scaffold_directory_list() && files_for(
            layout.files@,
            *spec,
        ),
{
    let target = match validate_spec(spec, facts) {
        Ok(target) => target,
        Err(e) => {
            return Err(e);
        },
    };
    let directories = scaffold_directories();
    let files = scaffold_files(spec);
    Ok(ScaffoldLayout { target, directories, files })
}

/// The name of the staging directory that a rule directory named
/// `target_name` is generated in before it is moved into place:
/// `.{target_name}.tmp-{process_id}-{attempt}`.
pub fn staging_directory_name(target_name: &str, process_id: u32, attempt: u32) -> (r: String)
    ensures
        r@ == staging_name(target_name@, process_id, attempt),
{
    let mut r = owned(".");
    r.append(target_name);
    r.append(".tmp-");
    push_digits(&mut r, process_id as u64);
    r.append("-");
    push_digits(&mut r, attempt as u64);
    r
}

/// How many staging directory names are tried before giving up.
pub const MAX_STAGING_ATTEMPTS: u32 = 1000;

/// What creating one staging directory gave.
#[derive(Debug)]
pub enum CreateOutcome {
    /// The directory was created.
    Created,
    /// Something with that name already exists.
    AlreadyExists,
    /// Creating it failed otherwise; the text is the system's message.
    Failed { cause: String },
}

/// What to do next while allocating a staging directory.
#[derive(Debug)]
pub enum StagingAction {
    /// Try to create the directory `name` (attempt number `attempt`).
    Create { attempt: u32, name: String },
    /// Generate the rule directory in `name`.
    Use { name: String },
    /// Give up with this error.
    Fail(ScaffoldError),
}

/// The name tried at `attempt`.
pub open spec fn staging_name(target_name: Seq<char>, process_id: u32, attempt: u32) -> Seq<char> {
    "."@ + target_name + ".tmp-"@ + crate::text::digits(process_id as nat) + "-"@
        + crate::text::digits(attempt as nat)
}

/// The first step of allocating a staging directory in `parent` for a rule
/// directory named `target_name`: try the first name.
pub fn first_staging_action(target_name: &str, process_id: u32) -> (r: StagingAction)
    ensures
        r matches StagingAction::Create { attempt, name } && attempt == 0 && name@ == staging_name(
            target_name@,
            process_id,
            0,
        ),
{
    StagingAction::Create { attempt: 0, name: staging_directory_name(target_name, process_id, 0) }
}

/// The next step after trying the name of `attempt` in `parent` gave
/// `outcome`: use the directory once created; on a name already taken, try
/// the next name, up to `MAX_STAGING_ATTEMPTS` names in all; give up on any
/// other failure.
pub fn next_staging_action(
    parent: &str,
    target_name: &str,
    process_id: u32,
    attempt: u32,
    outcome: CreateOutcome,
) -> (r: StagingAction)
    ensures
        outcome is Created ==> (r matches StagingAction::Use { name } && name@ == staging_name(
            target_name@,
            process_id,
            attempt,
        )),
        outcome is AlreadyExists && attempt + 1 < MAX_STAGING_ATTEMPTS ==> (r matches StagingAction::Create {
            attempt: next,
            name,
        } && next == attempt + 1 && name@ == staging_name(target_name@, process_id, next)),
        outcome is AlreadyExists && attempt + 1 >= MAX_STAGING_ATTEMPTS ==> (r matches StagingAction::Fail(
            ScaffoldError::StagingExhausted { parent: p },
        ) && p@ == parent@),
        outcome matches CreateOutcome::Failed { cause } ==> (r matches StagingAction::Fail(
            ScaffoldError::StagingFailed { parent: p, cause: c },
        ) && p@ == parent@ && c == cause),
        r matches StagingAction::Create { attempt: next, .. } ==> next < MAX_STAGING_ATTEMPTS,
{
    match outcome {
        CreateOutcome::Created => StagingAction::Use {
            name: staging_directory_name(target_name, process_id, attempt),
        },
        CreateOutcome::AlreadyExists => {
            if attempt < MAX_STAGING_ATTEMPTS - 1 {
                StagingAction::Create {
                    attempt: attempt + 1,
                    name: staging_directory_name(target_name, process_id, attempt + 1),
                }
            } else {
                StagingAction::Fail(ScaffoldError::StagingExhausted { parent: owned(parent) })
            }
        },
        CreateOutcome::Failed { cause } => StagingAction::Fail(
            ScaffoldError::StagingFailed { parent: owned(parent), cause },
        ),
    }
}

} // verus!
