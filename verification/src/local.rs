//! Local pattern files: which directory entries are patterns, and how the
//! patterns of a directory are loaded.

use vstd::prelude::*;

use crate::config::{
    entry_keys, lemma_lookup_some, lookup, has_key, resolution, settings_problem, unused_keys, ConfigError, Manifest, PatternSettings,
};
use crate::scaffold::model::{join_path, joined_path};
use crate::sync::planner::{first_local_problem, lemma_no_local_problem, local_problem};
use crate::text::{
    chars_less, lemma_text_less_irreflexive, lemma_text_less_transitive, text_less,
    ascii_lower, char_ascii_lower, chars_of, is_blank, lowercase, owned, str_is_blank, string_from_chars,
    to_lowercase, views,
};
use crate::xml::{
    normalize_xml, normalized, stream_verdict, validate_xml_fragment, wrapped_fragment, xml_digest,
    xml_events, xml_sha256, XmlError,
};

verus! {

broadcast use vstd::string::group_string_axioms;

// ---------------------------------------------------------------------------
// File names
// ---------------------------------------------------------------------------

/// Index of the last `.` of `name` at or before `end` (exclusive), if any.
pub open spec fn last_dot_before(name: Seq<char>, end: int) -> Option<int>
    decreases end,
{
    if end <= 0 {
        None
    } else if name[end - 1] == '.' {
        Some(end - 1)
    } else {
        last_dot_before(name, end - 1)
    }
}

/// Index of the dot that starts the extension of a file name, as `Path`
/// splits it: the last dot, unless there is none or it opens the name.
pub open spec fn extension_dot(name: Seq<char>) -> Option<int> {
    match last_dot_before(name, name.len() as int) {
        Some(i) => if i == 0 {
            None
        } else {
            Some(i)
        },
        None => None,
    }
}

/// The extension of a file name (`Path::extension`).
pub open spec fn extension_of(name: Seq<char>) -> Option<Seq<char>> {
    match extension_dot(name) {
        Some(i) => Some(name.subrange(i + 1, name.len() as int)),
        None => None,
    }
}

/// The stem of a file name (`Path::file_stem`).
pub open spec fn stem_of(name: Seq<char>) -> Seq<char> {
    match extension_dot(name) {
        Some(i) => name.subrange(0, i),
        None => name,
    }
}

/// Whether a file name has the extension `xml`, in any ASCII case.
pub open spec fn has_xml_extension(name: Seq<char>) -> bool {
    match extension_of(name) {
        Some(e) => e.map_values(|c: char| ascii_lower(c)) == "xml"@,
        None => false,
    }
}

fn find_extension_dot(name: &Vec<char>) -> (r: Option<usize>)
    ensures
        r matches Some(i) ==> extension_dot(name@) == Some(i as int) && 1 <= i < name@.len()
            && name@[i as int] == '.',
        r is None ==> extension_dot(name@) is None,
{
    let mut end: usize = name.len();
    while end > 0 && name[end - 1] != '.'
        invariant
            end <= name@.len(),
            last_dot_before(name@, name@.len() as int) == last_dot_before(name@, end as int),
        decreases end,
    {
        end -= 1;
    }
    if end == 0 || end == 1 {
        None
    } else {
        Some(end - 1)
    }
}

/// Whether a file name has the extension `xml`, in any ASCII case.
pub fn is_xml_file(file_name: &str) -> (r: bool)
    ensures
        r == has_xml_extension(file_name@),
{
    let name = chars_of(file_name);
    match find_extension_dot(&name) {
        None => false,
        Some(i) => {
            let ghost ext = name@.subrange(i + 1, name@.len() as int);
            proof {
                reveal_strlit("xml");
            }
            if name.len() - (i + 1) != 3 {
                assert(ext.map_values(|c: char| ascii_lower(c)).len() != "xml"@.len());
                return false;
            }
            let a = char_ascii_lower(name[i + 1]);
            let b = char_ascii_lower(name[i + 2]);
            let c = char_ascii_lower(name[i + 3]);
            let ghost lowered = ext.map_values(|c: char| ascii_lower(c));
            assert(lowered[0] == a && lowered[1] == b && lowered[2] == c);
            proof {
                reveal_strlit("xml");
            }
            if a == 'x' && b == 'm' && c == 'l' {
                assert(lowered =~= "xml"@);
                true
            } else {
                false
            }
        },
    }
}

/// The stem of a file name: the name without its extension.
pub fn file_stem(file_name: &str) -> (r: String)
    ensures
        r@ == stem_of(file_name@),
{
    let name = chars_of(file_name);
    match find_extension_dot(&name) {
        None => owned(file_name),
        Some(i) => {
            let mut v: Vec<char> = Vec::new();
            let mut k: usize = 0;
            while k < i
                invariant
                    k <= i < name@.len(),
                    v@ == name@.subrange(0, k as int),
                decreases i - k,
            {
                v.push(name[k]);
                assert(name@.subrange(0, k + 1) == name@.subrange(0, k as int).push(name@[k as int]));
                k += 1;
            }
            string_from_chars(&v)
        },
    }
}

// ---------------------------------------------------------------------------
// Loaded patterns
// ---------------------------------------------------------------------------

/// A pattern read from the local directory.
#[derive(Debug)]
pub struct LocalPattern {
    /// Path of the file it was read from.
    pub source_path: String,
    /// File name, with extension.
    pub file_name: String,
    /// Name under which the pattern is registered.
    pub name: String,
    /// Normalised XML text.
    pub xml: String,
    /// Hash of the normalised XML text.
    pub xml_hash: String,
    /// Settings resolved from the manifest.
    pub settings: PatternSettings,
}

/// An XML file of the pattern directory, as read from disk.
#[derive(Debug)]
pub struct PatternFile {
    /// Path of the file, for messages.
    pub path: String,
    /// File name (with invalid UTF-8 replaced, see `name_is_utf8`).
    pub file_name: String,
    /// Whether the file name is valid UTF-8.
    pub name_is_utf8: bool,
    /// The file's text, or why it could not be read as UTF-8.
    pub content: Result<String, String>,
}

/// Why a pattern directory could not be loaded.
#[derive(Debug)]
pub enum LoadError {
    /// A file name that is not valid UTF-8.
    NonUtf8Name { path: String },
    /// The manifest does not fit the files.
    Config(ConfigError),
    /// A pattern whose name is empty or whitespace.
    EmptyName { path: String },
    /// Two patterns whose names differ only in case.
    DuplicateName { name: String },
    /// A file that could not be read as text.
    Unreadable { path: String, cause: String },
    /// A file with nothing but whitespace.
    EmptyFile { path: String },
    /// A file that is not a well-formed XML fragment.
    InvalidXml { path: String, reason: XmlError },
}

/// What goes wrong with one file, in the order the checks run.
#[derive(Debug, Clone, Copy, PartialEq, Eq, Structural)]
pub enum FileFailure {
    NonUtf8Name,
    DuplicateEntry,
    InvalidSettings,
    EmptyName,
    DuplicateName,
    Unreadable,
    EmptyFile,
    InvalidXml,
}

/// The settings a file resolves to.
pub open spec fn file_settings(m: Manifest, f: PatternFile) -> PatternSettings {
    resolution(m@, stem_of(f.file_name@), f.file_name@).0
}

/// The manifest key a file uses, if any.
pub open spec fn file_key(m: Manifest, f: PatternFile) -> Option<Seq<char>> {
    resolution(m@, stem_of(f.file_name@), f.file_name@).1
}

/// The name under which a file's pattern is registered: the configured name,
/// else the file stem.
pub open spec fn chosen_name(m: Manifest, f: PatternFile) -> Seq<char> {
    match file_settings(m, f).name {
        Some(n) => n@,
        None => stem_of(f.file_name@),
    }
}

/// The text of a file, normalised (empty when it could not be read).
pub open spec fn file_xml(f: PatternFile) -> Seq<char> {
    match f.content {
        Ok(c) => normalized(c@),
        Err(_) => seq![],
    }
}

/// The first check a file fails, given the lower-cased names `seen` before it.
pub open spec fn file_failure(m: Manifest, f: PatternFile, seen: Seq<Seq<char>>) -> Option<FileFailure> {
    let stem = stem_of(f.file_name@);
    if !f.name_is_utf8 {
        Some(FileFailure::NonUtf8Name)
    } else if has_key(m@.entries, stem) && has_key(m@.entries, f.file_name@) {
        Some(FileFailure::DuplicateEntry)
    } else if settings_problem(file_settings(m, f)) is Some {
        Some(FileFailure::InvalidSettings)
    } else if is_blank(chosen_name(m, f)) {
        Some(FileFailure::EmptyName)
    } else if seen.contains(lowercase(chosen_name(m, f))) {
        Some(FileFailure::DuplicateName)
    } else if f.content is Err {
        Some(FileFailure::Unreadable)
    } else if file_xml(f).len() == 0 {
        Some(FileFailure::EmptyFile)
    } else if stream_verdict(xml_events(wrapped_fragment(file_xml(f)))) is Err {
        Some(FileFailure::InvalidXml)
    } else {
        None
    }
}

/// The lower-cased names of the first `k` files.
pub open spec fn seen_upto(m: Manifest, files: Seq<PatternFile>, k: int) -> Seq<Seq<char>> {
    Seq::new(k as nat, |i: int| lowercase(chosen_name(m, files[i])))
}

/// The manifest keys used by the first `k` files, in order.
pub open spec fn used_upto(m: Manifest, files: Seq<PatternFile>, k: int) -> Seq<Seq<char>>
    decreases k,
{
    if k <= 0 {
        seq![]
    } else {
        used_upto(m, files, k - 1) + match file_key(m, files[k - 1]) {
            Some(key) => seq![key],
            None => seq![],
        }
    }
}

/// The first file, from index `k` on, that fails a check.
pub open spec fn first_failure_from(m: Manifest, files: Seq<PatternFile>, k: int) -> Option<int>
    decreases files.len() - k,
{
    if k < 0 || k >= files.len() {
        None
    } else if file_failure(m, files[k], seen_upto(m, files, k)) is Some {
        Some(k)
    } else {
        first_failure_from(m, files, k + 1)
    }
}

/// Whether `e` is the error for file `f` failing with `failure`.
pub open spec fn load_error_for(e: LoadError, m: Manifest, f: PatternFile, failure: FileFailure) -> bool {
    let stem = stem_of(f.file_name@);
    match failure {
        FileFailure::NonUtf8Name => e matches LoadError::NonUtf8Name { path } && path@ == f.path@,
        FileFailure::DuplicateEntry => e matches LoadError::Config(
            ConfigError::DuplicateEntry { file_stem, file_name },
        ) && file_stem@ == stem && file_name@ == f.file_name@,
        FileFailure::InvalidSettings => e matches LoadError::Config(
            ConfigError::InvalidSettings { label, problem },
        ) && label@ == f.file_name@ && Some(problem) == settings_problem(file_settings(m, f)),
        FileFailure::EmptyName => e matches LoadError::EmptyName { path } && path@ == f.path@,
        FileFailure::DuplicateName => e matches LoadError::DuplicateName { name } && name@
            == chosen_name(m, f),
        FileFailure::Unreadable => e matches LoadError::Unreadable { path, cause } && path@ == f.path@
            && f.content == Err::<String, String>(cause),
        FileFailure::EmptyFile => e matches LoadError::EmptyFile { path } && path@ == f.path@,
        FileFailure::InvalidXml => e matches LoadError::InvalidXml { path, reason } && path@ == f.path@
            && stream_verdict(xml_events(wrapped_fragment(file_xml(f)))) == Err::<(), XmlError>(reason),
    }
}

/// With no failure from `k` on, no file from `k` on fails a check.
proof fn lemma_no_failure_at(m: Manifest, files: Seq<PatternFile>, k: int, q: int)
    requires
        0 <= k <= q < files.len(),
        first_failure_from(m, files, k) is None,
    ensures
        file_failure(m, files[q], seen_upto(m, files, q)) is None,
    decreases q - k,
{
    if k < q {
        lemma_no_failure_at(m, files, k + 1, q);
    }
}

/// The key used by one of the first `n` files is among the keys they use.
proof fn lemma_used_contains(m: Manifest, files: Seq<PatternFile>, n: int, k: int)
    requires
        0 <= k < n <= files.len(),
        file_key(m, files[k]) is Some,
    ensures
        used_upto(m, files, n).contains(file_key(m, files[k])->0),
    decreases n,
{
    let key = file_key(m, files[k])->0;
    let prev = used_upto(m, files, n - 1);
    let tail = match file_key(m, files[n - 1]) {
        Some(x) => seq![x],
        None => Seq::<Seq<char>>::empty(),
    };
    assert(used_upto(m, files, n) == prev + tail);
    if k < n - 1 {
        lemma_used_contains(m, files, n - 1, k);
        let w = choose|w: int| 0 <= w < prev.len() && prev[w] == key;
        assert((prev + tail)[w] == key);
    } else {
        assert((prev + tail)[prev.len() as int] == key);
    }
}

/// A manifest entry counts as used by a file whose stem or full name is its
/// key, whichever form it is written in.
pub proof fn lemma_entry_naming_file_is_used(m: Manifest, files: Seq<PatternFile>, e: int, k: int)
    requires
        first_failure_from(m, files, 0) is None,
        0 <= e < m@.entries.len(),
        0 <= k < files.len(),
        m@.entries[e].key@ == stem_of(files[k].file_name@) || m@.entries[e].key@ == files[k].file_name@,
    ensures
        file_key(m, files[k]) == Some(m@.entries[e].key@),
        used_upto(m, files, files.len() as int).contains(m@.entries[e].key@),
{
    let f = files[k];
    let stem = stem_of(f.file_name@);
    let key = m@.entries[e].key@;
    lemma_no_failure_at(m, files, 0, k);
    lemma_lookup_some(m@.entries, stem);
    lemma_lookup_some(m@.entries, f.file_name@);
    assert(has_key(m@.entries, key));
    if key == stem {
        assert(lookup(m@.entries, stem) is Some);
    } else {
        assert(key == f.file_name@);
        assert(!has_key(m@.entries, stem));
        assert(lookup(m@.entries, stem) is None);
        assert(lookup(m@.entries, f.file_name@) is Some);
    }
    lemma_used_contains(m, files, files.len() as int, k);
}

/// Loading succeeds when no file fails a check and every manifest entry names
/// some pattern file, by its stem or by its full file name: no entry is
/// reported unused.
pub proof fn lemma_entries_naming_files_load(
    m: Manifest,
    files: Seq<PatternFile>,
    r: Result<Vec<LocalPattern>, LoadError>,
)
    requires
        load_outcome(m, files, r),
        first_failure_from(m, files, 0) is None,
        forall|e: int|
            0 <= e < m@.entries.len() ==> exists|k: int|
                0 <= k < files.len() && (#[trigger] m@.entries[e].key@ == stem_of(files[k].file_name@)
                    || m@.entries[e].key@ == files[k].file_name@),
    ensures
        unused_keys(m@.entries, used_upto(m, files, files.len() as int)).len() == 0,
        r is Ok,
{
    let used = used_upto(m, files, files.len() as int);
    let keys = entry_keys(m@.entries);
    let pred = |x: Seq<char>| !used.contains(x);
    assert forall|i: int| 0 <= i < keys.len() implies !pred(#[trigger] keys[i]) by {
        let k = choose|k: int|
            0 <= k < files.len() && (m@.entries[i].key@ == stem_of(files[k].file_name@)
                || m@.entries[i].key@ == files[k].file_name@);
        lemma_entry_naming_file_is_used(m, files, i, k);
    }
    assert(keys.all(|x: Seq<char>| !pred(x)));
    keys.lemma_all_neg_filter_empty(pred);
    assert(unused_keys(m@.entries, used) == keys.filter(pred));
}

/// Whether `p` is the pattern loaded from file `f`.
pub open spec fn loaded_from(p: LocalPattern, m: Manifest, f: PatternFile) -> bool {
    &&& p.source_path@ == f.path@
    &&& p.file_name@ == f.file_name@
    &&& p.name@ == chosen_name(m, f)
    &&& p.xml@ == file_xml(f)
    &&& p.xml_hash@ == xml_digest(file_xml(f))
    &&& p.settings == file_settings(m, f)
}


fn contains_string(items: &Vec<String>, item: &String) -> (r: bool)
    ensures
        r == views(items@).contains(item@),
{
    let mut i: usize = 0;
    while i < items.len()
        invariant
            i <= items@.len(),
            forall|q: int| 0 <= q < i ==> items@[q]@ != item@,
        decreases items@.len() - i,
    {
        if items[i].eq(item) {
            assert(views(items@)[i as int] == item@);
            return true;
        }
        i += 1;
    }
    assert forall|q: int| 0 <= q < views(items@).len() implies views(items@)[q] != item@ by {
        assert(views(items@)[q] == items@[q]@);
    }
    false
}

/// Loads one pattern file, given the lower-cased names of the patterns loaded
/// before it; also gives the manifest key the file used.
fn load_one(manifest: &Manifest, f: &PatternFile, seen: &Vec<String>) -> (r: Result<
    (LocalPattern, Option<String>),
    LoadError,
>)
    ensures
        file_failure(*manifest, *f, views(seen@)) matches Some(failure) ==> (r matches Err(e)
            && load_error_for(e, *manifest, *f, failure)),
        file_failure(*manifest, *f, views(seen@)) is None ==> (r matches Ok((p, key)) && loaded_from(
            p,
            *manifest,
            *f,
        ) && crate::dto::opt_view(key) == file_key(*manifest, *f)),
{
    if !f.name_is_utf8 {
        return Err(LoadError::NonUtf8Name { path: f.path.clone() });
    }
    let stem = file_stem(f.file_name.as_str());
    let resolved = match manifest.resolve(stem.as_str(), f.file_name.as_str()) {
        Ok(r) => r,
        Err(e) => {
            return Err(LoadError::Config(e));
        },
    };
    let name = match &resolved.settings.name {
        Some(n) => n.clone(),
        None => stem.clone(),
    };
    if str_is_blank(name.as_str()) {
        return Err(LoadError::EmptyName { path: f.path.clone() });
    }
    let lower = to_lowercase(name.as_str());
    if contains_string(seen, &lower) {
        return Err(LoadError::DuplicateName { name });
    }
    let content = match &f.content {
        Ok(c) => c,
        Err(cause) => {
            return Err(LoadError::Unreadable { path: f.path.clone(), cause: cause.clone() });
        },
    };
    let xml = normalize_xml(content.as_str());
    if xml.as_str().is_empty() {
        return Err(LoadError::EmptyFile { path: f.path.clone() });
    }
    match validate_xml_fragment(xml.as_str()) {
        Ok(()) => {},
        Err(reason) => {
            return Err(LoadError::InvalidXml { path: f.path.clone(), reason });
        },
    }
    let xml_hash = xml_sha256(xml.as_str());
    let pattern = LocalPattern {
        source_path: f.path.clone(),
        file_name: f.file_name.clone(),
        name,
        xml,
        xml_hash,
        settings: resolved.settings,
    };
    Ok((pattern, resolved.manifest_key))
}

/// What loading `files` (in that order) under `m` gives: the error of the
/// first file that fails a check; else the error naming the manifest entries
/// that no file used; else one pattern per file, in order.
pub open spec fn load_outcome(
    m: Manifest,
    files: Seq<PatternFile>,
    r: Result<Vec<LocalPattern>, LoadError>,
) -> bool {
    &&& first_failure_from(m, files, 0) matches Some(k) ==> (r matches Err(e) && load_error_for(
        e,
        m,
        files[k],
        file_failure(m, files[k], seen_upto(m, files, k)).unwrap(),
    ))
    &&& first_failure_from(m, files, 0) is None && unused_keys(
        m@.entries,
        used_upto(m, files, files.len() as int),
    ).len() > 0 ==> (r matches Err(LoadError::Config(ConfigError::UnusedEntries { keys })) && views(
        keys@,
    ) == unused_keys(m@.entries, used_upto(m, files, files.len() as int)))
    &&& first_failure_from(m, files, 0) is None && unused_keys(
        m@.entries,
        used_upto(m, files, files.len() as int),
    ).len() == 0 ==> (r matches Ok(patterns) && patterns@.len() == files.len() && (forall|k: int|
        0 <= k < files.len() ==> loaded_from(#[trigger] patterns@[k], m, files[k])))
}

/// Whether the names of `patterns` differ pairwise, ignoring case.
pub open spec fn names_distinct(patterns: Seq<LocalPattern>) -> bool {
    forall|a: int, b: int|
        0 <= a < b < patterns.len() ==> lowercase(#[trigger] patterns[a].name@) != lowercase(
            #[trigger] patterns[b].name@,
        )
}

/// Loads patterns from XML files, in the order given: resolves each file's
/// settings from the manifest, checks names and XML, and finally checks that
/// every manifest entry matched a file.
pub fn load_pattern_files(manifest: &Manifest, files: &Vec<PatternFile>) -> (r: Result<
    Vec<LocalPattern>,
    LoadError,
>)
    ensures
        load_outcome(*manifest, files@, r),
        r matches Ok(patterns) ==> names_distinct(patterns@),
        r matches Ok(patterns) ==> first_local_problem(patterns@) is None,
{
    let ghost m = *manifest;
    let ghost fs = files@;
    let mut patterns: Vec<LocalPattern> = Vec::new();
    let mut seen: Vec<String> = Vec::new();
    let mut used: Vec<String> = Vec::new();
    let n = files.len();
    let mut k: usize = 0;
    assert(views(seen@) =~= seen_upto(m, fs, 0));
    assert(views(used@) =~= used_upto(m, fs, 0));
    while k < n
        invariant
            k <= n,
            n == fs.len(),
            m == *manifest,
            fs == files@,
            first_failure_from(m, fs, 0) == first_failure_from(m, fs, k as int),
            patterns@.len() == k,
            forall|q: int| 0 <= q < k ==> loaded_from(#[trigger] patterns@[q], m, fs[q]),
            forall|q: int| 0 <= q < k ==> local_problem(#[trigger] patterns@[q]) is None,
            views(seen@) == seen_upto(m, fs, k as int),
            views(used@) == used_upto(m, fs, k as int),
            forall|a: int, b: int|
                0 <= a < b < k ==> lowercase(#[trigger] patterns@[a].name@) != lowercase(
                    #[trigger] patterns@[b].name@,
                ),
        decreases n - k,
    {
        let ghost before_seen = seen@;
        let (pattern, key) = match load_one(manifest, &files[k], &seen) {
            Ok(loaded) => loaded,
            Err(e) => {
                return Err(e);
            },
        };
        proof {
            assert(file_failure(m, fs[k as int], seen_upto(m, fs, k as int)) is None);
            assert(settings_problem(file_settings(m, fs[k as int])) is None);
            assert(local_problem(pattern) is None);
            assert forall|a: int| 0 <= a < k implies lowercase(#[trigger] patterns@[a].name@) != lowercase(pattern.name@) by {
                assert(views(before_seen)[a] == lowercase(chosen_name(m, fs[a])));
            }
        }
        let lower = to_lowercase(pattern.name.as_str());
        assert(lower@ == lowercase(chosen_name(m, fs[k as int])));
        seen.push(lower);
        assert(views(seen@) =~= views(before_seen).push(lowercase(chosen_name(m, fs[k as int]))));
        match key {
            Some(key) => {
                let ghost prev = used@;
                used.push(key);
                assert(views(used@) =~= views(prev).push(key@));
            },
            None => {},
        }
        patterns.push(pattern);
        proof {
            assert(views(seen@) =~= seen_upto(m, fs, k + 1));
            assert(used_upto(m, fs, k + 1) == used_upto(m, fs, k as int) + match file_key(m, fs[k as int]) {
                Some(key) => seq![key],
                None => seq![],
            });
            assert(views(used@) =~= used_upto(m, fs, k + 1));
        }
        k += 1;
    }
    proof {
        lemma_no_local_problem(patterns@);
    }
    match manifest.ensure_all_entries_used(&used) {
        Ok(()) => Ok(patterns),
        Err(e) => Err(LoadError::Config(e)),
    }
}

// ---------------------------------------------------------------------------
// The directory listing
// ---------------------------------------------------------------------------

/// One entry of the pattern directory, as listed.
#[derive(Debug)]
pub struct DirectoryEntry {
    /// The entry's name (with invalid UTF-8 replaced, see `name_is_utf8`).
    pub file_name: String,
    /// Whether the name is valid UTF-8.
    pub name_is_utf8: bool,
    /// Whether the entry is a regular file.
    pub is_file: bool,
    /// The file's text, or why it could not be read as UTF-8 (only looked at
    /// for pattern files).
    pub content: Result<String, String>,
}

/// Whether a directory entry is a pattern file: a regular file with the
/// extension `xml`, in any ASCII case.
pub open spec fn is_pattern_entry(e: DirectoryEntry) -> bool {
    e.is_file && has_xml_extension(e.file_name@)
}

/// Whether `f` is the pattern file for entry `e` of `directory`.
pub open spec fn file_for_entry(f: PatternFile, directory: Seq<char>, e: DirectoryEntry) -> bool {
    &&& f.path@ == joined_path(directory, e.file_name@)
    &&& f.file_name == e.file_name
    &&& f.name_is_utf8 == e.name_is_utf8
    &&& f.content == e.content
}

/// Whether `files` are the pattern files of the listing `entries` of
/// `directory` in ascending order of file name: one for each pattern entry,
/// nothing else (`idx` gives the entry of each file).
pub open spec fn listing_order(
    directory: Seq<char>,
    entries: Seq<DirectoryEntry>,
    files: Seq<PatternFile>,
    idx: Seq<int>,
) -> bool {
    &&& idx.len() == files.len()
    &&& forall|m: int|
        0 <= m < files.len() ==> 0 <= #[trigger] idx[m] < entries.len() && is_pattern_entry(
            entries[idx[m]],
        ) && file_for_entry(files[m], directory, entries[idx[m]])
    &&& forall|a: int, b: int| 0 <= a < b < idx.len() ==> #[trigger] idx[a] != #[trigger] idx[b]
    &&& forall|j: int|
        0 <= j < entries.len() && is_pattern_entry(#[trigger] entries[j]) ==> idx.contains(j)
    &&& forall|a: int, b: int|
        0 <= a < b < files.len() ==> !text_less(
            #[trigger] files[b].file_name@,
            #[trigger] files[a].file_name@,
        )
}

/// Whether `files` are the pattern files of `entries` in file-name order.
pub open spec fn pattern_files_of(
    directory: Seq<char>,
    entries: Seq<DirectoryEntry>,
    files: Seq<PatternFile>,
) -> bool {
    exists|idx: Seq<int>| listing_order(directory, entries, files, idx)
}

fn clone_content(c: &Result<String, String>) -> (r: Result<String, String>)
    ensures
        r == *c,
{
    match c {
        Ok(t) => Ok(t.clone()),
        Err(e) => Err(e.clone()),
    }
}

/// The positions of the pattern entries of a listing, ordered by file name
/// (entries with equal names keep their listing order).
fn pattern_entry_order(entries: &Vec<DirectoryEntry>) -> (order: Vec<usize>)
    ensures
        forall|m: int|
            0 <= m < order@.len() ==> (#[trigger] order@[m]) < entries@.len() && is_pattern_entry(
                entries@[order@[m] as int],
            ),
        forall|a: int, b: int| 0 <= a < b < order@.len() ==> #[trigger] order@[a] != #[trigger] order@[b],
        forall|j: int|
            0 <= j < entries@.len() && is_pattern_entry(#[trigger] entries@[j]) ==> order@.contains(
                j as usize,
            ),
        forall|a: int, b: int|
            0 <= a < b < order@.len() ==> !text_less(
                entries@[#[trigger] order@[b] as int].file_name@,
                entries@[#[trigger] order@[a] as int].file_name@,
            ),
{
    let ghost es = entries@;
    let mut order: Vec<usize> = Vec::new();
    let n = entries.len();
    let mut j: usize = 0;
    while j < n
        invariant
            j <= n,
            n == es.len(),
            es == entries@,
            forall|m: int|
                0 <= m < order@.len() ==> (#[trigger] order@[m]) < j && is_pattern_entry(
                    es[order@[m] as int],
                ),
            forall|a: int, b: int| 0 <= a < b < order@.len() ==> #[trigger] order@[a] != #[trigger] order@[b],
            forall|q: int| 0 <= q < j && is_pattern_entry(#[trigger] es[q]) ==> order@.contains(q as usize),
            forall|a: int, b: int|
                0 <= a < b < order@.len() ==> !text_less(
                    es[#[trigger] order@[b] as int].file_name@,
                    es[#[trigger] order@[a] as int].file_name@,
                ),
        decreases n - j,
    {
        let entry = &entries[j];
        if entry.is_file && is_xml_file(entry.file_name.as_str()) {
            let key = chars_of(entry.file_name.as_str());
            let len = order.len();
            let mut p: usize = 0;
            while p < len
                invariant
                    p <= len,
                    len == order@.len(),
                    j < n,
                    n == es.len(),
                    es == entries@,
                    key@ == es[j as int].file_name@,
                    forall|m: int| 0 <= m < order@.len() ==> (#[trigger] order@[m]) < j,
                    forall|t: int|
                        0 <= t < p ==> !text_less(key@, es[#[trigger] order@[t] as int].file_name@),
                ensures
                    p <= len,
                    forall|t: int|
                        0 <= t < p ==> !text_less(key@, es[#[trigger] order@[t] as int].file_name@),
                    p < len ==> text_less(key@, es[order@[p as int] as int].file_name@),
                decreases len - p,
            {
                let other = chars_of(entries[order[p]].file_name.as_str());
                if chars_less(&key, &other) {
                    break;
                }
                p += 1;
            }
            let ghost old_order = order@;
            order.insert(p, j);
            proof {
                let x = es[j as int].file_name@;
                assert forall|q: int| 0 <= q < order@.len() implies #[trigger] order@[q] == if q < p {
                    old_order[q]
                } else if q == p {
                    j
                } else {
                    old_order[q - 1]
                } by {}
                assert forall|a: int, b: int| 0 <= a < b < order@.len() implies !text_less(
                    es[#[trigger] order@[b] as int].file_name@,
                    es[#[trigger] order@[a] as int].file_name@,
                ) by {
                    if b == p {
                        assert(order@[a] == old_order[a]);
                    } else if a == p {
                        let q = b - 1;
                        assert(order@[b] == old_order[q]);
                        let kq = es[old_order[q] as int].file_name@;
                        let kp = es[old_order[p as int] as int].file_name@;
                        if text_less(kq, x) {
                            lemma_text_less_transitive(kq, x, kp);
                            if q == p {
                                lemma_text_less_irreflexive(kq);
                            } else {
                                assert(!text_less(
                                    es[old_order[q] as int].file_name@,
                                    es[old_order[p as int] as int].file_name@,
                                ));
                            }
                        }
                    } else {
                        let oa = if a < p { a } else { a - 1 };
                        let ob = if b < p { b } else { b - 1 };
                        assert(order@[a] == old_order[oa]);
                        assert(order@[b] == old_order[ob]);
                    }
                }
                assert forall|a: int, b: int| 0 <= a < b < order@.len() implies #[trigger] order@[a]
                    != #[trigger] order@[b] by {
                    if a != p && b != p {
                        let oa = if a < p { a } else { a - 1 };
                        let ob = if b < p { b } else { b - 1 };
                        assert(order@[a] == old_order[oa]);
                        assert(order@[b] == old_order[ob]);
                    } else if a == p {
                        let ob = b - 1;
                        assert(order@[b] == old_order[ob]);
                    } else {
                        assert(order@[a] == old_order[a]);
                    }
                }
                assert forall|q: int| 0 <= q < j + 1 && is_pattern_entry(#[trigger] es[q]) implies order@.contains(
                    q as usize,
                ) by {
                    if q == j {
                        assert(order@[p as int] == j);
                    } else {
                        assert(old_order.contains(q as usize));
                        let w = choose|w: int| 0 <= w < old_order.len() && old_order[w] == q as usize;
                        let nw = if w < p { w } else { w + 1 };
                        assert(order@[nw] == old_order[w]);
                    }
                }
            }
        } else {
            proof {
                assert forall|q: int| 0 <= q < j + 1 && is_pattern_entry(#[trigger] es[q]) implies order@.contains(
                    q as usize,
                ) by {
                    if q == j {
                        assert(!is_pattern_entry(es[q]));
                    }
                }
            }
        }
        j += 1;
    }
    order
}

/// The pattern files of a directory listing, in ascending order of file name,
/// each with its path in `directory`.
pub fn pattern_files(directory: &str, entries: &Vec<DirectoryEntry>) -> (files: Vec<PatternFile>)
    ensures
        pattern_files_of(directory@, entries@, files@),
{
    let order = pattern_entry_order(entries);
    let mut files: Vec<PatternFile> = Vec::new();
    let mut m: usize = 0;
    while m < order.len()
        invariant
            m <= order@.len(),
            files@.len() == m,
            forall|t: int|
                0 <= t < order@.len() ==> (#[trigger] order@[t]) < entries@.len(),
            forall|t: int|
                0 <= t < m ==> file_for_entry(
                    #[trigger] files@[t],
                    directory@,
                    entries@[order@[t] as int],
                ),
        decreases order@.len() - m,
    {
        let e = &entries[order[m]];
        let file = PatternFile {
            path: join_path(directory, e.file_name.as_str()),
            file_name: e.file_name.clone(),
            name_is_utf8: e.name_is_utf8,
            content: clone_content(&e.content),
        };
        files.push(file);
        m += 1;
    }
    let n_entries = entries.len();
    let ghost idx = order@.map_values(|x: usize| x as int);
    assert(listing_order(directory@, entries@, files@, idx)) by {
        assert forall|j: int| 0 <= j < entries@.len() && is_pattern_entry(#[trigger] entries@[j]) implies idx.contains(j) by {
            assert(j < n_entries);
            assert((j as usize) as int == j);
            assert(order@.contains(j as usize));
            let w = choose|w: int| 0 <= w < order@.len() && order@[w] == j as usize;
            assert(idx[w] == j);
        }
        assert forall|a: int, b: int| 0 <= a < b < files@.len() implies !text_less(
            #[trigger] files@[b].file_name@,
            #[trigger] files@[a].file_name@,
        ) by {
            assert(files@[a].file_name == entries@[order@[a] as int].file_name);
            assert(files@[b].file_name == entries@[order@[b] as int].file_name);
        }
        assert forall|a: int, b: int| 0 <= a < b < idx.len() implies #[trigger] idx[a] != #[trigger] idx[b] by {
            assert(order@[a] != order@[b]);
        }
    }
    files
}

/// Loads the patterns of a directory from its listing: takes the pattern
/// files (regular files with the extension `xml`) in ascending order of file
/// name, each with its path in `directory`, then loads them as
/// `load_pattern_files` does.
pub fn load_local_patterns(
    directory: &str,
    manifest: &Manifest,
    entries: &Vec<DirectoryEntry>,
) -> (r: Result<Vec<LocalPattern>, LoadError>)
    ensures
        exists|files: Seq<PatternFile>|
            pattern_files_of(directory@, entries@, files) && #[trigger] load_outcome(*manifest, files, r),
        r matches Ok(patterns) ==> names_distinct(patterns@),
        r matches Ok(patterns) ==> first_local_problem(patterns@) is None,
        r matches Ok(patterns) ==> forall|a: int, b: int|
            0 <= a < b < patterns@.len() ==> !text_less(
                #[trigger] patterns@[b].file_name@,
                #[trigger] patterns@[a].file_name@,
            ),
        r matches Ok(patterns) ==> forall|k: int|
            0 <= k < patterns@.len() ==> (#[trigger] patterns@[k]).source_path@ == joined_path(
                directory@,
                patterns@[k].file_name@,
            ),
{
    let files = pattern_files(directory, entries);
    let r = load_pattern_files(manifest, &files);
    proof {
        let idx = choose|idx: Seq<int>| listing_order(directory@, entries@, files@, idx);
        if r is Ok {
            let patterns = r->Ok_0;
            let m = *manifest;
            let fs = files@;
            assert(first_failure_from(m, fs, 0) is None);
            assert forall|k: int| 0 <= k < patterns@.len() implies (#[trigger] patterns@[k]).source_path@
                == joined_path(directory@, patterns@[k].file_name@) by {
                assert(loaded_from(patterns@[k], m, fs[k]));
                assert(file_for_entry(fs[k], directory@, entries@[idx[k]]));
            }
            assert forall|a: int, b: int| 0 <= a < b < patterns@.len() implies !text_less(
                #[trigger] patterns@[b].file_name@,
                #[trigger] patterns@[a].file_name@,
            ) by {
                assert(loaded_from(patterns@[a], m, fs[a]));
                assert(loaded_from(patterns@[b], m, fs[b]));
            }
        }
    }
    r
}

/// The message that reports a load error (its cause, if any, is separate).
pub open spec fn load_error_message(e: LoadError) -> Seq<char> {
    match e {
        LoadError::NonUtf8Name { path } => "pattern filename is not valid UTF-8: "@ + path@,
        LoadError::Config(c) => crate::config::config_error_message(c),
        LoadError::EmptyName { path } => "pattern name cannot be empty: "@ + path@,
        LoadError::DuplicateName { name } => "duplicate local pattern name, ignoring case: "@
            + crate::text::debug_text(name@),
        LoadError::Unreadable { path, .. } => "failed to read pattern as UTF-8: "@ + path@,
        LoadError::EmptyFile { path } => "pattern file is empty: "@ + path@,
        LoadError::InvalidXml { path, .. } => "invalid XML fragment: "@ + path@,
    }
}

/// The underlying cause of a load error, if it has one.
pub open spec fn load_error_cause(e: LoadError) -> Option<Seq<char>> {
    match e {
        LoadError::Unreadable { cause, .. } => Some(cause@),
        LoadError::InvalidXml { reason, .. } => Some(crate::xml::xml_error_message(reason)),
        _ => None,
    }
}

impl LoadError {
    /// The message that reports this error.
    pub fn message(&self) -> (r: String)
        ensures
            r@ == load_error_message(*self),
    {
        match self {
            LoadError::NonUtf8Name { path } => {
                let mut s = owned("pattern filename is not valid UTF-8: ");
                s.append(path.as_str());
                s
            },
            LoadError::Config(c) => c.message(),
            LoadError::EmptyName { path } => {
                let mut s = owned("pattern name cannot be empty: ");
                s.append(path.as_str());
                s
            },
            LoadError::DuplicateName { name } => {
                let mut s = owned("duplicate local pattern name, ignoring case: ");
                let quoted = crate::text::debug_quoted(name.as_str());
                s.append(quoted.as_str());
                s
            },
            LoadError::Unreadable { path, .. } => {
                let mut s = owned("failed to read pattern as UTF-8: ");
                s.append(path.as_str());
                s
            },
            LoadError::EmptyFile { path } => {
                let mut s = owned("pattern file is empty: ");
                s.append(path.as_str());
                s
            },
            LoadError::InvalidXml { path, .. } => {
                let mut s = owned("invalid XML fragment: ");
                s.append(path.as_str());
                s
            },
        }
    }

    /// The underlying cause of this error, if it has one.
    pub fn cause(&self) -> (r: Option<String>)
        ensures
            crate::dto::opt_view(r) == load_error_cause(*self),
    {
        match self {
            LoadError::Unreadable { cause, .. } => Some(cause.clone()),
            LoadError::InvalidXml { reason, .. } => Some(reason.message()),
            _ => None,
        }
    }
}
} // verus!
