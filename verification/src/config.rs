//! The manifest that gives each local pattern file its registration settings.

use vstd::prelude::*;

use crate::dto::{clone_opt_string, opt_view, PatternType, QueryType};
use crate::text::{
    chars_less, chars_of, lemma_text_less_total, lemma_text_less_transitive, str_eq, text_less,
    decimal, is_blank, join, owned, push_decimal, push_joined, str_is_blank, views};

verus! {

/// `a` if it is present, else `b` (`Option::or`).
pub open spec fn or_else<T>(a: Option<T>, b: Option<T>) -> Option<T> {
    match a {
        Some(x) => Some(x),
        None => b,
    }
}

/// Registration settings of one pattern, or defaults shared by all patterns.
/// Every field is optional; a pattern's own settings override the defaults.
#[derive(Debug)]
pub struct PatternSettings {
    /// Overrides the name taken from the file name.
    pub name: Option<String>,
    pub pattern_type: Option<PatternType>,
    pub query_type: Option<QueryType>,
    pub severity: Option<i32>,
    pub confidence: Option<i32>,
    pub active: Option<bool>,
    pub file_regex: Option<String>,
}

/// Settings with no field given.
pub open spec fn empty_settings() -> PatternSettings {
    PatternSettings {
        name: None,
        pattern_type: None,
        query_type: None,
        severity: None,
        confidence: None,
        active: None,
        file_regex: None,
    }
}

impl Default for PatternSettings {
    fn default() -> (r: Self)
        ensures
            r == empty_settings(),
    {
        PatternSettings {
            name: None,
            pattern_type: None,
            query_type: None,
            severity: None,
            confidence: None,
            active: None,
            file_regex: None,
        }
    }
}

impl Clone for PatternSettings {
    fn clone(&self) -> (r: Self)
        ensures
            r == *self,
    {
        PatternSettings {
            name: clone_opt_string(&self.name),
            pattern_type: self.pattern_type,
            query_type: self.query_type,
            severity: self.severity,
            confidence: self.confidence,
            active: self.active,
            file_regex: clone_opt_string(&self.file_regex),
        }
    }
}

/// The settings of a pattern: its own where given, else the defaults; the
/// name only from the pattern itself; `active` true where neither gives it.
pub open spec fn merged_settings(defaults: PatternSettings, specific: PatternSettings) -> PatternSettings {
    PatternSettings {
        name: specific.name,
        pattern_type: or_else(specific.pattern_type, defaults.pattern_type),
        query_type: or_else(specific.query_type, defaults.query_type),
        severity: or_else(specific.severity, defaults.severity),
        confidence: or_else(specific.confidence, defaults.confidence),
        active: Some(or_else(specific.active, defaults.active).unwrap_or(true)),
        file_regex: or_else(specific.file_regex, defaults.file_regex),
    }
}

/// Whether `m` is `specific` laid over `defaults`, field by field: a value
/// given by `specific` wins, the default is used only where `specific` gives
/// nothing, the name comes from `specific` alone, and `active` is true where
/// neither gives it.
pub open spec fn overrides(defaults: PatternSettings, specific: PatternSettings, m: PatternSettings) -> bool {
    &&& m.name == specific.name
    &&& (specific.pattern_type is Some ==> m.pattern_type == specific.pattern_type)
    &&& (specific.pattern_type is None ==> m.pattern_type == defaults.pattern_type)
    &&& (specific.query_type is Some ==> m.query_type == specific.query_type)
    &&& (specific.query_type is None ==> m.query_type == defaults.query_type)
    &&& (specific.severity is Some ==> m.severity == specific.severity)
    &&& (specific.severity is None ==> m.severity == defaults.severity)
    &&& (specific.confidence is Some ==> m.confidence == specific.confidence)
    &&& (specific.confidence is None ==> m.confidence == defaults.confidence)
    &&& (specific.file_regex is Some ==> m.file_regex == specific.file_regex)
    &&& (specific.file_regex is None ==> m.file_regex == defaults.file_regex)
    &&& (specific.active is Some ==> m.active == specific.active)
    &&& (specific.active is None && defaults.active is Some ==> m.active == defaults.active)
    &&& (specific.active is None && defaults.active is None ==> m.active == Some(true))
}

/// A pattern's own settings override the defaults: for every field but the
/// name, a value in the pattern's entry wins over the default, and the default
/// counts only where the entry gives nothing.
pub proof fn lemma_entry_overrides_defaults(defaults: PatternSettings, specific: PatternSettings)
    ensures
        overrides(defaults, specific, merged_settings(defaults, specific)),
{
}

/// What is wrong with merged settings.
#[derive(Debug, Clone, Copy, PartialEq, Eq, Structural)]
pub enum SettingsProblem {
    /// No pattern type in the defaults nor in the entry.
    MissingType,
    /// No severity in the defaults nor in the entry.
    MissingSeverity,
    /// No confidence in the defaults nor in the entry.
    MissingConfidence,
    /// A severity outside 0 to 3.
    SeverityOutOfRange,
    /// A name that is empty or whitespace.
    EmptyName,
    /// An empty file filter.
    EmptyFileRegex,
}

/// Whether a severity is one the server accepts.
pub open spec fn severity_in_range(severity: i32) -> bool {
    0 <= severity <= 3
}

/// The first problem of merged settings, if any, in the order they are checked.
pub open spec fn settings_problem(s: PatternSettings) -> Option<SettingsProblem> {
    if s.pattern_type is None {
        Some(SettingsProblem::MissingType)
    } else if s.severity is None {
        Some(SettingsProblem::MissingSeverity)
    } else if s.confidence is None {
        Some(SettingsProblem::MissingConfidence)
    } else if s.severity matches Some(v) && !severity_in_range(v) {
        Some(SettingsProblem::SeverityOutOfRange)
    } else if s.name matches Some(n) && is_blank(n@) {
        Some(SettingsProblem::EmptyName)
    } else if s.file_regex matches Some(r) && r@.len() == 0 {
        Some(SettingsProblem::EmptyFileRegex)
    } else {
        None
    }
}

/// One `patterns` entry of the manifest: a file name, with or without `.xml`,
/// and the settings for that file.
#[derive(Debug)]
pub struct ManifestEntry {
    pub key: String,
    pub settings: PatternSettings,
}

/// The manifest (`patterns.yaml`) of a pattern directory: a version, default
/// settings, and the settings of single files by key. The entries are kept in
/// strictly ascending order of key, so each key occurs once.
#[derive(Debug)]
pub struct Manifest {
    version: u32,
    defaults: PatternSettings,
    patterns: Vec<ManifestEntry>,
}

/// What a manifest holds.
pub ghost struct ManifestView {
    pub version: u32,
    pub defaults: PatternSettings,
    /// The entries, in ascending order of key.
    pub entries: Seq<ManifestEntry>,
}

impl View for Manifest {
    type V = ManifestView;

    closed spec fn view(&self) -> ManifestView {
        ManifestView { version: self.version, defaults: self.defaults, entries: self.patterns@ }
    }
}

/// Whether the keys of `entries` are in strictly ascending order.
pub open spec fn keys_ascending(entries: Seq<ManifestEntry>) -> bool {
    forall|i: int, j: int|
        0 <= i < j < entries.len() ==> text_less(
            #[trigger] entries[i].key@,
            #[trigger] entries[j].key@,
        )
}

impl Manifest {
    /// The entries are in strictly ascending order of key.
    #[verifier::type_invariant]
    spec fn entries_ascending(self) -> bool {
        keys_ascending(self.patterns@)
    }

    /// A manifest with the given version and defaults whose entries are those
    /// of `entries` put in order of key; where a key occurs more than once the
    /// last entry with it counts, as when the entries are collected into a map.
    pub fn new(version: u32, defaults: PatternSettings, entries: Vec<ManifestEntry>) -> (r: Self)
        ensures
            r@.version == version,
            r@.defaults == defaults,
            keys_ascending(r@.entries),
            forall|k: Seq<char>| #[trigger] lookup(r@.entries, k) == last_lookup(entries@, k),
    {
        let ghost input = entries@;
        let mut sorted: Vec<ManifestEntry> = Vec::new();
        let mut rest = entries;
        let mut i: usize = 0;
        let n = rest.len();
        assert(input.take(0) =~= Seq::<ManifestEntry>::empty());
        while i < n
            invariant
                i <= n,
                n == input.len(),
                rest@ == input.skip(i as int),
                keys_ascending(sorted@),
                forall|k: Seq<char>| #[trigger] lookup(sorted@, k) == last_lookup(
                    input.take(i as int),
                    k,
                ),
            decreases n - i,
        {
            let entry = rest.remove(0);
            assert(entry == input[i as int]);
            let ghost before = sorted@;
            insert_entry(&mut sorted, entry);
            proof {
                assert(input.take(i + 1).drop_last() =~= input.take(i as int));
                assert(input.take(i + 1).last() == input[i as int]);
                assert forall|k: Seq<char>| #[trigger] lookup(sorted@, k) == last_lookup(
                    input.take(i + 1),
                    k,
                ) by {
                    assert(lookup(sorted@, k) == if k == entry.key@ {
                        Some(entry.settings)
                    } else {
                        lookup(before, k)
                    });
                }
                assert(rest@ =~= input.skip(i + 1));
            }
            i += 1;
        }
        assert(input.take(n as int) =~= input);
        Manifest { version, defaults, patterns: sorted }
    }

    /// The manifest version.
    pub fn version(&self) -> (r: u32)
        ensures
            r == self@.version,
    {
        self.version
    }

    /// The default settings.
    pub fn defaults(&self) -> (r: &PatternSettings)
        ensures
            *r == self@.defaults,
    {
        &self.defaults
    }

    /// The entries, in strictly ascending order of key (so no key occurs
    /// twice).
    pub fn entries(&self) -> (r: &Vec<ManifestEntry>)
        ensures
            r@ == self@.entries,
            keys_ascending(r@),
    {
        proof {
            use_type_invariant(self);
        }
        &self.patterns
    }
}

/// Settings resolved for one file, and the manifest key that named the file.
#[derive(Debug)]
pub struct ResolvedSettings {
    pub settings: PatternSettings,
    pub manifest_key: Option<String>,
}

/// Why the manifest was refused.
#[derive(Debug)]
pub enum ConfigError {
    /// The merged settings of `label` have a problem.
    InvalidSettings { label: String, problem: SettingsProblem },
    /// Both `file_stem` and `file_name` are keys of the manifest.
    DuplicateEntry { file_stem: String, file_name: String },
    /// Keys that match no XML file, in manifest order.
    UnusedEntries { keys: Vec<String> },
    /// A manifest version other than 1.
    UnsupportedVersion { version: u32 },
    /// A name in the defaults.
    NameInDefaults,
    /// A default severity outside 0 to 3.
    DefaultSeverityOutOfRange,
    /// A key that is empty or whitespace.
    EmptyKey,
}

/// The settings of the first entry with key `key`, if any.
pub open spec fn lookup(entries: Seq<ManifestEntry>, key: Seq<char>) -> Option<PatternSettings>
    decreases entries.len(),
{
    if entries.len() == 0 {
        None
    } else if entries[0].key@ == key {
        Some(entries[0].settings)
    } else {
        lookup(entries.drop_first(), key)
    }
}

/// Whether `key` is the key of some entry.
pub open spec fn has_key(entries: Seq<ManifestEntry>, key: Seq<char>) -> bool {
    exists|i: int| 0 <= i < entries.len() && #[trigger] entries[i].key@ == key
}

/// The keys of the entries, in order.
pub open spec fn entry_keys(entries: Seq<ManifestEntry>) -> Seq<Seq<char>> {
    entries.map_values(|e: ManifestEntry| e.key@)
}

/// The keys of the entries that are not in `used`, in order.
pub open spec fn unused_keys(entries: Seq<ManifestEntry>, used: Seq<Seq<char>>) -> Seq<Seq<char>> {
    entry_keys(entries).filter(|k: Seq<char>| !used.contains(k))
}

/// The manifest-wide problem, if any, in the order the checks run.
pub open spec fn manifest_problem(m: ManifestView) -> Option<ConfigError> {
    if m.version != 1 {
        Some(ConfigError::UnsupportedVersion { version: m.version })
    } else if m.defaults.name is Some {
        Some(ConfigError::NameInDefaults)
    } else if m.defaults.severity matches Some(v) && !severity_in_range(v) {
        Some(ConfigError::DefaultSeverityOutOfRange)
    } else if exists|i: int| 0 <= i < m.entries.len() && is_blank(#[trigger] m.entries[i].key@) {
        Some(ConfigError::EmptyKey)
    } else {
        None
    }
}

pub(crate) proof fn lemma_lookup_some(entries: Seq<ManifestEntry>, key: Seq<char>)
    ensures
        lookup(entries, key) is Some <==> has_key(entries, key),
    decreases entries.len(),
{
    if entries.len() > 0 {
        lemma_lookup_some(entries.drop_first(), key);
        if has_key(entries, key) && entries[0].key@ != key {
            let i = choose|i: int| 0 <= i < entries.len() && #[trigger] entries[i].key@ == key;
            assert(entries.drop_first()[i - 1].key@ == key);
        }
        if has_key(entries.drop_first(), key) {
            let i = choose|i: int|
                0 <= i < entries.drop_first().len() && #[trigger] entries.drop_first()[i].key@ == key;
            assert(entries[i + 1].key@ == key);
        }
    }
}

/// The settings of the last entry with key `key`, if any: what a map built
/// by inserting the entries in order holds for `key`.
pub open spec fn last_lookup(entries: Seq<ManifestEntry>, key: Seq<char>) -> Option<PatternSettings>
    decreases entries.len(),
{
    if entries.len() == 0 {
        None
    } else if entries.last().key@ == key {
        Some(entries.last().settings)
    } else {
        last_lookup(entries.drop_last(), key)
    }
}

/// In entries with ascending keys, looking up the key of an entry finds it.
proof fn lemma_lookup_at(entries: Seq<ManifestEntry>, j: int)
    requires
        keys_ascending(entries),
        0 <= j < entries.len(),
    ensures
        lookup(entries, entries[j].key@) == Some(entries[j].settings),
    decreases j,
{
    if j > 0 {
        assert(text_less(entries[0].key@, entries[j].key@));
        if entries[0].key@ == entries[j].key@ {
            crate::text::lemma_text_less_irreflexive(entries[0].key@);
        }
        let rest = entries.drop_first();
        assert(keys_ascending(rest)) by {
            assert forall|a: int, b: int| 0 <= a < b < rest.len() implies text_less(
                #[trigger] rest[a].key@,
                #[trigger] rest[b].key@,
            ) by {
                assert(rest[a] == entries[a + 1]);
                assert(rest[b] == entries[b + 1]);
            }
        }
        assert(rest[j - 1] == entries[j]);
        lemma_lookup_at(rest, j - 1);
    }
}

/// In entries with ascending keys, the lookup of `key` is the entry with that
/// key, or nothing when there is none.
proof fn lemma_lookup_ascending(entries: Seq<ManifestEntry>, key: Seq<char>)
    requires
        keys_ascending(entries),
    ensures
        has_key(entries, key) ==> exists|j: int| 0 <= j < entries.len() && entries[j].key@ == key
            && lookup(entries, key) == Some(entries[j].settings),
        !has_key(entries, key) ==> lookup(entries, key) is None,
{
    lemma_lookup_some(entries, key);
    if has_key(entries, key) {
        let j = choose|j: int| 0 <= j < entries.len() && #[trigger] entries[j].key@ == key;
        lemma_lookup_at(entries, j);
    }
}

/// Puts `entry` into `sorted`, which has ascending keys: in its place by key,
/// or over the entry that has its key.
fn insert_entry(sorted: &mut Vec<ManifestEntry>, entry: ManifestEntry)
    requires
        keys_ascending(old(sorted)@),
    ensures
        keys_ascending(final(sorted)@),
        forall|k: Seq<char>| #[trigger] lookup(final(sorted)@, k) == if k == entry.key@ {
            Some(entry.settings)
        } else {
            lookup(old(sorted)@, k)
        },
{
    let ghost old_s = sorted@;
    let key = chars_of(entry.key.as_str());
    let n = sorted.len();
    let mut i: usize = 0;
    while i < n
        invariant
            i <= n,
            n == sorted@.len(),
            sorted@ == old_s,
            key@ == entry.key@,
            forall|q: int| 0 <= q < i ==> text_less(#[trigger] old_s[q].key@, entry.key@),
        ensures
            i <= n,
            sorted@ == old_s,
            forall|q: int| 0 <= q < i ==> text_less(#[trigger] old_s[q].key@, entry.key@),
            i < n ==> !text_less(old_s[i as int].key@, entry.key@),
        decreases n - i,
    {
        let current = chars_of(sorted[i].key.as_str());
        if !chars_less(&current, &key) {
            break;
        }
        i += 1;
    }
    let replace = i < n && str_eq(sorted[i].key.as_str(), entry.key.as_str());
    let ghost e = entry;
    if replace {
        sorted.set(i, entry);
    } else {
        sorted.insert(i, entry);
    }
    let ghost new_s = sorted@;
    proof {
        // Where the entry sits.
        let p = i as int;
        assert(new_s[p] == e);
        // Before p every key is below the entry's; from p on every old key is
        // above it, or equal at p when replacing.
        assert forall|q: int| p <= q < old_s.len() && !(replace && q == p) implies text_less(
            e.key@,
            #[trigger] old_s[q].key@,
        ) by {
            if q == p {
                assert(!text_less(old_s[p].key@, e.key@));
                lemma_text_less_total(old_s[p].key@, e.key@);
            } else {
                if p < n {
                    if replace {
                        assert(old_s[p].key@ == e.key@);
                        assert(text_less(old_s[p].key@, old_s[q].key@));
                    } else {
                        assert(!text_less(old_s[p].key@, e.key@));
                        lemma_text_less_total(old_s[p].key@, e.key@);
                        assert(text_less(old_s[p].key@, old_s[q].key@));
                        lemma_text_less_transitive(e.key@, old_s[p].key@, old_s[q].key@);
                    }
                }
            }
        }
        // The new sequence in terms of the old one.
        assert forall|q: int| 0 <= q < new_s.len() implies #[trigger] new_s[q] == if q < p {
            old_s[q]
        } else if q == p {
            e
        } else if replace {
            old_s[q]
        } else {
            old_s[q - 1]
        } by {}
        assert forall|a: int, b: int| 0 <= a < b < new_s.len() implies text_less(
            #[trigger] new_s[a].key@,
            #[trigger] new_s[b].key@,
        ) by {
            if a < p && b == p {
            } else if a < p && b > p {
                let ob = if replace { b } else { b - 1 };
                lemma_text_less_transitive(old_s[a].key@, e.key@, old_s[ob].key@);
            } else if a == p {
                let ob = if replace { b } else { b - 1 };
                assert(new_s[b] == old_s[ob]);
            } else {
                let oa = if replace || a < p { a } else { a - 1 };
                let ob = if replace || b < p { b } else { b - 1 };
                assert(new_s[a] == old_s[oa]);
                assert(new_s[b] == old_s[ob]);
            }
        }
        assert forall|k: Seq<char>| #[trigger] lookup(new_s, k) == if k == e.key@ {
            Some(e.settings)
        } else {
            lookup(old_s, k)
        } by {
            lemma_lookup_ascending(new_s, k);
            lemma_lookup_ascending(old_s, k);
            if k == e.key@ {
                lemma_lookup_at(new_s, p);
            } else {
                if has_key(new_s, k) {
                    let j = choose|j: int| 0 <= j < new_s.len() && new_s[j].key@ == k
                        && lookup(new_s, k) == Some(new_s[j].settings);
                    let oj = if j < p || replace { j } else { j - 1 };
                    assert(old_s[oj] == new_s[j]);
                    lemma_lookup_at(old_s, oj);
                }
                if has_key(old_s, k) {
                    let j = choose|j: int| 0 <= j < old_s.len() && old_s[j].key@ == k
                        && lookup(old_s, k) == Some(old_s[j].settings);
                    let nj = if j < p || replace { j } else { j + 1 };
                    assert(new_s[nj] == old_s[j]);
                }
            }
        }
    }
}

fn find_entry(entries: &Vec<ManifestEntry>, key: &str) -> (r: Option<PatternSettings>)
    ensures
        r == lookup(entries@, key@),
{
    let n = entries.len();
    let mut i: usize = 0;
    assert(entries@.subrange(0, n as int) =~= entries@);
    while i < n
        invariant
            i <= n,
            n == entries@.len(),
            lookup(entries@, key@) == lookup(entries@.subrange(i as int, n as int), key@),
        decreases n - i,
    {
        let ghost rest = entries@.subrange(i as int, n as int);
        assert(rest[0] == entries@[i as int]);
        if str_eq(entries[i].key.as_str(), key) {
            return Some(entries[i].settings.clone());
        }
        assert(rest.drop_first() =~= entries@.subrange(i + 1, n as int));
        i += 1;
    }
    None
}

fn or_else_copy<T: Copy>(a: Option<T>, b: Option<T>) -> (r: Option<T>)
    ensures
        r == or_else(a, b),
{
    match a {
        Some(x) => Some(x),
        None => b,
    }
}

impl PatternSettings {
    /// The settings of a pattern merged over the defaults.
    pub fn merged(defaults: &Self, specific: &Self) -> (r: Self)
        ensures
            r == merged_settings(*defaults, *specific),
            overrides(*defaults, *specific, r),
    {
        let active = match or_else_copy(specific.active, defaults.active) {
            Some(a) => a,
            None => true,
        };
        PatternSettings {
            name: clone_opt_string(&specific.name),
            pattern_type: or_else_copy(specific.pattern_type, defaults.pattern_type),
            query_type: or_else_copy(specific.query_type, defaults.query_type),
            severity: or_else_copy(specific.severity, defaults.severity),
            confidence: or_else_copy(specific.confidence, defaults.confidence),
            active: Some(active),
            file_regex: match &specific.file_regex {
                Some(r) => Some(r.clone()),
                None => clone_opt_string(&defaults.file_regex),
            },
        }
    }

    /// Checks merged settings; `label` names the pattern in the error.
    pub fn validate(&self, pattern_label: &str) -> (r: Result<(), ConfigError>)
        ensures
            settings_problem(*self) is None ==> r is Ok,
            settings_problem(*self) matches Some(p) ==> (r matches Err(
                ConfigError::InvalidSettings { label, problem },
            ) && label@ == pattern_label@ && problem == p),
    {
        let problem = if self.pattern_type.is_none() {
            Some(SettingsProblem::MissingType)
        } else if self.severity.is_none() {
            Some(SettingsProblem::MissingSeverity)
        } else if self.confidence.is_none() {
            Some(SettingsProblem::MissingConfidence)
        } else if match self.severity {
            Some(v) => !(0 <= v && v <= 3),
            None => false,
        } {
            Some(SettingsProblem::SeverityOutOfRange)
        } else if match &self.name {
            Some(n) => str_is_blank(n.as_str()),
            None => false,
        } {
            Some(SettingsProblem::EmptyName)
        } else if match &self.file_regex {
            Some(r) => r.as_str().is_empty(),
            None => false,
        } {
            Some(SettingsProblem::EmptyFileRegex)
        } else {
            None
        };
        match problem {
            Some(p) => Err(ConfigError::InvalidSettings { label: owned(pattern_label), problem: p }),
            None => Ok(()),
        }
    }
}

/// The settings and key that `resolve` gives for a file, before validation.
pub open spec fn resolution(m: ManifestView, file_stem: Seq<char>, file_name: Seq<char>) -> (
    PatternSettings,
    Option<Seq<char>>,
) {
    match lookup(m.entries, file_stem) {
        Some(s) => (merged_settings(m.defaults, s), Some(file_stem)),
        None => match lookup(m.entries, file_name) {
            Some(s) => (merged_settings(m.defaults, s), Some(file_name)),
            None => (merged_settings(m.defaults, empty_settings()), None),
        },
    }
}

/// The settings a file resolves to are its entry (by stem, else by full file
/// name) laid over the defaults; a file without an entry gets the defaults.
pub proof fn lemma_resolution_overrides(m: ManifestView, file_stem: Seq<char>, file_name: Seq<char>)
    ensures
        lookup(m.entries, file_stem) matches Some(e) ==> overrides(
            m.defaults,
            e,
            resolution(m, file_stem, file_name).0,
        ) && resolution(m, file_stem, file_name).1 == Some(file_stem),
        lookup(m.entries, file_stem) is None ==> (lookup(m.entries, file_name) matches Some(e)
            ==> overrides(m.defaults, e, resolution(m, file_stem, file_name).0) && resolution(
            m,
            file_stem,
            file_name,
        ).1 == Some(file_name)),
        lookup(m.entries, file_stem) is None && lookup(m.entries, file_name) is None ==> overrides(
            m.defaults,
            empty_settings(),
            resolution(m, file_stem, file_name).0,
        ) && resolution(m, file_stem, file_name).1 is None,
{
}

impl Manifest {
    /// The settings for the file `file_name` (stem `file_stem`): its entry,
    /// keyed by stem or by full name, merged over the defaults and checked.
    pub fn resolve(&self, file_stem: &str, file_name: &str) -> (r: Result<ResolvedSettings, ConfigError>)
        ensures
            ({
                let both = has_key(self@.entries, file_stem@) && has_key(self@.entries, file_name@);
                let (settings, key) = resolution(self@, file_stem@, file_name@);
                &&& both ==> (r matches Err(ConfigError::DuplicateEntry { file_stem: s, file_name: n })
                    && s@ == file_stem@ && n@ == file_name@)
                &&& !both ==> (settings_problem(settings) matches Some(p) ==> (r matches Err(
                    ConfigError::InvalidSettings { label, problem },
                ) && label@ == file_name@ && problem == p))
                &&& (!both && settings_problem(settings) is None) ==> (r matches Ok(res)
                    && res.settings == settings && opt_view(res.manifest_key) == key)
            }),
    {
        let by_stem = find_entry(&self.patterns, file_stem);
        let by_file_name = find_entry(&self.patterns, file_name);
        proof {
            lemma_lookup_some(self.patterns@, file_stem@);
            lemma_lookup_some(self.patterns@, file_name@);
        }
        if by_stem.is_some() && by_file_name.is_some() {
            return Err(
                ConfigError::DuplicateEntry { file_stem: owned(file_stem), file_name: owned(file_name) },
            );
        }
        let (specific, manifest_key) = match by_stem {
            Some(settings) => (settings, Some(owned(file_stem))),
            None => match by_file_name {
                Some(settings) => (settings, Some(owned(file_name))),
                None => (PatternSettings::default(), None),
            },
        };
        let settings = PatternSettings::merged(&self.defaults, &specific);
        match settings.validate(file_name) {
            Ok(()) => Ok(ResolvedSettings { settings, manifest_key }),
            Err(e) => Err(e),
        }
    }

    /// Checks that every manifest key was used by some XML file; `used_keys`
    /// are the keys that were.
    pub fn ensure_all_entries_used(&self, used_keys: &Vec<String>) -> (r: Result<(), ConfigError>)
        ensures
            unused_keys(self@.entries, views(used_keys@)).len() == 0 ==> r is Ok,
            unused_keys(self@.entries, views(used_keys@)).len() > 0 ==> (r matches Err(
                ConfigError::UnusedEntries { keys },
            ) && views(keys@) == unused_keys(self@.entries, views(used_keys@))),
    {
        let ghost used = views(used_keys@);
        let ghost pred = |k: Seq<char>| !used.contains(k);
        let mut unused: Vec<String> = Vec::new();
        let n = self.patterns.len();
        let mut i: usize = 0;
        while i < n
            invariant
                i <= n,
                n == self.patterns@.len(),
                used == views(used_keys@),
                pred == (|k: Seq<char>| !used.contains(k)),
                views(unused@) == entry_keys(self.patterns@.take(i as int)).filter(pred),
            decreases n - i,
        {
            let key = &self.patterns[i].key;
            let mut found = false;
            let mut j: usize = 0;
            while j < used_keys.len()
                invariant
                    j <= used_keys.len(),
                    used == views(used_keys@),
                    found <==> exists|m: int| 0 <= m < j && used[m] == key@,
                decreases used_keys.len() - j,
            {
                assert(used[j as int] == used_keys@[j as int]@);
                if used_keys[j].eq(key) {
                    found = true;
                }
                j += 1;
            }
            proof {
                if found {
                    let m = choose|m: int| 0 <= m < used_keys.len() && used[m] == key@;
                    assert(used.contains(key@));
                } else {
                    assert(!used.contains(key@)) by {
                        if used.contains(key@) {
                            let m = choose|m: int| 0 <= m < used.len() && used[m] == key@;
                        }
                    }
                }
                let ks = entry_keys(self.patterns@.take(i + 1));
                assert(ks.drop_last() =~= entry_keys(self.patterns@.take(i as int)));
                assert(ks.last() == key@);
            }
            let ghost prev = unused@;
            if !found {
                unused.push(key.clone());
                assert(views(unused@) =~= views(prev).push(key@));
            }
            proof {
                let ks = entry_keys(self.patterns@.take(i + 1));
                reveal(Seq::filter);
                assert(pred(key@) == !found);
                assert(ks.filter(pred) == (if pred(ks.last()) {
                    ks.drop_last().filter(pred).push(ks.last())
                } else {
                    ks.drop_last().filter(pred)
                }));
            }
            i += 1;
        }
        assert(self.patterns@.take(n as int) == self.patterns@);
        if unused.len() == 0 {
            Ok(())
        } else {
            Err(ConfigError::UnusedEntries { keys: unused })
        }
    }

    /// Checks the manifest as a whole: version 1, no name in the defaults, a
    /// default severity in range, no blank key.
    pub fn validate(&self) -> (r: Result<(), ConfigError>)
        ensures
            manifest_problem(self@) is None ==> r is Ok,
            manifest_problem(self@) matches Some(e) ==> r == Err::<(), ConfigError>(e),
    {
        if self.version != 1 {
            return Err(ConfigError::UnsupportedVersion { version: self.version });
        }
        if self.defaults.name.is_some() {
            return Err(ConfigError::NameInDefaults);
        }
        if let Some(severity) = self.defaults.severity {
            if !(0 <= severity && severity <= 3) {
                return Err(ConfigError::DefaultSeverityOutOfRange);
            }
        }
        let mut i: usize = 0;
        while i < self.patterns.len()
            invariant
                i <= self.patterns@.len(),
                self.version == 1,
                self.defaults.name is None,
                !(self.defaults.severity matches Some(v) && !severity_in_range(v)),
                forall|k: int| 0 <= k < i ==> !is_blank(#[trigger] self.patterns@[k].key@),
            decreases self.patterns.len() - i,
        {
            if str_is_blank(self.patterns[i].key.as_str()) {
                assert(is_blank(self.patterns@[i as int].key@));
                assert(manifest_problem(self@) == Some(ConfigError::EmptyKey));
                return Err(ConfigError::EmptyKey);
            }
            i += 1;
        }
        Ok(())
    }
}

/// The text of a settings problem, after the pattern's label.
pub open spec fn settings_problem_text(p: SettingsProblem) -> Seq<char> {
    match p {
        SettingsProblem::MissingType => ": `type` must be configured in defaults or in the pattern entry"@,
        SettingsProblem::MissingSeverity =>
            ": `severity` must be configured in defaults or in the pattern entry"@,
        SettingsProblem::MissingConfidence =>
            ": `confidence` must be configured in defaults or in the pattern entry"@,
        SettingsProblem::SeverityOutOfRange => ": severity must be between 0 and 3"@,
        SettingsProblem::EmptyName => ": name cannot be empty"@,
        SettingsProblem::EmptyFileRegex => ": fileRegex cannot be empty"@,
    }
}

/// The message that reports a manifest error.
pub open spec fn config_error_message(e: ConfigError) -> Seq<char> {
    match e {
        ConfigError::InvalidSettings { label, problem } => label@ + settings_problem_text(problem),
        ConfigError::DuplicateEntry { file_stem, file_name } => "manifest contains two entries for "@
            + file_name@ + ": `"@ + file_stem@ + "` and `"@ + file_name@ + "`"@,
        ConfigError::UnusedEntries { keys } => "manifest entries without matching XML files: "@
            + join(views(keys@), ", "@),
        ConfigError::UnsupportedVersion { version } => "unsupported manifest version "@ + decimal(
            version as int,
        ) + "; expected 1"@,
        ConfigError::NameInDefaults =>
            "`defaults.name` is not allowed because every pattern would receive the same name"@,
        ConfigError::DefaultSeverityOutOfRange => "defaults.severity must be between 0 and 3"@,
        ConfigError::EmptyKey => "manifest pattern key cannot be empty"@,
    }
}

impl ConfigError {
    /// The message that reports this error.
    pub fn message(&self) -> (r: String)
        ensures
            r@ == config_error_message(*self),
    {
        match self {
            ConfigError::InvalidSettings { label, problem } => {
                let mut s = label.clone();
                match problem {
                    SettingsProblem::MissingType => s.append(
                        ": `type` must be configured in defaults or in the pattern entry",
                    ),
                    SettingsProblem::MissingSeverity => s.append(
                        ": `severity` must be configured in defaults or in the pattern entry",
                    ),
                    SettingsProblem::MissingConfidence => s.append(
                        ": `confidence` must be configured in defaults or in the pattern entry",
                    ),
                    SettingsProblem::SeverityOutOfRange => s.append(
                        ": severity must be between 0 and 3",
                    ),
                    SettingsProblem::EmptyName => s.append(": name cannot be empty"),
                    SettingsProblem::EmptyFileRegex => s.append(": fileRegex cannot be empty"),
                }
                s
            },
            ConfigError::DuplicateEntry { file_stem, file_name } => {
                let mut s = owned("manifest contains two entries for ");
                s.append(file_name.as_str());
                s.append(": `");
                s.append(file_stem.as_str());
                s.append("` and `");
                s.append(file_name.as_str());
                s.append("`");
                s
            },
            ConfigError::UnusedEntries { keys } => {
                let mut s = owned("manifest entries without matching XML files: ");
                push_joined(&mut s, keys, ", ");
                s
            },
            ConfigError::UnsupportedVersion { version } => {
                let mut s = owned("unsupported manifest version ");
                push_decimal(&mut s, *version as i64);
                s.append("; expected 1");
                s
            },
            ConfigError::NameInDefaults => owned(
                "`defaults.name` is not allowed because every pattern would receive the same name",
            ),
            ConfigError::DefaultSeverityOutOfRange => owned(
                "defaults.severity must be between 0 and 3",
            ),
            ConfigError::EmptyKey => owned("manifest pattern key cannot be empty"),
        }
    }
}

} // verus!
