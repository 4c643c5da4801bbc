//! Building the synchronisation plan from the local and the server patterns.

use vstd::prelude::*;

use crate::config::or_else;
use crate::dto::{clone_opt_string, opt_i32_eq, opt_string_eq, opt_view, PatternDto, PatternType, PatternWrite, QueryType};
use crate::local::LocalPattern;
use crate::sync::model::{count_where, creates_of, deletes_of, is_create, is_delete, is_skip, is_update, op_views, skips_of, updates_of, OperationView, PlannedOperation, SyncPlan};
use crate::text::{
    chars_equal, chars_less, chars_of, decimal, is_blank, lemma_text_less_total, lemma_text_less_transitive, lowercase, owned, push_decimal, str_is_blank,
    text_less, to_lowercase, trim, trim_str,
};
use crate::xml::{xml_digest, xml_sha256};

verus! {

// ---------------------------------------------------------------------------
// Names
// ---------------------------------------------------------------------------

/// The form in which pattern names are compared: trimmed, then lower-cased.
pub open spec fn name_key(name: Seq<char>) -> Seq<char> {
    lowercase(trim(name))
}

/// A pattern name in the form in which names are compared.
pub fn normalized_name(value: &str) -> (r: String)
    ensures
        r@ == name_key(value@),
{
    let trimmed = trim_str(value);
    to_lowercase(trimmed.as_str())
}

/// The comparison key of server pattern `j`.
pub open spec fn server_key(server: Seq<PatternDto>, j: int) -> Seq<char> {
    name_key(server[j].name@)
}

/// The comparison key of local pattern `k`.
pub open spec fn local_key(locals: Seq<LocalPattern>, k: int) -> Seq<char> {
    name_key(locals[k].name@)
}

// ---------------------------------------------------------------------------
// Errors
// ---------------------------------------------------------------------------

/// Why no plan could be built.
#[derive(Debug)]
pub enum PlanError {
    /// A server pattern has no UUID, or a blank one.
    MissingServerUuid { name: String },
    /// A server pattern has a blank name.
    EmptyServerName,
    /// Two server patterns have names that differ only in case or surrounding
    /// whitespace.
    DuplicateServerName { previous: String, current: String },
    /// A local pattern has no pattern type.
    UnresolvedType,
    /// A local pattern has no severity.
    UnresolvedSeverity,
    /// A local pattern has no confidence.
    UnresolvedConfidence,
}

/// Whether a server pattern lacks a usable UUID.
pub open spec fn uuid_missing(p: PatternDto) -> bool {
    match p.uuid {
        Some(u) => is_blank(u@),
        None => true,
    }
}

/// The first invalid server pattern's error, scanning in order.
pub open spec fn server_problem(server: Seq<PatternDto>) -> Option<PlanError>
    decreases server.len(),
{
    if server.len() == 0 {
        None
    } else if uuid_missing(server[0]) {
        Some(PlanError::MissingServerUuid { name: server[0].name })
    } else if is_blank(server[0].name@) {
        Some(PlanError::EmptyServerName)
    } else {
        server_problem(server.drop_first())
    }
}

/// Whether server pattern `j` has the key of an earlier one.
pub open spec fn repeats_earlier(server: Seq<PatternDto>, j: int) -> bool {
    exists|i: int| 0 <= i < j && server_key(server, i) == server_key(server, j)
}

/// The first server pattern, from index `j` on, whose key repeats an earlier one.
pub open spec fn first_repeat(server: Seq<PatternDto>, j: int) -> Option<int>
    decreases server.len() - j,
{
    if j < 0 || j >= server.len() {
        None
    } else if repeats_earlier(server, j) {
        Some(j)
    } else {
        first_repeat(server, j + 1)
    }
}

/// Whether the keys of the first `upto` server patterns are all different.
pub open spec fn keys_distinct(server: Seq<PatternDto>, upto: int) -> bool {
    forall|a: int, b: int|
        0 <= a < b < upto ==> server_key(server, a) != server_key(server, b)
}

/// The error for a repeated key at `j`: the earlier pattern and this one.
pub open spec fn repeat_error(server: Seq<PatternDto>, j: int) -> PlanError {
    let i = choose|i: int| 0 <= i < j && server_key(server, i) == server_key(server, j);
    PlanError::DuplicateServerName { previous: server[i].name, current: server[j].name }
}

// ---------------------------------------------------------------------------
// Desired state of one pattern
// ---------------------------------------------------------------------------

/// The server index whose key is `key`, if any.
pub open spec fn match_of(server: Seq<PatternDto>, key: Seq<char>) -> Option<int> {
    if exists|j: int| 0 <= j < server.len() && server_key(server, j) == key {
        Some(choose|j: int| 0 <= j < server.len() && server_key(server, j) == key)
    } else {
        None
    }
}

pub open spec fn current_uuid(current: Option<PatternDto>) -> Option<String> {
    match current {
        Some(c) => c.uuid,
        None => None,
    }
}

pub open spec fn current_query_type(current: Option<PatternDto>) -> Option<QueryType> {
    match current {
        Some(c) => c.query_type,
        None => None,
    }
}

pub open spec fn current_file_regex(current: Option<PatternDto>) -> Option<String> {
    match current {
        Some(c) => c.file_regex,
        None => None,
    }
}

/// Whether `w` is what the server should hold for `local`: type, active flag,
/// name and XML from the local pattern; the UUID of the current server pattern;
/// severity and confidence from the local settings; the other optional
/// parameters from the local settings, else kept from the server pattern
/// (absent when creating).
pub open spec fn desired_for(
    w: PatternWrite,
    rule_id: Seq<char>,
    local: LocalPattern,
    current: Option<PatternDto>,
) -> bool {
    &&& w.uuid == current_uuid(current)
    &&& w.rule_id@ == rule_id
    &&& local.settings.severity == Some(w.severity)
    &&& local.settings.confidence == Some(w.confidence)
    &&& w.name == local.name
    &&& w.xml == local.xml
    &&& local.settings.pattern_type == Some(w.pattern_type)
    &&& w.active == local.settings.active.unwrap_or(true)
    &&& w.shared is None
    &&& w.user is None
    &&& w.query_type == or_else(local.settings.query_type, current_query_type(current))
    &&& w.file_regex == or_else(local.settings.file_regex, current_file_regex(current))
}

// ---------------------------------------------------------------------------
// Changes
// ---------------------------------------------------------------------------

/// `{:?}` of a pattern type.
pub open spec fn debug_pattern_type(t: PatternType) -> Seq<char> {
    match t {
        PatternType::Reporting => "Reporting"@,
        PatternType::Dataflow => "Dataflow"@,
    }
}

/// `{:?}` of an optional pattern type.
pub open spec fn debug_opt_pattern_type(t: Option<PatternType>) -> Seq<char> {
    match t {
        Some(v) => "Some("@ + debug_pattern_type(v) + ")"@,
        None => "None"@,
    }
}

/// `{:?}` of an optional query type.
pub open spec fn debug_opt_query_type(t: Option<QueryType>) -> Seq<char> {
    match t {
        Some(QueryType::Regex) => "Some(Regex)"@,
        Some(QueryType::Xpath) => "Some(Xpath)"@,
        None => "None"@,
    }
}

/// `{}` of a flag.
pub open spec fn bool_text(b: bool) -> Seq<char> {
    if b {
        "true"@
    } else {
        "false"@
    }
}

/// `{:?}` of an optional flag.
pub open spec fn debug_opt_bool(b: Option<bool>) -> Seq<char> {
    match b {
        Some(v) => "Some("@ + bool_text(v) + ")"@,
        None => "None"@,
    }
}

/// `{:?}` of an optional integer.
pub open spec fn debug_opt_int(v: Option<i32>) -> Seq<char> {
    match v {
        Some(x) => "Some("@ + decimal(x as int) + ")"@,
        None => "None"@,
    }
}

/// `seq![item]` when `cond` holds, else nothing.
pub open spec fn item_if(cond: bool, item: Seq<char>) -> Seq<Seq<char>> {
    if cond {
        seq![item]
    } else {
        seq![]
    }
}

/// The differences between server pattern `cur` and the desired values, in
/// the order they are reported.
pub open spec fn changes_between(
    cur: PatternDto,
    name: Seq<char>,
    xml: Seq<char>,
    pattern_type: PatternType,
    active: bool,
    severity: i32,
    confidence: i32,
    query_type: Option<QueryType>,
    file_regex: Option<Seq<char>>,
) -> Seq<Seq<char>> {
    item_if(cur.name@ != name, "name changed"@)
    + item_if(xml_digest(cur.xml@) != xml_digest(xml), "XML changed"@)
    + item_if(cur.pattern_type != Some(pattern_type),
        "type: "@ + debug_opt_pattern_type(cur.pattern_type) + " -> "@ + debug_pattern_type(pattern_type))
    + item_if(cur.active.unwrap_or(false) != active,
        "active: "@ + debug_opt_bool(cur.active) + " -> "@ + bool_text(active))
    + item_if(cur.severity != Some(severity),
        "severity: "@ + debug_opt_int(cur.severity) + " -> "@ + decimal(severity as int))
    + item_if(cur.confidence != Some(confidence),
        "confidence: "@ + debug_opt_int(cur.confidence) + " -> "@ + decimal(confidence as int))
    + item_if(cur.query_type != query_type,
        "queryType: "@ + debug_opt_query_type(cur.query_type) + " -> "@ + debug_opt_query_type(query_type))
    + item_if(opt_view(cur.file_regex) != file_regex, "fileRegex changed"@)
}

/// The differences between server pattern `cur` and the write `w`.
pub open spec fn change_list(cur: PatternDto, w: PatternWrite) -> Seq<Seq<char>> {
    changes_between(
        cur,
        w.name@,
        w.xml@,
        w.pattern_type,
        w.active,
        w.severity,
        w.confidence,
        w.query_type,
        opt_view(w.file_regex),
    )
}

/// Whether server pattern `cur` already holds the write `w` on every field the
/// tool manages: name, XML (by hash of its normal form), type, active flag,
/// severity, confidence, query type and file filter.
pub open spec fn write_matches(cur: PatternDto, w: PatternWrite) -> bool {
    &&& cur.name@ == w.name@
    &&& xml_digest(cur.xml@) == xml_digest(w.xml@)
    &&& cur.pattern_type == Some(w.pattern_type)
    &&& cur.active.unwrap_or(false) == w.active
    &&& cur.severity == Some(w.severity)
    &&& cur.confidence == Some(w.confidence)
    &&& cur.query_type == w.query_type
    &&& opt_view(cur.file_regex) == opt_view(w.file_regex)
}

/// No difference is reported exactly when the server pattern already holds
/// the write on every managed field.
pub proof fn lemma_no_changes_iff_matches(cur: PatternDto, w: PatternWrite)
    ensures
        change_list(cur, w).len() == 0 <==> write_matches(cur, w),
{
}

/// The differences between server pattern `cur` and what `local` asks of it.
pub open spec fn local_changes(cur: PatternDto, local: LocalPattern) -> Seq<Seq<char>> {
    changes_between(
        cur,
        local.name@,
        local.xml@,
        local.settings.pattern_type.unwrap(),
        local.settings.active.unwrap_or(true),
        local.settings.severity.unwrap(),
        local.settings.confidence.unwrap(),
        or_else(local.settings.query_type, cur.query_type),
        opt_view(or_else(local.settings.file_regex, cur.file_regex)),
    )
}

// ---------------------------------------------------------------------------
// The plan
// ---------------------------------------------------------------------------

/// Whether `op` is the right operation for `local`: create when no server
/// pattern has its key; else skip when nothing differs, update otherwise.
pub open spec fn local_operation_ok(
    op: OperationView,
    rule_id: Seq<char>,
    local: LocalPattern,
    server: Seq<PatternDto>,
) -> bool {
    match match_of(server, name_key(local.name@)) {
        None => op matches OperationView::Create { desired } && desired_for(
            desired,
            rule_id,
            local,
            None,
        ),
        Some(j) => {
            let cur = server[j];
            match op {
                OperationView::Skip { name } => name == local.name@ && local_changes(cur, local).len()
                    == 0,
                OperationView::Update { before, desired, changes } => {
                    &&& before == cur
                    &&& desired_for(desired, rule_id, local, Some(cur))
                    &&& changes == local_changes(cur, local)
                    &&& changes.len() > 0
                },
                _ => false,
            }
        },
    }
}

/// Whether server pattern `j` has no local pattern with its key.
pub open spec fn is_extra(server: Seq<PatternDto>, locals: Seq<LocalPattern>, j: int) -> bool {
    !exists|k: int| 0 <= k < locals.len() && local_key(locals, k) == server_key(server, j)
}

/// The server pattern a delete operation removes.
pub open spec fn deleted(op: OperationView) -> PatternDto {
    match op {
        OperationView::Delete { current } => current,
        _ => arbitrary(),
    }
}

/// Whether `ops` is the plan for `locals` against `server`: one operation per
/// local pattern, in order; then one delete per server pattern without a
/// local counterpart, in ascending order of key.
pub open spec fn plan_matches(
    ops: Seq<OperationView>,
    rule_id: Seq<char>,
    locals: Seq<LocalPattern>,
    server: Seq<PatternDto>,
) -> bool {
    let n = locals.len();
    &&& ops.len() >= n
    &&& forall|k: int| 0 <= k < n ==> local_operation_ok(#[trigger] ops[k], rule_id, locals[k], server)
    &&& forall|m: int| n <= m < ops.len() ==> (#[trigger] ops[m] is Delete && exists|j: int|
        0 <= j < server.len() && is_extra(server, locals, j) && deleted(ops[m]) == server[j])
    &&& forall|m1: int, m2: int|
        n <= m1 < m2 < ops.len() ==> text_less(
            name_key(deleted(#[trigger] ops[m1]).name@),
            name_key(deleted(#[trigger] ops[m2]).name@),
        )
    &&& forall|j: int|
        0 <= j < server.len() && is_extra(server, locals, j) ==> exists|m: int|
            n <= m < ops.len() && #[trigger] ops[m] == OperationView::Delete { current: server[j] }
}

/// What a local pattern lacks for a write, if anything, checked in the order
/// type, severity, confidence.
pub open spec fn local_problem(local: LocalPattern) -> Option<PlanError> {
    if local.settings.pattern_type is None {
        Some(PlanError::UnresolvedType)
    } else if local.settings.severity is None {
        Some(PlanError::UnresolvedSeverity)
    } else if local.settings.confidence is None {
        Some(PlanError::UnresolvedConfidence)
    } else {
        None
    }
}

/// The problem of the first local pattern that has one.
pub open spec fn first_local_problem(locals: Seq<LocalPattern>) -> Option<PlanError>
    decreases locals.len(),
{
    if locals.len() == 0 {
        None
    } else if local_problem(locals[0]) is Some {
        local_problem(locals[0])
    } else {
        first_local_problem(locals.drop_first())
    }
}

/// Local patterns that each have a type, a severity and a confidence have no
/// first problem.
pub(crate) proof fn lemma_no_local_problem(locals: Seq<LocalPattern>)
    requires
        forall|k: int| 0 <= k < locals.len() ==> local_problem(#[trigger] locals[k]) is None,
    ensures
        first_local_problem(locals) is None,
    decreases locals.len(),
{
    if locals.len() > 0 {
        assert(local_problem(locals[0]) is None);
        assert forall|k: int| 0 <= k < locals.drop_first().len() implies local_problem(
            #[trigger] locals.drop_first()[k],
        ) is None by {
            assert(locals.drop_first()[k] == locals[k + 1]);
        }
        lemma_no_local_problem(locals.drop_first());
    }
}

} // verus!

verus! {

// ---------------------------------------------------------------------------
// Debug text of field values
// ---------------------------------------------------------------------------

fn push_debug_pattern_type(s: &mut String, t: PatternType)
    ensures
        final(s)@ == old(s)@ + debug_pattern_type(t),
{
    match t {
        PatternType::Reporting => s.append("Reporting"),
        PatternType::Dataflow => s.append("Dataflow"),
    }
}

fn push_debug_opt_pattern_type(s: &mut String, t: Option<PatternType>)
    ensures
        final(s)@ == old(s)@ + debug_opt_pattern_type(t),
{
    match t {
        Some(v) => {
            s.append("Some(");
            push_debug_pattern_type(s, v);
            s.append(")");
            assert(final(s)@ == old(s)@ + ("Some("@ + debug_pattern_type(v) + ")"@));
        },
        None => s.append("None"),
    }
}

fn push_debug_opt_query_type(s: &mut String, t: Option<QueryType>)
    ensures
        final(s)@ == old(s)@ + debug_opt_query_type(t),
{
    match t {
        Some(QueryType::Regex) => s.append("Some(Regex)"),
        Some(QueryType::Xpath) => s.append("Some(Xpath)"),
        None => s.append("None"),
    }
}

fn push_bool_text(s: &mut String, b: bool)
    ensures
        final(s)@ == old(s)@ + bool_text(b),
{
    if b {
        s.append("true");
    } else {
        s.append("false");
    }
}

fn push_debug_opt_bool(s: &mut String, b: Option<bool>)
    ensures
        final(s)@ == old(s)@ + debug_opt_bool(b),
{
    match b {
        Some(v) => {
            s.append("Some(");
            push_bool_text(s, v);
            s.append(")");
            assert(final(s)@ == old(s)@ + ("Some("@ + bool_text(v) + ")"@));
        },
        None => s.append("None"),
    }
}

fn push_debug_opt_int(s: &mut String, v: Option<i32>)
    ensures
        final(s)@ == old(s)@ + debug_opt_int(v),
{
    match v {
        Some(x) => {
            s.append("Some(");
            push_decimal(s, x as i64);
            s.append(")");
            assert(final(s)@ == old(s)@ + ("Some("@ + decimal(x as int) + ")"@));
        },
        None => s.append("None"),
    }
}

fn same_pattern_type(a: Option<PatternType>, b: PatternType) -> (r: bool)
    ensures
        r == (a == Some(b)),
{
    match a {
        Some(x) => x == b,
        None => false,
    }
}

fn same_query_type(a: Option<QueryType>, b: Option<QueryType>) -> (r: bool)
    ensures
        r == (a == b),
{
    match (a, b) {
        (Some(x), Some(y)) => x == y,
        (None, None) => true,
        _ => false,
    }
}

fn push_if(changes: &mut Vec<String>, cond: bool, item: String)
    ensures
        crate::text::views(final(changes)@) == crate::text::views(old(changes)@) + item_if(cond, item@),
{
    if cond {
        changes.push(item);
        assert(crate::text::views(changes@) =~= crate::text::views(old(changes)@) + seq![item@]);
    } else {
        assert(crate::text::views(changes@) =~= crate::text::views(old(changes)@) + Seq::<Seq<char>>::empty());
    }
}

fn type_change_text(current: Option<PatternType>, desired: PatternType) -> (r: String)
    ensures
        r@ == "type: "@ + debug_opt_pattern_type(current) + " -> "@ + debug_pattern_type(desired),
{
    let mut s = owned("type: ");
    push_debug_opt_pattern_type(&mut s, current);
    s.append(" -> ");
    push_debug_pattern_type(&mut s, desired);
    s
}

fn active_change_text(current: Option<bool>, desired: bool) -> (r: String)
    ensures
        r@ == "active: "@ + debug_opt_bool(current) + " -> "@ + bool_text(desired),
{
    let mut s = owned("active: ");
    push_debug_opt_bool(&mut s, current);
    s.append(" -> ");
    push_bool_text(&mut s, desired);
    s
}

fn int_change_text(label: &str, current: Option<i32>, desired: i32) -> (r: String)
    ensures
        r@ == label@ + debug_opt_int(current) + " -> "@ + decimal(desired as int),
{
    let mut s = owned(label);
    push_debug_opt_int(&mut s, current);
    s.append(" -> ");
    push_decimal(&mut s, desired as i64);
    s
}

fn query_change_text(current: Option<QueryType>, desired: Option<QueryType>) -> (r: String)
    ensures
        r@ == "queryType: "@ + debug_opt_query_type(current) + " -> "@ + debug_opt_query_type(desired),
{
    let mut s = owned("queryType: ");
    push_debug_opt_query_type(&mut s, current);
    s.append(" -> ");
    push_debug_opt_query_type(&mut s, desired);
    s
}

/// The differences between a server pattern and the pattern that should
/// replace it, each as a short line of text.
pub fn detect_changes(current: &PatternDto, desired: &PatternWrite) -> (r: Vec<String>)
    ensures
        crate::text::views(r@) == change_list(*current, *desired),
        r@.len() == 0 <==> write_matches(*current, *desired),
{
    let mut changes: Vec<String> = Vec::new();
    assert(crate::text::views(changes@) =~= Seq::<Seq<char>>::empty());
    push_if(&mut changes, !current.name.eq(&desired.name), owned("name changed"));
    let current_hash = xml_sha256(current.xml.as_str());
    let desired_hash = xml_sha256(desired.xml.as_str());
    push_if(&mut changes, !current_hash.eq(&desired_hash), owned("XML changed"));
    push_if(
        &mut changes,
        !same_pattern_type(current.pattern_type, desired.pattern_type),
        type_change_text(current.pattern_type, desired.pattern_type),
    );
    let current_active = match current.active {
        Some(a) => a,
        None => false,
    };
    push_if(
        &mut changes,
        current_active != desired.active,
        active_change_text(current.active, desired.active),
    );
    push_if(
        &mut changes,
        !opt_i32_eq(current.severity, Some(desired.severity)),
        int_change_text("severity: ", current.severity, desired.severity),
    );
    push_if(
        &mut changes,
        !opt_i32_eq(current.confidence, Some(desired.confidence)),
        int_change_text("confidence: ", current.confidence, desired.confidence),
    );
    push_if(
        &mut changes,
        !same_query_type(current.query_type, desired.query_type),
        query_change_text(current.query_type, desired.query_type),
    );
    push_if(
        &mut changes,
        !opt_string_eq(&current.file_regex, &desired.file_regex),
        owned("fileRegex changed"),
    );
    assert(Seq::<Seq<char>>::empty() + item_if(current.name@ != desired.name@, "name changed"@)
        =~= item_if(current.name@ != desired.name@, "name changed"@));
    proof {
        lemma_no_changes_iff_matches(*current, *desired);
    }
    changes
}


// ---------------------------------------------------------------------------
// Checks of the server patterns
// ---------------------------------------------------------------------------

/// Checks that every server pattern has a UUID and a name.
pub fn validate_server_patterns(server_patterns: &[PatternDto]) -> (r: Result<(), PlanError>)
    ensures
        server_problem(server_patterns@) is None ==> r is Ok,
        server_problem(server_patterns@) matches Some(e) ==> r == Err::<(), PlanError>(e),
{
    let n = server_patterns.len();
    let mut i: usize = 0;
    assert(server_patterns@.subrange(0, n as int) =~= server_patterns@);
    while i < n
        invariant
            i <= n,
            n == server_patterns@.len(),
            server_problem(server_patterns@) == server_problem(
                server_patterns@.subrange(i as int, n as int),
            ),
        decreases n - i,
    {
        let pattern = &server_patterns[i];
        let ghost rest = server_patterns@.subrange(i as int, n as int);
        assert(rest[0] == server_patterns@[i as int]);
        let uuid_blank = match &pattern.uuid {
            Some(u) => str_is_blank(u.as_str()),
            None => true,
        };
        if uuid_blank {
            return Err(PlanError::MissingServerUuid { name: pattern.name.clone() });
        }
        if str_is_blank(pattern.name.as_str()) {
            return Err(PlanError::EmptyServerName);
        }
        assert(rest.drop_first() =~= server_patterns@.subrange(i + 1, n as int));
        i += 1;
    }
    Ok(())
}

/// The comparison keys of the server patterns.
fn server_keys(server_patterns: &[PatternDto]) -> (keys: Vec<Vec<char>>)
    ensures
        keys@.len() == server_patterns@.len(),
        forall|j: int| 0 <= j < keys@.len() ==> (#[trigger] keys@[j])@ == server_key(server_patterns@, j),
{
    let mut keys: Vec<Vec<char>> = Vec::new();
    let mut j: usize = 0;
    while j < server_patterns.len()
        invariant
            j <= server_patterns@.len(),
            keys@.len() == j,
            forall|q: int| 0 <= q < j ==> (#[trigger] keys@[q])@ == server_key(server_patterns@, q),
        decreases server_patterns@.len() - j,
    {
        let key = normalized_name(server_patterns[j].name.as_str());
        keys.push(chars_of(key.as_str()));
        j += 1;
    }
    keys
}

/// The comparison keys of the local patterns.
fn local_keys(local_patterns: &[LocalPattern]) -> (keys: Vec<Vec<char>>)
    ensures
        keys@.len() == local_patterns@.len(),
        forall|k: int| 0 <= k < keys@.len() ==> (#[trigger] keys@[k])@ == local_key(local_patterns@, k),
{
    let mut keys: Vec<Vec<char>> = Vec::new();
    let mut k: usize = 0;
    while k < local_patterns.len()
        invariant
            k <= local_patterns@.len(),
            keys@.len() == k,
            forall|q: int| 0 <= q < k ==> (#[trigger] keys@[q])@ == local_key(local_patterns@, q),
        decreases local_patterns@.len() - k,
    {
        let key = normalized_name(local_patterns[k].name.as_str());
        keys.push(chars_of(key.as_str()));
        k += 1;
    }
    keys
}

/// Checks that no two server patterns share a key.
fn check_duplicates(server_patterns: &[PatternDto], keys: &Vec<Vec<char>>) -> (r: Result<(), PlanError>)
    requires
        keys@.len() == server_patterns@.len(),
        forall|j: int| 0 <= j < keys@.len() ==> (#[trigger] keys@[j])@ == server_key(server_patterns@, j),
    ensures
        first_repeat(server_patterns@, 0) is None ==> r is Ok && keys_distinct(server_patterns@, server_patterns@.len() as int),
        first_repeat(server_patterns@, 0) matches Some(j) ==> r == Err::<(), PlanError>(repeat_error(server_patterns@, j)),
{
    let ghost s = server_patterns@;
    let n = keys.len();
    let mut j: usize = 0;
    while j < n
        invariant
            j <= n,
            n == s.len(),
            s == server_patterns@,
            keys@.len() == n,
            forall|q: int| 0 <= q < n ==> (#[trigger] keys@[q])@ == server_key(s, q),
            first_repeat(s, 0) == first_repeat(s, j as int),
            keys_distinct(s, j as int),
        decreases n - j,
    {
        let mut i: usize = 0;
        while i < j
            invariant
                i <= j < n,
                n == s.len(),
                s == server_patterns@,
                keys@.len() == n,
                keys_distinct(s, j as int),
                first_repeat(s, 0) == first_repeat(s, j as int),
                forall|q: int| 0 <= q < n ==> (#[trigger] keys@[q])@ == server_key(s, q),
                forall|q: int| 0 <= q < i ==> server_key(s, q) != server_key(s, j as int),
            decreases j - i,
        {
            if chars_equal(&keys[i], &keys[j]) {
                proof {
                    assert(keys@[i as int]@ == server_key(s, i as int));
                    assert(keys@[j as int]@ == server_key(s, j as int));
                    assert(repeats_earlier(s, j as int));
                    let c = choose|c: int| 0 <= c < j && server_key(s, c) == server_key(s, j as int);
                    if c != i {
                        if c < i {
                            assert(server_key(s, c) != server_key(s, i as int));
                        } else {
                            assert(server_key(s, i as int) != server_key(s, c));
                        }
                    }
                }
                return Err(PlanError::DuplicateServerName {
                    previous: server_patterns[i].name.clone(),
                    current: server_patterns[j].name.clone(),
                });
            }
            proof {
                assert(keys@[i as int]@ == server_key(s, i as int));
                assert(keys@[j as int]@ == server_key(s, j as int));
            }
            i += 1;
        }
        assert(!repeats_earlier(s, j as int));
        j += 1;
    }
    Ok(())
}

/// Indexes the server patterns by comparison key: the key of each pattern, by
/// position, once no two of them share a key.
fn index_server_patterns(server_patterns: &[PatternDto]) -> (r: Result<Vec<Vec<char>>, PlanError>)
    ensures
        first_repeat(server_patterns@, 0) is None ==> (r matches Ok(keys) && keys_distinct(
            server_patterns@,
            server_patterns@.len() as int,
        ) && keys@.len() == server_patterns@.len() && forall|j: int|
            0 <= j < keys@.len() ==> (#[trigger] keys@[j])@ == server_key(server_patterns@, j)),
        first_repeat(server_patterns@, 0) matches Some(j) ==> r == Err::<Vec<Vec<char>>, PlanError>(
            repeat_error(server_patterns@, j),
        ),
{
    let keys = server_keys(server_patterns);
    match check_duplicates(server_patterns, &keys) {
        Ok(()) => Ok(keys),
        Err(e) => Err(e),
    }
}

/// Under distinct keys, the server pattern with key `key` is the one found.
proof fn lemma_match_unique(server: Seq<PatternDto>, key: Seq<char>, j: int)
    requires
        keys_distinct(server, server.len() as int),
        0 <= j < server.len(),
        server_key(server, j) == key,
    ensures
        match_of(server, key) == Some(j),
{
    let c = choose|c: int| 0 <= c < server.len() && server_key(server, c) == key;
    if c != j {
        if c < j {
            assert(server_key(server, c) != server_key(server, j));
        } else {
            assert(server_key(server, j) != server_key(server, c));
        }
    }
}

/// The index of `key` in `keys`, if present.
fn find_key(keys: &Vec<Vec<char>>, key: &Vec<char>) -> (r: Option<usize>)
    ensures
        r matches Some(j) ==> j < keys@.len() && keys@[j as int]@ == key@,
        r is None ==> forall|j: int| 0 <= j < keys@.len() ==> (#[trigger] keys@[j])@ != key@,
{
    let mut j: usize = 0;
    while j < keys.len()
        invariant
            j <= keys@.len(),
            forall|q: int| 0 <= q < j ==> (#[trigger] keys@[q])@ != key@,
        decreases keys@.len() - j,
    {
        if chars_equal(&keys[j], key) {
            return Some(j);
        }
        j += 1;
    }
    None
}

// ---------------------------------------------------------------------------
// Operations for the local patterns
// ---------------------------------------------------------------------------

/// The server pattern a reference points to, if any.
pub open spec fn deref_pattern(current: Option<&PatternDto>) -> Option<PatternDto> {
    match current {
        Some(c) => Some(*c),
        None => None,
    }
}

/// The pattern the server should hold for `local`, given the server pattern
/// with the same key, if any.
pub fn build_desired_pattern(
    rule_id: &str,
    local: &LocalPattern,
    current: Option<&PatternDto>,
) -> (r: Result<PatternWrite, PlanError>)
    ensures
        local_problem(*local) matches Some(e) ==> r == Err::<PatternWrite, PlanError>(e),
        local_problem(*local) is None ==> (r matches Ok(w) && desired_for(
            w,
            rule_id@,
            *local,
            deref_pattern(current),
        )),
{
    let pattern_type = match local.settings.pattern_type {
        Some(t) => t,
        None => {
            return Err(PlanError::UnresolvedType);
        },
    };
    let severity = match local.settings.severity {
        Some(v) => v,
        None => {
            return Err(PlanError::UnresolvedSeverity);
        },
    };
    let confidence = match local.settings.confidence {
        Some(v) => v,
        None => {
            return Err(PlanError::UnresolvedConfidence);
        },
    };
    let uuid = match current {
        Some(pattern) => clone_opt_string(&pattern.uuid),
        None => None,
    };
    let query_type = match local.settings.query_type {
        Some(v) => Some(v),
        None => match current {
            Some(pattern) => pattern.query_type,
            None => None,
        },
    };
    let file_regex = match &local.settings.file_regex {
        Some(v) => Some(v.clone()),
        None => match current {
            Some(pattern) => clone_opt_string(&pattern.file_regex),
            None => None,
        },
    };
    let active = match local.settings.active {
        Some(a) => a,
        None => true,
    };
    Ok(PatternWrite {
        uuid,
        rule_id: owned(rule_id),
        severity,
        confidence,
        name: local.name.clone(),
        xml: local.xml.clone(),
        pattern_type,
        active,
        shared: None,
        user: None,
        query_type,
        file_regex,
    })
}

/// The operation for one local pattern.
#[verifier::spinoff_prover]
#[verifier::rlimit(40)]
fn plan_local_operation(
    rule_id: &str,
    local: &LocalPattern,
    server_patterns: &[PatternDto],
    keys: &Vec<Vec<char>>,
) -> (r: Result<PlannedOperation, PlanError>)
    requires
        keys@.len() == server_patterns@.len(),
        forall|j: int| 0 <= j < keys@.len() ==> (#[trigger] keys@[j])@ == server_key(server_patterns@, j),
        keys_distinct(server_patterns@, server_patterns@.len() as int),
    ensures
        local_problem(*local) matches Some(e) ==> r == Err::<PlannedOperation, PlanError>(e),
        local_problem(*local) is None ==> (r matches Ok(op) && local_operation_ok(
            op@,
            rule_id@,
            *local,
            server_patterns@,
        )),
{
    let key_text = normalized_name(local.name.as_str());
    let key = chars_of(key_text.as_str());
    let found = find_key(keys, &key);
    proof {
        match found {
            Some(j) => {
                lemma_match_unique(server_patterns@, key@, j as int);
            },
            None => {
                assert(!exists|j: int|
                    0 <= j < server_patterns@.len() && server_key(server_patterns@, j) == key@) by {
                    if exists|j: int|
                        0 <= j < server_patterns@.len() && server_key(server_patterns@, j) == key@ {
                        let j = choose|j: int|
                            0 <= j < server_patterns@.len() && server_key(server_patterns@, j)
                                == key@;
                        assert(keys@[j]@ == server_key(server_patterns@, j));
                    }
                }
            },
        }
    }
    match found {
        None => {
            let desired = build_desired_pattern(rule_id, local, None)?;
            Ok(PlannedOperation::Create { desired })
        },
        Some(j) => {
            let current = &server_patterns[j];
            let desired = build_desired_pattern(rule_id, local, Some(current))?;
            let changes = detect_changes(current, &desired);
            proof {
                assert(change_list(*current, desired) == local_changes(*current, *local));
            }
            if changes.len() == 0 {
                Ok(PlannedOperation::Skip { name: local.name.clone() })
            } else {
                Ok(PlannedOperation::Update { before: current.clone(), desired, changes })
            }
        },
    }
}

// ---------------------------------------------------------------------------
// Server patterns without a local counterpart
// ---------------------------------------------------------------------------

/// The indices of the server patterns without a local counterpart, in
/// ascending order of key.
fn extra_order(
    server_patterns: &[PatternDto],
    local_patterns: &[LocalPattern],
    keys: &Vec<Vec<char>>,
    locals: &Vec<Vec<char>>,
) -> (order: Vec<usize>)
    requires
        keys@.len() == server_patterns@.len(),
        forall|j: int| 0 <= j < keys@.len() ==> (#[trigger] keys@[j])@ == server_key(server_patterns@, j),
        locals@.len() == local_patterns@.len(),
        forall|k: int| 0 <= k < locals@.len() ==> (#[trigger] locals@[k])@ == local_key(local_patterns@, k),
        keys_distinct(server_patterns@, server_patterns@.len() as int),
    ensures
        forall|m: int| 0 <= m < order@.len() ==> (#[trigger] order@[m]) < server_patterns@.len()
            && is_extra(server_patterns@, local_patterns@, order@[m] as int),
        forall|a: int, b: int| 0 <= a < b < order@.len() ==> text_less(
            server_key(server_patterns@, #[trigger] order@[a] as int),
            server_key(server_patterns@, #[trigger] order@[b] as int),
        ),
        forall|j: int| 0 <= j < server_patterns@.len() && is_extra(server_patterns@, local_patterns@, j)
            ==> #[trigger] order@.contains(j as usize),
{
    let ghost s = server_patterns@;
    let ghost l = local_patterns@;
    let n = keys.len();
    let mut order: Vec<usize> = Vec::new();
    let mut j: usize = 0;
    while j < n
        invariant
            j <= n,
            n == s.len(),
            s == server_patterns@,
            l == local_patterns@,
            keys@.len() == n,
            forall|q: int| 0 <= q < n ==> (#[trigger] keys@[q])@ == server_key(s, q),
            locals@.len() == l.len(),
            forall|k: int| 0 <= k < locals@.len() ==> (#[trigger] locals@[k])@ == local_key(l, k),
            keys_distinct(s, n as int),
            forall|m: int| 0 <= m < order@.len() ==> (#[trigger] order@[m]) < j && is_extra(s, l, order@[m] as int),
            forall|a: int, b: int| 0 <= a < b < order@.len() ==> text_less(
                server_key(s, #[trigger] order@[a] as int),
                server_key(s, #[trigger] order@[b] as int),
            ),
            forall|q: int| 0 <= q < j && is_extra(s, l, q) ==> #[trigger] order@.contains(q as usize),
        decreases n - j,
    {
        let found = find_key(locals, &keys[j]);
        let extra = found.is_none();
        proof {
            assert(keys@[j as int]@ == server_key(s, j as int));
            match found {
                Some(k) => {
                    assert(locals@[k as int]@ == local_key(l, k as int));
                    assert(!is_extra(s, l, j as int));
                },
                None => {
                    assert forall|k: int| 0 <= k < l.len() implies local_key(l, k) != server_key(s, j as int) by {
                        assert(locals@[k]@ == local_key(l, k));
                    }
                    assert(is_extra(s, l, j as int));
                },
            }
        }
        if extra {
            let mut p: usize = 0;
            while p < order.len() && chars_less(&keys[order[p]], &keys[j])
                invariant
                    p <= order@.len(),
                    j < n,
                    keys@.len() == n,
                    forall|q: int| 0 <= q < n ==> (#[trigger] keys@[q])@ == server_key(s, q),
                    forall|m: int| 0 <= m < order@.len() ==> (#[trigger] order@[m]) < j,
                    forall|q: int| 0 <= q < p ==> text_less(
                        server_key(s, #[trigger] order@[q] as int),
                        server_key(s, j as int),
                    ),
                decreases order@.len() - p,
            {
                proof {
                    assert(keys@[order@[p as int] as int]@ == server_key(s, order@[p as int] as int));
                    assert(keys@[j as int]@ == server_key(s, j as int));
                }
                p += 1;
            }
            proof {
                if p < order@.len() {
                    let o = order@[p as int] as int;
                    assert(keys@[o]@ == server_key(s, o));
                    assert(keys@[j as int]@ == server_key(s, j as int));
                    assert(o < j);
                    assert(server_key(s, o) != server_key(s, j as int));
                    lemma_text_less_total(server_key(s, o), server_key(s, j as int));
                }
            }
            let ghost old_order = order@;
            order.insert(p, j);
            proof {
                assert(order@ == old_order.insert(p as int, j));
                assert forall|a: int, b: int| 0 <= a < b < order@.len() implies text_less(
                    server_key(s, #[trigger] order@[a] as int),
                    server_key(s, #[trigger] order@[b] as int),
                ) by {
                    if b < p {
                        assert(order@[a] == old_order[a] && order@[b] == old_order[b]);
                    } else if b == p {
                        assert(order@[a] == old_order[a]);
                    } else if a == p {
                        assert(order@[b] == old_order[b - 1]);
                        let first = old_order[p as int] as int;
                        if b - 1 > p {
                            assert(text_less(server_key(s, first), server_key(s, old_order[b - 1] as int)));
                            lemma_text_less_transitive(
                                server_key(s, j as int),
                                server_key(s, first),
                                server_key(s, old_order[b - 1] as int),
                            );
                        }
                    } else if a < p {
                        assert(order@[a] == old_order[a] && order@[b] == old_order[b - 1]);
                    } else {
                        assert(order@[a] == old_order[a - 1] && order@[b] == old_order[b - 1]);
                    }
                }
                assert forall|q: int| 0 <= q < j + 1 && is_extra(s, l, q) implies #[trigger] order@.contains(q as usize) by {
                    if q == j {
                        assert(order@[p as int] == j);
                    } else {
                        assert(old_order.contains(q as usize));
                        let w = choose|w: int| 0 <= w < old_order.len() && old_order[w] == q as usize;
                        if w < p {
                            assert(order@[w] == q as usize);
                        } else {
                            assert(order@[w + 1] == q as usize);
                        }
                    }
                }
                assert forall|m: int| 0 <= m < order@.len() implies (#[trigger] order@[m]) < j + 1 && is_extra(s, l, order@[m] as int) by {
                    if m < p {
                        assert(order@[m] == old_order[m]);
                    } else if m > p {
                        assert(order@[m] == old_order[m - 1]);
                    }
                }
            }
        } else {
            proof {
                assert forall|q: int| 0 <= q < j + 1 && is_extra(s, l, q) implies #[trigger] order@.contains(q as usize) by {
                    if q < j {
                    }
                }
            }
        }
        j += 1;
    }
    order
}

// ---------------------------------------------------------------------------
// The plan
// ---------------------------------------------------------------------------

/// Builds the synchronisation plan for the local patterns against the server
/// patterns of rule `rule_id`.
///
/// Names are matched ignoring case and surrounding whitespace. Each local
/// pattern gets, in order, a create (no server pattern with its name), a skip
/// (nothing differs) or an update (the changes listed). Then each server
/// pattern without a local counterpart gets a delete, in ascending order of
/// name.
pub fn build_sync_plan(
    rule_id: &str,
    local_patterns: &[LocalPattern],
    server_patterns: &[PatternDto],
) -> (r: Result<SyncPlan, PlanError>)
    ensures
        server_problem(server_patterns@) matches Some(e) ==> r == Err::<SyncPlan, PlanError>(e),
        server_problem(server_patterns@) is None ==> (first_repeat(server_patterns@, 0) matches Some(j)
            ==> r == Err::<SyncPlan, PlanError>(repeat_error(server_patterns@, j))),
        server_problem(server_patterns@) is None && first_repeat(server_patterns@, 0) is None
            ==> (first_local_problem(local_patterns@) matches Some(e) ==> r == Err::<SyncPlan, PlanError>(e)),
        server_problem(server_patterns@) is None && first_repeat(server_patterns@, 0) is None
            && first_local_problem(local_patterns@) is None ==> (r matches Ok(plan) && plan_matches(
            plan@,
            rule_id@,
            local_patterns@,
            server_patterns@,
        )),
{
    validate_server_patterns(server_patterns)?;
    let keys = index_server_patterns(server_patterns)?;
    let locals = local_keys(local_patterns);
    let ghost s = server_patterns@;
    let ghost l = local_patterns@;
    let mut operations: Vec<PlannedOperation> = Vec::new();
    let mut k: usize = 0;
    assert(l.skip(0) =~= l);
    while k < local_patterns.len()
        invariant
            k <= l.len(),
            first_local_problem(l) == first_local_problem(l.skip(k as int)),
            s == server_patterns@,
            l == local_patterns@,
            keys@.len() == s.len(),
            forall|j: int| 0 <= j < keys@.len() ==> (#[trigger] keys@[j])@ == server_key(s, j),
            keys_distinct(s, s.len() as int),
            server_problem(s) is None,
            first_repeat(s, 0) is None,
            operations@.len() == k,
            forall|q: int| 0 <= q < k ==> local_operation_ok(
                (#[trigger] operations@[q])@,
                rule_id@,
                l[q],
                s,
            ),
        decreases l.len() - k,
    {
        proof {
            assert(l.skip(k as int)[0] == l[k as int]);
            assert(l.skip(k as int).drop_first() =~= l.skip(k + 1));
        }
        let op = match plan_local_operation(rule_id, &local_patterns[k], server_patterns, &keys) {
            Ok(op) => op,
            Err(e) => {
                return Err(e);
            },
        };
        operations.push(op);
        k += 1;
    }
    assert(l.skip(l.len() as int).len() == 0);
    let order = extra_order(server_patterns, local_patterns, &keys, &locals);
    let n_local = operations.len();
    let mut m: usize = 0;
    while m < order.len()
        invariant
            m <= order@.len(),
            n_local == l.len(),
            s == server_patterns@,
            l == local_patterns@,
            operations@.len() == n_local + m,
            forall|q: int| 0 <= q < n_local ==> local_operation_ok(
                (#[trigger] operations@[q])@,
                rule_id@,
                l[q],
                s,
            ),
            forall|q: int| 0 <= q < m ==> (#[trigger] operations@[n_local + q])@ == (OperationView::Delete {
                current: s[order@[q] as int],
            }),
            forall|q: int| 0 <= q < order@.len() ==> (#[trigger] order@[q]) < s.len()
                && is_extra(s, l, order@[q] as int),
        decreases order@.len() - m,
    {
        let index = order[m];
        operations.push(PlannedOperation::Delete { current: server_patterns[index].clone() });
        m += 1;
    }
    let n_server = server_patterns.len();
    let plan = SyncPlan::new(operations);
    proof {
        assert(n_server == s.len());
        let ops = plan@;
        assert(ops == op_views(operations@));
        assert forall|q: int| 0 <= q < n_local implies local_operation_ok(#[trigger] ops[q], rule_id@, l[q], s) by {
            assert(ops[q] == operations@[q]@);
        }
        assert forall|q: int| n_local <= q < ops.len() implies (#[trigger] ops[q] is Delete && exists|j: int|
            0 <= j < s.len() && is_extra(s, l, j) && deleted(ops[q]) == s[j]) by {
            assert(ops[q] == operations@[n_local + (q - n_local)]@);
            let j = order@[q - n_local] as int;
            assert(deleted(ops[q]) == s[j]);
        }
        assert forall|m1: int, m2: int| n_local <= m1 < m2 < ops.len() implies text_less(
            name_key(deleted(#[trigger] ops[m1]).name@),
            name_key(deleted(#[trigger] ops[m2]).name@),
        ) by {
            assert(ops[m1] == operations@[n_local + (m1 - n_local)]@);
            assert(ops[m2] == operations@[n_local + (m2 - n_local)]@);
            assert(text_less(
                server_key(s, order@[m1 - n_local] as int),
                server_key(s, order@[m2 - n_local] as int),
            ));
        }
        assert forall|j: int| 0 <= j < s.len() && is_extra(s, l, j) implies exists|m: int|
            n_local <= m < ops.len() && #[trigger] ops[m] == (OperationView::Delete { current: s[j] }) by {
            assert(order@.contains(j as usize));
            let w = choose|w: int| 0 <= w < order@.len() && order@[w] == j as usize;
            assert(ops[n_local + w] == operations@[n_local + w]@);
        }
    }
    Ok(plan)
}

// ---------------------------------------------------------------------------
// Messages
// ---------------------------------------------------------------------------

/// The message that reports a planning error.
pub open spec fn plan_error_message(e: PlanError) -> Seq<char> {
    match e {
        PlanError::MissingServerUuid { name } => "server pattern "@ + crate::text::debug_text(name@)
            + " has no UUID"@,
        PlanError::EmptyServerName => "server returned a pattern with an empty name"@,
        PlanError::DuplicateServerName { previous, current } =>
            "server contains duplicate pattern names ignoring case: "@ + crate::text::debug_text(
            previous@,
        ) + " and "@ + crate::text::debug_text(current@),
        PlanError::UnresolvedType => "internal error: pattern type was not resolved"@,
        PlanError::UnresolvedSeverity => "internal error: pattern severity was not resolved"@,
        PlanError::UnresolvedConfidence => "internal error: pattern confidence was not resolved"@,
    }
}

impl PlanError {
    /// The message that reports this error.
    pub fn message(&self) -> (r: String)
        ensures
            r@ == plan_error_message(*self),
    {
        match self {
            PlanError::MissingServerUuid { name } => {
                let mut s = owned("server pattern ");
                let quoted = crate::text::debug_quoted(name.as_str());
                s.append(quoted.as_str());
                s.append(" has no UUID");
                s
            },
            PlanError::EmptyServerName => owned("server returned a pattern with an empty name"),
            PlanError::DuplicateServerName { previous, current } => {
                let mut s = owned("server contains duplicate pattern names ignoring case: ");
                let first = crate::text::debug_quoted(previous.as_str());
                let second = crate::text::debug_quoted(current.as_str());
                s.append(first.as_str());
                s.append(" and ");
                s.append(second.as_str());
                s
            },
            PlanError::UnresolvedType => owned("internal error: pattern type was not resolved"),
            PlanError::UnresolvedSeverity => owned("internal error: pattern severity was not resolved"),
            PlanError::UnresolvedConfidence => owned(
                "internal error: pattern confidence was not resolved",
            ),
        }
    }
}

// ---------------------------------------------------------------------------
// Laws of the plan
// ---------------------------------------------------------------------------

proof fn lemma_count_concat(a: Seq<OperationView>, b: Seq<OperationView>, pred: spec_fn(OperationView) -> bool)
    ensures
        count_where(a + b, pred) == count_where(a, pred) + count_where(b, pred),
    decreases b.len(),
{
    if b.len() == 0 {
        assert(a + b =~= a);
    } else {
        lemma_count_concat(a, b.drop_last(), pred);
        assert((a + b).drop_last() =~= a + b.drop_last());
        assert((a + b).last() == b.last());
    }
}

proof fn lemma_count_zero(ops: Seq<OperationView>, pred: spec_fn(OperationView) -> bool)
    requires
        forall|i: int| 0 <= i < ops.len() ==> !pred(#[trigger] ops[i]),
    ensures
        count_where(ops, pred) == 0,
    decreases ops.len(),
{
    if ops.len() > 0 {
        lemma_count_zero(ops.drop_last(), pred);
    }
}

proof fn lemma_count_all(ops: Seq<OperationView>, pred: spec_fn(OperationView) -> bool)
    requires
        forall|i: int| 0 <= i < ops.len() ==> pred(#[trigger] ops[i]),
    ensures
        count_where(ops, pred) == ops.len(),
    decreases ops.len(),
{
    if ops.len() > 0 {
        lemma_count_all(ops.drop_last(), pred);
    }
}

proof fn lemma_count_positive(ops: Seq<OperationView>, pred: spec_fn(OperationView) -> bool, i: int)
    requires
        0 <= i < ops.len(),
        pred(ops[i]),
    ensures
        count_where(ops, pred) > 0,
    decreases ops.len(),
{
    if i < ops.len() - 1 {
        lemma_count_positive(ops.drop_last(), pred, i);
    }
}

proof fn lemma_local_prefix_counts(ops: Seq<OperationView>)
    requires
        forall|i: int| 0 <= i < ops.len() ==> !(#[trigger] ops[i] is Delete),
    ensures
        creates_of(ops) + updates_of(ops) + skips_of(ops) == ops.len(),
        deletes_of(ops) == 0,
    decreases ops.len(),
{
    if ops.len() > 0 {
        lemma_local_prefix_counts(ops.drop_last());
    }
}

/// The counts of a plan: creates, updates and skips together number the local
/// patterns; deletes number the server patterns without a local counterpart.
pub proof fn lemma_plan_counts(
    ops: Seq<OperationView>,
    rule_id: Seq<char>,
    locals: Seq<LocalPattern>,
    server: Seq<PatternDto>,
)
    requires
        plan_matches(ops, rule_id, locals, server),
    ensures
        creates_of(ops) + updates_of(ops) + skips_of(ops) == locals.len(),
        deletes_of(ops) == ops.len() - locals.len(),
{
    let n = locals.len() as int;
    let head = ops.take(n);
    let tail = ops.skip(n);
    assert(ops =~= head + tail);
    assert forall|i: int| 0 <= i < head.len() implies !(#[trigger] head[i] is Delete) by {
        assert(head[i] == ops[i]);
        assert(local_operation_ok(ops[i], rule_id, locals[i], server));
    }
    lemma_local_prefix_counts(head);
    assert forall|i: int| 0 <= i < tail.len() implies is_delete(#[trigger] tail[i]) by {
        assert(tail[i] == ops[n + i]);
    }
    lemma_count_all(tail, |o: OperationView| is_delete(o));
    lemma_count_zero(tail, |o: OperationView| is_create(o));
    lemma_count_zero(tail, |o: OperationView| is_update(o));
    lemma_count_zero(tail, |o: OperationView| is_skip(o));
    lemma_count_concat(head, tail, |o: OperationView| is_create(o));
    lemma_count_concat(head, tail, |o: OperationView| is_update(o));
    lemma_count_concat(head, tail, |o: OperationView| is_skip(o));
    lemma_count_concat(head, tail, |o: OperationView| is_delete(o));
}

/// A plan without writes means that the server already mirrors the local
/// patterns: every local pattern has a server pattern with its name and
/// nothing to change, and every server pattern has a local counterpart.
pub proof fn lemma_no_writes_means_mirror(
    ops: Seq<OperationView>,
    rule_id: Seq<char>,
    locals: Seq<LocalPattern>,
    server: Seq<PatternDto>,
)
    requires
        plan_matches(ops, rule_id, locals, server),
        creates_of(ops) + updates_of(ops) + deletes_of(ops) == 0,
    ensures
        forall|k: int| 0 <= k < locals.len() ==> (match_of(server, #[trigger] local_key(locals, k)) matches Some(j)
            && local_changes(server[j], locals[k]).len() == 0),
        forall|j: int| 0 <= j < server.len() ==> !is_extra(server, locals, j),
{
    lemma_plan_counts(ops, rule_id, locals, server);
    assert forall|k: int| 0 <= k < locals.len() implies (match_of(server, #[trigger] local_key(locals, k)) matches Some(j)
        && local_changes(server[j], locals[k]).len() == 0) by {
        assert(local_operation_ok(ops[k], rule_id, locals[k], server));
        if ops[k] is Create {
            lemma_count_positive(ops, |o: OperationView| is_create(o), k);
        }
        if ops[k] is Update {
            lemma_count_positive(ops, |o: OperationView| is_update(o), k);
        }
    }
    assert forall|j: int| 0 <= j < server.len() implies !is_extra(server, locals, j) by {
        if is_extra(server, locals, j) {
            let m = choose|m: int|
                locals.len() <= m < ops.len() && #[trigger] ops[m] == (OperationView::Delete { current: server[j] });
        }
    }
}

/// The converse: when the server already mirrors the local patterns, the plan
/// has nothing to write. Together with `lemma_no_writes_means_mirror`, a plan
/// has no writes exactly when the server mirrors the directory.
pub proof fn lemma_mirror_means_no_writes(
    ops: Seq<OperationView>,
    rule_id: Seq<char>,
    locals: Seq<LocalPattern>,
    server: Seq<PatternDto>,
)
    requires
        plan_matches(ops, rule_id, locals, server),
        forall|k: int| 0 <= k < locals.len() ==> (match_of(server, #[trigger] local_key(locals, k)) matches Some(j)
            && local_changes(server[j], locals[k]).len() == 0),
        forall|j: int| 0 <= j < server.len() ==> !is_extra(server, locals, j),
    ensures
        creates_of(ops) == 0,
        updates_of(ops) == 0,
        deletes_of(ops) == 0,
{
    let n = locals.len() as int;
    assert(ops.len() == n) by {
        if ops.len() > n {
            assert(ops[n] is Delete);
        }
    }
    assert forall|k: int| 0 <= k < ops.len() implies (#[trigger] ops[k]) is Skip by {
        assert(local_operation_ok(ops[k], rule_id, locals[k], server));
        assert(match_of(server, local_key(locals, k)) is Some);
    }
    assert forall|k: int| 0 <= k < ops.len() implies !is_create(#[trigger] ops[k]) by {
        assert(ops[k] is Skip);
    }
    assert forall|k: int| 0 <= k < ops.len() implies !is_update(#[trigger] ops[k]) by {
        assert(ops[k] is Skip);
    }
    lemma_count_zero(ops, |o: OperationView| is_create(o));
    lemma_count_zero(ops, |o: OperationView| is_update(o));
    lemma_plan_counts(ops, rule_id, locals, server);
}

/// The operation for the local pattern `k` of a plan: a create when no server
/// pattern has its key; else, for the server pattern with its key, a skip when
/// nothing differs and an update carrying the server pattern, the desired
/// write (with the server pattern's UUID) and the differences otherwise.
pub proof fn lemma_operation_for_local(
    ops: Seq<OperationView>,
    rule_id: Seq<char>,
    locals: Seq<LocalPattern>,
    server: Seq<PatternDto>,
    k: int,
)
    requires
        plan_matches(ops, rule_id, locals, server),
        0 <= k < locals.len(),
    ensures
        match_of(server, local_key(locals, k)) is None ==> (ops[k] matches OperationView::Create {
            desired,
        } && desired_for(desired, rule_id, locals[k], None) && desired.uuid is None),
        match_of(server, local_key(locals, k)) matches Some(j) ==> 0 <= j < server.len()
            && server_key(server, j) == local_key(locals, k) && if local_changes(
            server[j],
            locals[k],
        ).len() == 0 {
            ops[k] == OperationView::Skip { name: locals[k].name@ }
        } else {
            ops[k] matches OperationView::Update { before, desired, changes } && before == server[j]
                && desired_for(desired, rule_id, locals[k], Some(server[j])) && desired.uuid
                == server[j].uuid && changes == local_changes(server[j], locals[k])
        },
{
    assert(local_operation_ok(ops[k], rule_id, locals[k], server));
}

/// A local pattern is skipped only when the server pattern with its key
/// already holds the desired write on every managed field, and updated only
/// when it does not.
pub proof fn lemma_skip_only_when_server_matches(
    ops: Seq<OperationView>,
    rule_id: Seq<char>,
    locals: Seq<LocalPattern>,
    server: Seq<PatternDto>,
    k: int,
    j: int,
    w: PatternWrite,
)
    requires
        plan_matches(ops, rule_id, locals, server),
        0 <= k < locals.len(),
        match_of(server, local_key(locals, k)) == Some(j),
        desired_for(w, rule_id, locals[k], Some(server[j])),
    ensures
        ops[k] is Skip <==> write_matches(server[j], w),
        ops[k] is Update <==> !write_matches(server[j], w),
{
    assert(local_operation_ok(ops[k], rule_id, locals[k], server));
    assert(change_list(server[j], w) == local_changes(server[j], locals[k]));
    lemma_no_changes_iff_matches(server[j], w);
}

/// An update keeps the UUID of the server pattern it replaces, and takes name,
/// XML, type and active flag from the local pattern.
pub proof fn lemma_update_keeps_identity(
    ops: Seq<OperationView>,
    rule_id: Seq<char>,
    locals: Seq<LocalPattern>,
    server: Seq<PatternDto>,
    k: int,
)
    requires
        plan_matches(ops, rule_id, locals, server),
        0 <= k < locals.len(),
        ops[k] is Update,
    ensures
        ops[k] matches OperationView::Update { before, desired, .. } && desired.uuid == before.uuid
            && desired.name == locals[k].name && desired.xml == locals[k].xml
            && locals[k].settings.pattern_type == Some(desired.pattern_type)
            && desired.active == locals[k].settings.active.unwrap_or(true)
            && name_key(before.name@) == name_key(locals[k].name@),
{
    assert(local_operation_ok(ops[k], rule_id, locals[k], server));
}
} // verus!
