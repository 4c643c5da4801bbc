//! A synchronisation plan: one operation per local pattern, then one per
//! server pattern that has no local counterpart.

use vstd::prelude::*;

use crate::dto::{PatternDto, PatternWrite};
use crate::text::{chars_of, digits, join, owned, push_char, push_digits, push_joined, views};

verus! {

/// One step of a synchronisation plan.
#[derive(Debug)]
pub enum PlannedOperation {
    /// The local pattern is missing on the server.
    Create { desired: PatternWrite },
    /// The server pattern `before` differs from the local one in `changes`.
    Update { before: PatternDto, desired: PatternWrite, changes: Vec<String> },
    /// The server pattern already matches the local one.
    Skip { name: String },
    /// The server pattern has no local counterpart.
    Delete { current: PatternDto },
}

/// What an operation is, with its list of changes as text.
pub ghost enum OperationView {
    Create { desired: PatternWrite },
    Update { before: PatternDto, desired: PatternWrite, changes: Seq<Seq<char>> },
    Skip { name: Seq<char> },
    Delete { current: PatternDto },
}

impl View for PlannedOperation {
    type V = OperationView;

    open spec fn view(&self) -> OperationView {
        match self {
            PlannedOperation::Create { desired } => OperationView::Create { desired: *desired },
            PlannedOperation::Update { before, desired, changes } => OperationView::Update {
                before: *before,
                desired: *desired,
                changes: views(changes@),
            },
            PlannedOperation::Skip { name } => OperationView::Skip { name: name@ },
            PlannedOperation::Delete { current } => OperationView::Delete { current: *current },
        }
    }
}

/// The views of a sequence of operations.
pub open spec fn op_views(ops: Seq<PlannedOperation>) -> Seq<OperationView> {
    ops.map_values(|o: PlannedOperation| o@)
}

impl Clone for PlannedOperation {
    fn clone(&self) -> (r: Self)
        ensures
            r@ == self@,
    {
        match self {
            PlannedOperation::Create { desired } => PlannedOperation::Create {
                desired: desired.clone(),
            },
            PlannedOperation::Update { before, desired, changes } => PlannedOperation::Update {
                before: before.clone(),
                desired: desired.clone(),
                changes: clone_strings(changes),
            },
            PlannedOperation::Skip { name } => PlannedOperation::Skip { name: name.clone() },
            PlannedOperation::Delete { current } => PlannedOperation::Delete {
                current: current.clone(),
            },
        }
    }
}

/// A copy of a list of strings.
pub fn clone_strings(v: &Vec<String>) -> (r: Vec<String>)
    ensures
        r@ == v@,
{
    let mut r: Vec<String> = Vec::new();
    let mut i: usize = 0;
    while i < v.len()
        invariant
            i <= v@.len(),
            r@ == v@.take(i as int),
        decreases v@.len() - i,
    {
        r.push(v[i].clone());
        assert(v@.take(i + 1) == v@.take(i as int).push(v@[i as int]));
        i += 1;
    }
    assert(v@.take(v@.len() as int) == v@);
    r
}

/// The name of the pattern an operation is about.
pub open spec fn operation_pattern_name(op: OperationView) -> Seq<char> {
    match op {
        OperationView::Create { desired } => desired.name@,
        OperationView::Update { desired, .. } => desired.name@,
        OperationView::Skip { name } => name,
        OperationView::Delete { current } => current.name@,
    }
}

/// The label of an operation's kind in the printed plan.
pub open spec fn operation_action_name(op: OperationView) -> Seq<char> {
    match op {
        OperationView::Create { .. } => "CREATE"@,
        OperationView::Update { .. } => "UPDATE"@,
        OperationView::Skip { .. } => "SKIP"@,
        OperationView::Delete { .. } => "DELETE"@,
    }
}

/// The details column of an operation in the printed plan.
pub open spec fn operation_details(op: OperationView) -> Seq<char> {
    match op {
        OperationView::Create { .. } => "not present on server"@,
        OperationView::Update { changes, .. } => join(changes, ", "@),
        OperationView::Skip { .. } => "already synchronized"@,
        OperationView::Delete { .. } => "not present in local directory"@,
    }
}

impl PlannedOperation {
    /// The label of this operation's kind.
    pub fn action_name(&self) -> (r: &'static str)
        ensures
            r@ == operation_action_name(self@),
    {
        match self {
            PlannedOperation::Create { .. } => "CREATE",
            PlannedOperation::Update { .. } => "UPDATE",
            PlannedOperation::Skip { .. } => "SKIP",
            PlannedOperation::Delete { .. } => "DELETE",
        }
    }

    /// The name of the pattern this operation is about.
    pub fn pattern_name(&self) -> (r: &str)
        ensures
            r@ == operation_pattern_name(self@),
    {
        match self {
            PlannedOperation::Create { desired } => desired.name.as_str(),
            PlannedOperation::Update { desired, .. } => desired.name.as_str(),
            PlannedOperation::Skip { name } => name.as_str(),
            PlannedOperation::Delete { current } => current.name.as_str(),
        }
    }

    /// Why this operation is in the plan.
    pub fn details(&self) -> (r: String)
        ensures
            r@ == operation_details(self@),
    {
        match self {
            PlannedOperation::Create { .. } => owned("not present on server"),
            PlannedOperation::Update { changes, .. } => {
                let mut s = String::new();
                push_joined(&mut s, changes, ", ");
                s
            },
            PlannedOperation::Skip { .. } => owned("already synchronized"),
            PlannedOperation::Delete { .. } => owned("not present in local directory"),
        }
    }
}

/// The number of operations of each kind.
#[derive(Clone, Copy, Debug)]
pub struct PlanCounts {
    pub create: usize,
    pub update: usize,
    pub skip: usize,
    pub delete: usize,
}

impl Default for PlanCounts {
    fn default() -> (r: Self)
        ensures
            r.create == 0 && r.update == 0 && r.skip == 0 && r.delete == 0,
    {
        PlanCounts { create: 0, update: 0, skip: 0, delete: 0 }
    }
}

impl PlanCounts {
    /// The number of operations that change the server.
    pub fn writes(self) -> (r: usize)
        requires
            self.create + self.update + self.delete <= usize::MAX,
        ensures
            r == self.create + self.update + self.delete,
    {
        self.create + self.update + self.delete
    }
}

/// How many operations of `ops` satisfy `pred`.
pub open spec fn count_where(ops: Seq<OperationView>, pred: spec_fn(OperationView) -> bool) -> nat
    decreases ops.len(),
{
    if ops.len() == 0 {
        0
    } else {
        count_where(ops.drop_last(), pred) + if pred(ops.last()) {
            1nat
        } else {
            0nat
        }
    }
}

pub open spec fn is_create(op: OperationView) -> bool {
    op is Create
}

pub open spec fn is_update(op: OperationView) -> bool {
    op is Update
}

pub open spec fn is_skip(op: OperationView) -> bool {
    op is Skip
}

pub open spec fn is_delete(op: OperationView) -> bool {
    op is Delete
}

proof fn lemma_count_bounded(ops: Seq<OperationView>)
    ensures
        count_where(ops, |o: OperationView| is_create(o)) + count_where(
            ops,
            |o: OperationView| is_update(o),
        ) + count_where(ops, |o: OperationView| is_skip(o)) + count_where(
            ops,
            |o: OperationView| is_delete(o),
        ) == ops.len(),
    decreases ops.len(),
{
    if ops.len() > 0 {
        lemma_count_bounded(ops.drop_last());
    }
}

/// The number of create operations.
pub open spec fn creates_of(ops: Seq<OperationView>) -> nat {
    count_where(ops, |o: OperationView| is_create(o))
}

/// The number of update operations.
pub open spec fn updates_of(ops: Seq<OperationView>) -> nat {
    count_where(ops, |o: OperationView| is_update(o))
}

/// The number of skip operations.
pub open spec fn skips_of(ops: Seq<OperationView>) -> nat {
    count_where(ops, |o: OperationView| is_skip(o))
}

/// The number of delete operations.
pub open spec fn deletes_of(ops: Seq<OperationView>) -> nat {
    count_where(ops, |o: OperationView| is_delete(o))
}

/// A synchronisation plan: its operations in the order they are listed.
#[derive(Debug)]
pub struct SyncPlan {
    operations: Vec<PlannedOperation>,
}

impl Clone for SyncPlan {
    fn clone(&self) -> (r: Self)
        ensures
            r@ == self@,
    {
        let mut operations: Vec<PlannedOperation> = Vec::new();
        let mut i: usize = 0;
        while i < self.operations.len()
            invariant
                i <= self.operations@.len(),
                op_views(operations@) == op_views(self.operations@.take(i as int)),
            decreases self.operations@.len() - i,
        {
            let ghost prev = operations@;
            operations.push(self.operations[i].clone());
            assert(self.operations@.take(i + 1) == self.operations@.take(i as int).push(
                self.operations@[i as int],
            ));
            assert(op_views(operations@) =~= op_views(prev).push(self.operations@[i as int]@));
            assert(op_views(operations@) =~= op_views(self.operations@.take(i + 1)));
            i += 1;
        }
        assert(self.operations@.take(self.operations@.len() as int) == self.operations@);
        SyncPlan { operations }
    }
}

impl View for SyncPlan {
    type V = Seq<OperationView>;

    closed spec fn view(&self) -> Seq<OperationView> {
        op_views(self.operations@)
    }
}

impl SyncPlan {
    /// A plan with the given operations.
    pub fn new(operations: Vec<PlannedOperation>) -> (r: Self)
        ensures
            r@ == op_views(operations@),
    {
        SyncPlan { operations }
    }

    /// The operations, in order.
    pub fn operations(&self) -> (r: &Vec<PlannedOperation>)
        ensures
            op_views(r@) == self@,
    {
        &self.operations
    }

    /// The number of operations of each kind.
    pub fn counts(&self) -> (r: PlanCounts)
        ensures
            r.create == creates_of(self@),
            r.update == updates_of(self@),
            r.skip == skips_of(self@),
            r.delete == deletes_of(self@),
    {
        let mut counts = PlanCounts::default();
        let n = self.operations.len();
        let mut i: usize = 0;
        while i < n
            invariant
                i <= n,
                n == self@.len(),
                counts.create == creates_of(self@.take(i as int)),
                counts.update == updates_of(self@.take(i as int)),
                counts.skip == skips_of(self@.take(i as int)),
                counts.delete == deletes_of(self@.take(i as int)),
            decreases n - i,
        {
            proof {
                let t = self@.take(i + 1);
                assert(t.drop_last() == self@.take(i as int));
                assert(t.last() == self@[i as int]);
                assert(self@[i as int] == self.operations@[i as int]@);
                lemma_count_bounded(self@.take(i as int));
            }
            match &self.operations[i] {
                PlannedOperation::Create { .. } => {
                    counts.create += 1;
                },
                PlannedOperation::Update { .. } => {
                    counts.update += 1;
                },
                PlannedOperation::Skip { .. } => {
                    counts.skip += 1;
                },
                PlannedOperation::Delete { .. } => {
                    counts.delete += 1;
                },
            }
            i += 1;
        }
        assert(self@.take(n as int) == self@);
        counts
    }

    /// Whether the plan changes the server: some create, update or delete.
    pub fn has_writes(&self) -> (r: bool)
        ensures
            r == (creates_of(self@) + updates_of(self@) + deletes_of(self@) > 0),
    {
        let counts = self.counts();
        let n = self.operations.len();
        proof {
            lemma_count_bounded(self@);
            assert(self@.len() == self.operations@.len());
        }
        counts.writes() > 0
    }

    /// The update operations, in plan order.
    pub fn updates(&self) -> (r: Vec<PlannedOperation>)
        ensures
            op_views(r@) == self@.filter(|o: OperationView| is_update(o)),
    {
        self.select(Ghost(|o: OperationView| is_update(o)), 1)
    }

    /// The create operations, in plan order.
    pub fn creates(&self) -> (r: Vec<PlannedOperation>)
        ensures
            op_views(r@) == self@.filter(|o: OperationView| is_create(o)),
    {
        self.select(Ghost(|o: OperationView| is_create(o)), 0)
    }

    /// The delete operations, in plan order.
    pub fn deletes(&self) -> (r: Vec<PlannedOperation>)
        ensures
            op_views(r@) == self@.filter(|o: OperationView| is_delete(o)),
    {
        self.select(Ghost(|o: OperationView| is_delete(o)), 3)
    }

    fn select(&self, Ghost(pred): Ghost<spec_fn(OperationView) -> bool>, kind: u8) -> (r: Vec<PlannedOperation>)
        requires
            kind == 0 ==> pred == (|o: OperationView| is_create(o)),
            kind == 1 ==> pred == (|o: OperationView| is_update(o)),
            kind == 3 ==> pred == (|o: OperationView| is_delete(o)),
            kind == 0 || kind == 1 || kind == 3,
        ensures
            op_views(r@) == self@.filter(pred),
    {
        let mut r: Vec<PlannedOperation> = Vec::new();
        let n = self.operations.len();
        let mut i: usize = 0;
        while i < n
            invariant
                i <= n,
                n == self@.len(),
                kind == 0 ==> pred == (|o: OperationView| is_create(o)),
                kind == 1 ==> pred == (|o: OperationView| is_update(o)),
                kind == 3 ==> pred == (|o: OperationView| is_delete(o)),
                kind == 0 || kind == 1 || kind == 3,
                op_views(r@) == self@.take(i as int).filter(pred),
            decreases n - i,
        {
            let op = &self.operations[i];
            let keep = match op {
                PlannedOperation::Create { .. } => kind == 0,
                PlannedOperation::Update { .. } => kind == 1,
                PlannedOperation::Skip { .. } => false,
                PlannedOperation::Delete { .. } => kind == 3,
            };
            assert(self@[i as int] == self.operations@[i as int]@);
            assert(keep == pred(self@[i as int]));
            let ghost prev = r@;
            if keep {
                r.push(op.clone());
                assert(op_views(r@) =~= op_views(prev).push(self@[i as int]));
            }
            proof {
                reveal(Seq::filter);
                let t = self@.take(i + 1);
                assert(t.drop_last() == self@.take(i as int));
                assert(t.last() == self@[i as int]);
            }
            i += 1;
        }
        assert(self@.take(n as int) == self@);
        r
    }
}

// ---------------------------------------------------------------------------
// The printed plan
// ---------------------------------------------------------------------------

/// `n` copies of `c`.
pub open spec fn repeated(c: char, n: nat) -> Seq<char> {
    Seq::new(n, |i: int| c)
}

/// `s` padded on the right with spaces to `width` characters, as `{:<width}`
/// formats it; unchanged when it is that long already.
pub open spec fn pad_right(s: Seq<char>, width: nat) -> Seq<char> {
    if s.len() >= width {
        s
    } else {
        s + repeated(' ', (width - s.len()) as nat)
    }
}

/// The line of the printed plan for one operation.
pub open spec fn report_row(op: OperationView) -> Seq<char> {
    pad_right(operation_action_name(op), 8) + " "@ + pad_right(operation_pattern_name(op), 45) + " "@
        + operation_details(op)
}

/// The closing line of the printed plan.
pub open spec fn summary_line(ops: Seq<OperationView>) -> Seq<char> {
    "Summary: create="@ + digits(creates_of(ops)) + ", update="@ + digits(updates_of(ops))
        + ", skip="@ + digits(skips_of(ops)) + ", delete="@ + digits(deletes_of(ops))
}

/// The printed plan: a header, a rule, one line per operation, an empty line
/// and the summary.
pub open spec fn plan_report(ops: Seq<OperationView>) -> Seq<Seq<char>> {
    seq![
        pad_right("ACTION"@, 8) + " "@ + pad_right("PATTERN"@, 45) + " DETAILS"@,
        repeated('-', 8) + " "@ + repeated('-', 45) + " "@ + repeated('-', 30),
    ] + ops.map_values(|o: OperationView| report_row(o)) + seq![""@, summary_line(ops)]
}

/// Appends `c` to `s` `n` times.
fn push_repeated(s: &mut String, c: char, n: usize)
    ensures
        final(s)@ == old(s)@ + repeated(c, n as nat),
{
    let mut i: usize = 0;
    while i < n
        invariant
            i <= n,
            s@ == old(s)@ + repeated(c, i as nat),
        decreases n - i,
    {
        push_char(s, c);
        assert(repeated(c, (i + 1) as nat) =~= repeated(c, i as nat).push(c));
        i += 1;
    }
}

/// Appends `text` padded to `width` characters.
fn push_padded(s: &mut String, text: &str, width: usize)
    ensures
        final(s)@ == old(s)@ + pad_right(text@, width as nat),
{
    s.append(text);
    let n = chars_of(text).len();
    if n < width {
        push_repeated(s, ' ', width - n);
    }
}

impl SyncPlan {
    /// The lines of the printed plan.
    pub fn report_lines(&self) -> (r: Vec<String>)
        ensures
            views(r@) == plan_report(self@),
    {
        let mut r: Vec<String> = Vec::new();
        let mut header = String::new();
        push_padded(&mut header, "ACTION", 8);
        header.append(" ");
        push_padded(&mut header, "PATTERN", 45);
        header.append(" DETAILS");
        r.push(header);
        let mut rule = String::new();
        push_repeated(&mut rule, '-', 8);
        rule.append(" ");
        push_repeated(&mut rule, '-', 45);
        rule.append(" ");
        push_repeated(&mut rule, '-', 30);
        r.push(rule);
        let ghost head = views(r@);
        let n = self.operations.len();
        let mut i: usize = 0;
        while i < n
            invariant
                i <= n,
                n == self@.len(),
                n == self.operations@.len(),
                views(r@) == head + self@.take(i as int).map_values(|o: OperationView| report_row(o)),
            decreases n - i,
        {
            let op = &self.operations[i];
            let mut line = String::new();
            push_padded(&mut line, op.action_name(), 8);
            line.append(" ");
            push_padded(&mut line, op.pattern_name(), 45);
            line.append(" ");
            let details = op.details();
            line.append(details.as_str());
            assert(self@[i as int] == self.operations@[i as int]@);
            let ghost prev = r@;
            r.push(line);
            assert(views(r@) =~= views(prev).push(line@));
            assert(self@.take(i + 1) =~= self@.take(i as int).push(self@[i as int]));
            assert(self@.take(i + 1).map_values(|o: OperationView| report_row(o)) =~= self@.take(
                i as int,
            ).map_values(|o: OperationView| report_row(o)).push(report_row(self@[i as int])));
            i += 1;
        }
        assert(self@.take(n as int) =~= self@);
        let counts = self.counts();
        let mut summary = owned("Summary: create=");
        push_digits(&mut summary, counts.create as u64);
        summary.append(", update=");
        push_digits(&mut summary, counts.update as u64);
        summary.append(", skip=");
        push_digits(&mut summary, counts.skip as u64);
        summary.append(", delete=");
        push_digits(&mut summary, counts.delete as u64);
        assert(summary@ == summary_line(self@));
        let ghost body = views(r@);
        let empty = owned("");
        let ghost prev = r@;
        r.push(empty);
        assert(views(r@) =~= views(prev).push(""@));
        let ghost prev2 = r@;
        r.push(summary);
        assert(views(r@) =~= views(prev2).push(summary_line(self@)));
        assert(views(r@) =~= body + seq![""@, summary_line(self@)]);
        r
    }
}

} // verus!
