//! The SQL statements that read and write the changelog table, for a table
//! name chosen by the configuration.

use vstd::prelude::*;
use crate::changelog::{Changelog, ChangelogView};
use crate::migrator::{MigrationPlan, MigrationPlanView};
use crate::text::{append, replace_all, replace_text};

verus! {

/// The place of the table name in the statement templates.
pub const LOG_TABLE_NAME: &'static str = "%LOG_TABLE_NAME%";

/// Reads the last log id of the changelog.
pub const LAST_LOG_ID_QUERY: &'static str = "SELECT max(log_id) AS last_log_id FROM %LOG_TABLE_NAME%;";

/// Creates the changelog table, when it does not exist.
pub const CREATE_TABLE_QUERY: &'static str = "CREATE TABLE IF NOT EXISTS %LOG_TABLE_NAME%(
    log_id integer NOT NULL PRIMARY KEY,
    version text NOT NULL,
    name text,
    kind text NOT NULL,
    checksum text,
    apply_by text,
    start_ts timestamptz,
    finish_ts timestamptz,
    revert_ts timestamptz
);";

/// Reads the changelog rows in log id order.
pub const GET_LOG_QUERY: &'static str = "SELECT log_id, version, name, kind, checksum, apply_by, start_ts, finish_ts, revert_ts FROM %LOG_TABLE_NAME% ORDER BY log_id ASC;";

/// A statement template with the table name in place.
pub open spec fn for_table(template: Seq<char>, table: Seq<char>) -> Seq<char> {
    replace_all(template, LOG_TABLE_NAME@, table)
}

fn fill_table(template: &str, table: &str) -> (r: String)
    ensures
        r@ == for_table(template@, table@),
{
    proof {
        reveal_strlit("%LOG_TABLE_NAME%");
    }
    replace_text(template, LOG_TABLE_NAME, table)
}

/// The query for the last log id of the table.
pub fn last_log_id_query(table: &str) -> (r: String)
    ensures
        r@ == for_table(LAST_LOG_ID_QUERY@, table@),
{
    fill_table(LAST_LOG_ID_QUERY, table)
}

/// The statement that creates the table when it does not exist.
pub fn create_table_query(table: &str) -> (r: String)
    ensures
        r@ == for_table(CREATE_TABLE_QUERY@, table@),
{
    fill_table(CREATE_TABLE_QUERY, table)
}

/// The query for the rows of the table in log id order.
pub fn get_log_query(table: &str) -> (r: String)
    ensures
        r@ == for_table(GET_LOG_QUERY@, table@),
{
    fill_table(GET_LOG_QUERY, table)
}

/// The statement that marks the row `$1` of the table reverted at `$2`.
pub fn revert_statement(table: &str) -> (r: String)
    ensures
        r@ == "UPDATE "@ + table@ + " SET revert_ts = $2 WHERE log_id = $1;"@,
{
    let mut s = String::new();
    append(&mut s, "UPDATE ");
    append(&mut s, table);
    append(&mut s, " SET revert_ts = $2 WHERE log_id = $1;");
    s
}

/// The statement that inserts a row into the table, its columns the
/// parameters `$1` to `$8`.
pub fn insert_statement(table: &str) -> (r: String)
    ensures
        r@ == "INSERT INTO "@ + table@
            + " (log_id, version, name, kind, checksum, apply_by, start_ts, finish_ts) VALUES ($1, $2, $3, $4, $5, $6, $7, $8);"@,
{
    let mut s = String::new();
    append(&mut s, "INSERT INTO ");
    append(&mut s, table);
    append(
        &mut s,
        " (log_id, version, name, kind, checksum, apply_by, start_ts, finish_ts) VALUES ($1, $2, $3, $4, $5, $6, $7, $8);",
    );
    s
}

/// The last log id that the answer to the last-log-id query gives: the
/// maximum of the table, 0 for an empty table (the maximum is null), and -1
/// when the query gave no row.
pub fn last_log_id_of(row: Option<Option<i32>>) -> (r: i32)
    ensures
        r == match row {
            Some(Some(id)) => id as int,
            Some(None) => 0int,
            None => -1int,
        },
{
    match row {
        Some(Some(id)) => id,
        Some(None) => 0,
        None => -1,
    }
}

/// One step of applying a plan in the database, inside one transaction.
#[derive(Debug)]
pub enum ApplyStep<'a> {
    /// Read the database clock: the start time.
    ReadStartTime,
    /// Run the recipe's script.
    RunScript(&'a str),
    /// Mark the row of this log id reverted at the start time.
    MarkReverted(i32),
    /// Read the database clock: the finish time.
    ReadFinishTime,
    /// Insert this row with the start and finish times.
    InsertRow(&'a Changelog),
}

/// A step seen through its views.
pub enum ApplyStepView {
    ReadStartTime,
    RunScript(Seq<char>),
    MarkReverted(i32),
    ReadFinishTime,
    InsertRow(ChangelogView),
}

impl<'a> View for ApplyStep<'a> {
    type V = ApplyStepView;

    open spec fn view(&self) -> ApplyStepView {
        match self {
            ApplyStep::ReadStartTime => ApplyStepView::ReadStartTime,
            ApplyStep::RunScript(sql) => ApplyStepView::RunScript(sql@),
            ApplyStep::MarkReverted(id) => ApplyStepView::MarkReverted(*id),
            ApplyStep::ReadFinishTime => ApplyStepView::ReadFinishTime,
            ApplyStep::InsertRow(row) => ApplyStepView::InsertRow(row@),
        }
    }
}

/// The steps of applying a plan: read the start time, run the script, mark
/// the reverted row if the plan reverts one, read the finish time, insert the
/// revert row and then the apply row that the plan has.
pub open spec fn apply_steps_of(p: MigrationPlanView) -> Seq<ApplyStepView> {
    let mark = match p.log_id_to_revert {
        Some(id) => seq![ApplyStepView::MarkReverted(id)],
        None => Seq::empty(),
    };
    let revert = match p.revert_log {
        Some(row) => seq![ApplyStepView::InsertRow(row)],
        None => Seq::empty(),
    };
    let apply = match p.apply_log {
        Some(row) => seq![ApplyStepView::InsertRow(row)],
        None => Seq::empty(),
    };
    seq![ApplyStepView::ReadStartTime, ApplyStepView::RunScript(p.recipe.sql)] + mark + seq![
        ApplyStepView::ReadFinishTime,
    ] + revert + apply
}

/// Steps seen through their views.
pub open spec fn step_views<'a>(v: Seq<ApplyStep<'a>>) -> Seq<ApplyStepView> {
    v.map_values(|s: ApplyStep<'a>| s@)
}

/// The rows that steps insert, in order.
pub open spec fn inserted_rows(s: Seq<ApplyStepView>) -> Seq<ChangelogView>
    decreases s.len(),
{
    if s.len() == 0 {
        Seq::empty()
    } else {
        let rest = inserted_rows(s.drop_last());
        match s.last() {
            ApplyStepView::InsertRow(row) => rest.push(row),
            _ => rest,
        }
    }
}

/// The log ids that steps mark reverted, in order.
pub open spec fn marked_log_ids(s: Seq<ApplyStepView>) -> Seq<i32>
    decreases s.len(),
{
    if s.len() == 0 {
        Seq::empty()
    } else {
        let rest = marked_log_ids(s.drop_last());
        match s.last() {
            ApplyStepView::MarkReverted(id) => rest.push(id),
            _ => rest,
        }
    }
}

/// The scripts that steps run, in order.
pub open spec fn scripts_run(s: Seq<ApplyStepView>) -> Seq<Seq<char>>
    decreases s.len(),
{
    if s.len() == 0 {
        Seq::empty()
    } else {
        let rest = scripts_run(s.drop_last());
        match s.last() {
            ApplyStepView::RunScript(sql) => rest.push(sql),
            _ => rest,
        }
    }
}

/// The value of an option as a sequence of at most one element.
pub open spec fn present<T>(o: Option<T>) -> Seq<T> {
    match o {
        Some(x) => seq![x],
        None => Seq::empty(),
    }
}

proof fn lemma_projections_concat(a: Seq<ApplyStepView>, b: Seq<ApplyStepView>)
    ensures
        inserted_rows(a + b) == inserted_rows(a) + inserted_rows(b),
        marked_log_ids(a + b) == marked_log_ids(a) + marked_log_ids(b),
        scripts_run(a + b) == scripts_run(a) + scripts_run(b),
    decreases b.len(),
{
    if b.len() == 0 {
        assert(a + b =~= a);
        assert(inserted_rows(b) =~= Seq::<ChangelogView>::empty());
        assert(inserted_rows(a) + inserted_rows(b) =~= inserted_rows(a));
        assert(marked_log_ids(a) + marked_log_ids(b) =~= marked_log_ids(a));
        assert(scripts_run(a) + scripts_run(b) =~= scripts_run(a));
    } else {
        lemma_projections_concat(a, b.drop_last());
        assert((a + b).drop_last() =~= a + b.drop_last());
        assert((a + b).last() == b.last());
        assert((inserted_rows(a) + inserted_rows(b.drop_last())).push(b.last()->InsertRow_0)
            =~= inserted_rows(a) + inserted_rows(b.drop_last()).push(b.last()->InsertRow_0));
        assert((marked_log_ids(a) + marked_log_ids(b.drop_last())).push(b.last()->MarkReverted_0)
            =~= marked_log_ids(a) + marked_log_ids(b.drop_last()).push(b.last()->MarkReverted_0));
        assert((scripts_run(a) + scripts_run(b.drop_last())).push(b.last()->RunScript_0)
            =~= scripts_run(a) + scripts_run(b.drop_last()).push(b.last()->RunScript_0));
    }
}

proof fn lemma_projections_one(x: ApplyStepView)
    ensures
        inserted_rows(seq![x]) == match x {
            ApplyStepView::InsertRow(row) => seq![row],
            _ => Seq::<ChangelogView>::empty(),
        },
        marked_log_ids(seq![x]) == match x {
            ApplyStepView::MarkReverted(id) => seq![id],
            _ => Seq::<i32>::empty(),
        },
        scripts_run(seq![x]) == match x {
            ApplyStepView::RunScript(sql) => seq![sql],
            _ => Seq::<Seq<char>>::empty(),
        },
{
    let e = Seq::<ApplyStepView>::empty();
    assert(seq![x].drop_last() =~= e);
    assert(seq![x].last() == x);
    assert(inserted_rows(e) == Seq::<ChangelogView>::empty());
    assert(marked_log_ids(e) == Seq::<i32>::empty());
    assert(scripts_run(e) == Seq::<Seq<char>>::empty());
    match x {
        ApplyStepView::InsertRow(row) => {
            assert(Seq::<ChangelogView>::empty().push(row) =~= seq![row]);
        },
        ApplyStepView::MarkReverted(id) => {
            assert(Seq::<i32>::empty().push(id) =~= seq![id]);
        },
        ApplyStepView::RunScript(sql) => {
            assert(Seq::<Seq<char>>::empty().push(sql) =~= seq![sql]);
        },
        _ => {},
    }
}

/// Applying a plan reads the start time first, runs the plan's script once,
/// marks reverted exactly the row the plan reverts (if any), and inserts
/// every row the plan carries: its revert row when it has one, then its
/// apply row when it has one, each independently of the other.
pub proof fn applying_a_plan_writes_its_rows(p: MigrationPlanView)
    ensures
        apply_steps_of(p)[0] == ApplyStepView::ReadStartTime,
        scripts_run(apply_steps_of(p)) == seq![p.recipe.sql],
        marked_log_ids(apply_steps_of(p)) == present(p.log_id_to_revert),
        inserted_rows(apply_steps_of(p)) == present(p.revert_log) + present(p.apply_log),
        inserted_rows(apply_steps_of(p)).len() == (if p.revert_log is Some { 1int } else { 0int })
            + (if p.apply_log is Some { 1int } else { 0int }),
{
    let head = seq![ApplyStepView::ReadStartTime, ApplyStepView::RunScript(p.recipe.sql)];
    let mark = match p.log_id_to_revert {
        Some(id) => seq![ApplyStepView::MarkReverted(id)],
        None => Seq::<ApplyStepView>::empty(),
    };
    let finish = seq![ApplyStepView::ReadFinishTime];
    let revert = match p.revert_log {
        Some(row) => seq![ApplyStepView::InsertRow(row)],
        None => Seq::<ApplyStepView>::empty(),
    };
    let apply = match p.apply_log {
        Some(row) => seq![ApplyStepView::InsertRow(row)],
        None => Seq::<ApplyStepView>::empty(),
    };
    assert(apply_steps_of(p) == head + mark + finish + revert + apply);
    assert(head =~= seq![ApplyStepView::ReadStartTime] + seq![ApplyStepView::RunScript(p.recipe.sql)]);
    lemma_projections_concat(seq![ApplyStepView::ReadStartTime], seq![ApplyStepView::RunScript(p.recipe.sql)]);
    lemma_projections_one(ApplyStepView::ReadStartTime);
    lemma_projections_one(ApplyStepView::RunScript(p.recipe.sql));
    lemma_projections_one(ApplyStepView::ReadFinishTime);
    lemma_projections_concat(head, mark);
    lemma_projections_concat(head + mark, finish);
    lemma_projections_concat(head + mark + finish, revert);
    lemma_projections_concat(head + mark + finish + revert, apply);
    assert(inserted_rows(Seq::<ApplyStepView>::empty()) =~= Seq::<ChangelogView>::empty());
    assert(marked_log_ids(Seq::<ApplyStepView>::empty()) =~= Seq::<i32>::empty());
    assert(scripts_run(Seq::<ApplyStepView>::empty()) =~= Seq::<Seq<char>>::empty());
    match p.log_id_to_revert {
        Some(id) => lemma_projections_one(ApplyStepView::MarkReverted(id)),
        None => {},
    }
    match p.revert_log {
        Some(row) => lemma_projections_one(ApplyStepView::InsertRow(row)),
        None => {},
    }
    match p.apply_log {
        Some(row) => lemma_projections_one(ApplyStepView::InsertRow(row)),
        None => {},
    }
    assert(scripts_run(head) =~= seq![p.recipe.sql]);
    assert(inserted_rows(head) =~= Seq::<ChangelogView>::empty());
    assert(marked_log_ids(head) =~= Seq::<i32>::empty());
    assert(scripts_run(apply_steps_of(p)) =~= seq![p.recipe.sql]);
    assert(marked_log_ids(apply_steps_of(p)) =~= present(p.log_id_to_revert));
    assert(inserted_rows(apply_steps_of(p)) =~= present(p.revert_log) + present(p.apply_log));
}

/// The steps of applying a plan, in order.
pub fn apply_steps<'a>(plan: &'a MigrationPlan) -> (r: Vec<ApplyStep<'a>>)
    ensures
        step_views(r@) == apply_steps_of(plan@),
        step_views(r@)[0] == ApplyStepView::ReadStartTime,
        scripts_run(step_views(r@)) == seq![plan@.recipe.sql],
        marked_log_ids(step_views(r@)) == present(plan@.log_id_to_revert),
        inserted_rows(step_views(r@)) == present(plan@.revert_log) + present(plan@.apply_log),
{
    let mut steps: Vec<ApplyStep<'a>> = Vec::new();
    steps.push(ApplyStep::ReadStartTime);
    steps.push(ApplyStep::RunScript(plan.sql()));
    if let Some(id) = plan.log_id_to_revert() {
        steps.push(ApplyStep::MarkReverted(id));
    }
    steps.push(ApplyStep::ReadFinishTime);
    if let Some(row) = plan.revert_log() {
        steps.push(ApplyStep::InsertRow(row));
    }
    if let Some(row) = plan.apply_log() {
        steps.push(ApplyStep::InsertRow(row));
    }
    assert(step_views(steps@) =~= apply_steps_of(plan@));
    proof {
        applying_a_plan_writes_its_rows(plan@);
    }
    steps
}

} // verus!
