//! Laws of the migration planner.

use vstd::prelude::*;
use crate::changelog::ChangelogView;
use crate::migrator::{
    add_apply, after_index, apply_entry, baseline_choice, find_fix, first_fix, fix_phase, fix_rows,
    lemma_planned_rows_parts, lemma_upgrade_count_mono, planned_rows, upgrade_count,
    last_baseline, lemma_after_index_bounds, make_plan_spec, matches_fix, plan_start,
    plan_upgrades, revert_entry, target_end, target_entry, MigrationPlanView, MigratorErrorView, MigratorView,
};
use crate::recipe::{RecipeKind, RecipeScriptView};
use crate::laws::{
    effective_changelog_step, lemma_find_sorted, lemma_lookup_not_after_last, lookup_log,
    checked_recipes_have_unique_versions, recipes_sorted, strictly_sorted,
};
use crate::migrator::{
    agg_update, all_checksummed, check_applied, check_logs, check_target, check_updated_spec,
    checksum_or_empty, find_log,
};
use crate::order::{
    check_ordered, find_recipe, key_order, recipe_index, recipe_order,
};
use crate::version::{
    lemma_relation_equal_subst, lemma_relation_flip, lemma_relation_less_trans, VersionComparator,
};

verus! {

/// The changelog rows that a plan writes: its revert row, then its apply row.
pub open spec fn plan_rows(p: MigrationPlanView) -> Seq<ChangelogView> {
    let reverted = match p.revert_log {
        Some(r) => seq![r],
        None => Seq::empty(),
    };
    let applied = match p.apply_log {
        Some(a) => seq![a],
        None => Seq::empty(),
    };
    reverted + applied
}

/// The changelog rows that plans write, in order.
pub open spec fn rows_of(plans: Seq<MigrationPlanView>) -> Seq<ChangelogView>
    decreases plans.len(),
{
    if plans.len() == 0 {
        Seq::empty()
    } else {
        rows_of(plans.drop_last()) + plan_rows(plans.last())
    }
}

/// The rows carry the log ids `n`, `n + 1`, ... in order.
pub open spec fn numbered_from(rows: Seq<ChangelogView>, n: int) -> bool {
    forall|k: int| 0 <= k < rows.len() ==> #[trigger] rows[k].log_id == n + k
}

/// The plans that `m` holds beyond those of `m0`.
pub open spec fn new_plans(m0: MigratorView, m: MigratorView) -> Seq<MigrationPlanView> {
    m.plans.skip(m0.plans.len() as int)
}

/// The rows are applied by `apply_by` and carry no timestamps yet.
pub open spec fn fresh_rows(rows: Seq<ChangelogView>, apply_by: Option<Seq<char>>) -> bool {
    forall|k: int|
        0 <= k < rows.len() ==> (#[trigger] rows[k]).apply_by == apply_by && rows[k].start_ts is None
            && rows[k].finish_ts is None && rows[k].revert_ts is None
}

/// `m` is `m0` with plans added: the recipes, configuration and changelogs
/// read from the database are unchanged, the plans of `m0` come first, and
/// the rows of the new plans are numbered consecutively from `m0`'s next log
/// id, which `m`'s next log id follows; they are applied by the configured
/// `apply_by` and carry no timestamps yet.
pub open spec fn extends_plans(m0: MigratorView, m: MigratorView) -> bool {
    &&& m.config == m0.config
    &&& m.version_comparator == m0.version_comparator
    &&& m.recipes == m0.recipes
    &&& m.raw_logs == m0.raw_logs
    &&& m.consolidated_logs == m0.consolidated_logs
    &&& m0.plans.len() <= m.plans.len()
    &&& m.plans.take(m0.plans.len() as int) == m0.plans
    &&& numbered_from(rows_of(new_plans(m0, m)), m0.next_log_id as int)
    &&& m.next_log_id == m0.next_log_id + rows_of(new_plans(m0, m)).len()
    &&& fresh_rows(rows_of(new_plans(m0, m)), m0.config.apply_by)
}

proof fn lemma_rows_of_push(plans: Seq<MigrationPlanView>, p: MigrationPlanView)
    ensures
        rows_of(plans.push(p)) == rows_of(plans) + plan_rows(p),
{
    assert(plans.push(p).drop_last() =~= plans);
}

proof fn lemma_extends_refl(m: MigratorView)
    ensures
        extends_plans(m, m),
{
    assert(m.plans.take(m.plans.len() as int) =~= m.plans);
    assert(new_plans(m, m) =~= Seq::<MigrationPlanView>::empty());
}

/// Adding a plan `p` whose rows are numbered from the next log id, which then
/// moves past them, keeps the extension.
proof fn lemma_extends_push(m0: MigratorView, m: MigratorView, m1: MigratorView, p: MigrationPlanView)
    requires
        extends_plans(m0, m),
        m1.config == m.config,
        m1.version_comparator == m.version_comparator,
        m1.recipes == m.recipes,
        m1.raw_logs == m.raw_logs,
        m1.consolidated_logs == m.consolidated_logs,
        m1.plans == m.plans.push(p),
        numbered_from(plan_rows(p), m.next_log_id as int),
        fresh_rows(plan_rows(p), m.config.apply_by),
        m1.next_log_id == m.next_log_id + plan_rows(p).len(),
    ensures
        extends_plans(m0, m1),
{
    let k = m0.plans.len() as int;
    assert(m1.plans.take(k) =~= m.plans.take(k));
    assert(new_plans(m0, m1) =~= new_plans(m0, m).push(p));
    lemma_rows_of_push(new_plans(m0, m), p);
    let before = rows_of(new_plans(m0, m));
    let rows = rows_of(new_plans(m0, m1));
    assert forall|j: int| 0 <= j < rows.len() implies #[trigger] rows[j].log_id == m0.next_log_id
        + j && rows[j].apply_by == m0.config.apply_by && rows[j].start_ts is None
        && rows[j].finish_ts is None && rows[j].revert_ts is None by {
        if j < before.len() {
            assert(rows[j] == before[j]);
        } else {
            assert(rows[j] == plan_rows(p)[j - before.len()]);
        }
    }
}

proof fn lemma_add_apply(m0: MigratorView, m: MigratorView, r: RecipeScriptView)
    requires
        extends_plans(m0, m),
        m.next_log_id + 1 <= i32::MAX,
    ensures
        extends_plans(m0, add_apply(m, r)),
        add_apply(m, r).next_log_id == m.next_log_id + 1,
{
    let m1 = add_apply(m, r);
    let p = m1.plans.last();
    assert(m1.plans =~= m.plans.push(p));
    assert(plan_rows(p) =~= seq![p.apply_log->0]);
    lemma_extends_push(m0, m, m1, p);
}

proof fn lemma_fix_phase(m: MigratorView)
    requires
        m.next_log_id + fix_rows(m) <= i32::MAX,
    ensures
        extends_plans(m, fix_phase(m)),
        fix_phase(m).next_log_id == m.next_log_id + fix_rows(m),
{
    lemma_extends_refl(m);
    let m1 = fix_phase(m);
    if m1 != m {
        let p = m1.plans.last();
        assert(m1.plans =~= m.plans.push(p));
        lemma_extends_push(m, m, m1, p);
    }
}

proof fn lemma_plan_start(m0: MigratorView, m: MigratorView)
    requires
        extends_plans(m0, m),
        m.updated_logs.len() == 0 ==> m.next_log_id + 1 <= i32::MAX,
        plan_start(m) is Ok,
    ensures
        extends_plans(m0, (plan_start(m)->Ok_0).0),
        (plan_start(m)->Ok_0).0.next_log_id == m.next_log_id + (if m.updated_logs.len() == 0 {
            1int
        } else {
            0int
        }),
{
    if m.updated_logs.len() == 0 {
        let b = baseline_choice(m)->Ok_0;
        let mb = MigratorView { baseline_version: Some(b.version), ..m };
        lemma_add_apply(m0, mb, b);
    }
}

proof fn lemma_plan_upgrades(m0: MigratorView, m: MigratorView, start: int, i: int)
    requires
        extends_plans(m0, m),
        0 <= start <= i <= m.recipes.len(),
        m.next_log_id + upgrade_count(m.recipes, start, i) <= i32::MAX,
    ensures
        extends_plans(m0, plan_upgrades(m, start, i)),
        plan_upgrades(m, start, i).next_log_id == m.next_log_id + upgrade_count(m.recipes, start, i),
    decreases i - start,
{
    if i > start {
        lemma_upgrade_count_mono(m.recipes, start, i - 1, i);
        lemma_plan_upgrades(m0, m, start, i - 1);
        let m1 = plan_upgrades(m, start, i - 1);
        if m.recipes[i - 1].kind() == RecipeKind::Upgrade {
            lemma_add_apply(m0, m1, m.recipes[i - 1]);
        }
    }
}

/// Planning only adds plans, and numbers the changelog rows it plans
/// consecutively: the recipes, the configuration, the changelog read from
/// the database and its consolidation stay as they were, the plans made
/// before stay first, the rows of the new plans carry the log ids that
/// follow on from the migrator's next log id, one after another, and the
/// next log id then follows the last of them. Every planned row is applied by
/// the configured `apply_by` and has no start, finish or revert time yet.
/// This holds whether planning succeeds or not.
pub proof fn planning_numbers_rows_consecutively(m: MigratorView)
    requires
        m.next_log_id + planned_rows(m) <= i32::MAX,
    ensures
        extends_plans(m, make_plan_spec(m).0),
{
    let c = m.version_comparator;
    lemma_planned_rows_parts(m);
    lemma_fix_phase(m);
    let m1 = fix_phase(m);
    if plan_start(m1) is Ok {
        lemma_plan_start(m, m1);
        let (m2, last) = plan_start(m1)->Ok_0;
        lemma_after_index_bounds(c, m.recipes, last, 0);
        let start = after_index(c, m.recipes, last, 0);
        match m.config.target_version {
            Some(t) => lemma_after_index_bounds(c, m.recipes, t, start),
            None => {},
        }
        let end = target_end(c, m.recipes, m.config.target_version, start);
        lemma_plan_upgrades(m, m2, start, end);
    }
}

/// A plan that applies a baseline or upgrade recipe with one changelog row,
/// reverting nothing.
pub open spec fn applies_only(p: MigrationPlanView) -> bool {
    &&& p.log_id_to_revert is None
    &&& p.revert_log is None
    &&& p.apply_log is Some
    &&& (p.recipe.kind() == RecipeKind::Baseline || p.recipe.kind() == RecipeKind::Upgrade)
}

/// Every plan from index `k` on applies only.
pub open spec fn applies_only_from(plans: Seq<MigrationPlanView>, k: int) -> bool {
    forall|i: int| k <= i < plans.len() ==> #[trigger] applies_only(plans[i])
}

proof fn lemma_last_baseline(s: Seq<RecipeScriptView>, k: int)
    requires
        0 <= k <= s.len(),
    ensures
        last_baseline(s, k) matches Some(j) ==> 0 <= j < k && s[j].kind() == RecipeKind::Baseline
            && forall|i: int| j < i < k ==> #[trigger] s[i].kind() != RecipeKind::Baseline,
    decreases k,
{
    if k > 0 && s[k - 1].kind() != RecipeKind::Baseline {
        lemma_last_baseline(s, k - 1);
    }
}

/// The baseline chosen for an empty database: the recipe of the suggested
/// version, or else the last baseline recipe.
pub open spec fn is_baseline_choice(m: MigratorView, b: RecipeScriptView) -> bool {
    exists|k: int|
        0 <= k < m.recipes.len() && #[trigger] m.recipes[k] == b && b.kind() == RecipeKind::Baseline
            && match m.config.suggested_baseline_version {
            Some(v) => m.version_comparator.relation(b.version, v) is Equal,
            None => forall|i: int|
                k < i < m.recipes.len() ==> #[trigger] m.recipes[i].kind() != RecipeKind::Baseline,
        }
}

proof fn lemma_baseline_choice(m: MigratorView)
    requires
        baseline_choice(m) is Ok,
    ensures
        is_baseline_choice(m, baseline_choice(m)->Ok_0),
{
    let b = baseline_choice(m)->Ok_0;
    match m.config.suggested_baseline_version {
        Some(v) => {
            let k = find_recipe(m.version_comparator, m.recipes, v, RecipeKind::Baseline)->0;
            assert(m.recipes[k] == b);
        },
        None => {
            lemma_last_baseline(m.recipes, m.recipes.len() as int);
            let k = last_baseline(m.recipes, m.recipes.len() as int)->0;
            assert(m.recipes[k] == b);
        },
    }
}

proof fn lemma_plan_upgrades_shape(m: MigratorView, start: int, i: int, k: int)
    requires
        0 <= start <= i <= m.recipes.len(),
        0 <= k,
        applies_only_from(m.plans, k),
    ensures
        applies_only_from(plan_upgrades(m, start, i).plans, k),
        plan_upgrades(m, start, i).baseline_version == m.baseline_version,
        m.plans.len() <= plan_upgrades(m, start, i).plans.len(),
        plan_upgrades(m, start, i).plans.take(m.plans.len() as int) == m.plans,
    decreases i - start,
{
    if i > start {
        lemma_plan_upgrades_shape(m, start, i - 1, k);
        let m1 = plan_upgrades(m, start, i - 1);
        if m.recipes[i - 1].kind() == RecipeKind::Upgrade {
            let m2 = add_apply(m1, m.recipes[i - 1]);
            assert(m2.plans =~= m1.plans.push(m2.plans.last()));
            assert(m2.plans.take(m.plans.len() as int) =~= m1.plans.take(m.plans.len() as int));
            assert forall|j: int| k <= j < m2.plans.len() implies #[trigger] applies_only(
                m2.plans[j],
            ) by {
                if j < m1.plans.len() {
                    assert(m2.plans[j] == m1.plans[j]);
                }
            }
        }
    }
}

/// The bounds on the start and end of the upgrades that planning plans.
proof fn lemma_upgrade_range(m: MigratorView, last: Seq<char>)
    ensures
        0 <= after_index(m.version_comparator, m.recipes, last, 0) <= target_end(
            m.version_comparator,
            m.recipes,
            m.config.target_version,
            after_index(m.version_comparator, m.recipes, last, 0),
        ) <= m.recipes.len(),
{
    let c = m.version_comparator;
    lemma_after_index_bounds(c, m.recipes, last, 0);
    let start = after_index(c, m.recipes, last, 0);
    match m.config.target_version {
        Some(t) => lemma_after_index_bounds(c, m.recipes, t, start),
        None => {},
    }
}

/// At most one fix per planning, and only when fixes are allowed: every new
/// plan after the first applies a baseline or upgrade recipe, with one row
/// and nothing reverted; without fixes allowed, so does the first.
pub proof fn planning_fixes_at_most_once(m: MigratorView)
    ensures
        applies_only_from(make_plan_spec(m).0.plans, m.plans.len() + 1int),
        !m.config.allow_fixes ==> applies_only_from(make_plan_spec(m).0.plans, m.plans.len() as int),
{
    let m1 = fix_phase(m);
    let k: int = if m.config.allow_fixes {
        m.plans.len() + 1int
    } else {
        m.plans.len() as int
    };
    if m1 != m {
        assert(m1.plans =~= m.plans.push(m1.plans.last()));
    }
    assert(applies_only_from(m1.plans, k));
    if plan_start(m1) is Ok {
        let (m2, last) = plan_start(m1)->Ok_0;
        if m1.updated_logs.len() == 0 {
            let b = baseline_choice(m1)->Ok_0;
            lemma_baseline_choice(m1);
            let mb = MigratorView { baseline_version: Some(b.version), ..m1 };
            assert(m2 == add_apply(mb, b));
            assert(m2.plans == m1.plans.push(m2.plans.last()));
            assert forall|j: int| k <= j < m2.plans.len() implies #[trigger] applies_only(
                m2.plans[j],
            ) by {
                if j < m1.plans.len() {
                    assert(m2.plans[j] == m1.plans[j]);
                }
            }
        }
        lemma_upgrade_range(m, last);
        let start = after_index(m.version_comparator, m.recipes, last, 0);
        let end = target_end(m.version_comparator, m.recipes, m.config.target_version, start);
        lemma_plan_upgrades_shape(m2, start, end, k);
    }
}

/// The first row of a changelog is a baseline: when the effective changelog
/// is empty and planning succeeds, the first new plan applies a baseline
/// recipe, the suggested one or else the last one, with the migrator's next
/// log id, and its version becomes the baseline version.
pub proof fn empty_database_starts_with_baseline(m: MigratorView)
    requires
        m.updated_logs.len() == 0,
        make_plan_spec(m).1 is Ok,
    ensures
        make_plan_spec(m).0.plans.len() > m.plans.len(),
        is_baseline_choice(m, make_plan_spec(m).0.plans[m.plans.len() as int].recipe),
        make_plan_spec(m).0.plans[m.plans.len() as int].apply_log == Some(
            apply_entry(
                m.next_log_id,
                m.config.apply_by,
                make_plan_spec(m).0.plans[m.plans.len() as int].recipe,
            ),
        ),
        make_plan_spec(m).0.baseline_version == Some(
            make_plan_spec(m).0.plans[m.plans.len() as int].recipe.version,
        ),
{
    assert(fix_phase(m) == m);
    let b = baseline_choice(m)->Ok_0;
    lemma_baseline_choice(m);
    let (m2, last) = plan_start(m)->Ok_0;
    assert(m2.plans[m.plans.len() as int].recipe == b);
    lemma_upgrade_range(m, last);
    let start = after_index(m.version_comparator, m.recipes, last, 0);
    let end = target_end(m.version_comparator, m.recipes, m.config.target_version, start);
    lemma_plan_upgrades_shape(m2, start, end, m2.plans.len() as int);
    let m3 = plan_upgrades(m2, start, end);
    assert(m3.plans[m.plans.len() as int] == m3.plans.take(m2.plans.len() as int)[m.plans.len() as int]);
}

proof fn lemma_first_fix(m: MigratorView, log: ChangelogView, current: Seq<char>, i: int, end: int)
    ensures
        first_fix(m, log, current, i, end) matches Some(r) ==> i <= r < end && matches_fix(
            m.version_comparator,
            log.version,
            log.checksum->0,
            m.recipes[r],
            current,
        ),
    decreases end - i,
{
    if i < end && !matches_fix(m.version_comparator, log.version, log.checksum->0, m.recipes[i], current) {
        lemma_first_fix(m, log, current, i + 1, end);
    }
}

proof fn lemma_find_fix(m: MigratorView, current: Seq<char>, k: int)
    ensures
        find_fix(m, current, k) matches Some((li, ri)) ==> 0 <= li < k && {
            let log = m.updated_logs[li];
            matches_fix(m.version_comparator, log.version, log.checksum->0, m.recipes[ri], current)
        },
    decreases k,
{
    if k > 0 {
        let log = m.updated_logs[k - 1];
        let range = crate::migrator::version_range(m.version_comparator, m.recipes, log.version);
        lemma_first_fix(m, log, current, range.0, range.1);
        if first_fix(m, log, current, range.0, range.1) is None {
            lemma_find_fix(m, current, k - 1);
        }
    }
}

/// A plan that reverts an entry is the one the fix phase made, kept in place.
proof fn lemma_planned_fix(m: MigratorView, i: int)
    requires
        m.plans.len() <= i < make_plan_spec(m).0.plans.len(),
        make_plan_spec(m).0.plans[i].log_id_to_revert is Some,
    ensures
        i == m.plans.len(),
        m.config.allow_fixes,
        m.updated_logs.len() > 0,
        find_fix(m, m.updated_logs.last().version, m.updated_logs.len() as int) is Some,
        make_plan_spec(m).0.plans[i] == fix_phase(m).plans.last(),
{
    planning_fixes_at_most_once(m);
    let final_plans = make_plan_spec(m).0.plans;
    assert(!applies_only(final_plans[i]));
    let m1 = fix_phase(m);
    if m1 == m {
        // without a fix, every new plan only applies
        if plan_start(m1) is Ok {
            let (m2, last) = plan_start(m1)->Ok_0;
            if m1.updated_logs.len() == 0 {
                let b = baseline_choice(m1)->Ok_0;
                lemma_baseline_choice(m1);
                let mb = MigratorView { baseline_version: Some(b.version), ..m1 };
                assert(m2 == add_apply(mb, b));
                assert(m2.plans == m1.plans.push(m2.plans.last()));
            }
            assert(applies_only_from(m2.plans, m.plans.len() as int));
            lemma_upgrade_range(m, last);
            let start = after_index(m.version_comparator, m.recipes, last, 0);
            let end = target_end(m.version_comparator, m.recipes, m.config.target_version, start);
            lemma_plan_upgrades_shape(m2, start, end, m.plans.len() as int);
        }
        assert(applies_only(final_plans[i]));
    }
    let current = m.updated_logs.last().version;
    lemma_find_fix(m, current, m.updated_logs.len() as int);
    let (li, ri) = find_fix(m, current, m.updated_logs.len() as int)->0;
    assert(m1.plans =~= m.plans.push(m1.plans.last()));
    let p = m1.plans.last();
    // the fix plan stays where it was put
    if plan_start(m1) is Ok {
        let (m2, last) = plan_start(m1)->Ok_0;
        if m1.updated_logs.len() == 0 {
            let b = baseline_choice(m1)->Ok_0;
            let mb = MigratorView { baseline_version: Some(b.version), ..m1 };
            assert(m2 == add_apply(mb, b));
            assert(m2.plans == m1.plans.push(m2.plans.last()));
            assert(m2.plans[m.plans.len() as int] == p);
        }
        lemma_upgrade_range(m, last);
        let start = after_index(m.version_comparator, m.recipes, last, 0);
        let end = target_end(m.version_comparator, m.recipes, m.config.target_version, start);
        lemma_plan_upgrades_shape(m2, start, end, m2.plans.len() as int);
        let m3 = plan_upgrades(m2, start, end);
        assert(m3.plans[m.plans.len() as int] == m3.plans.take(m2.plans.len() as int)[m.plans.len() as int]);
    }
    assert(final_plans[m.plans.len() as int] == p);
}

/// A planned fix applies to the entry it reverts: it is planned only with
/// fixes allowed, as the first new plan; it reverts an entry of the effective
/// changelog of its own version whose checksum its old checksum names, while
/// the database's version (that of the last entry) is not after its maximum
/// version; its revert row, with the next log id, records the entry's
/// version. A fixup's apply row, with the log id after that, records the
/// fixup's new target: its new version, new name and new checksum; a revert
/// has no apply row.
pub proof fn planned_fix_applies_to_its_entry(m: MigratorView, i: int)
    requires
        m.plans.len() <= i < make_plan_spec(m).0.plans.len(),
        make_plan_spec(m).0.plans[i].log_id_to_revert is Some,
    ensures
        m.config.allow_fixes,
        i == m.plans.len(),
        exists|li: int|
            0 <= li < m.updated_logs.len() && #[trigger] m.updated_logs[li].log_id
                == make_plan_spec(m).0.plans[i].log_id_to_revert->0 && matches_fix(
                m.version_comparator,
                m.updated_logs[li].version,
                m.updated_logs[li].checksum->0,
                make_plan_spec(m).0.plans[i].recipe,
                m.updated_logs.last().version,
            ) && make_plan_spec(m).0.plans[i].revert_log == Some(
                revert_entry(
                    m.next_log_id,
                    m.config.apply_by,
                    m.updated_logs[li].version,
                    make_plan_spec(m).0.plans[i].recipe,
                ),
            ),
        match make_plan_spec(m).0.plans[i].recipe.new_target() {
            Some(t) => make_plan_spec(m).0.plans[i].apply_log matches Some(row) && row.log_id
                == (m.next_log_id + 1) as i32 && row.version == t.0 && row.name == Some(t.1)
                && row.checksum == Some(t.2),
            None => make_plan_spec(m).0.plans[i].apply_log is None,
        },
{
    lemma_planned_fix(m, i);
    let current = m.updated_logs.last().version;
    lemma_find_fix(m, current, m.updated_logs.len() as int);
    let (li, ri) = find_fix(m, current, m.updated_logs.len() as int)->0;
    let p = fix_phase(m).plans.last();
    let final_plans = make_plan_spec(m).0.plans;
    assert(final_plans[m.plans.len() as int] == p);
    assert(m.updated_logs[li].log_id == p.log_id_to_revert->0);
    assert(p.recipe == m.recipes[ri]);
    assert(p.apply_log == target_entry((m.next_log_id + 1) as i32, m.config.apply_by, m.recipes[ri]));
}

/// The upgrade recipes among `s[start..i]`, in order.
pub open spec fn upgrades_in(s: Seq<RecipeScriptView>, start: int, i: int) -> Seq<RecipeScriptView>
    decreases i - start,
{
    if i <= start {
        Seq::empty()
    } else if s[i - 1].kind() == RecipeKind::Upgrade {
        upgrades_in(s, start, i - 1).push(s[i - 1])
    } else {
        upgrades_in(s, start, i - 1)
    }
}

/// A version is pending: after the database's version and, when there is a
/// target, not after the target.
pub open spec fn pending_version(
    c: VersionComparator,
    current: Seq<char>,
    target: Option<Seq<char>>,
    v: Seq<char>,
) -> bool {
    &&& c.relation(v, current) is Greater
    &&& match target {
        Some(t) => c.relation(v, t).is_le(),
        None => true,
    }
}

/// The recipes that plans apply, in order.
pub open spec fn plan_recipes(plans: Seq<MigrationPlanView>) -> Seq<RecipeScriptView> {
    plans.map_values(|p: MigrationPlanView| p.recipe)
}

proof fn lemma_plan_upgrades_recipes(m: MigratorView, start: int, i: int)
    requires
        0 <= start <= i <= m.recipes.len(),
    ensures
        plan_recipes(plan_upgrades(m, start, i).plans.skip(m.plans.len() as int)) == upgrades_in(
            m.recipes,
            start,
            i,
        ),
        plan_upgrades(m, start, i).plans.take(m.plans.len() as int) == m.plans,
        m.plans.len() <= plan_upgrades(m, start, i).plans.len(),
    decreases i - start,
{
    let k = m.plans.len() as int;
    if i <= start {
        assert(m.plans.skip(k) =~= Seq::<MigrationPlanView>::empty());
        assert(plan_recipes(m.plans.skip(k)) =~= Seq::<RecipeScriptView>::empty());
        assert(m.plans.take(k) =~= m.plans);
    } else {
        lemma_plan_upgrades_recipes(m, start, i - 1);
        let m1 = plan_upgrades(m, start, i - 1);
        if m.recipes[i - 1].kind() == RecipeKind::Upgrade {
            let m2 = add_apply(m1, m.recipes[i - 1]);
            let p = m2.plans.last();
            assert(m2.plans =~= m1.plans.push(p));
            assert(m2.plans.skip(k) =~= m1.plans.skip(k).push(p));
            assert(plan_recipes(m2.plans.skip(k)) =~= plan_recipes(m1.plans.skip(k)).push(p.recipe));
            assert(m2.plans.take(k) =~= m1.plans.take(k));
        }
    }
}

proof fn lemma_after_index_props(c: VersionComparator, s: Seq<RecipeScriptView>, v: Seq<char>, i: int)
    requires
        0 <= i <= s.len(),
    ensures
        forall|k: int|
            i <= k < after_index(c, s, v, i) ==> (#[trigger] c.relation(s[k].version, v)).is_le(),
        after_index(c, s, v, i) < s.len() ==> c.relation(s[after_index(c, s, v, i)].version, v) is Greater,
    decreases s.len() - i,
{
    lemma_after_index_bounds(c, s, v, i);
    if i < s.len() && c.relation(s[i].version, v).is_le() {
        lemma_after_index_props(c, s, v, i + 1);
    }
}

/// In recipes in order, every recipe from one after a version on is after it too.
proof fn lemma_sorted_after(c: VersionComparator, s: Seq<RecipeScriptView>, v: Seq<char>, a: int, k: int)
    requires
        c.is_total_preorder(),
        recipes_sorted(c, s),
        0 <= a <= k < s.len(),
        c.relation(s[a].version, v) is Greater,
    ensures
        c.relation(s[k].version, v) is Greater,
{
    if a < k {
        assert(recipe_order(c, s[a], s[k]).is_le());
        assert(c.relation(s[a].version, s[k].version).is_le());
        lemma_relation_flip(c, s[a].version, v);
        lemma_relation_less_trans(c, v, s[a].version, s[k].version);
        lemma_relation_flip(c, v, s[k].version);
    }
}

/// The version the upgrades are planned after: the last version of the
/// effective changelog once a fix is planned, or, for an empty database, the
/// version of the planned baseline.
pub open spec fn planned_from(m: MigratorView) -> Seq<char> {
    (plan_start(fix_phase(m))->Ok_0).1
}

/// Planning applies exactly the pending upgrades, in order: for a migrator
/// whose versions are ordered by a total preorder (its recipes are then in
/// order), when planning succeeds, the plans after the fix and the
/// baseline apply, one each and in the order of the recipes, the upgrade
/// recipes whose versions are after the version planned from and not after
/// the target version.
pub proof fn planning_applies_pending_upgrades(m: MigratorView)
    requires
        m.inv(),
        m.version_comparator.is_total_preorder(),
        make_plan_spec(m).1 is Ok,
    ensures
        exists|start: int, end: int|
            {
                &&& 0 <= start <= end <= m.recipes.len()
                &&& forall|k: int|
                    0 <= k < m.recipes.len() ==> (start <= k < end <==> pending_version(
                        m.version_comparator,
                        planned_from(m),
                        m.config.target_version,
                        #[trigger] m.recipes[k].version,
                    ))
                &&& plan_recipes(
                    make_plan_spec(m).0.plans.skip((plan_start(fix_phase(m))->Ok_0).0.plans.len() as int),
                ) == upgrades_in(m.recipes, start, end)
            },
{
    let c = m.version_comparator;
    let s = m.recipes;
    let (m2, last) = plan_start(fix_phase(m))->Ok_0;
    lemma_upgrade_range(m, last);
    let start = after_index(c, s, last, 0);
    let end = target_end(c, s, m.config.target_version, start);
    lemma_plan_upgrades_recipes(m2, start, end);
    lemma_after_index_props(c, s, last, 0);
    match m.config.target_version {
        Some(t) => lemma_after_index_props(c, s, t, start),
        None => {},
    }
    assert forall|k: int| 0 <= k < s.len() implies (start <= k < end <==> pending_version(
        c,
        last,
        m.config.target_version,
        #[trigger] s[k].version,
    )) by {
        if k >= start {
            lemma_sorted_after(c, s, last, start, k);
            match m.config.target_version {
                Some(t) => {
                    if k >= end {
                        lemma_sorted_after(c, s, t, end, k);
                    }
                },
                None => {},
            }
        }
    }
}

proof fn lemma_plan_upgrades_logs(m: MigratorView, start: int, i: int, v: Seq<char>)
    requires
        m.version_comparator.is_total_preorder(),
        strictly_sorted(m.version_comparator, m.updated_logs),
        all_checksummed(m.updated_logs),
        0 <= start <= i <= m.recipes.len(),
    ensures
        plan_upgrades(m, start, i).version_comparator == m.version_comparator,
        plan_upgrades(m, start, i).recipes == m.recipes,
        plan_upgrades(m, start, i).config == m.config,
        strictly_sorted(m.version_comparator, plan_upgrades(m, start, i).updated_logs),
        all_checksummed(plan_upgrades(m, start, i).updated_logs),
        lookup_log(m.version_comparator, m.updated_logs, v) is Some ==> lookup_log(
            m.version_comparator,
            plan_upgrades(m, start, i).updated_logs,
            v,
        ) is Some,
        forall|k: int|
            start <= k < i && (#[trigger] m.recipes[k]).kind() == RecipeKind::Upgrade
                && m.version_comparator.relation(m.recipes[k].version, v) is Equal ==> lookup_log(
                m.version_comparator,
                plan_upgrades(m, start, i).updated_logs,
                v,
            ) is Some,
    decreases i - start,
{
    let c = m.version_comparator;
    if i > start {
        lemma_plan_upgrades_logs(m, start, i - 1, v);
        let m1 = plan_upgrades(m, start, i - 1);
        let r = m.recipes[i - 1];
        if r.kind() == RecipeKind::Upgrade {
            let entry = apply_entry(m1.next_log_id, m1.config.apply_by, r);
            effective_changelog_step(c, m1.updated_logs, entry, v);
            assert(plan_upgrades(m, start, i) == add_apply(m1, r));
            assert(add_apply(m1, r).updated_logs == crate::migrator::agg_update(c, m1.updated_logs, entry));
        }
    }
}

proof fn lemma_plan_upgrades_none(m: MigratorView, start: int, i: int)
    requires
        0 <= start <= i <= m.recipes.len(),
        forall|k: int| start <= k < i ==> (#[trigger] m.recipes[k]).kind() != RecipeKind::Upgrade,
    ensures
        plan_upgrades(m, start, i) == m,
    decreases i - start,
{
    if i > start {
        lemma_plan_upgrades_none(m, start, i - 1);
    }
}

/// Planning again without fixes plans nothing more: for a migrator (whose
/// recipes are in order and whose effective changelog is in strict version
/// order with every entry checksummed) whose versions are ordered by a total
/// preorder, when planning without fixes succeeds, planning once more
/// succeeds and leaves the plans and the updated changelog as they are.
pub proof fn planning_twice_plans_nothing_more(m: MigratorView)
    requires
        m.inv(),
        m.version_comparator.is_total_preorder(),
        !m.config.allow_fixes,
        make_plan_spec(m).1 is Ok,
    ensures
        make_plan_spec(make_plan_spec(m).0).1 is Ok,
        make_plan_spec(make_plan_spec(m).0).0.plans == make_plan_spec(m).0.plans,
        make_plan_spec(make_plan_spec(m).0).0.updated_logs == make_plan_spec(m).0.updated_logs,
{
    let c = m.version_comparator;
    let s = m.recipes;
    assert(fix_phase(m) == m);
    let (m2a, last1) = plan_start(m)->Ok_0;
    // after the start, the changelog is ordered, checksummed, and holds the last version
    if m.updated_logs.len() == 0 {
        let b = baseline_choice(m)->Ok_0;
        let mb = MigratorView { baseline_version: Some(b.version), ..m };
        let entry = apply_entry(mb.next_log_id, mb.config.apply_by, b);
        assert(m2a == add_apply(mb, b));
        effective_changelog_step(c, m.updated_logs, entry, last1);
        assert(c.relation(b.version, b.version) is Equal);
    } else {
        lemma_find_sorted(c, m.updated_logs, last1);
        let j = m.updated_logs.len() - 1;
        assert(c.relation(m.updated_logs[j].version, last1) is Equal);
    }
    assert(lookup_log(c, m2a.updated_logs, last1) is Some);
    lemma_upgrade_range(m, last1);
    let start1 = after_index(c, s, last1, 0);
    let end1 = target_end(c, s, m.config.target_version, start1);
    let m2 = plan_upgrades(m2a, start1, end1);
    lemma_plan_upgrades_logs(m2a, start1, end1, last1);
    lemma_lookup_not_after_last(c, m2.updated_logs, last1);
    let last2 = m2.updated_logs.last().version;
    // planning again
    assert(fix_phase(m2) == m2);
    let (m3a, l2) = plan_start(m2)->Ok_0;
    assert(l2 == last2);
    lemma_upgrade_range(m2, last2);
    let start2 = after_index(c, s, last2, 0);
    let end2 = target_end(c, s, m.config.target_version, start2);
    lemma_after_index_props(c, s, last1, 0);
    lemma_after_index_props(c, s, last2, 0);
    match m.config.target_version {
        Some(t) => {
            lemma_after_index_props(c, s, t, start1);
            lemma_after_index_props(c, s, t, start2);
        },
        None => {},
    }
    assert forall|k: int| start2 <= k < end2 implies (#[trigger] m3a.recipes[k]).kind()
        != RecipeKind::Upgrade by {
        let vk = s[k].version;
        if s[k].kind() == RecipeKind::Upgrade {
            lemma_sorted_after(c, s, last2, start2, k);
            lemma_relation_flip(c, vk, last2);
            lemma_relation_less_trans(c, last1, last2, vk);
            lemma_relation_flip(c, last1, vk);
            if k >= end1 {
                match m.config.target_version {
                    Some(t) => lemma_sorted_after(c, s, t, end1, k),
                    None => {},
                }
            }
            assert(start1 <= k < end1);
            lemma_plan_upgrades_logs(m2a, start1, end1, vk);
            assert(c.relation(vk, vk) is Equal);
            lemma_lookup_not_after_last(c, m2.updated_logs, vk);
        }
    }
    lemma_plan_upgrades_none(m3a, start2, end2);
}

/// Where the entries that planning upgrades writes come from: an entry the
/// updated changelog holds for `v` afterwards was there before, or is the row
/// of an upgrade recipe of the range whose version compares equal to `v`.
proof fn lemma_plan_upgrades_sources(m: MigratorView, start: int, i: int, v: Seq<char>)
    requires
        m.version_comparator.is_total_preorder(),
        strictly_sorted(m.version_comparator, m.updated_logs),
        all_checksummed(m.updated_logs),
        0 <= start <= i <= m.recipes.len(),
    ensures
        lookup_log(m.version_comparator, plan_upgrades(m, start, i).updated_logs, v) matches Some(x)
            ==> lookup_log(m.version_comparator, m.updated_logs, v) == Some(x) || exists|k: int|
            start <= k < i && (#[trigger] m.recipes[k]).kind() == RecipeKind::Upgrade
                && m.version_comparator.relation(m.recipes[k].version, v) is Equal && x.checksum
                == Some(m.recipes[k].checksum) && x.version == m.recipes[k].version,
    decreases i - start,
{
    let c = m.version_comparator;
    if i > start {
        lemma_plan_upgrades_sources(m, start, i - 1, v);
        lemma_plan_upgrades_logs(m, start, i - 1, v);
        let m1 = plan_upgrades(m, start, i - 1);
        let r = m.recipes[i - 1];
        if r.kind() == RecipeKind::Upgrade {
            let entry = apply_entry(m1.next_log_id, m1.config.apply_by, r);
            effective_changelog_step(c, m1.updated_logs, entry, v);
            assert(plan_upgrades(m, start, i) == add_apply(m1, r));
            assert(add_apply(m1, r).updated_logs == agg_update(c, m1.updated_logs, entry));
        }
    }
}

proof fn lemma_recipe_index_at(
    c: VersionComparator,
    s: Seq<RecipeScriptView>,
    v: Seq<char>,
    kind: RecipeKind,
    i: int,
    k: int,
)
    requires
        0 <= i <= k < s.len(),
        forall|j: int| i <= j < k ==> (#[trigger] key_order(c, s[j], v, kind)) is Less,
        !(key_order(c, s[k], v, kind) is Less),
    ensures
        recipe_index(c, s, v, kind, i) == k,
    decreases k - i,
{
    if i < k {
        lemma_recipe_index_at(c, s, v, kind, i + 1, k);
    }
}

/// In checked recipes in order, the search for the upgrade of a version
/// finds that upgrade.
proof fn lemma_find_upgrade(c: VersionComparator, s: Seq<RecipeScriptView>, k: int)
    requires
        c.is_total_preorder(),
        forall|a: Seq<char>, b: Seq<char>| #[trigger] c.relation(a, b) is Equal ==> a == b,
        recipes_sorted(c, s),
        check_ordered(c, s) is None,
        0 <= k < s.len(),
        s[k].kind() == RecipeKind::Upgrade,
    ensures
        find_recipe(c, s, s[k].version, RecipeKind::Upgrade) == Some(k),
{
    let v = s[k].version;
    assert forall|j: int| 0 <= j < k implies (#[trigger] key_order(c, s[j], v, RecipeKind::Upgrade)) is Less by {
        assert(recipe_order(c, s[j], s[k]).is_le());
        if key_order(c, s[j], v, RecipeKind::Upgrade) is Equal {
            assert(c.relation(s[j].version, v) is Equal);
            checked_recipes_have_unique_versions(c, s, j, k);
        }
    }
    assert(c.relation(v, v) is Equal);
    lemma_recipe_index_at(c, s, v, RecipeKind::Upgrade, 0, k);
}

proof fn lemma_check_applied_none(m: MigratorView, i: int, end: int)
    requires
        0 <= i,
        forall|k: int|
            i <= k < end && k < m.recipes.len() && (#[trigger] m.recipes[k]).kind()
                == RecipeKind::Upgrade ==> (find_log(
                m.version_comparator,
                m.updated_logs,
                m.recipes[k].version,
            ) matches Some(j) && checksum_or_empty(m.updated_logs[j].checksum)
                == m.recipes[k].checksum),
    ensures
        check_applied(m, i, end) is None,
    decreases end - i,
{
    if i < end && i < m.recipes.len() {
        lemma_check_applied_none(m, i + 1, end);
    }
}

proof fn lemma_check_logs_none(m: MigratorView, p: int)
    requires
        0 <= p,
        forall|i: int|
            p <= i < m.updated_logs.len() ==> (find_recipe(
                m.version_comparator,
                m.recipes,
                (#[trigger] m.updated_logs[i]).version,
                RecipeKind::Upgrade,
            ) matches Some(k) && checksum_or_empty(m.updated_logs[i].checksum)
                == m.recipes[k].checksum),
    ensures
        check_logs(m, p) is None,
    decreases m.updated_logs.len() - p,
{
    if p < m.updated_logs.len() {
        lemma_check_logs_none(m, p + 1);
    }
}

/// A plan built for an empty database passes the check of the updated
/// changelog: when versions are ordered by a total preorder that calls two
/// versions equal only when they are the same string (as `simple_compare`
/// does), for a migrator (whose recipes are in order and pass the ordering
/// check), when the target version, if any, is known and planning succeeds.
pub proof fn fresh_plan_passes_check(m: MigratorView)
    requires
        m.inv(),
        m.version_comparator.is_total_preorder(),
        forall|a: Seq<char>, b: Seq<char>|
            #[trigger] m.version_comparator.relation(a, b) is Equal ==> a == b,
        m.updated_logs.len() == 0,
        check_target(m) is None,
        make_plan_spec(m).1 is Ok,
    ensures
        check_updated_spec(make_plan_spec(m).0) is None,
{
    let c = m.version_comparator;
    let s = m.recipes;
    assert(fix_phase(m) == m);
    let (m2a, last1) = plan_start(m)->Ok_0;
    let b = baseline_choice(m)->Ok_0;
    let mb = MigratorView { baseline_version: Some(b.version), ..m };
    let bentry = apply_entry(mb.next_log_id, mb.config.apply_by, b);
    assert(m2a == add_apply(mb, b));
    assert(last1 == b.version);
    effective_changelog_step(c, m.updated_logs, bentry, b.version);
    let first = m2a.updated_logs;
    assert(first =~= seq![bentry]);
    lemma_upgrade_range(m, last1);
    let start = after_index(c, s, last1, 0);
    let end = target_end(c, s, m.config.target_version, start);
    let m3 = plan_upgrades(m2a, start, end);
    assert(m3 == make_plan_spec(m).0);
    lemma_plan_upgrades_logs(m2a, start, end, last1);
    lemma_plan_upgrades_shape(m2a, start, end, m2a.plans.len() as int);
    assert(m3.baseline_version == Some(b.version));
    assert(check_target(m3) == check_target(m));
    lemma_after_index_props(c, s, last1, 0);
    // a version of the range is after the baseline's
    assert forall|k: int| start <= k < s.len() implies #[trigger] c.relation(s[k].version, b.version)
        is Greater by {
        lemma_sorted_after(c, s, last1, start, k);
    }
    // what the single baseline row answers
    assert forall|v: Seq<char>| #[trigger] lookup_log(c, first, v) is Some ==> c.relation(
        bentry.version,
        v,
    ) is Equal && lookup_log(c, first, v) == Some(bentry) by {
        lemma_find_sorted(c, first, v);
        if lookup_log(c, first, v) is Some {
            crate::migrator::lemma_log_index_bounds(c, first, v, 0);
        }
    }
    // every upgrade of the range is applied, with its checksum
    assert forall|k: int|
        start <= k < end && k < s.len() && (#[trigger] m3.recipes[k]).kind() == RecipeKind::Upgrade
        implies (find_log(c, m3.updated_logs, s[k].version) matches Some(j) && checksum_or_empty(
        m3.updated_logs[j].checksum,
    ) == s[k].checksum) by {
        let v = s[k].version;
        assert(c.relation(v, v) is Equal);
        lemma_plan_upgrades_logs(m2a, start, end, v);
        lemma_plan_upgrades_sources(m2a, start, end, v);
        let x = lookup_log(c, m3.updated_logs, v)->0;
        if lookup_log(c, first, v) == Some(x) {
            lemma_relation_flip(c, bentry.version, v);
        } else {
            let k2 = choose|k2: int|
                start <= k2 < end && (#[trigger] s[k2]).kind() == RecipeKind::Upgrade && c.relation(
                    s[k2].version,
                    v,
                ) is Equal && x.checksum == Some(s[k2].checksum) && x.version == s[k2].version;
            if k2 < k {
                checked_recipes_have_unique_versions(c, s, k2, k);
            } else if k2 > k {
                checked_recipes_have_unique_versions(c, s, k, k2);
            }
        }
    }
    lemma_check_applied_none(m3, start, end);
    // every entry after the first is a known upgrade with its checksum
    let u = m3.updated_logs;
    assert forall|i: int| 1 <= i < u.len() implies (find_recipe(
        c,
        s,
        (#[trigger] u[i]).version,
        RecipeKind::Upgrade,
    ) matches Some(k) && checksum_or_empty(u[i].checksum) == s[k].checksum) by {
        let e = u[i];
        assert(c.relation(e.version, e.version) is Equal);
        lemma_find_sorted(c, u, e.version);
        lemma_plan_upgrades_sources(m2a, start, end, e.version);
        if lookup_log(c, first, e.version) == Some(e) {
            // the baseline row is the first entry: a row before it is impossible
            let e0 = u[0];
            assert(c.relation(e0.version, e.version) is Less);
            assert(c.relation(e0.version, e0.version) is Equal);
            lemma_find_sorted(c, u, e0.version);
            lemma_plan_upgrades_sources(m2a, start, end, e0.version);
            if lookup_log(c, first, e0.version) == Some(e0) {
                assert(e0 == e);
            } else {
                let k0 = choose|k0: int|
                    start <= k0 < end && (#[trigger] s[k0]).kind() == RecipeKind::Upgrade
                        && c.relation(s[k0].version, e0.version) is Equal && e0.checksum == Some(
                        s[k0].checksum,
                    ) && e0.version == s[k0].version;
                assert(c.relation(s[k0].version, b.version) is Greater);
                lemma_relation_equal_subst(c, e.version, b.version, e0.version);
                lemma_relation_flip(c, e0.version, b.version);
            }
        } else {
            let k = choose|k: int|
                start <= k < end && (#[trigger] s[k]).kind() == RecipeKind::Upgrade && c.relation(
                    s[k].version,
                    e.version,
                ) is Equal && e.checksum == Some(s[k].checksum) && e.version == s[k].version;
            lemma_find_upgrade(c, s, k);
        }
    }
    lemma_check_logs_none(m3, 1);
}


proof fn lemma_recipe_index_stops(
    c: VersionComparator,
    s: Seq<RecipeScriptView>,
    v: Seq<char>,
    kind: RecipeKind,
    i: int,
    k: int,
)
    requires
        0 <= i <= k < s.len(),
        !(key_order(c, s[k], v, kind) is Less),
    ensures
        i <= recipe_index(c, s, v, kind, i) <= k,
        !(key_order(c, s[recipe_index(c, s, v, kind, i)], v, kind) is Less),
    decreases k - i,
{
    if key_order(c, s[i], v, kind) is Less {
        lemma_recipe_index_stops(c, s, v, kind, i + 1, k);
    }
}

/// In recipes in order, the search for a version and kind finds a recipe
/// whenever one of that kind has a version equal to it.
proof fn lemma_find_recipe_equal(
    c: VersionComparator,
    s: Seq<RecipeScriptView>,
    t: Seq<char>,
    kind: RecipeKind,
    k: int,
)
    requires
        c.is_total_preorder(),
        recipes_sorted(c, s),
        0 <= k < s.len(),
        s[k].kind() == kind,
        c.relation(s[k].version, t) is Equal,
    ensures
        find_recipe(c, s, t, kind) is Some,
{
    assert(key_order(c, s[k], t, kind) is Equal);
    lemma_recipe_index_stops(c, s, t, kind, 0, k);
    let idx = recipe_index(c, s, t, kind, 0);
    if idx < k {
        assert(recipe_order(c, s[idx], s[k]).is_le());
        lemma_relation_equal_subst(c, s[k].version, t, s[idx].version);
        assert(key_order(c, s[idx], s[k].version, kind) == key_order(c, s[idx], t, kind));
    }
}

proof fn lemma_check_logs_not_target(m: MigratorView, i: int)
    ensures
        !(check_logs(m, i) matches Some(MigratorErrorView::UnknownTarget { .. })),
    decreases m.updated_logs.len() - i,
{
    if 0 <= i < m.updated_logs.len() {
        lemma_check_logs_not_target(m, i + 1);
    }
}

proof fn lemma_check_applied_not_target(m: MigratorView, i: int, end: int)
    ensures
        !(check_applied(m, i, end) matches Some(MigratorErrorView::UnknownTarget { .. })),
    decreases end - i,
{
    if 0 <= i < end && i < m.recipes.len() {
        lemma_check_applied_not_target(m, i + 1, end);
    }
}

/// A target version is known when a baseline or an upgrade recipe has it:
/// when versions are ordered by a total preorder, for a migrator (whose
/// recipes are in order), a target that compares equal to the version of a
/// baseline or an upgrade recipe is never reported as an unknown target.
pub proof fn target_of_a_baseline_or_upgrade_is_known(m: MigratorView, k: int)
    requires
        m.inv(),
        m.version_comparator.is_total_preorder(),
        0 <= k < m.recipes.len(),
        m.recipes[k].kind() == RecipeKind::Baseline || m.recipes[k].kind() == RecipeKind::Upgrade,
        m.config.target_version matches Some(t) && m.version_comparator.relation(
            m.recipes[k].version,
            t,
        ) is Equal,
    ensures
        check_target(m) is None,
        !(check_updated_spec(m) matches Some(MigratorErrorView::UnknownTarget { .. })),
{
    let c = m.version_comparator;
    let t = m.config.target_version->0;
    lemma_find_recipe_equal(c, m.recipes, t, m.recipes[k].kind(), k);
    lemma_check_logs_not_target(m, 1);
    if m.baseline_version is Some {
        let bv = m.baseline_version->0;
        let start = after_index(c, m.recipes, bv, 0);
        let end = target_end(c, m.recipes, m.config.target_version, start);
        lemma_check_applied_not_target(m, start, end);
    }
}


/// After planning a fixup, the updated changelog holds the fixup's new target
/// for its new version: when versions are ordered by a total preorder, for a
/// migrator (whose recipes and changelogs are in order), the entry of the new
/// version carries the new name and the new checksum, so that the check of
/// the updated changelog compares the upgrade recipe with the checksum the
/// fixup names.
pub proof fn planned_fixup_records_its_target(m: MigratorView)
    requires
        m.inv(),
        m.version_comparator.is_total_preorder(),
        m.plans.len() < make_plan_spec(m).0.plans.len(),
        make_plan_spec(m).0.plans[m.plans.len() as int].log_id_to_revert is Some,
    ensures
        match make_plan_spec(m).0.plans[m.plans.len() as int].recipe.new_target() {
            Some(t) => lookup_log(m.version_comparator, make_plan_spec(m).0.updated_logs, t.0)
                matches Some(row) && row.version == t.0 && row.name == Some(t.1) && row.checksum
                == Some(t.2),
            None => true,
        },
{
    let i = m.plans.len() as int;
    lemma_planned_fix(m, i);
    let c = m.version_comparator;
    let s = m.recipes;
    let current = m.updated_logs.last().version;
    let (li, ri) = find_fix(m, current, m.updated_logs.len() as int)->0;
    let fix = m.recipes[ri];
    let m1 = fix_phase(m);
    assert(make_plan_spec(m).0.plans[i].recipe == fix);
    if fix.new_target() is Some {
        let t = fix.new_target()->0;
        let log = m.updated_logs[li];
        let revert = revert_entry(m.next_log_id, m.config.apply_by, log.version, fix);
        let target = target_entry((m.next_log_id + 1) as i32, m.config.apply_by, fix)->0;
        let u1 = agg_update(c, m.updated_logs, revert);
        effective_changelog_step(c, m.updated_logs, revert, t.0);
        effective_changelog_step(c, u1, target, t.0);
        let u2 = agg_update(c, u1, target);
        assert(c.relation(t.0, t.0) is Equal);
        assert(lookup_log(c, u2, t.0) == Some(target));
        assert(m1.updated_logs == u2);
        lemma_lookup_not_after_last(c, u2, t.0);
        let (m2, last) = plan_start(m1)->Ok_0;
        assert(m2.updated_logs == u2);
        assert(last == u2.last().version);
        let start = after_index(c, s, last, 0);
        let end = target_end(c, s, m.config.target_version, start);
        lemma_upgrade_range(m, last);
        assert(make_plan_spec(m).0 == plan_upgrades(m2, start, end));
        lemma_plan_upgrades_logs(m2, start, end, t.0);
        lemma_plan_upgrades_sources(m2, start, end, t.0);
        lemma_after_index_props(c, s, last, 0);
        let fin = make_plan_spec(m).0.updated_logs;
        let x = lookup_log(c, fin, t.0)->0;
        if x != target {
            let k = choose|k: int|
                start <= k < end && (#[trigger] m2.recipes[k]).kind() == RecipeKind::Upgrade
                    && c.relation(m2.recipes[k].version, t.0) is Equal && x.checksum == Some(
                    m2.recipes[k].checksum,
                ) && x.version == m2.recipes[k].version;
            lemma_sorted_after(c, s, last, start, k);
            lemma_relation_equal_subst(c, s[k].version, t.0, last);
            assert(false);
        }
    }
}

} // verus!
