//! The migrator: consolidates the changelog, plans the pending migrations and
//! checks the planned state against the recipes.

use vstd::prelude::*;
use crate::changelog::{clone_opt, opt_view, Changelog, ChangelogView};
use crate::order::{
    check_ordered, find_recipe, find_recipe_of, key_order, lemma_recipe_index_bounds, order_recipes,
    recipe_index, recipe_index_of, sort_recipes, views,
};
use crate::recipe::{
    checksum_matches, checksum_prefix_match, kind_name, RecipeErrorView, RecipeError, RecipeKind, RecipeScript,
    RecipeScriptView,
};
use crate::laws::{
    consolidated_changelog_is_effective_state, lemma_agg_update_sorted,
    ordered_recipes_are_sorted_permutation, recipes_sorted, strictly_sorted,
};
use crate::text::same_text;
use crate::version::{Comparison, VersionComparator};

verus! {

/// Settings of a migration run.
#[derive(Debug)]
pub struct Config {
    /// Allow creating the changelog table when it does not exist.
    pub auto_initialize: bool,
    /// Name of the changelog table (it may include the schema).
    pub log_table_name: Option<String>,
    /// Baseline for initialization (the last available baseline when absent).
    pub suggested_baseline_version: Option<String>,
    /// Limit migration to this version (all of them when absent).
    pub target_version: Option<String>,
    /// Description of the application that applies migrations.
    pub apply_by: Option<String>,
    /// Allow applying revert and fixup migrations.
    pub allow_fixes: bool,
    /// Allow out of order migrations.
    pub allow_out_of_order: bool,
}

/// `Config` with its texts as character sequences.
pub struct ConfigView {
    pub auto_initialize: bool,
    pub log_table_name: Option<Seq<char>>,
    pub suggested_baseline_version: Option<Seq<char>>,
    pub target_version: Option<Seq<char>>,
    pub apply_by: Option<Seq<char>>,
    pub allow_fixes: bool,
    pub allow_out_of_order: bool,
}

impl View for Config {
    type V = ConfigView;

    open spec fn view(&self) -> ConfigView {
        ConfigView {
            auto_initialize: self.auto_initialize,
            log_table_name: opt_view(self.log_table_name),
            suggested_baseline_version: opt_view(self.suggested_baseline_version),
            target_version: opt_view(self.target_version),
            apply_by: opt_view(self.apply_by),
            allow_fixes: self.allow_fixes,
            allow_out_of_order: self.allow_out_of_order,
        }
    }
}

impl Clone for Config {
    fn clone(&self) -> (r: Self)
        ensures
            r == *self,
    {
        Config {
            auto_initialize: self.auto_initialize,
            log_table_name: clone_opt(&self.log_table_name),
            suggested_baseline_version: clone_opt(&self.suggested_baseline_version),
            target_version: clone_opt(&self.target_version),
            apply_by: clone_opt(&self.apply_by),
            allow_fixes: self.allow_fixes,
            allow_out_of_order: self.allow_out_of_order,
        }
    }
}

impl Default for Config {
    fn default() -> (r: Self)
        ensures
            r.auto_initialize == false,
            r.log_table_name is None,
            r.suggested_baseline_version is None,
            r.target_version is None,
            r.apply_by is None,
            r.allow_fixes == false,
            r.allow_out_of_order == false,
    {
        Config {
            auto_initialize: false,
            log_table_name: None,
            suggested_baseline_version: None,
            target_version: None,
            apply_by: None,
            allow_fixes: false,
            allow_out_of_order: false,
        }
    }
}

impl Config {
    /// The name of the changelog table: the configured one or `dbmigrator_log`.
    pub fn effective_log_table_name(&self) -> (r: &str)
        ensures
            r@ == match self.log_table_name {
                Some(name) => name@,
                None => "dbmigrator_log"@,
            },
    {
        match &self.log_table_name {
            Some(name) => name.as_str(),
            None => "dbmigrator_log",
        }
    }
}

/// An error of a migration cycle.
#[derive(Debug)]
pub enum MigratorError {
    /// The recipes are not valid.
    RecipeError(RecipeError),
    /// No baseline recipe is available.
    NoBaseline,
    /// The suggested baseline is not a baseline recipe.
    UnknownBaseline(String),
    /// The target version is not a known recipe version.
    UnknownTarget { version: String, available: Option<String> },
    /// There is no changelog table.
    NoLogTable,
    /// The database holds a migration that no recipe knows.
    UnknownMigration { log: Changelog },
    /// A recipe is missing from the database.
    MissingMigration { script: RecipeScript },
    /// The database and a recipe disagree on a checksum.
    ConflictedMigration { log: Changelog, script: RecipeScript },
    /// The database reported an error.
    DbError(String),
}

/// `MigratorError` seen through the views of what it holds.
pub enum MigratorErrorView {
    RecipeError(RecipeErrorView),
    NoBaseline,
    UnknownBaseline(Seq<char>),
    UnknownTarget { version: Seq<char>, available: Option<Seq<char>> },
    NoLogTable,
    UnknownMigration { log: ChangelogView },
    MissingMigration { script: RecipeScriptView },
    ConflictedMigration { log: ChangelogView, script: RecipeScriptView },
    DbError(Seq<char>),
}

impl View for MigratorError {
    type V = MigratorErrorView;

    open spec fn view(&self) -> MigratorErrorView {
        match self {
            MigratorError::RecipeError(e) => MigratorErrorView::RecipeError(e@),
            MigratorError::NoBaseline => MigratorErrorView::NoBaseline,
            MigratorError::UnknownBaseline(v) => MigratorErrorView::UnknownBaseline(v@),
            MigratorError::UnknownTarget { version, available } => MigratorErrorView::UnknownTarget {
                version: version@,
                available: opt_view(*available),
            },
            MigratorError::NoLogTable => MigratorErrorView::NoLogTable,
            MigratorError::UnknownMigration { log } => MigratorErrorView::UnknownMigration {
                log: log@,
            },
            MigratorError::MissingMigration { script } => MigratorErrorView::MissingMigration {
                script: script@,
            },
            MigratorError::ConflictedMigration { log, script } =>
                MigratorErrorView::ConflictedMigration { log: log@, script: script@ },
            MigratorError::DbError(m) => MigratorErrorView::DbError(m@),
        }
    }
}

/// One step of a migration: a recipe to run and the changelog rows it writes.
#[derive(Debug)]
pub struct MigrationPlan {
    recipe: RecipeScript,
    log_id_to_revert: Option<i32>,
    revert_log: Option<Changelog>,
    apply_log: Option<Changelog>,
}

/// `MigrationPlan` seen through the views of what it holds.
pub struct MigrationPlanView {
    pub recipe: RecipeScriptView,
    pub log_id_to_revert: Option<i32>,
    pub revert_log: Option<ChangelogView>,
    pub apply_log: Option<ChangelogView>,
}

/// An optional changelog entry seen through its view.
pub open spec fn opt_log_view(o: Option<Changelog>) -> Option<ChangelogView> {
    match o {
        Some(l) => Some(l@),
        None => None,
    }
}

impl View for MigrationPlan {
    type V = MigrationPlanView;

    closed spec fn view(&self) -> MigrationPlanView {
        MigrationPlanView {
            recipe: self.recipe@,
            log_id_to_revert: self.log_id_to_revert,
            revert_log: opt_log_view(self.revert_log),
            apply_log: opt_log_view(self.apply_log),
        }
    }
}

impl MigrationPlan {
    /// The recipe the plan applies.
    pub fn script(&self) -> (r: &RecipeScript)
        ensures
            r@ == self@.recipe,
    {
        &self.recipe
    }

    /// The script the plan runs.
    pub fn sql(&self) -> (r: &str)
        ensures
            r@ == self@.recipe.sql,
    {
        self.recipe.sql()
    }

    /// The changelog entry a fix marks reverted, if any.
    pub fn log_id_to_revert(&self) -> (r: Option<i32>)
        ensures
            r == self@.log_id_to_revert,
    {
        self.log_id_to_revert
    }

    /// The row that reverts an entry, for a fix.
    pub fn revert_log(&self) -> (r: Option<&Changelog>)
        ensures
            r matches Some(l) ==> self@.revert_log == Some(l@),
            r is None ==> self@.revert_log is None,
    {
        self.revert_log.as_ref()
    }

    /// The row that records the applied recipe, if any.
    pub fn apply_log(&self) -> (r: Option<&Changelog>)
        ensures
            r matches Some(l) ==> self@.apply_log == Some(l@),
            r is None ==> self@.apply_log is None,
    {
        self.apply_log.as_ref()
    }
}

/// The views of a sequence of changelog entries.
pub open spec fn log_views(s: Seq<Changelog>) -> Seq<ChangelogView> {
    s.map_values(|l: Changelog| l@)
}

/// The first index from `i` on whose entry's version is not before `version`,
/// or the length.
pub open spec fn log_index(c: VersionComparator, s: Seq<ChangelogView>, version: Seq<char>, i: int) -> int
    decreases s.len() - i,
{
    if i < 0 || i >= s.len() {
        s.len() as int
    } else if c.relation(s[i].version, version) is Less {
        log_index(c, s, version, i + 1)
    } else {
        i
    }
}

/// The search index stays within the changelog.
pub proof fn lemma_log_index_bounds(c: VersionComparator, s: Seq<ChangelogView>, version: Seq<char>, i: int)
    requires
        0 <= i <= s.len(),
    ensures
        i <= log_index(c, s, version, i) <= s.len(),
        forall|k: int| i <= k < log_index(c, s, version, i) ==> c.relation(s[k].version, version) is Less,
        log_index(c, s, version, i) < s.len() ==> !(c.relation(s[log_index(c, s, version, i)].version, version) is Less),
    decreases s.len() - i,
{
    if i < s.len() && c.relation(s[i].version, version) is Less {
        lemma_log_index_bounds(c, s, version, i + 1);
    }
}

/// The index of the entry of `version` in an ordered changelog, if any.
pub open spec fn find_log(c: VersionComparator, s: Seq<ChangelogView>, version: Seq<char>) -> Option<int> {
    let k = log_index(c, s, version, 0);
    if k < s.len() && c.relation(s[k].version, version) is Equal {
        Some(k)
    } else {
        None
    }
}

/// The effective changelog after one more row: the row takes the place of
/// the entry of its version, or is inserted in version order; a row without
/// checksum removes the entry of its version.
pub open spec fn agg_update(c: VersionComparator, s: Seq<ChangelogView>, log: ChangelogView) -> Seq<ChangelogView> {
    let k = log_index(c, s, log.version, 0);
    match find_log(c, s, log.version) {
        Some(i) => if log.checksum is Some {
            s.update(i, log)
        } else {
            s.remove(i)
        },
        None => if log.checksum is Some {
            s.insert(k, log)
        } else {
            s
        },
    }
}

/// The effective changelog of a sequence of rows, applied in order.
pub open spec fn consolidate(c: VersionComparator, rows: Seq<ChangelogView>) -> Seq<ChangelogView>
    decreases rows.len(),
{
    if rows.len() == 0 {
        Seq::empty()
    } else {
        agg_update(c, consolidate(c, rows.drop_last()), rows.last())
    }
}

/// Every entry has a checksum.
pub open spec fn all_checksummed(s: Seq<ChangelogView>) -> bool {
    forall|i: int| 0 <= i < s.len() ==> (#[trigger] s[i]).checksum is Some
}

fn log_index_of(agg_log: &Vec<Changelog>, c: &VersionComparator, version: &str) -> (r: usize)
    ensures
        r == log_index(*c, log_views(agg_log@), version@, 0),
{
    let ghost s = log_views(agg_log@);
    let mut k: usize = 0;
    while k < agg_log.len() && c.order(agg_log[k].version(), version) == Comparison::Less
        invariant
            k <= agg_log@.len(),
            s == log_views(agg_log@),
            log_index(*c, s, version@, 0) == log_index(*c, s, version@, k as int),
        decreases agg_log@.len() - k,
    {
        k = k + 1;
    }
    k
}

/// The position of the entry of `version`, if any.
fn find_log_of(agg_log: &Vec<Changelog>, c: &VersionComparator, version: &str) -> (r: Option<usize>)
    ensures
        match r {
            Some(i) => find_log(*c, log_views(agg_log@), version@) == Some(i as int),
            None => find_log(*c, log_views(agg_log@), version@) is None,
        },
{
    let k = log_index_of(agg_log, c, version);
    if k < agg_log.len() && c.order(agg_log[k].version(), version) == Comparison::Equal {
        Some(k)
    } else {
        None
    }
}

/// Applies one changelog row to the effective changelog.
pub fn update_agg_log(agg_log: &mut Vec<Changelog>, version_comparator: VersionComparator, log: &Changelog)
    ensures
        log_views(final(agg_log)@) == agg_update(version_comparator, log_views(old(agg_log)@), log@),
{
    let ghost s = log_views(agg_log@);
    let k = log_index_of(agg_log, &version_comparator, log.version());
    proof {
        lemma_log_index_bounds(version_comparator, s, log@.version, 0);
    }
    let found = k < agg_log.len() && version_comparator.order(agg_log[k].version(), log.version())
        == Comparison::Equal;
    let has_checksum = log.checksum().is_some();
    if found {
        if has_checksum {
            agg_log.set(k, log.clone());
            assert(log_views(agg_log@) =~= s.update(k as int, log@));
        } else {
            agg_log.remove(k);
            assert(log_views(agg_log@) =~= s.remove(k as int));
        }
    } else {
        if has_checksum {
            agg_log.insert(k, log.clone());
            assert(log_views(agg_log@) =~= s.insert(k as int, log@));
        }
    }
}

/// The entry of `version` in the effective changelog.
pub fn find_agg_log<'a>(agg_log: &'a Vec<Changelog>, version_comparator: VersionComparator, version: &str) -> (r: Option<&'a Changelog>)
    ensures
        r matches Some(l) ==> (find_log(version_comparator, log_views(agg_log@), version@) matches Some(i)
            && 0 <= i < agg_log@.len() && l@ == log_views(agg_log@)[i]),
        r is None ==> find_log(version_comparator, log_views(agg_log@), version@) is None,
{
    match find_log_of(agg_log, &version_comparator, version) {
        Some(i) => {
            assert(log_views(agg_log@)[i as int] == agg_log@[i as int]@);
            Some(&agg_log[i])
        },
        None => None,
    }
}

fn clone_logs(v: &Vec<Changelog>) -> (r: Vec<Changelog>)
    ensures
        r@ == v@,
{
    let mut r: Vec<Changelog> = Vec::new();
    let mut i: usize = 0;
    while i < v.len()
        invariant
            i <= v@.len(),
            r@ == v@.take(i as int),
        decreases v@.len() - i,
    {
        r.push(v[i].clone());
        assert(v@.take(i + 1) =~= v@.take(i as int).push(v@[i as int]));
        i = i + 1;
    }
    assert(v@.take(v@.len() as int) =~= v@);
    r
}

/// Updating with a row keeps every entry checksummed.
pub proof fn lemma_agg_update_checksummed(c: VersionComparator, s: Seq<ChangelogView>, log: ChangelogView)
    requires
        all_checksummed(s),
    ensures
        all_checksummed(agg_update(c, s, log)),
{
    lemma_log_index_bounds(c, s, log.version, 0);
    let r = agg_update(c, s, log);
    assert forall|i: int| 0 <= i < r.len() implies (#[trigger] r[i]).checksum is Some by {
        let k = log_index(c, s, log.version, 0);
        match find_log(c, s, log.version) {
            Some(j) => if log.checksum is None {
                if i < j {
                    assert(r[i] == s[i]);
                } else {
                    assert(r[i] == s[i + 1]);
                }
            },
            None => if log.checksum is Some {
                if i < k {
                    assert(r[i] == s[i]);
                } else if i > k {
                    assert(r[i] == s[i - 1]);
                }
            },
        }
    }
}

/// A consolidated changelog has only checksummed entries.
pub proof fn lemma_consolidate_checksummed(c: VersionComparator, rows: Seq<ChangelogView>)
    ensures
        all_checksummed(consolidate(c, rows)),
    decreases rows.len(),
{
    if rows.len() > 0 {
        lemma_consolidate_checksummed(c, rows.drop_last());
        lemma_agg_update_checksummed(c, consolidate(c, rows.drop_last()), rows.last());
    }
}

/// The views of a sequence of plans.
pub open spec fn plan_views(s: Seq<MigrationPlan>) -> Seq<MigrationPlanView> {
    s.map_values(|p: MigrationPlan| p@)
}

/// Plans, then checks, the migration of a database to the recipes.
pub struct Migrator {
    config: Config,
    version_comparator: VersionComparator,
    recipes: Vec<RecipeScript>,
    last_log_id: i32,
    next_log_id: i32,
    raw_logs: Vec<Changelog>,
    consolidated_logs: Vec<Changelog>,
    updated_logs: Vec<Changelog>,
    baseline_version: Option<String>,
    plans: Vec<MigrationPlan>,
}

/// The state of a migrator seen through views.
pub struct MigratorView {
    pub config: ConfigView,
    pub version_comparator: VersionComparator,
    pub recipes: Seq<RecipeScriptView>,
    pub last_log_id: i32,
    pub next_log_id: i32,
    pub raw_logs: Seq<ChangelogView>,
    pub consolidated_logs: Seq<ChangelogView>,
    pub updated_logs: Seq<ChangelogView>,
    pub baseline_version: Option<Seq<char>>,
    pub plans: Seq<MigrationPlanView>,
}

impl View for Migrator {
    type V = MigratorView;

    closed spec fn view(&self) -> MigratorView {
        MigratorView {
            config: self.config@,
            version_comparator: self.version_comparator,
            recipes: views(self.recipes@),
            last_log_id: self.last_log_id,
            next_log_id: self.next_log_id,
            raw_logs: log_views(self.raw_logs@),
            consolidated_logs: log_views(self.consolidated_logs@),
            updated_logs: log_views(self.updated_logs@),
            baseline_version: opt_view(self.baseline_version),
            plans: plan_views(self.plans@),
        }
    }
}

impl MigratorView {
    /// Every entry of the effective changelogs has a checksum, and the
    /// recipes pass the ordering check; with a comparator that is a total
    /// preorder, the recipes are in order and the effective changelogs are in
    /// strict version order.
    pub open spec fn inv(self) -> bool {
        &&& all_checksummed(self.consolidated_logs)
        &&& all_checksummed(self.updated_logs)
        &&& check_ordered(self.version_comparator, self.recipes) is None
        &&& self.version_comparator.is_total_preorder() ==> {
            &&& recipes_sorted(self.version_comparator, self.recipes)
            &&& strictly_sorted(self.version_comparator, self.consolidated_logs)
            &&& strictly_sorted(self.version_comparator, self.updated_logs)
        }
    }
}

impl Migrator {
    /// A migrator with no recipes, changelog or plans; log ids start at 1.
    pub fn new(config: Config, version_comparator: VersionComparator) -> (r: Migrator)
        ensures
            r@ == (MigratorView {
                config: config@,
                version_comparator,
                recipes: Seq::empty(),
                last_log_id: 0,
                next_log_id: 1,
                raw_logs: Seq::empty(),
                consolidated_logs: Seq::empty(),
                updated_logs: Seq::empty(),
                baseline_version: None,
                plans: Seq::empty(),
            }),
            r@.inv(),
    {
        let r = Migrator {
            config,
            version_comparator,
            recipes: Vec::new(),
            last_log_id: 0,
            next_log_id: 1,
            raw_logs: Vec::new(),
            consolidated_logs: Vec::new(),
            updated_logs: Vec::new(),
            baseline_version: None,
            plans: Vec::new(),
        };
        assert(r@.recipes =~= Seq::empty());
        assert(r@.raw_logs =~= Seq::empty());
        assert(r@.consolidated_logs =~= Seq::empty());
        assert(r@.updated_logs =~= Seq::empty());
        assert(r@.plans =~= Seq::empty());
        r
    }

    /// The configuration.
    pub fn config(&self) -> (r: &Config)
        ensures
            r@ == self@.config,
    {
        &self.config
    }

    /// The comparator versions are ordered with.
    pub fn version_comparator(&self) -> (r: VersionComparator)
        ensures
            r == self@.version_comparator,
    {
        self.version_comparator
    }

    /// The recipes, in order.
    pub fn recipes(&self) -> (r: &Vec<RecipeScript>)
        ensures
            views(r@) == self@.recipes,
    {
        &self.recipes
    }

    /// The changelog rows read from the database.
    pub fn raw_logs(&self) -> (r: &Vec<Changelog>)
        ensures
            log_views(r@) == self@.raw_logs,
    {
        &self.raw_logs
    }

    /// The effective changelog of the database.
    pub fn consolidated_logs(&self) -> (r: &Vec<Changelog>)
        ensures
            log_views(r@) == self@.consolidated_logs,
    {
        &self.consolidated_logs
    }

    /// The effective changelog after the planned migrations.
    pub fn updated_logs(&self) -> (r: &Vec<Changelog>)
        ensures
            log_views(r@) == self@.updated_logs,
    {
        &self.updated_logs
    }

    /// The planned migrations, in order.
    pub fn plans(&self) -> (r: &Vec<MigrationPlan>)
        ensures
            plan_views(r@) == self@.plans,
    {
        &self.plans
    }

    /// The log id that the next planned changelog row gets.
    pub fn next_log_id(&self) -> (r: i32)
        ensures
            r == self@.next_log_id,
    {
        self.next_log_id
    }

    /// The version of the baseline, once planning has found it.
    pub fn baseline_version(&self) -> (r: Option<&str>)
        ensures
            r matches Some(v) ==> self@.baseline_version == Some(v@),
            r is None ==> self@.baseline_version is None,
    {
        match &self.baseline_version {
            Some(v) => Some(v.as_str()),
            None => None,
        }
    }

    /// Orders and checks the recipes; on success they become the migrator's
    /// recipes, on failure the migrator is left as it was.
    pub fn set_recipes(&mut self, recipes: Vec<RecipeScript>) -> (r: Result<(), MigratorError>)
        ensures
            match r {
                Ok(()) => final(self)@ == (MigratorView {
                    recipes: sort_recipes(old(self)@.version_comparator, views(recipes@)),
                    ..old(self)@
                }) && check_ordered(
                    old(self)@.version_comparator,
                    sort_recipes(old(self)@.version_comparator, views(recipes@)),
                ) is None,
                Err(e) => final(self)@ == old(self)@ && (check_ordered(
                    old(self)@.version_comparator,
                    sort_recipes(old(self)@.version_comparator, views(recipes@)),
                ) matches Some(err) && e@ == MigratorErrorView::RecipeError(err)),
            },
            old(self)@.inv() ==> final(self)@.inv(),
    {
        let mut recipes = recipes;
        let ghost input = views(recipes@);
        match order_recipes(&mut recipes, self.version_comparator) {
            Ok(()) => {
                proof {
                    ordered_recipes_are_sorted_permutation(self.version_comparator, input);
                }
                self.recipes = recipes;
                Ok(())
            },
            Err(e) => Err(MigratorError::RecipeError(e)),
        }
    }

    /// Takes what the database answered for the last changelog id. A missing
    /// changelog table is accepted, as an empty one, only when the
    /// configuration allows creating it.
    pub fn accept_last_log_id(&mut self, last_log_id: Result<i32, MigratorError>) -> (r: Result<
        (),
        MigratorError,
    >)
        requires
            last_log_id matches Ok(id) ==> id < i32::MAX,
        ensures
            match last_log_id {
                Ok(id) => r is Ok && final(self)@ == (MigratorView {
                    last_log_id: id,
                    next_log_id: (id + 1) as i32,
                    ..old(self)@
                }),
                Err(MigratorError::NoLogTable) => if old(self)@.config.auto_initialize {
                    r is Ok && final(self)@ == (MigratorView {
                        last_log_id: 0,
                        next_log_id: 1,
                        ..old(self)@
                    })
                } else {
                    (r matches Err(e) && e@ == MigratorErrorView::NoLogTable) && final(self)@
                        == old(self)@
                },
                Err(e0) => (r matches Err(e) && e@ == e0@) && final(self)@ == old(self)@,
            },
    {
        match last_log_id {
            Ok(id) => {
                self.last_log_id = id;
            },
            Err(MigratorError::NoLogTable) => {
                if !self.config.auto_initialize {
                    return Err(MigratorError::NoLogTable);
                }
                self.last_log_id = 0;
            },
            Err(e) => {
                return Err(e);
            },
        }
        self.next_log_id = self.last_log_id + 1;
        Ok(())
    }

    /// Takes the changelog rows read from the database, in `log_id` order:
    /// consolidates them into the effective changelog, which also becomes the
    /// updated changelog, and clears the plans.
    pub fn load_changelog(&mut self, raw_logs: Vec<Changelog>)
        requires
            old(self)@.inv(),
        ensures
            final(self)@ == (MigratorView {
                raw_logs: log_views(raw_logs@),
                consolidated_logs: consolidate(old(self)@.version_comparator, log_views(raw_logs@)),
                updated_logs: consolidate(old(self)@.version_comparator, log_views(raw_logs@)),
                plans: Seq::empty(),
                ..old(self)@
            }),
            final(self)@.inv(),
    {
        let c = self.version_comparator;
        let mut consolidated: Vec<Changelog> = Vec::new();
        let ghost rows = log_views(raw_logs@);
        let mut i: usize = 0;
        assert(rows.take(0) =~= Seq::<ChangelogView>::empty());
        assert(log_views(consolidated@) =~= Seq::<ChangelogView>::empty());
        while i < raw_logs.len()
            invariant
                i <= raw_logs@.len(),
                rows == log_views(raw_logs@),
                log_views(consolidated@) == consolidate(c, rows.take(i as int)),
            decreases raw_logs@.len() - i,
        {
            update_agg_log(&mut consolidated, c, &raw_logs[i]);
            assert(rows.take(i + 1).drop_last() =~= rows.take(i as int));
            i = i + 1;
        }
        assert(rows.take(rows.len() as int) =~= rows);
        let updated = clone_logs(&consolidated);
        self.raw_logs = raw_logs;
        self.consolidated_logs = consolidated;
        self.updated_logs = updated;
        self.plans = Vec::new();
        proof {
            lemma_consolidate_checksummed(c, rows);
            if c.is_total_preorder() {
                consolidated_changelog_is_effective_state(c, rows, Seq::empty());
            }
            assert(plan_views(self.plans@) =~= Seq::<MigrationPlanView>::empty());
        }
    }
}

/// The first index from `i` on whose recipe's version is not before `version`,
/// or the length.
pub open spec fn version_index(c: VersionComparator, s: Seq<RecipeScriptView>, version: Seq<char>, i: int) -> int
    decreases s.len() - i,
{
    if i < 0 || i >= s.len() {
        s.len() as int
    } else if c.relation(s[i].version, version) is Less {
        version_index(c, s, version, i + 1)
    } else {
        i
    }
}

/// The first index from `i` on whose recipe's version is after `version`, or the length.
pub open spec fn greater_index(c: VersionComparator, s: Seq<RecipeScriptView>, version: Seq<char>, i: int) -> int
    decreases s.len() - i,
{
    if i < 0 || i >= s.len() {
        s.len() as int
    } else if c.relation(s[i].version, version) is Greater {
        i
    } else {
        greater_index(c, s, version, i + 1)
    }
}

proof fn lemma_version_index_bounds(c: VersionComparator, s: Seq<RecipeScriptView>, version: Seq<char>, i: int)
    requires
        0 <= i <= s.len(),
    ensures
        i <= version_index(c, s, version, i) <= s.len(),
    decreases s.len() - i,
{
    if i < s.len() && c.relation(s[i].version, version) is Less {
        lemma_version_index_bounds(c, s, version, i + 1);
    }
}

proof fn lemma_greater_index_bounds(c: VersionComparator, s: Seq<RecipeScriptView>, version: Seq<char>, i: int)
    requires
        0 <= i <= s.len(),
    ensures
        i <= greater_index(c, s, version, i) <= s.len(),
    decreases s.len() - i,
{
    if i < s.len() && !(c.relation(s[i].version, version) is Greater) {
        lemma_greater_index_bounds(c, s, version, i + 1);
    }
}

/// The recipes looked at for fixes of a changelog version: from the first
/// recipe of that version up to the first recipe after it; empty when no
/// recipe has that version.
pub open spec fn version_range(c: VersionComparator, s: Seq<RecipeScriptView>, version: Seq<char>) -> (int, int) {
    let first = version_index(c, s, version, 0);
    if first < s.len() && c.relation(s[first].version, version) is Equal {
        (first, greater_index(c, s, version, first))
    } else {
        (first, first)
    }
}

/// A revert or fixup recipe applies to a changelog entry: same version, its
/// old checksum names the entry's checksum, and the current version is not
/// after its maximum version.
pub open spec fn matches_fix(
    c: VersionComparator,
    log_version: Seq<char>,
    log_checksum: Seq<char>,
    recipe: RecipeScriptView,
    current_version: Seq<char>,
) -> bool {
    match (recipe.old_checksum(), recipe.maximum_version()) {
        (Some(old), Some(maximum)) => log_version == recipe.version && checksum_matches(
            log_checksum,
            old,
        ) && c.relation(current_version, maximum).is_le(),
        _ => false,
    }
}

/// The first index in `[i, end)` of a recipe that applies to the entry.
pub open spec fn first_fix(
    m: MigratorView,
    log: ChangelogView,
    current: Seq<char>,
    i: int,
    end: int,
) -> Option<int>
    decreases end - i,
{
    if i >= end {
        None
    } else if matches_fix(
        m.version_comparator,
        log.version,
        log.checksum->0,
        m.recipes[i],
        current,
    ) {
        Some(i)
    } else {
        first_fix(m, log, current, i + 1, end)
    }
}

/// Searching the effective changelog from its entry `k - 1` down: the first
/// entry with an applicable fix, and the fix.
pub open spec fn find_fix(m: MigratorView, current: Seq<char>, k: int) -> Option<(int, int)>
    decreases k,
{
    if k <= 0 {
        None
    } else {
        let log = m.updated_logs[k - 1];
        let range = version_range(m.version_comparator, m.recipes, log.version);
        match first_fix(m, log, current, range.0, range.1) {
            Some(r) => Some((k - 1, r)),
            None => find_fix(m, current, k - 1),
        }
    }
}

/// The changelog row that applies a recipe.
pub open spec fn apply_entry(log_id: i32, apply_by: Option<Seq<char>>, r: RecipeScriptView) -> ChangelogView {
    ChangelogView {
        log_id,
        version: r.version,
        name: Some(r.name),
        kind: kind_name(r.kind()),
        checksum: Some(r.checksum),
        apply_by,
        start_ts: None,
        finish_ts: None,
        revert_ts: None,
    }
}

/// The changelog row that reverts the entry of `version` by a fix.
pub open spec fn revert_entry(log_id: i32, apply_by: Option<Seq<char>>, version: Seq<char>, fix: RecipeScriptView) -> ChangelogView {
    ChangelogView {
        log_id,
        version,
        name: Some(fix.name),
        kind: kind_name(fix.kind()),
        checksum: None,
        apply_by,
        start_ts: None,
        finish_ts: None,
        revert_ts: None,
    }
}

/// The changelog row that a fixup puts in place of the reverted entry.
pub open spec fn target_entry(log_id: i32, apply_by: Option<Seq<char>>, fix: RecipeScriptView) -> Option<ChangelogView> {
    match fix.new_target() {
        Some(t) => Some(
            ChangelogView {
                log_id,
                version: t.0,
                name: Some(t.1),
                kind: kind_name(fix.kind()),
                checksum: Some(t.2),
                apply_by,
                start_ts: None,
                finish_ts: None,
                revert_ts: None,
            },
        ),
        None => None,
    }
}

/// With fixes allowed: the last entry of the updated changelog with an
/// applicable revert or fixup gets it planned; the current version is the
/// version of the last entry. At most one fix is planned.
pub open spec fn fix_phase(m: MigratorView) -> MigratorView {
    if !m.config.allow_fixes || m.updated_logs.len() == 0 {
        m
    } else {
        let c = m.version_comparator;
        let current = m.updated_logs.last().version;
        match find_fix(m, current, m.updated_logs.len() as int) {
            None => m,
            Some((li, ri)) => {
                let log = m.updated_logs[li];
                let fix = m.recipes[ri];
                let revert = revert_entry(m.next_log_id, m.config.apply_by, log.version, fix);
                let target = target_entry((m.next_log_id + 1) as i32, m.config.apply_by, fix);
                let updated = agg_update(c, m.updated_logs, revert);
                let updated = match target {
                    Some(t) => agg_update(c, updated, t),
                    None => updated,
                };
                let next = if target is Some {
                    m.next_log_id + 2
                } else {
                    m.next_log_id + 1
                };
                MigratorView {
                    next_log_id: next as i32,
                    updated_logs: updated,
                    plans: m.plans.push(
                        MigrationPlanView {
                            recipe: fix,
                            log_id_to_revert: Some(log.log_id),
                            revert_log: Some(revert),
                            apply_log: target,
                        },
                    ),
                    ..m
                }
            },
        }
    }
}

/// The last index below `k` of a baseline recipe.
pub open spec fn last_baseline(s: Seq<RecipeScriptView>, k: int) -> Option<int>
    decreases k,
{
    if k <= 0 {
        None
    } else if s[k - 1].kind() == RecipeKind::Baseline {
        Some(k - 1)
    } else {
        last_baseline(s, k - 1)
    }
}

/// The baseline that initializes an empty database: the suggested one, or
/// the last available one.
pub open spec fn baseline_choice(m: MigratorView) -> Result<RecipeScriptView, MigratorErrorView> {
    match m.config.suggested_baseline_version {
        Some(v) => match find_recipe(m.version_comparator, m.recipes, v, RecipeKind::Baseline) {
            Some(k) => Ok(m.recipes[k]),
            None => Err(MigratorErrorView::UnknownBaseline(v)),
        },
        None => match last_baseline(m.recipes, m.recipes.len() as int) {
            Some(k) => Ok(m.recipes[k]),
            None => Err(MigratorErrorView::NoBaseline),
        },
    }
}

/// Adds the plan of one recipe: a row that applies it, written to the
/// updated changelog.
pub open spec fn add_apply(m: MigratorView, r: RecipeScriptView) -> MigratorView {
    let entry = apply_entry(m.next_log_id, m.config.apply_by, r);
    MigratorView {
        next_log_id: (m.next_log_id + 1) as i32,
        updated_logs: agg_update(m.version_comparator, m.updated_logs, entry),
        plans: m.plans.push(
            MigrationPlanView {
                recipe: r,
                log_id_to_revert: None,
                revert_log: None,
                apply_log: Some(entry),
            },
        ),
        ..m
    }
}

/// The baseline version and the last version of the updated changelog; for an
/// empty changelog, the baseline is planned first.
pub open spec fn plan_start(m: MigratorView) -> Result<(MigratorView, Seq<char>), MigratorErrorView> {
    if m.updated_logs.len() > 0 {
        Ok(
            (
                MigratorView { baseline_version: Some(m.updated_logs[0].version), ..m },
                m.updated_logs.last().version,
            ),
        )
    } else {
        match baseline_choice(m) {
            Err(e) => Err(e),
            Ok(b) => Ok((add_apply(MigratorView { baseline_version: Some(b.version), ..m }, b), b.version)),
        }
    }
}

/// The first index from `i` on of a recipe after `version`.
pub open spec fn after_index(c: VersionComparator, s: Seq<RecipeScriptView>, version: Seq<char>, i: int) -> int
    decreases s.len() - i,
{
    if i < 0 || i >= s.len() {
        s.len() as int
    } else if c.relation(s[i].version, version).is_le() {
        after_index(c, s, version, i + 1)
    } else {
        i
    }
}

/// The first index from `i` on of a recipe after the target version, or the
/// length when there is no target.
pub open spec fn target_end(c: VersionComparator, s: Seq<RecipeScriptView>, target: Option<Seq<char>>, i: int) -> int {
    match target {
        Some(t) => after_index(c, s, t, i),
        None => s.len() as int,
    }
}

/// The search index stays within the recipes.
pub proof fn lemma_after_index_bounds(c: VersionComparator, s: Seq<RecipeScriptView>, version: Seq<char>, i: int)
    requires
        0 <= i <= s.len(),
    ensures
        i <= after_index(c, s, version, i) <= s.len(),
    decreases s.len() - i,
{
    if i < s.len() && c.relation(s[i].version, version).is_le() {
        lemma_after_index_bounds(c, s, version, i + 1);
    }
}

/// Plans, in order, each upgrade recipe of the indices `[start, i)`.
pub open spec fn plan_upgrades(m: MigratorView, start: int, i: int) -> MigratorView
    decreases i - start,
{
    if i <= start {
        m
    } else {
        let m1 = plan_upgrades(m, start, i - 1);
        if m.recipes[i - 1].kind() == RecipeKind::Upgrade {
            add_apply(m1, m.recipes[i - 1])
        } else {
            m1
        }
    }
}

/// The outcome of `make_plan`: the fix, the start, then every upgrade recipe
/// after the last version, up to the target version.
pub open spec fn make_plan_spec(m: MigratorView) -> (MigratorView, Result<(), MigratorErrorView>) {
    let m1 = fix_phase(m);
    match plan_start(m1) {
        Err(e) => (m1, Err(e)),
        Ok((m2, last)) => {
            let c = m.version_comparator;
            let start = after_index(c, m.recipes, last, 0);
            let end = target_end(c, m.recipes, m.config.target_version, start);
            (plan_upgrades(m2, start, end), Ok(()))
        },
    }
}

/// The number of rows the fix of `fix_phase` writes: none without a fix,
/// the revert row, and the target row of a fixup.
pub open spec fn fix_rows(m: MigratorView) -> int {
    if !m.config.allow_fixes || m.updated_logs.len() == 0 {
        0
    } else {
        match find_fix(m, m.updated_logs.last().version, m.updated_logs.len() as int) {
            None => 0,
            Some((li, ri)) => if m.recipes[ri].new_target() is Some {
                2
            } else {
                1
            },
        }
    }
}

/// The number of upgrade recipes among the indices `[start, i)`.
pub open spec fn upgrade_count(s: Seq<RecipeScriptView>, start: int, i: int) -> int
    decreases i - start,
{
    if i <= start {
        0
    } else if s[i - 1].kind() == RecipeKind::Upgrade {
        upgrade_count(s, start, i - 1) + 1
    } else {
        upgrade_count(s, start, i - 1)
    }
}

/// Counting upgrades over a longer range gives no fewer.
pub proof fn lemma_upgrade_count_mono(s: Seq<RecipeScriptView>, start: int, i: int, j: int)
    requires
        start <= i <= j,
    ensures
        0 <= upgrade_count(s, start, i) <= upgrade_count(s, start, j),
    decreases j - start,
{
    if i < j {
        lemma_upgrade_count_mono(s, start, i, j - 1);
    } else if i > start {
        lemma_upgrade_count_mono(s, start, i - 1, i - 1);
    }
}

/// The parts of the planned row count are not negative.
pub proof fn lemma_planned_rows_parts(m: MigratorView)
    ensures
        0 <= fix_rows(m) <= planned_rows(m),
        plan_start(fix_phase(m)) matches Ok((m2, last)) ==> 0 <= upgrade_count(
            m.recipes,
            after_index(m.version_comparator, m.recipes, last, 0),
            target_end(
                m.version_comparator,
                m.recipes,
                m.config.target_version,
                after_index(m.version_comparator, m.recipes, last, 0),
            ),
        ),
{
    if plan_start(fix_phase(m)) is Ok {
        let (m2, last) = plan_start(fix_phase(m))->Ok_0;
        let c = m.version_comparator;
        lemma_after_index_bounds(c, m.recipes, last, 0);
        let start = after_index(c, m.recipes, last, 0);
        let end = target_end(c, m.recipes, m.config.target_version, start);
        match m.config.target_version {
            Some(t) => lemma_after_index_bounds(c, m.recipes, t, start),
            None => {},
        }
        lemma_upgrade_count_mono(m.recipes, start, start, end);
    }
}

proof fn lemma_upgrade_count_at_most(s: Seq<RecipeScriptView>, start: int, i: int)
    requires
        start <= i,
    ensures
        upgrade_count(s, start, i) <= i - start,
    decreases i - start,
{
    if i > start {
        lemma_upgrade_count_at_most(s, start, i - 1);
    }
}

/// The number of changelog rows that planning writes: the fix's, the
/// baseline's for an empty database, and one per upgrade planned.
pub open spec fn planned_rows(m: MigratorView) -> int {
    let m1 = fix_phase(m);
    fix_rows(m) + match plan_start(m1) {
        Err(_) => 0,
        Ok((m2, last)) => {
            let c = m.version_comparator;
            let start = after_index(c, m.recipes, last, 0);
            let end = target_end(c, m.recipes, m.config.target_version, start);
            (if m1.updated_logs.len() == 0 {
                1int
            } else {
                0int
            }) + upgrade_count(m.recipes, start, end)
        },
    }
}

proof fn lemma_version_range_bounds(c: VersionComparator, s: Seq<RecipeScriptView>, version: Seq<char>)
    ensures
        0 <= version_range(c, s, version).0 <= version_range(c, s, version).1 <= s.len(),
{
    lemma_version_index_bounds(c, s, version, 0);
    let first = version_index(c, s, version, 0);
    if first < s.len() {
        lemma_greater_index_bounds(c, s, version, first);
    }
}

/// An optional pair of indices seen as integers.
pub open spec fn opt_pair(o: Option<(usize, usize)>) -> Option<(int, int)> {
    match o {
        Some((a, b)) => Some((a as int, b as int)),
        None => None,
    }
}

impl Migrator {
    /// The range of recipes looked at for fixes of a changelog version.
    fn recipes_for_version(&self, version: &str) -> (r: (usize, usize))
        ensures
            (r.0 as int, r.1 as int) == version_range(self@.version_comparator, self@.recipes, version@),
    {
        let ghost s = self@.recipes;
        let c = self.version_comparator;
        let mut first: usize = 0;
        while first < self.recipes.len() && c.order(self.recipes[first].version(), version)
            == Comparison::Less
            invariant
                first <= self.recipes@.len(),
                s == views(self.recipes@),
                c == self@.version_comparator,
                version_index(c, s, version@, 0) == version_index(c, s, version@, first as int),
            decreases self.recipes@.len() - first,
        {
            first = first + 1;
        }
        if first < self.recipes.len() && c.order(self.recipes[first].version(), version)
            == Comparison::Equal {
            let mut g = first;
            while g < self.recipes.len() && c.order(self.recipes[g].version(), version)
                != Comparison::Greater
                invariant
                    first <= g <= self.recipes@.len(),
                    s == views(self.recipes@),
                    c == self@.version_comparator,
                    greater_index(c, s, version@, first as int) == greater_index(c, s, version@, g as int),
                decreases self.recipes@.len() - g,
            {
                g = g + 1;
            }
            (first, g)
        } else {
            (first, first)
        }
    }

    /// Whether a revert or fixup recipe applies to a changelog entry.
    fn match_fix_recipe(
        &self,
        log_version: &str,
        log_checksum: &str,
        recipe: &RecipeScript,
        current_version: &str,
    ) -> (r: bool)
        ensures
            r == matches_fix(
                self@.version_comparator,
                log_version@,
                log_checksum@,
                recipe@,
                current_version@,
            ),
    {
        match (recipe.old_checksum(), recipe.maximum_version()) {
            (Some(old_checksum), Some(maximum_version)) => same_text(log_version, recipe.version())
                && checksum_prefix_match(log_checksum, old_checksum)
                && self.version_comparator.order(current_version, maximum_version)
                != Comparison::Greater,
            _ => false,
        }
    }

    /// The last entry of the updated changelog with an applicable fix, and the fix.
    fn search_fix(&self, current: &str) -> (r: Option<(usize, usize)>)
        requires
            self@.inv(),
        ensures
            opt_pair(r) == find_fix(self@, current@, self@.updated_logs.len() as int),
            r matches Some((li, ri)) ==> li < self@.updated_logs.len() && ri < self@.recipes.len(),
    {
        let ghost m = self@;
        let mut k = self.updated_logs.len();
        while k > 0
            invariant
                k <= self.updated_logs@.len(),
                m == self@,
                m.inv(),
                find_fix(m, current@, m.updated_logs.len() as int) == find_fix(m, current@, k as int),
            decreases k,
        {
            let log = &self.updated_logs[k - 1];
            assert(m.updated_logs[k - 1] == log@);
            let (a, b) = self.recipes_for_version(log.version());
            proof {
                lemma_version_range_bounds(m.version_comparator, m.recipes, log@.version);
            }
            let checksum = log.checksum().unwrap();
            let mut r = a;
            while r < b && !self.match_fix_recipe(log.version(), checksum, &self.recipes[r], current)
                invariant
                    a <= r <= b <= self.recipes@.len(),
                    m == self@,
                    log@ == m.updated_logs[k - 1],
                    log@.checksum == Some(checksum@),
                    first_fix(m, log@, current@, a as int, b as int) == first_fix(
                        m,
                        log@,
                        current@,
                        r as int,
                        b as int,
                    ),
                decreases b - r,
            {
                r = r + 1;
            }
            if r < b {
                return Some((k - 1, r));
            }
            k = k - 1;
        }
        None
    }

    /// Plans the fix of `fix_phase`.
    fn fix_step(&mut self)
        requires
            old(self)@.inv(),
            old(self)@.next_log_id + fix_rows(old(self)@) <= i32::MAX,
        ensures
            final(self)@ == fix_phase(old(self)@),
            final(self)@.next_log_id == old(self)@.next_log_id + fix_rows(old(self)@),
            final(self)@.inv(),
    {
        if !self.config.allow_fixes || self.updated_logs.len() == 0 {
            return;
        }
        let n = self.updated_logs.len();
        let current = self.updated_logs[n - 1].version().to_owned();
        assert(current@ == old(self)@.updated_logs.last().version);
        match self.search_fix(current.as_str()) {
            None => {},
            Some((li, ri)) => {
                let ghost m = self@;
                let c = self.version_comparator;
                let fix = self.recipes[ri].clone();
                let log_version = self.updated_logs[li].version().to_owned();
                let log_id = self.updated_logs[li].log_id();
                assert(m.updated_logs[li as int] == self.updated_logs@[li as int]@);
                assert(m.recipes[ri as int] == fix@);
                let revert = Changelog::new(
                    self.next_log_id,
                    log_version,
                    Some(fix.name.clone()),
                    fix.kind().to_string(),
                    None,
                    clone_opt(&self.config.apply_by),
                    None,
                    None,
                    None,
                );
                self.next_log_id = self.next_log_id + 1;
                let target = match fix.new_target() {
                    Some((new_version, new_name, new_checksum)) => {
                        let entry = Changelog::new(
                            self.next_log_id,
                            new_version.to_owned(),
                            Some(new_name.to_owned()),
                            fix.kind().to_string(),
                            Some(new_checksum.to_owned()),
                            clone_opt(&self.config.apply_by),
                            None,
                            None,
                            None,
                        );
                        self.next_log_id = self.next_log_id + 1;
                        Some(entry)
                    },
                    None => None,
                };
                update_agg_log(&mut self.updated_logs, c, &revert);
                proof {
                    lemma_agg_update_checksummed(c, m.updated_logs, revert@);
                    if c.is_total_preorder() {
                        lemma_agg_update_sorted(c, m.updated_logs, revert@);
                    }
                }
                match &target {
                    Some(t) => {
                        let ghost before = log_views(self.updated_logs@);
                        update_agg_log(&mut self.updated_logs, c, t);
                        proof {
                            lemma_agg_update_checksummed(c, before, t@);
                            if c.is_total_preorder() {
                                lemma_agg_update_sorted(c, before, t@);
                            }
                        }
                    },
                    None => {},
                }
                let ghost plans0 = plan_views(self.plans@);
                let plan = MigrationPlan {
                    recipe: fix,
                    log_id_to_revert: Some(log_id),
                    revert_log: Some(revert),
                    apply_log: target,
                };
                let ghost pv = plan@;
                self.plans.push(plan);
                assert(plan_views(self.plans@) =~= plans0.push(pv));
            },
        }
    }

    /// Plans one recipe.
    fn apply_recipe(&mut self, r: RecipeScript)
        requires
            old(self)@.inv(),
            old(self)@.next_log_id < i32::MAX,
        ensures
            final(self)@ == add_apply(old(self)@, r@),
            final(self)@.inv(),
    {
        let entry = Changelog::new(
            self.next_log_id,
            r.version.clone(),
            Some(r.name.clone()),
            r.kind().to_string(),
            Some(r.checksum.clone()),
            clone_opt(&self.config.apply_by),
            None,
            None,
            None,
        );
        self.next_log_id = self.next_log_id + 1;
        let ghost before = log_views(self.updated_logs@);
        update_agg_log(&mut self.updated_logs, self.version_comparator, &entry);
        proof {
            lemma_agg_update_checksummed(self.version_comparator, before, entry@);
            if self.version_comparator.is_total_preorder() {
                lemma_agg_update_sorted(self.version_comparator, before, entry@);
            }
        }
        let ghost plans0 = plan_views(self.plans@);
        let plan = MigrationPlan {
            recipe: r,
            log_id_to_revert: None,
            revert_log: None,
            apply_log: Some(entry),
        };
        let ghost pv = plan@;
        self.plans.push(plan);
        assert(plan_views(self.plans@) =~= plans0.push(pv));
    }

    /// The baseline that initializes an empty database.
    fn baseline_recipe(&self) -> (r: Result<RecipeScript, MigratorError>)
        ensures
            match baseline_choice(self@) {
                Ok(b) => r matches Ok(x) && x@ == b,
                Err(e) => r matches Err(x) && x@ == e,
            },
    {
        let c = self.version_comparator;
        match &self.config.suggested_baseline_version {
            Some(v) => match find_recipe_of(&self.recipes, &c, v.as_str(), RecipeKind::Baseline) {
                Some(k) => Ok(self.recipes[k].clone()),
                None => Err(MigratorError::UnknownBaseline(v.clone())),
            },
            None => {
                let ghost s = self@.recipes;
                let mut k = self.recipes.len();
                while k > 0 && !self.recipes[k - 1].is_baseline()
                    invariant
                        k <= self.recipes@.len(),
                        s == views(self.recipes@),
                        last_baseline(s, s.len() as int) == last_baseline(s, k as int),
                    decreases k,
                {
                    k = k - 1;
                }
                if k > 0 {
                    Ok(self.recipes[k - 1].clone())
                } else {
                    Err(MigratorError::NoBaseline)
                }
            },
        }
    }

    /// Fixes the baseline version and the last version, planning the
    /// baseline of an empty database.
    fn start_step(&mut self) -> (r: Result<String, MigratorError>)
        requires
            old(self)@.inv(),
            old(self)@.updated_logs.len() == 0 && plan_start(old(self)@) is Ok ==> old(
                self,
            )@.next_log_id < i32::MAX,
        ensures
            match plan_start(old(self)@) {
                Ok((m, last)) => (r matches Ok(s) && s@ == last) && final(self)@ == m
                    && m.next_log_id == old(self)@.next_log_id + (if old(self)@.updated_logs.len()
                    == 0 {
                    1int
                } else {
                    0int
                }),
                Err(e) => (r matches Err(x) && x@ == e) && final(self)@ == old(self)@,
            },
            final(self)@.inv(),
    {
        let n = self.updated_logs.len();
        if n > 0 {
            let last = self.updated_logs[n - 1].version().to_owned();
            self.baseline_version = Some(self.updated_logs[0].version().to_owned());
            Ok(last)
        } else {
            let b = match self.baseline_recipe() {
                Ok(b) => b,
                Err(e) => {
                    return Err(e);
                },
            };
            let last = b.version.clone();
            self.baseline_version = Some(b.version.clone());
            self.apply_recipe(b);
            Ok(last)
        }
    }

    /// The first index from `i` on of a recipe after `version`.
    fn after_index_of(&self, version: &str, i: usize) -> (r: usize)
        requires
            i <= self@.recipes.len(),
        ensures
            r == after_index(self@.version_comparator, self@.recipes, version@, i as int),
            i <= r <= self@.recipes.len(),
    {
        let ghost s = self@.recipes;
        let c = self.version_comparator;
        proof {
            lemma_after_index_bounds(c, s, version@, i as int);
        }
        let mut k = i;
        while k < self.recipes.len() && c.order(self.recipes[k].version(), version)
            != Comparison::Greater
            invariant
                i <= k <= self.recipes@.len(),
                s == views(self.recipes@),
                c == self@.version_comparator,
                after_index(c, s, version@, i as int) == after_index(c, s, version@, k as int),
            decreases self.recipes@.len() - k,
        {
            k = k + 1;
        }
        k
    }

    /// Plans each upgrade recipe of the indices `[start, end)`.
    fn plan_upgrade_range(&mut self, start: usize, end: usize)
        requires
            start <= end <= old(self)@.recipes.len(),
            old(self)@.inv(),
            old(self)@.next_log_id + upgrade_count(old(self)@.recipes, start as int, end as int)
                <= i32::MAX,
        ensures
            final(self)@ == plan_upgrades(old(self)@, start as int, end as int),
            final(self)@.inv(),
    {
        let ghost m = self@;
        let mut i = start;
        while i < end
            invariant
                start <= i <= end <= m.recipes.len(),
                self@ == plan_upgrades(m, start as int, i as int),
                self@.recipes == m.recipes,
                self@.version_comparator == m.version_comparator,
                self@.next_log_id == m.next_log_id + upgrade_count(m.recipes, start as int, i as int),
                m.next_log_id + upgrade_count(m.recipes, start as int, end as int) <= i32::MAX,
                self@.inv(),
            decreases end - i,
        {
            assert(self@.recipes[i as int] == self.recipes@[i as int]@);
            proof {
                lemma_upgrade_count_mono(m.recipes, start as int, i + 1, end as int);
            }
            if self.recipes[i].is_upgrade() {
                let r = self.recipes[i].clone();
                self.apply_recipe(r);
            }
            i = i + 1;
        }
    }

    /// Plans the pending migrations: with fixes allowed, the last applicable
    /// revert or fixup; for an empty database, the baseline; then every
    /// upgrade recipe after the last version of the changelog, up to the
    /// target version.
    pub fn make_plan(&mut self) -> (r: Result<(), MigratorError>)
        requires
            old(self)@.inv(),
            old(self)@.next_log_id + planned_rows(old(self)@) <= i32::MAX,
        ensures
            final(self)@ == make_plan_spec(old(self)@).0,
            match make_plan_spec(old(self)@).1 {
                Ok(()) => r is Ok,
                Err(e) => r matches Err(x) && x@ == e,
            },
            final(self)@.inv(),
    {
        let ghost m = self@;
        proof {
            lemma_planned_rows_parts(m);
        }
        self.fix_step();
        assert(self@ == fix_phase(m));
        let last = match self.start_step() {
            Ok(last) => last,
            Err(e) => {
                return Err(e);
            },
        };
        let start = self.after_index_of(last.as_str(), 0);
        let end = match &self.config.target_version {
            Some(t) => self.after_index_of(t.as_str(), start),
            None => self.recipes.len(),
        };
        self.plan_upgrade_range(start, end);
        Ok(())
    }
}

/// A checksum, or the empty text when there is none.
pub open spec fn checksum_or_empty(o: Option<Seq<char>>) -> Seq<char> {
    match o {
        Some(c) => c,
        None => Seq::empty(),
    }
}

/// The error for a target version that is neither a baseline nor an upgrade
/// recipe; it names the version of the recipe placed just before it.
pub open spec fn check_target(m: MigratorView) -> Option<MigratorErrorView> {
    let c = m.version_comparator;
    match m.config.target_version {
        None => None,
        Some(t) => if find_recipe(c, m.recipes, t, RecipeKind::Baseline) is Some || find_recipe(
            c,
            m.recipes,
            t,
            RecipeKind::Upgrade,
        ) is Some {
            None
        } else {
            let idx = recipe_index(c, m.recipes, t, RecipeKind::Upgrade, 0);
            Some(
                MigratorErrorView::UnknownTarget {
                    version: t,
                    available: if idx >= 1 {
                        Some(m.recipes[idx - 1].version)
                    } else {
                        None
                    },
                },
            )
        },
    }
}

/// The first error among the entries of the updated changelog from `i` on:
/// each must be an upgrade recipe with the same checksum.
pub open spec fn check_logs(m: MigratorView, i: int) -> Option<MigratorErrorView>
    decreases m.updated_logs.len() - i,
{
    if i < 0 || i >= m.updated_logs.len() {
        None
    } else {
        let log = m.updated_logs[i];
        match find_recipe(m.version_comparator, m.recipes, log.version, RecipeKind::Upgrade) {
            Some(k) => if checksum_or_empty(log.checksum) != m.recipes[k].checksum {
                Some(MigratorErrorView::ConflictedMigration { log, script: m.recipes[k] })
            } else {
                check_logs(m, i + 1)
            },
            None => Some(MigratorErrorView::UnknownMigration { log }),
        }
    }
}

/// The first error among the upgrade recipes of the indices `[i, end)`: each
/// must be in the updated changelog with the same checksum.
pub open spec fn check_applied(m: MigratorView, i: int, end: int) -> Option<MigratorErrorView>
    decreases end - i,
{
    if i < 0 || i >= end || i >= m.recipes.len() {
        None
    } else {
        let r = m.recipes[i];
        if r.kind() != RecipeKind::Upgrade {
            check_applied(m, i + 1, end)
        } else {
            match find_log(m.version_comparator, m.updated_logs, r.version) {
                Some(j) => if checksum_or_empty(m.updated_logs[j].checksum) != r.checksum {
                    Some(
                        MigratorErrorView::ConflictedMigration {
                            log: m.updated_logs[j],
                            script: r,
                        },
                    )
                } else {
                    check_applied(m, i + 1, end)
                },
                None => Some(MigratorErrorView::MissingMigration { script: r }),
            }
        }
    }
}

/// The error `check_updated_log` reports, if any: an unknown target; an
/// entry after the first that is not a known upgrade; an upgrade recipe after
/// the baseline version, up to the target, that is not applied.
pub open spec fn check_updated_spec(m: MigratorView) -> Option<MigratorErrorView> {
    match check_target(m) {
        Some(e) => Some(e),
        None => match check_logs(m, 1) {
            Some(e) => Some(e),
            None => match m.baseline_version {
                Some(bv) => {
                    let c = m.version_comparator;
                    let start = after_index(c, m.recipes, bv, 0);
                    let end = target_end(c, m.recipes, m.config.target_version, start);
                    check_applied(m, start, end)
                },
                None => None,
            },
        },
    }
}

fn same_checksum(log_checksum: Option<&str>, checksum: &str) -> (r: bool)
    ensures
        r == (checksum_or_empty(
            match log_checksum {
                Some(c) => Some(c@),
                None => None,
            },
        ) == checksum@),
{
    match log_checksum {
        Some(c) => same_text(c, checksum),
        None => {
            let r = checksum.is_empty();
            assert(r == (Seq::<char>::empty() =~= checksum@));
            r
        },
    }
}

impl Migrator {
    /// Checks the updated changelog against the recipes.
    pub fn check_updated_log(&self) -> (r: Result<(), MigratorError>)
        ensures
            match check_updated_spec(self@) {
                None => r is Ok,
                Some(e) => r matches Err(x) && x@ == e,
            },
    {
        let ghost m = self@;
        let c = self.version_comparator;
        if let Some(target_version) = &self.config.target_version {
            if find_recipe_of(&self.recipes, &c, target_version.as_str(), RecipeKind::Baseline).is_none() {
                if find_recipe_of(&self.recipes, &c, target_version.as_str(), RecipeKind::Upgrade).is_none() {
                    let index = recipe_index_of(
                        &self.recipes,
                        &c,
                        target_version.as_str(),
                        RecipeKind::Upgrade,
                    );
                    proof {
                        lemma_recipe_index_bounds(c, m.recipes, target_version@, RecipeKind::Upgrade, 0);
                    }
                    let available = if 1 <= index {
                        Some(self.recipes[index - 1].version.clone())
                    } else {
                        None
                    };
                    return Err(
                        MigratorError::UnknownTarget { version: target_version.clone(), available },
                    );
                }
            }
        }
        let mut i: usize = 1;
        while i < self.updated_logs.len()
            invariant
                1 <= i,
                m == self@,
                c == m.version_comparator,
                check_target(m) is None,
                i <= m.updated_logs.len() || m.updated_logs.len() == 0,
                check_logs(m, 1) == check_logs(m, i as int),
            decreases self.updated_logs@.len() - i,
        {
            let log = &self.updated_logs[i];
            assert(m.updated_logs[i as int] == log@);
            match find_recipe_of(&self.recipes, &c, log.version(), RecipeKind::Upgrade) {
                Some(k) => {
                    assert(m.recipes[k as int] == self.recipes@[k as int]@);
                    if !same_checksum(log.checksum(), self.recipes[k].checksum()) {
                        return Err(
                            MigratorError::ConflictedMigration {
                                log: log.clone(),
                                script: self.recipes[k].clone(),
                            },
                        );
                    }
                },
                None => {
                    return Err(MigratorError::UnknownMigration { log: log.clone() });
                },
            }
            i = i + 1;
        }
        if let Some(baseline_version) = &self.baseline_version {
            let start = self.after_index_of(baseline_version.as_str(), 0);
            let end = match &self.config.target_version {
                Some(t) => self.after_index_of(t.as_str(), start),
                None => self.recipes.len(),
            };
            let mut j = start;
            while j < end
                invariant
                    start <= j <= end <= m.recipes.len(),
                    m == self@,
                    c == m.version_comparator,
                    check_applied(m, start as int, end as int) == check_applied(m, j as int, end as int),
                    check_target(m) is None,
                    check_logs(m, 1) is None,
                    m.baseline_version == Some(baseline_version@),
                    start == after_index(c, m.recipes, baseline_version@, 0),
                    end == target_end(c, m.recipes, m.config.target_version, start as int),
                decreases end - j,
            {
                let script = &self.recipes[j];
                assert(m.recipes[j as int] == script@);
                if script.is_upgrade() {
                    match find_agg_log(&self.updated_logs, c, script.version()) {
                        Some(log) => {
                            if !same_checksum(log.checksum(), script.checksum()) {
                                return Err(
                                    MigratorError::ConflictedMigration {
                                        log: log.clone(),
                                        script: script.clone(),
                                    },
                                );
                            }
                        },
                        None => {
                            return Err(MigratorError::MissingMigration { script: script.clone() });
                        },
                    }
                }
                j = j + 1;
            }
        }
        Ok(())
    }
}

/// Planning writes at most three rows more than there are recipes: a test
/// of the next log id against that bound is enough for `make_plan`.
pub proof fn planned_rows_at_most_recipes_and_three(m: MigratorView)
    ensures
        planned_rows(m) <= m.recipes.len() + 3,
{
    if plan_start(fix_phase(m)) is Ok {
        let (m2, last) = plan_start(fix_phase(m))->Ok_0;
        let c = m.version_comparator;
        lemma_after_index_bounds(c, m.recipes, last, 0);
        let start = after_index(c, m.recipes, last, 0);
        let end = target_end(c, m.recipes, m.config.target_version, start);
        match m.config.target_version {
            Some(t) => lemma_after_index_bounds(c, m.recipes, t, start),
            None => {},
        }
        lemma_upgrade_count_at_most(m.recipes, start, end);
    }
}

} // verus!
