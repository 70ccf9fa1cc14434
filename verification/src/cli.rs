//! The command line of the migration tool: its options and what they ask of
//! the migrator.

use vstd::prelude::*;
use crate::changelog::{clone_opt, opt_view, Changelog, ChangelogView};
use crate::migrator::{Config, ConfigView, MigratorError};
use crate::recipe::{has_prefix8, kind_name, prefix8, RecipeKind, RecipeScript, RecipeScriptView};
use crate::text::{append, same_text};

verus! {

/// Options of `show-changelog`.
#[derive(Debug, Clone, Copy, PartialEq, Eq)]
pub struct ShowChangelogArgs {
    /// Show the effective changelog (without reverted recipes and after fixups).
    pub consolidated: bool,
    /// Show the effective changelog with the pending migrations.
    pub with_pending: bool,
}

/// Options of `status`.
#[derive(Debug, Clone, Copy, PartialEq, Eq)]
pub struct StatusArgs {
    /// Suppress output on stdout.
    pub quiet: bool,
}

/// Options of `migrate`.
#[derive(Debug, Clone, Copy, PartialEq, Eq)]
pub struct MigrateArgs {
    /// Commit pending changes to the database.
    pub commit: bool,
}

/// The commands of the tool.
#[derive(Debug, Clone, Copy, PartialEq, Eq)]
pub enum Command {
    /// Create an empty database and the required roles.
    CreateDB,
    /// Dump the schema and compare it with the baseline.
    DumpSchema,
    /// Apply the pending migrations.
    Migrate(MigrateArgs),
    /// Show the configuration and the recipes.
    ShowConfig,
    /// Show the changelog of applied migrations.
    ShowChangelog(ShowChangelogArgs),
    /// Show the pending migration plan.
    ShowPlan,
    /// Check the overall status of the schema and the pending migrations.
    Status(StatusArgs),
}

/// The options of the tool.
#[derive(Debug)]
pub struct Cli {
    /// Database URL.
    pub db_url: Option<String>,
    /// Directory of the migration recipes.
    pub migrations: String,
    /// Directory of the DDL dump.
    pub ddl_path: String,
    /// Allow creating the changelog table if it does not exist.
    pub auto_initialize: bool,
    /// Name of the changelog table.
    pub changelog_table_name: String,
    /// Baseline for initialization.
    pub suggested_baseline_version: Option<String>,
    /// Limit migration to this version.
    pub target_version: Option<String>,
    /// Allow applying pending revert and fixup migrations.
    pub allow_fixes: bool,
    /// Allow out of order migrations.
    pub allow_out_of_order: bool,
    /// The command to run.
    pub command: Option<Command>,
}

impl Cli {
    /// The migrator configuration that the options give, applied by `apply_by`.
    pub fn config(&self, apply_by: String) -> (r: Config)
        ensures
            r@ == (ConfigView {
                auto_initialize: self.auto_initialize,
                log_table_name: Some(self.changelog_table_name@),
                suggested_baseline_version: opt_view(self.suggested_baseline_version),
                target_version: opt_view(self.target_version),
                apply_by: Some(apply_by@),
                allow_fixes: self.allow_fixes,
                allow_out_of_order: self.allow_out_of_order,
            }),
    {
        let mut config = Config::default();
        config.auto_initialize = self.auto_initialize;
        config.log_table_name = Some(self.changelog_table_name.clone());
        config.suggested_baseline_version = clone_opt(&self.suggested_baseline_version);
        config.target_version = clone_opt(&self.target_version);
        config.allow_fixes = self.allow_fixes;
        config.allow_out_of_order = self.allow_out_of_order;
        config.apply_by = Some(apply_by);
        config
    }
}

/// Which changelog `show-changelog` shows.
#[derive(Debug, Clone, Copy, PartialEq, Eq)]
pub enum LogSelection {
    /// The rows as stored.
    Raw,
    /// The effective changelog.
    Consolidated,
    /// The effective changelog with the pending migrations.
    Updated,
}

impl ShowChangelogArgs {
    /// The changelog to show: with pending migrations, the updated one; else
    /// the consolidated one when asked; else the raw rows.
    pub fn selection(&self) -> (r: LogSelection)
        ensures
            r == (if self.with_pending {
                LogSelection::Updated
            } else if self.consolidated {
                LogSelection::Consolidated
            } else {
                LogSelection::Raw
            }),
    {
        if self.with_pending {
            LogSelection::Updated
        } else if self.consolidated {
            LogSelection::Consolidated
        } else {
            LogSelection::Raw
        }
    }
}

/// The label that `status` prints for a failed migration check.
pub open spec fn status_label_of(e: MigratorError) -> Seq<char> {
    match e {
        MigratorError::NoLogTable => "db-uninitialized"@,
        MigratorError::DbError(_) => "db-error"@,
        MigratorError::RecipeError(_) => "recipe-error"@,
        _ => "internal-error"@,
    }
}

/// The label that `status` prints for a failed migration check.
pub fn status_label(e: &MigratorError) -> (r: &'static str)
    ensures
        r@ == status_label_of(*e),
{
    match e {
        MigratorError::NoLogTable => "db-uninitialized",
        MigratorError::DbError(_) => "db-error",
        MigratorError::RecipeError(_) => "recipe-error",
        _ => "internal-error",
    }
}

/// The line that `status` prints when the changelog agrees with the recipes: whether migrations
/// are pending.
pub fn status_line(pending_plans: usize) -> (r: &'static str)
    ensures
        r@ == (if pending_plans == 0 {
            "up-to-date"@
        } else {
            "pending-migrations"@
        }),
{
    if pending_plans == 0 {
        "up-to-date"
    } else {
        "pending-migrations"
    }
}

/// How a recipe's version is shown: a fixup that changes the version shows
/// `old -> new`.
pub open spec fn version_label_of(r: RecipeScriptView) -> Seq<char> {
    match r.new_version() {
        Some(v) => if v != r.version {
            r.version + " -> "@ + v
        } else {
            r.version
        },
        None => r.version,
    }
}

/// How a recipe's version is shown.
pub fn version_label(script: &RecipeScript) -> (r: String)
    ensures
        r@ == version_label_of(script@),
{
    let mut s = String::new();
    append(&mut s, script.version());
    if let Some(new_version) = script.new_version() {
        if !same_text(script.version(), new_version) {
            append(&mut s, " -> ");
            append(&mut s, new_version);
        }
    }
    s
}

/// The checksums of a recipe that its label shows are long enough to be
/// shortened to 8 bytes.
pub open spec fn checksum_label_defined(r: RecipeScriptView) -> bool {
    match r.old_checksum() {
        Some(old) => has_prefix8(old) && (r.new_target() matches Some(t) ==> has_prefix8(t.2)),
        None => has_prefix8(r.checksum),
    }
}

/// How a recipe's checksum is shown, by its first 8 bytes: a fixup shows
/// `old -> new`, a revert `old -> revert`, any other recipe its checksum.
pub open spec fn checksum_label_of(r: RecipeScriptView) -> Seq<char> {
    match (r.old_checksum(), r.new_target()) {
        (Some(old), Some(t)) => prefix8(old) + " -> "@ + prefix8(t.2),
        (Some(old), None) => prefix8(old) + " -> revert"@,
        _ => prefix8(r.checksum),
    }
}

/// How a recipe's checksum is shown.
pub fn checksum_label(script: &RecipeScript) -> (r: String)
    requires
        checksum_label_defined(script@),
    ensures
        r@ == checksum_label_of(script@),
{
    let mut s = String::new();
    match (script.old_checksum32(), script.new_checksum32()) {
        (Some(old), Some(new)) => {
            append(&mut s, old);
            append(&mut s, " -> ");
            append(&mut s, new);
        },
        (Some(old), None) => {
            append(&mut s, old);
            append(&mut s, " -> revert");
        },
        _ => {
            append(&mut s, script.checksum32());
        },
    }
    s
}

/// How a changelog entry is marked in the log listing.
#[derive(Debug, Clone, Copy, PartialEq, Eq)]
pub enum LogStyle {
    /// An entry without checksum: a revert.
    Reverted,
    Baseline,
    /// A revert or fixup entry with a checksum.
    Fix,
    Upgrade,
    /// Any other kind.
    Other,
}

/// How a changelog entry is marked: by its checksum, then by its kind.
pub open spec fn log_style_of(l: ChangelogView) -> LogStyle {
    if l.checksum is None {
        LogStyle::Reverted
    } else if l.kind == kind_name(RecipeKind::Baseline) {
        LogStyle::Baseline
    } else if l.kind == kind_name(RecipeKind::Revert) || l.kind == kind_name(RecipeKind::Fixup) {
        LogStyle::Fix
    } else if l.kind == kind_name(RecipeKind::Upgrade) {
        LogStyle::Upgrade
    } else {
        LogStyle::Other
    }
}

/// How a changelog entry is marked.
pub fn log_style(log: &Changelog) -> (r: LogStyle)
    ensures
        r == log_style_of(log@),
{
    if log.checksum().is_none() {
        LogStyle::Reverted
    } else if log.is_baseline() {
        LogStyle::Baseline
    } else if log.is_fix() {
        LogStyle::Fix
    } else if log.is_upgrade() {
        LogStyle::Upgrade
    } else {
        LogStyle::Other
    }
}

/// How long applying a recipe took, as the log listing marks it.
#[derive(Debug, Clone, Copy, PartialEq, Eq)]
pub enum DurationLevel {
    /// Under a minute.
    Short,
    /// From a minute, under an hour.
    Long,
    /// An hour or more.
    VeryLong,
}

/// How a duration of whole seconds is marked.
pub fn duration_level(seconds: i64) -> (r: DurationLevel)
    ensures
        r == (if seconds >= 3600 {
            DurationLevel::VeryLong
        } else if seconds >= 60 {
            DurationLevel::Long
        } else {
            DurationLevel::Short
        }),
{
    if seconds >= 3600 {
        DurationLevel::VeryLong
    } else if seconds >= 60 {
        DurationLevel::Long
    } else {
        DurationLevel::Short
    }
}

/// What the log listing shows for an entry without finish time: `pending`
/// when unfinished entries are pending migrations, else `unknown`.
pub fn unfinished_label(null_as_pending: bool) -> (r: &'static str)
    ensures
        r@ == (if null_as_pending {
            "pending"@
        } else {
            "unknown"@
        }),
{
    if null_as_pending {
        "pending"
    } else {
        "unknown"
    }
}

} // verus!
