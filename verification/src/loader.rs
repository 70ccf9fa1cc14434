//! Loading recipes from script files: the file name gives version and name,
//! the script gives metadata and checksum.

use vstd::prelude::*;
use crate::recipe::{
    recipe_from_script, recipe_result_view, RecipeError, RecipeErrorView, RecipeKind,
    RecipeScript, RecipeScriptView,
};
use crate::order::views;
use crate::pattern::{
    capture_groups, compile_pattern, group_at, groups_view, pattern_compiles, pattern_groups,
    CompiledPattern,
};

verus! {

/// Simple regex pattern for the `{version}_{name}.sql` file naming convention.
///
/// The version part is alphanumeric with optional dots and dashes, for
/// example `1.0.0-001`, `20240201T1123`, `00001`. The name part is
/// alphanumeric with optional dots, dashes and underscores, for example
/// `create_user_table`, `add_email_column`, `issue_feature`.
pub const SIMPLE_FILENAME_PATTERN: &'static str = r"^([[:alnum:].\-]+)_([[:alnum:]._\-]+)$";

/// Why a script file could not be read.
#[derive(Debug, PartialEq, Eq)]
pub struct ReadError {
    /// The file does not exist.
    pub not_found: bool,
    /// What the system reported.
    pub message: String,
}

/// A script file as read from disk: its path, the stem of its file name (when
/// it has one that is valid text) and its content.
#[derive(Debug)]
pub struct RecipeFile {
    pub path: String,
    pub file_stem: Option<String>,
    pub content: Result<String, ReadError>,
}

/// What the file name and content of a script file give before its kind is
/// known: the error, or the version, name and script.
pub enum FileOutcome {
    Refused(RecipeErrorView),
    Named { version: Seq<char>, name: Seq<char>, sql: Seq<char> },
}

/// Reads a script file: a read error gives `InvalidRecipePath` for a missing
/// file and `InvalidRecipeFile` otherwise; a path without a valid file stem
/// gives `InvalidRecipePath`; a stem that the pattern does not match with
/// groups 1 and 2 gives `InvalidFilename`; otherwise group 1 is the version
/// and group 2 the name.
pub open spec fn name_file(pattern: Seq<char>, file: RecipeFile) -> FileOutcome {
    match file.content {
        Err(e) => if e.not_found {
            FileOutcome::Refused(
                RecipeErrorView::InvalidRecipePath { path: file.path@, reason: e.message@ },
            )
        } else {
            FileOutcome::Refused(
                RecipeErrorView::InvalidRecipeFile { path: file.path@, reason: e.message@ },
            )
        },
        Ok(sql) => match file.file_stem {
            None => FileOutcome::Refused(
                RecipeErrorView::InvalidRecipePath {
                    path: file.path@,
                    reason: "Invalid file name"@,
                },
            ),
            Some(stem) => match pattern_groups(pattern, stem@) {
                Some(g) => match (group_at(g, 1), group_at(g, 2)) {
                    (Some(version), Some(name)) => FileOutcome::Named {
                        version,
                        name,
                        sql: sql@,
                    },
                    _ => FileOutcome::Refused(
                        RecipeErrorView::InvalidFilename { file_stem: stem@ },
                    ),
                },
                None => FileOutcome::Refused(RecipeErrorView::InvalidFilename { file_stem: stem@ }),
            },
        },
    }
}

/// The detector, called with the path and the name, can answer `kind`; with
/// no detector the kind is unknown.
pub open spec fn detected_by<F: Fn(&str, &str) -> Option<RecipeKind>>(
    kind_detector: Option<F>,
    path: Seq<char>,
    name: Seq<char>,
    kind: Option<RecipeKind>,
) -> bool {
    match kind_detector {
        None => kind is None,
        Some(f) => exists|p: &str, n: &str|
            p@ == path && n@ == name && call_ensures(f, (p, n), kind),
    }
}

/// The detector can be called on any path and name.
pub open spec fn detector_callable<F: Fn(&str, &str) -> Option<RecipeKind>>(
    kind_detector: Option<F>,
) -> bool {
    match kind_detector {
        None => true,
        Some(f) => forall|p: &str, n: &str| call_requires(f, (p, n)),
    }
}

/// Loading a file can end in `outcome`: the file's error, or the recipe (or
/// error) that its version, name and script give with a kind the detector
/// can answer.
pub open spec fn load_outcome<F: Fn(&str, &str) -> Option<RecipeKind>>(
    pattern: Seq<char>,
    kind_detector: Option<F>,
    file: RecipeFile,
    outcome: Result<RecipeScriptView, RecipeErrorView>,
) -> bool {
    match name_file(pattern, file) {
        FileOutcome::Refused(e) => outcome == Err::<RecipeScriptView, RecipeErrorView>(e),
        FileOutcome::Named { version, name, sql } => exists|kind: Option<RecipeKind>|
            detected_by(kind_detector, file.path@, name, kind) && outcome == recipe_from_script(
                version,
                name,
                sql,
                kind,
            ),
    }
}

/// The groups 1 and 2 of captured groups, when both took part in the match.
fn name_parts(groups: Option<Vec<Option<String>>>) -> (r: Option<(String, String)>)
    ensures
        match groups_view(groups) {
            Some(g) => match (group_at(g, 1), group_at(g, 2)) {
                (Some(v), Some(n)) => r matches Some((rv, rn)) && rv@ == v && rn@ == n,
                _ => r is None,
            },
            None => r is None,
        },
{
    let mut groups = match groups {
        Some(g) => g,
        None => return None,
    };
    if groups.len() < 3 {
        return None;
    }
    let name = groups.remove(2);
    let version = groups.remove(1);
    match (version, name) {
        (Some(v), Some(n)) => Some((v, n)),
        _ => None,
    }
}

/// Loads recipe script files, one at a time, with a compiled filename pattern
/// and an optional kind detector.
pub struct RecipeLoader<F> {
    pattern: CompiledPattern,
    kind_detector: Option<F>,
}

impl<F: Fn(&str, &str) -> Option<RecipeKind>> RecipeLoader<F> {
    /// The pattern the loader names files with.
    pub closed spec fn pattern(&self) -> Seq<char> {
        self.pattern@
    }

    /// The loader's kind detector.
    pub closed spec fn detector(&self) -> Option<F> {
        self.kind_detector
    }

    /// Loads one script file.
    pub fn load(&self, file: RecipeFile) -> (r: Result<RecipeScript, RecipeError>)
        requires
            detector_callable(self.detector()),
        ensures
            load_outcome(self.pattern(), self.detector(), file, recipe_result_view(r)),
    {
        let ghost file0 = file;
        let RecipeFile { path, file_stem, content } = file;
        let sql = match content {
            Ok(sql) => sql,
            Err(e) => {
                if e.not_found {
                    return Err(RecipeError::InvalidRecipePath { path, reason: e.message });
                } else {
                    return Err(RecipeError::InvalidRecipeFile { path, reason: e.message });
                }
            },
        };
        let stem = match file_stem {
            Some(stem) => stem,
            None => {
                return Err(
                    RecipeError::InvalidRecipePath {
                        path,
                        reason: "Invalid file name".to_owned(),
                    },
                );
            },
        };
        let (version, name) = match name_parts(capture_groups(&self.pattern, stem.as_str())) {
            Some(parts) => parts,
            None => {
                return Err(RecipeError::InvalidFilename { file_stem: stem });
            },
        };
        let kind = match &self.kind_detector {
            Some(f) => f(path.as_str(), name.as_str()),
            None => None,
        };
        let ghost n = name@;
        let ghost v = version@;
        let ghost s = sql@;
        let r = RecipeScript::new(version, name, sql, kind);
        proof {
            assert(detected_by(self.detector(), file0.path@, n, kind));
            assert(recipe_result_view(r) == recipe_from_script(v, n, s, kind));
        }
        r
    }
}

/// Compiles the filename pattern into a loader; an invalid pattern gives
/// `InvalidRegex`.
pub fn load_sql_recipes_iter<F: Fn(&str, &str) -> Option<RecipeKind>>(
    filename_pattern: &str,
    kind_detector: Option<F>,
) -> (r: Result<RecipeLoader<F>, RecipeError>)
    ensures
        r is Ok <==> pattern_compiles(filename_pattern@),
        r matches Ok(l) ==> l.pattern() == filename_pattern@ && l.detector() == kind_detector,
        r matches Err(e) ==> e@ is InvalidRegex,
{
    match compile_pattern(filename_pattern) {
        Ok(pattern) => Ok(RecipeLoader { pattern, kind_detector }),
        Err(e) => Err(RecipeError::InvalidRegex(e)),
    }
}

/// Loads the script files in order and appends their recipes; the first
/// file that fails ends the loading with its error, the recipes of the files
/// before it appended.
pub fn load_sql_recipes<F: Fn(&str, &str) -> Option<RecipeKind>>(
    recipes: &mut Vec<RecipeScript>,
    file_paths: Vec<RecipeFile>,
    filename_pattern: &str,
    kind_detector: Option<F>,
) -> (r: Result<(), RecipeError>)
    requires
        detector_callable(kind_detector),
    ensures
        !pattern_compiles(filename_pattern@) ==> (r matches Err(e) && e@ is InvalidRegex)
            && final(recipes)@ == old(recipes)@,
        pattern_compiles(filename_pattern@) ==> old(recipes)@.len() <= final(recipes)@.len()
            <= old(recipes)@.len() + file_paths@.len(),
        pattern_compiles(filename_pattern@) ==> final(recipes)@.take(old(recipes)@.len() as int)
            == old(recipes)@,
        pattern_compiles(filename_pattern@) ==> forall|i: int|
            0 <= i < final(recipes)@.len() - old(recipes)@.len() ==> load_outcome(
                filename_pattern@,
                kind_detector,
                #[trigger] file_paths@[i],
                Ok(final(recipes)@[old(recipes)@.len() + i]@),
            ),
        pattern_compiles(filename_pattern@) && r is Ok ==> final(recipes)@.len() == old(
            recipes,
        )@.len() + file_paths@.len(),
        pattern_compiles(filename_pattern@) ==> (r matches Err(e) ==> final(recipes)@.len()
            < old(recipes)@.len() + file_paths@.len() && load_outcome(
            filename_pattern@,
            kind_detector,
            file_paths@[final(recipes)@.len() - old(recipes)@.len()],
            Err(e@),
        )),
{
    let loader = match load_sql_recipes_iter(filename_pattern, kind_detector) {
        Ok(loader) => loader,
        Err(e) => {
            return Err(e);
        },
    };
    let ghost start = recipes@.len();
    let ghost files = file_paths@;
    let total = file_paths.len();
    let mut pending = file_paths;
    let mut i: usize = 0;
    assert(files.skip(0) =~= files);
    while pending.len() > 0
        invariant
            pending@.len() + i == files.len(),
            pending@ == files.skip(i as int),
            files.len() == total,
            files == file_paths@,
            recipes@.len() == start + i,
            recipes@.take(start as int) == old(recipes)@,
            start == old(recipes)@.len(),
            loader.pattern() == filename_pattern@,
            loader.detector() == kind_detector,
            pattern_compiles(filename_pattern@),
            detector_callable(kind_detector),
            forall|k: int|
                0 <= k < i ==> load_outcome(
                    filename_pattern@,
                    kind_detector,
                    #[trigger] files[k],
                    Ok(recipes@[start + k]@),
                ),
        decreases pending@.len(),
    {
        let file = pending.remove(0);
        assert(file == files[i as int]);
        assert(pending@ =~= files.skip(i + 1));
        let ghost fv = file;
        match loader.load(file) {
            Ok(recipe) => {
                recipes.push(recipe);
                assert(recipes@.take(start as int) =~= old(recipes)@);
            },
            Err(e) => {
                return Err(e);
            },
        }
        i = i + 1;
    }
    Ok(())
}

} // verus!
