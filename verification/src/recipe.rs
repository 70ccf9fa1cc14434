//! Migration recipes: their kinds, their metadata, and the script type.

use vstd::prelude::*;
use vstd::utf8::{decode_utf8, encode_utf8, is_char_boundary};
use crate::checksum::{checksum_of, lemma_ascii_has_prefix8, lemma_checksum_ascii, sql_checksum};
use crate::metadata::{lookup, parse_sql_metadata, script_metadata, Entries, SqlMetadata};
use crate::text::{append, is_prefix, same_text, starts_with, utf8_len};
use crate::laws::fix_maximum_version_defaults_to_own_version;

verus! {

broadcast use vstd::utf8::encode_utf8_decode_utf8, vstd::utf8::encode_utf8_valid_utf8;

/// The error type of the `regex` crate, carried in `RecipeError::InvalidRegex`.
#[verifier::external_type_specification]
#[verifier::external_body]
pub struct ExRegexError(regex::Error);

/// An error found while loading or ordering recipes.
#[derive(Debug)]
pub enum RecipeError {
    /// The filename pattern is not a valid regular expression.
    InvalidRegex(regex::Error),
    /// The recipe file does not exist or its path is not usable.
    InvalidRecipePath { path: String, reason: String },
    /// The recipe file could not be read.
    InvalidRecipeFile { path: String, reason: String },
    /// The file name does not follow the filename pattern.
    InvalidFilename { file_stem: String },
    /// An unknown recipe kind.
    InvalidRecipeKind { kind: String },
    /// Two baseline (or two upgrade) recipes share a version.
    RepeatedVersion { version: String, name1: String, name2: String },
    /// A revert recipe lacks `old_checksum`.
    InvalidRevertMeta { version: String, name: String },
    /// A fixup recipe lacks `old_checksum`, `new_name` or `new_checksum`.
    InvalidFixupMeta { version: String, name: String },
    /// A revert or fixup recipe refers to a baseline or upgrade of its own version.
    ConflictedFixup { version: String, name: String, old_checksum: String },
    /// The target of a fixup recipe is not a known upgrade recipe.
    InvalidFixupNewTarget {
        version: String,
        name: String,
        old_checksum: String,
        new_version: String,
        new_name: String,
        new_checksum: String,
    },
}

/// The content of a `RecipeError`, with its texts as character sequences.
pub enum RecipeErrorView {
    InvalidRegex,
    InvalidRecipePath { path: Seq<char>, reason: Seq<char> },
    InvalidRecipeFile { path: Seq<char>, reason: Seq<char> },
    InvalidFilename { file_stem: Seq<char> },
    InvalidRecipeKind { kind: Seq<char> },
    RepeatedVersion { version: Seq<char>, name1: Seq<char>, name2: Seq<char> },
    InvalidRevertMeta { version: Seq<char>, name: Seq<char> },
    InvalidFixupMeta { version: Seq<char>, name: Seq<char> },
    ConflictedFixup { version: Seq<char>, name: Seq<char>, old_checksum: Seq<char> },
    InvalidFixupNewTarget {
        version: Seq<char>,
        name: Seq<char>,
        old_checksum: Seq<char>,
        new_version: Seq<char>,
        new_name: Seq<char>,
        new_checksum: Seq<char>,
    },
}

impl View for RecipeError {
    type V = RecipeErrorView;

    open spec fn view(&self) -> RecipeErrorView {
        match self {
            RecipeError::InvalidRegex(_) => RecipeErrorView::InvalidRegex,
            RecipeError::InvalidRecipePath { path, reason } => RecipeErrorView::InvalidRecipePath {
                path: path@,
                reason: reason@,
            },
            RecipeError::InvalidRecipeFile { path, reason } => RecipeErrorView::InvalidRecipeFile {
                path: path@,
                reason: reason@,
            },
            RecipeError::InvalidFilename { file_stem } => RecipeErrorView::InvalidFilename {
                file_stem: file_stem@,
            },
            RecipeError::InvalidRecipeKind { kind } => RecipeErrorView::InvalidRecipeKind {
                kind: kind@,
            },
            RecipeError::RepeatedVersion { version, name1, name2 } =>
                RecipeErrorView::RepeatedVersion { version: version@, name1: name1@, name2: name2@ },
            RecipeError::InvalidRevertMeta { version, name } => RecipeErrorView::InvalidRevertMeta {
                version: version@,
                name: name@,
            },
            RecipeError::InvalidFixupMeta { version, name } => RecipeErrorView::InvalidFixupMeta {
                version: version@,
                name: name@,
            },
            RecipeError::ConflictedFixup { version, name, old_checksum } =>
                RecipeErrorView::ConflictedFixup {
                    version: version@,
                    name: name@,
                    old_checksum: old_checksum@,
                },
            RecipeError::InvalidFixupNewTarget {
                version,
                name,
                old_checksum,
                new_version,
                new_name,
                new_checksum,
            } => RecipeErrorView::InvalidFixupNewTarget {
                version: version@,
                name: name@,
                old_checksum: old_checksum@,
                new_version: new_version@,
                new_name: new_name@,
                new_checksum: new_checksum@,
            },
        }
    }
}

/// The four kinds of recipes.
#[derive(PartialEq, Eq, Structural, Clone, Copy, Debug, PartialOrd, Ord)]
pub enum RecipeKind {
    Baseline,
    Upgrade,
    Revert,
    Fixup,
}

/// The name of a kind, as written in metadata and in the changelog.
pub open spec fn kind_name(kind: RecipeKind) -> Seq<char> {
    match kind {
        RecipeKind::Baseline => "baseline"@,
        RecipeKind::Upgrade => "upgrade"@,
        RecipeKind::Revert => "revert"@,
        RecipeKind::Fixup => "fixup"@,
    }
}

/// The kind that a name stands for, if any.
pub open spec fn kind_named(name: Seq<char>) -> Option<RecipeKind> {
    if name == "baseline"@ {
        Some(RecipeKind::Baseline)
    } else if name == "upgrade"@ {
        Some(RecipeKind::Upgrade)
    } else if name == "revert"@ {
        Some(RecipeKind::Revert)
    } else if name == "fixup"@ {
        Some(RecipeKind::Fixup)
    } else {
        None
    }
}

/// The position of a kind in the order baseline, upgrade, revert, fixup.
pub open spec fn kind_rank(kind: RecipeKind) -> int {
    match kind {
        RecipeKind::Baseline => 0,
        RecipeKind::Upgrade => 1,
        RecipeKind::Revert => 2,
        RecipeKind::Fixup => 3,
    }
}

impl RecipeKind {
    /// Parses a kind name: `baseline`, `upgrade`, `revert` or `fixup`.
    pub fn from_str(s: &str) -> (r: Result<RecipeKind, RecipeError>)
        ensures
            match r {
                Ok(kind) => kind_named(s@) == Some(kind),
                Err(e) => kind_named(s@) is None && e@ == (RecipeErrorView::InvalidRecipeKind {
                    kind: s@,
                }),
            },
    {
        if same_text(s, "baseline") {
            Ok(RecipeKind::Baseline)
        } else if same_text(s, "upgrade") {
            Ok(RecipeKind::Upgrade)
        } else if same_text(s, "revert") {
            Ok(RecipeKind::Revert)
        } else if same_text(s, "fixup") {
            Ok(RecipeKind::Fixup)
        } else {
            Err(RecipeError::InvalidRecipeKind { kind: s.to_owned() })
        }
    }

    /// The name of the kind.
    pub fn to_string(&self) -> (r: String)
        ensures
            r@ == kind_name(*self),
    {
        match self {
            RecipeKind::Baseline => "baseline".to_owned(),
            RecipeKind::Upgrade => "upgrade".to_owned(),
            RecipeKind::Revert => "revert".to_owned(),
            RecipeKind::Fixup => "fixup".to_owned(),
        }
    }

    /// The position of the kind in the order baseline, upgrade, revert, fixup.
    pub fn rank(&self) -> (r: u8)
        ensures
            r == kind_rank(*self),
    {
        match self {
            RecipeKind::Baseline => 0,
            RecipeKind::Upgrade => 1,
            RecipeKind::Revert => 2,
            RecipeKind::Fixup => 3,
        }
    }
}

/// Naming a kind and parsing the name gives the kind back.
pub proof fn kind_name_round_trip(kind: RecipeKind)
    ensures
        kind_named(kind_name(kind)) == Some(kind),
{
    reveal_strlit("baseline");
    reveal_strlit("upgrade");
    reveal_strlit("revert");
    reveal_strlit("fixup");
    assert("baseline"@.len() == 8);
    assert("upgrade"@.len() == 7);
    assert("revert"@.len() == 6);
    assert("fixup"@.len() == 5);
}

/// What a recipe carries beside its version, name, checksum and script.
#[derive(Debug, PartialEq, Eq)]
pub enum RecipeMeta {
    Baseline,
    Upgrade,
    Revert { old_checksum: String, maximum_version: String },
    Fixup {
        old_checksum: String,
        maximum_version: String,
        new_version: String,
        new_name: String,
        new_checksum: String,
    },
}

/// `RecipeMeta` with its texts as character sequences.
pub enum RecipeMetaView {
    Baseline,
    Upgrade,
    Revert { old_checksum: Seq<char>, maximum_version: Seq<char> },
    Fixup {
        old_checksum: Seq<char>,
        maximum_version: Seq<char>,
        new_version: Seq<char>,
        new_name: Seq<char>,
        new_checksum: Seq<char>,
    },
}

impl View for RecipeMeta {
    type V = RecipeMetaView;

    open spec fn view(&self) -> RecipeMetaView {
        match self {
            RecipeMeta::Baseline => RecipeMetaView::Baseline,
            RecipeMeta::Upgrade => RecipeMetaView::Upgrade,
            RecipeMeta::Revert { old_checksum, maximum_version } => RecipeMetaView::Revert {
                old_checksum: old_checksum@,
                maximum_version: maximum_version@,
            },
            RecipeMeta::Fixup {
                old_checksum,
                maximum_version,
                new_version,
                new_name,
                new_checksum,
            } => RecipeMetaView::Fixup {
                old_checksum: old_checksum@,
                maximum_version: maximum_version@,
                new_version: new_version@,
                new_name: new_name@,
                new_checksum: new_checksum@,
            },
        }
    }
}

impl Clone for RecipeMeta {
    fn clone(&self) -> (r: Self)
        ensures
            r == *self,
    {
        match self {
            RecipeMeta::Baseline => RecipeMeta::Baseline,
            RecipeMeta::Upgrade => RecipeMeta::Upgrade,
            RecipeMeta::Revert { old_checksum, maximum_version } => RecipeMeta::Revert {
                old_checksum: old_checksum.clone(),
                maximum_version: maximum_version.clone(),
            },
            RecipeMeta::Fixup {
                old_checksum,
                maximum_version,
                new_version,
                new_name,
                new_checksum,
            } => RecipeMeta::Fixup {
                old_checksum: old_checksum.clone(),
                maximum_version: maximum_version.clone(),
                new_version: new_version.clone(),
                new_name: new_name.clone(),
                new_checksum: new_checksum.clone(),
            },
        }
    }
}

/// A migration recipe: one SQL script with its metadata.
#[derive(Debug, PartialEq, Eq)]
pub struct RecipeScript {
    pub version: String,
    pub name: String,
    pub checksum: String,
    pub sql: String,
    pub meta: RecipeMeta,
}

/// `RecipeScript` with its texts as character sequences.
pub struct RecipeScriptView {
    pub version: Seq<char>,
    pub name: Seq<char>,
    pub checksum: Seq<char>,
    pub sql: Seq<char>,
    pub meta: RecipeMetaView,
}

impl View for RecipeScript {
    type V = RecipeScriptView;

    open spec fn view(&self) -> RecipeScriptView {
        RecipeScriptView {
            version: self.version@,
            name: self.name@,
            checksum: self.checksum@,
            sql: self.sql@,
            meta: self.meta@,
        }
    }
}

impl Clone for RecipeScript {
    fn clone(&self) -> (r: Self)
        ensures
            r == *self,
    {
        RecipeScript {
            version: self.version.clone(),
            name: self.name.clone(),
            checksum: self.checksum.clone(),
            sql: self.sql.clone(),
            meta: self.meta.clone(),
        }
    }
}

/// The UTF-8 prefix of 8 bytes of a text, as characters.
pub open spec fn prefix8(s: Seq<char>) -> Seq<char> {
    decode_utf8(encode_utf8(s).take(8))
}

/// The byte index 8 of the text's UTF-8 encoding is a character boundary.
pub open spec fn has_prefix8(s: Seq<char>) -> bool {
    is_char_boundary(encode_utf8(s), 8)
}

/// Whether `pattern`, of at least 8 bytes, is a prefix of `checksum`.
pub open spec fn checksum_matches(checksum: Seq<char>, pattern: Seq<char>) -> bool {
    utf8_len(pattern) >= 8 && is_prefix(pattern, checksum)
}

/// Whether `pattern`, of at least 8 bytes, is a prefix of `checksum`.
pub fn checksum_prefix_match(checksum: &str, pattern: &str) -> (r: bool)
    ensures
        r == checksum_matches(checksum@, pattern@),
{
    if pattern.as_bytes().len() < 8 {
        return false;
    }
    starts_with(checksum, pattern)
}

impl RecipeScriptView {
    pub open spec fn kind(self) -> RecipeKind {
        match self.meta {
            RecipeMetaView::Baseline => RecipeKind::Baseline,
            RecipeMetaView::Upgrade => RecipeKind::Upgrade,
            RecipeMetaView::Revert { .. } => RecipeKind::Revert,
            RecipeMetaView::Fixup { .. } => RecipeKind::Fixup,
        }
    }

    pub open spec fn old_checksum(self) -> Option<Seq<char>> {
        match self.meta {
            RecipeMetaView::Revert { old_checksum, .. } => Some(old_checksum),
            RecipeMetaView::Fixup { old_checksum, .. } => Some(old_checksum),
            _ => None,
        }
    }

    pub open spec fn maximum_version(self) -> Option<Seq<char>> {
        match self.meta {
            RecipeMetaView::Revert { maximum_version, .. } => Some(maximum_version),
            RecipeMetaView::Fixup { maximum_version, .. } => Some(maximum_version),
            _ => None,
        }
    }

    pub open spec fn new_version(self) -> Option<Seq<char>> {
        match self.meta {
            RecipeMetaView::Fixup { new_version, .. } => Some(new_version),
            _ => None,
        }
    }

    pub open spec fn new_target(self) -> Option<(Seq<char>, Seq<char>, Seq<char>)> {
        match self.meta {
            RecipeMetaView::Fixup { new_version, new_name, new_checksum, .. } => Some(
                (new_version, new_name, new_checksum),
            ),
            _ => None,
        }
    }
}

impl RecipeScript {
    /// The version of the recipe.
    pub fn version(&self) -> (r: &str)
        ensures
            r@ == self.version@,
    {
        self.version.as_str()
    }

    /// The name of the recipe.
    pub fn name(&self) -> (r: &str)
        ensures
            r@ == self.name@,
    {
        self.name.as_str()
    }

    /// The script of the recipe.
    pub fn sql(&self) -> (r: &str)
        ensures
            r@ == self.sql@,
    {
        self.sql.as_str()
    }

    /// The checksum of the script.
    pub fn checksum(&self) -> (r: &str)
        ensures
            r@ == self.checksum@,
    {
        self.checksum.as_str()
    }

    /// The kind of the recipe.
    pub fn kind(&self) -> (r: RecipeKind)
        ensures
            r == self@.kind(),
    {
        match &self.meta {
            RecipeMeta::Baseline => RecipeKind::Baseline,
            RecipeMeta::Upgrade => RecipeKind::Upgrade,
            RecipeMeta::Revert { .. } => RecipeKind::Revert,
            RecipeMeta::Fixup { .. } => RecipeKind::Fixup,
        }
    }

    /// A baseline recipe.
    pub fn is_baseline(&self) -> (r: bool)
        ensures
            r == (self@.kind() == RecipeKind::Baseline),
    {
        match &self.meta {
            RecipeMeta::Baseline => true,
            _ => false,
        }
    }

    /// An upgrade recipe.
    pub fn is_upgrade(&self) -> (r: bool)
        ensures
            r == (self@.kind() == RecipeKind::Upgrade),
    {
        match &self.meta {
            RecipeMeta::Upgrade => true,
            _ => false,
        }
    }

    /// Whether `checksum` names this recipe: it has at least 8 bytes and the
    /// recipe's checksum starts with it.
    pub fn match_checksum(&self, checksum: &str) -> (r: bool)
        ensures
            r == checksum_matches(self.checksum@, checksum@),
    {
        checksum_prefix_match(self.checksum.as_str(), checksum)
    }

    /// The first 8 bytes of the checksum.
    pub fn checksum32(&self) -> (r: &str)
        requires
            has_prefix8(self.checksum@),
        ensures
            r@ == prefix8(self.checksum@),
    {
        let (head, _) = self.checksum.as_str().split_at(8);
        head
    }

    /// The checksum a revert or fixup recipe fixes.
    pub fn old_checksum(&self) -> (r: Option<&str>)
        ensures
            r matches Some(s) ==> self@.old_checksum() == Some(s@),
            r is None ==> self@.old_checksum() is None,
    {
        match &self.meta {
            RecipeMeta::Revert { old_checksum, .. } => Some(old_checksum.as_str()),
            RecipeMeta::Fixup { old_checksum, .. } => Some(old_checksum.as_str()),
            _ => None,
        }
    }

    /// The first 8 bytes of the old checksum of a revert or fixup recipe.
    pub fn old_checksum32(&self) -> (r: Option<&str>)
        requires
            self@.old_checksum() matches Some(c) ==> has_prefix8(c),
        ensures
            r matches Some(s) ==> self@.old_checksum() matches Some(c) && s@ == prefix8(c),
            r is None ==> self@.old_checksum() is None,
    {
        match &self.meta {
            RecipeMeta::Revert { old_checksum, .. } => {
                let (head, _) = old_checksum.as_str().split_at(8);
                Some(head)
            },
            RecipeMeta::Fixup { old_checksum, .. } => {
                let (head, _) = old_checksum.as_str().split_at(8);
                Some(head)
            },
            _ => None,
        }
    }

    /// The last database version a revert or fixup applies to.
    pub fn maximum_version(&self) -> (r: Option<&str>)
        ensures
            r matches Some(s) ==> self@.maximum_version() == Some(s@),
            r is None ==> self@.maximum_version() is None,
    {
        match &self.meta {
            RecipeMeta::Revert { maximum_version, .. } => Some(maximum_version.as_str()),
            RecipeMeta::Fixup { maximum_version, .. } => Some(maximum_version.as_str()),
            _ => None,
        }
    }

    /// The version a fixup recipe records in place of the fixed one.
    pub fn new_version(&self) -> (r: Option<&str>)
        ensures
            r matches Some(s) ==> self@.new_version() == Some(s@),
            r is None ==> self@.new_version() is None,
    {
        match &self.meta {
            RecipeMeta::Fixup { new_version, .. } => Some(new_version.as_str()),
            _ => None,
        }
    }

    /// The version, name and checksum that a fixup recipe puts in place.
    pub fn new_target(&self) -> (r: Option<(&str, &str, &str)>)
        ensures
            r matches Some(t) ==> self@.new_target() == Some((t.0@, t.1@, t.2@)),
            r is None ==> self@.new_target() is None,
    {
        match &self.meta {
            RecipeMeta::Fixup { new_version, new_name, new_checksum, .. } => Some(
                (new_version.as_str(), new_name.as_str(), new_checksum.as_str()),
            ),
            _ => None,
        }
    }

    /// The first 8 bytes of the new checksum of a fixup recipe.
    pub fn new_checksum32(&self) -> (r: Option<&str>)
        requires
            self@.new_target() matches Some(t) ==> has_prefix8(t.2),
        ensures
            r matches Some(s) ==> self@.new_target() matches Some(t) && s@ == prefix8(t.2),
            r is None ==> self@.new_target() is None,
    {
        match &self.meta {
            RecipeMeta::Fixup { new_checksum, .. } => {
                let (head, _) = new_checksum.as_str().split_at(8);
                Some(head)
            },
            _ => None,
        }
    }
}

/// Recipe kind from the recipe name: `baseline...`, `revert...` and `fixup...`
/// name their kind, every other name is an upgrade.
pub open spec fn simple_kind_of(name: Seq<char>) -> RecipeKind {
    if is_prefix("baseline"@, name) {
        RecipeKind::Baseline
    } else if is_prefix("revert"@, name) {
        RecipeKind::Revert
    } else if is_prefix("fixup"@, name) {
        RecipeKind::Fixup
    } else {
        RecipeKind::Upgrade
    }
}

/// Simple recipe kind detector, telling the kind of a recipe by its name.
pub fn simple_kind_detector(_path: &str, name: &str) -> (r: Option<RecipeKind>)
    ensures
        r == Some(simple_kind_of(name@)),
{
    if starts_with(name, "baseline") {
        Some(RecipeKind::Baseline)
    } else if starts_with(name, "revert") {
        Some(RecipeKind::Revert)
    } else if starts_with(name, "fixup") {
        Some(RecipeKind::Fixup)
    } else {
        Some(RecipeKind::Upgrade)
    }
}

/// The value of a metadata key, or `default` when the key is not there.
pub open spec fn lookup_or(m: Entries, key: Seq<char>, default: Seq<char>) -> Seq<char> {
    match lookup(m, key) {
        Some(v) => v,
        None => default,
    }
}

/// The recipe that a script gives, or the error it is refused with.
///
/// The metadata of the script may set `version`, `name` and `kind`; without
/// `kind` the default kind is used. A revert needs `old_checksum`, a fixup
/// `old_checksum`, `new_name` and `new_checksum`; `maximum_version` and
/// `new_version` default to the recipe's version. The checksum is the
/// SHA-256 of the script.
pub open spec fn recipe_from_script(
    version: Seq<char>,
    name: Seq<char>,
    sql: Seq<char>,
    default_kind: Option<RecipeKind>,
) -> Result<RecipeScriptView, RecipeErrorView> {
    let m = script_metadata(sql);
    let version = lookup_or(m, "version"@, version);
    let name = lookup_or(m, "name"@, name);
    let recipe = |meta: RecipeMetaView|
        RecipeScriptView { version, name, checksum: checksum_of(sql), sql, meta };
    let kind = match lookup(m, "kind"@) {
        Some(k) => kind_named(k),
        None => default_kind,
    };
    if lookup(m, "kind"@) is Some && kind is None {
        Err(RecipeErrorView::InvalidRecipeKind { kind: lookup(m, "kind"@)->0 })
    } else {
        match kind {
            None => Err(RecipeErrorView::InvalidRecipeKind { kind: "unknown"@ }),
            Some(RecipeKind::Baseline) => Ok(recipe(RecipeMetaView::Baseline)),
            Some(RecipeKind::Upgrade) => Ok(recipe(RecipeMetaView::Upgrade)),
            Some(RecipeKind::Revert) => match lookup(m, "old_checksum"@) {
                Some(old_checksum) => Ok(
                    recipe(
                        RecipeMetaView::Revert {
                            old_checksum,
                            maximum_version: lookup_or(m, "maximum_version"@, version),
                        },
                    ),
                ),
                None => Err(RecipeErrorView::InvalidRevertMeta { version, name }),
            },
            Some(RecipeKind::Fixup) => {
                if lookup(m, "old_checksum"@) is Some && lookup(m, "new_name"@) is Some && lookup(
                    m,
                    "new_checksum"@,
                ) is Some {
                    Ok(
                        recipe(
                            RecipeMetaView::Fixup {
                                old_checksum: lookup(m, "old_checksum"@)->0,
                                maximum_version: lookup_or(m, "maximum_version"@, version),
                                new_version: lookup_or(m, "new_version"@, version),
                                new_name: lookup(m, "new_name"@)->0,
                                new_checksum: lookup(m, "new_checksum"@)->0,
                            },
                        ),
                    )
                } else {
                    Err(RecipeErrorView::InvalidFixupMeta { version, name })
                }
            },
        }
    }
}

/// A `Result` of the library with both sides seen through their views.
pub open spec fn recipe_result_view(r: Result<RecipeScript, RecipeError>) -> Result<
    RecipeScriptView,
    RecipeErrorView,
> {
    match r {
        Ok(s) => Ok(s@),
        Err(e) => Err(e@),
    }
}

fn metadata_or(metadata: &SqlMetadata, key: &str, default: &String) -> (r: String)
    ensures
        r@ == lookup_or(metadata@, key@, default@),
{
    match metadata.get(key) {
        Some(v) => v.clone(),
        None => default.clone(),
    }
}

impl RecipeScript {
    /// Makes a recipe from a script: reads its metadata and computes its checksum.
    pub fn new(version: String, name: String, sql: String, default_kind: Option<RecipeKind>) -> (r:
        Result<RecipeScript, RecipeError>)
        ensures
            recipe_result_view(r) == recipe_from_script(version@, name@, sql@, default_kind),
            r matches Ok(script) ==> script.checksum@.len() == 64 && has_prefix8(script.checksum@),
            r matches Ok(script) ==> (script@.kind() == RecipeKind::Revert || script@.kind()
                == RecipeKind::Fixup ==> script@.maximum_version() == Some(
                match lookup(script_metadata(sql@), "maximum_version"@) {
                    Some(v) => v,
                    None => script@.version,
                },
            )),
    {
        let ghost version0 = version@;
        let ghost name0 = name@;
        let ghost sql0 = sql@;
        let checksum = sql_checksum(sql.as_str());
        proof {
            lemma_checksum_ascii(sql@);
            lemma_ascii_has_prefix8(checksum@);
        }
        let mut metadata = SqlMetadata::new();
        parse_sql_metadata(sql.as_str(), &mut metadata);
        let version = metadata_or(&metadata, "version", &version);
        let name = metadata_or(&metadata, "name", &name);
        let kind = match metadata.get("kind") {
            Some(k) => match RecipeKind::from_str(k.as_str()) {
                Ok(kind) => Some(kind),
                Err(e) => {
                    return Err(e);
                },
            },
            None => default_kind,
        };
        let meta = match kind {
            Some(RecipeKind::Baseline) => RecipeMeta::Baseline,
            Some(RecipeKind::Upgrade) => RecipeMeta::Upgrade,
            Some(RecipeKind::Revert) => match metadata.get("old_checksum") {
                Some(old_checksum) => RecipeMeta::Revert {
                    old_checksum: old_checksum.clone(),
                    maximum_version: metadata_or(&metadata, "maximum_version", &version),
                },
                None => {
                    return Err(RecipeError::InvalidRevertMeta { version, name });
                },
            },
            Some(RecipeKind::Fixup) => match (
                metadata.get("old_checksum"),
                metadata.get("new_name"),
                metadata.get("new_checksum"),
            ) {
                (Some(old_checksum), Some(new_name), Some(new_checksum)) => RecipeMeta::Fixup {
                    old_checksum: old_checksum.clone(),
                    maximum_version: metadata_or(&metadata, "maximum_version", &version),
                    new_version: metadata_or(&metadata, "new_version", &version),
                    new_name: new_name.clone(),
                    new_checksum: new_checksum.clone(),
                },
                _ => {
                    return Err(RecipeError::InvalidFixupMeta { version, name });
                },
            },
            None => {
                return Err(RecipeError::InvalidRecipeKind { kind: "unknown".to_owned() });
            },
        };
        let script = RecipeScript { version, name, checksum, sql, meta };
        proof {
            let r = Ok::<RecipeScript, RecipeError>(script);
            assert(recipe_result_view(r) == recipe_from_script(version0, name0, sql0, default_kind));
            if script@.kind() == RecipeKind::Revert || script@.kind() == RecipeKind::Fixup {
                fix_maximum_version_defaults_to_own_version(version0, name0, sql0, default_kind);
            }
        }
        Ok(script)
    }
}

/// How a recipe is written in messages: version (with ` -> ` and the new
/// version of a fixup that changes it), name, and the first 8 bytes of the
/// checksum in parentheses.
pub open spec fn recipe_text(r: RecipeScriptView) -> Seq<char> {
    let arrow = match r.new_version() {
        Some(v) => if v != r.version {
            " -> "@ + v
        } else {
            Seq::empty()
        },
        None => Seq::empty(),
    };
    r.version + arrow + " "@ + r.name + " ("@ + prefix8(r.checksum) + ")"@
}

impl RecipeScript {
    /// The recipe as written in messages.
    pub fn to_string(&self) -> (r: String)
        requires
            has_prefix8(self.checksum@),
        ensures
            r@ == recipe_text(self@),
    {
        let mut s = self.version.clone();
        if let Some(new_version) = self.new_version() {
            if !same_text(new_version, self.version.as_str()) {
                append(&mut s, " -> ");
                append(&mut s, new_version);
            }
        }
        append(&mut s, " ");
        append(&mut s, self.name.as_str());
        append(&mut s, " (");
        append(&mut s, self.checksum32());
        append(&mut s, ")");
        proof {
            let r = self@;
            match r.new_version() {
                Some(v) => if v != r.version {
                    assert(s@ =~= recipe_text(r));
                } else {
                    assert(s@ =~= recipe_text(r));
                },
                None => {
                    assert(s@ =~= recipe_text(r));
                },
            }
        }
        s
    }
}

} // verus!
