//! Entries of the changelog table: one row per applied or reverted recipe.

use vstd::prelude::*;
use crate::recipe::{has_prefix8, kind_name, kind_named, prefix8, RecipeKind};
use crate::text::{append, decimal, decimal_text, same_text};

verus! {

broadcast use vstd::utf8::encode_utf8_decode_utf8, vstd::utf8::encode_utf8_valid_utf8;

/// A timestamp of the `time` crate, carried through the changelog unread.
#[verifier::external_type_specification]
#[verifier::external_body]
pub struct ExOffsetDateTime(time::OffsetDateTime);

/// An optional string seen through its view.
pub open spec fn opt_view(o: Option<String>) -> Option<Seq<char>> {
    match o {
        Some(s) => Some(s@),
        None => None,
    }
}

/// A copy of an optional string.
pub fn clone_opt(o: &Option<String>) -> (r: Option<String>)
    ensures
        r == *o,
{
    match o {
        Some(s) => Some(s.clone()),
        None => None,
    }
}

fn as_opt_str(o: &Option<String>) -> (r: Option<&str>)
    ensures
        r matches Some(s) ==> opt_view(*o) == Some(s@),
        r is None ==> o is None,
{
    match o {
        Some(s) => Some(s.as_str()),
        None => None,
    }
}

/// A migration changelog entry.
#[derive(Debug)]
pub struct Changelog {
    log_id: i32,
    version: String,
    name: Option<String>,
    kind: String,
    checksum: Option<String>,
    apply_by: Option<String>,
    start_ts: Option<time::OffsetDateTime>,
    finish_ts: Option<time::OffsetDateTime>,
    revert_ts: Option<time::OffsetDateTime>,
}

/// A changelog entry with its texts as character sequences.
pub struct ChangelogView {
    pub log_id: i32,
    pub version: Seq<char>,
    pub name: Option<Seq<char>>,
    pub kind: Seq<char>,
    pub checksum: Option<Seq<char>>,
    pub apply_by: Option<Seq<char>>,
    pub start_ts: Option<time::OffsetDateTime>,
    pub finish_ts: Option<time::OffsetDateTime>,
    pub revert_ts: Option<time::OffsetDateTime>,
}

impl View for Changelog {
    type V = ChangelogView;

    closed spec fn view(&self) -> ChangelogView {
        ChangelogView {
            log_id: self.log_id,
            version: self.version@,
            name: opt_view(self.name),
            kind: self.kind@,
            checksum: opt_view(self.checksum),
            apply_by: opt_view(self.apply_by),
            start_ts: self.start_ts,
            finish_ts: self.finish_ts,
            revert_ts: self.revert_ts,
        }
    }
}

impl Clone for Changelog {
    fn clone(&self) -> (r: Self)
        ensures
            r == *self,
    {
        Changelog {
            log_id: self.log_id,
            version: self.version.clone(),
            name: clone_opt(&self.name),
            kind: self.kind.clone(),
            checksum: clone_opt(&self.checksum),
            apply_by: clone_opt(&self.apply_by),
            start_ts: self.start_ts,
            finish_ts: self.finish_ts,
            revert_ts: self.revert_ts,
        }
    }
}

impl Changelog {
    /// An entry with the given columns.
    pub fn new(
        log_id: i32,
        version: String,
        name: Option<String>,
        kind: String,
        checksum: Option<String>,
        apply_by: Option<String>,
        start_ts: Option<time::OffsetDateTime>,
        finish_ts: Option<time::OffsetDateTime>,
        revert_ts: Option<time::OffsetDateTime>,
    ) -> (r: Changelog)
        ensures
            r@ == (ChangelogView {
                log_id,
                version: version@,
                name: opt_view(name),
                kind: kind@,
                checksum: opt_view(checksum),
                apply_by: opt_view(apply_by),
                start_ts,
                finish_ts,
                revert_ts,
            }),
    {
        Changelog {
            log_id,
            version,
            name,
            kind,
            checksum,
            apply_by,
            start_ts,
            finish_ts,
            revert_ts,
        }
    }

    /// The id of the entry, its position in the changelog.
    pub fn log_id(&self) -> (r: i32)
        ensures
            r == self@.log_id,
    {
        self.log_id
    }

    /// The version of the recipe the entry records.
    pub fn version(&self) -> (r: &str)
        ensures
            r@ == self@.version,
    {
        self.version.as_str()
    }

    /// The name of the recipe, if recorded.
    pub fn name(&self) -> (r: Option<&str>)
        ensures
            r matches Some(s) ==> self@.name == Some(s@),
            r is None ==> self@.name is None,
    {
        as_opt_str(&self.name)
    }

    /// The kind of the entry, when its kind column names one.
    pub fn kind(&self) -> (r: Option<RecipeKind>)
        ensures
            r == kind_named(self@.kind),
    {
        match RecipeKind::from_str(self.kind.as_str()) {
            Ok(kind) => Some(kind),
            Err(_) => None,
        }
    }

    /// A baseline entry.
    pub fn is_baseline(&self) -> (r: bool)
        ensures
            r == (self@.kind == kind_name(RecipeKind::Baseline)),
    {
        same_text(self.kind.as_str(), "baseline")
    }

    /// An upgrade entry.
    pub fn is_upgrade(&self) -> (r: bool)
        ensures
            r == (self@.kind == kind_name(RecipeKind::Upgrade)),
    {
        same_text(self.kind.as_str(), "upgrade")
    }

    /// A revert or fixup entry.
    pub fn is_fix(&self) -> (r: bool)
        ensures
            r == (self@.kind == kind_name(RecipeKind::Revert) || self@.kind == kind_name(
                RecipeKind::Fixup,
            )),
    {
        same_text(self.kind.as_str(), "revert") || same_text(self.kind.as_str(), "fixup")
    }

    /// The kind column as stored.
    pub fn kind_str(&self) -> (r: &str)
        ensures
            r@ == self@.kind,
    {
        self.kind.as_str()
    }

    /// The checksum of the applied recipe; none for a revert.
    pub fn checksum(&self) -> (r: Option<&str>)
        ensures
            r matches Some(s) ==> self@.checksum == Some(s@),
            r is None ==> self@.checksum is None,
    {
        as_opt_str(&self.checksum)
    }

    /// The first 8 bytes of the checksum.
    pub fn checksum32(&self) -> (r: Option<&str>)
        requires
            self@.checksum matches Some(c) ==> has_prefix8(c),
        ensures
            r matches Some(s) ==> self@.checksum matches Some(c) && s@ == prefix8(c),
            r is None ==> self@.checksum is None,
    {
        match &self.checksum {
            Some(c) => {
                let (head, _) = c.as_str().split_at(8);
                Some(head)
            },
            None => None,
        }
    }

    /// Who or what applied the recipe, if recorded.
    pub fn apply_by(&self) -> (r: Option<&str>)
        ensures
            r matches Some(s) ==> self@.apply_by == Some(s@),
            r is None ==> self@.apply_by is None,
    {
        as_opt_str(&self.apply_by)
    }

    /// When applying the recipe started.
    pub fn start_ts(&self) -> (r: Option<time::OffsetDateTime>)
        ensures
            r == self@.start_ts,
    {
        self.start_ts
    }

    /// When applying the recipe finished.
    pub fn finish_ts(&self) -> (r: Option<time::OffsetDateTime>)
        ensures
            r == self@.finish_ts,
    {
        self.finish_ts
    }

    /// When the entry was reverted or amended.
    pub fn revert_ts(&self) -> (r: Option<time::OffsetDateTime>)
        ensures
            r == self@.revert_ts,
    {
        self.revert_ts
    }

    /// Sets when applying the recipe started.
    pub fn set_start_ts(&mut self, start_ts: Option<time::OffsetDateTime>)
        ensures
            final(self)@ == (ChangelogView { start_ts, ..old(self)@ }),
    {
        self.start_ts = start_ts;
    }

    /// Sets when applying the recipe finished.
    pub fn set_finish_ts(&mut self, finish_ts: Option<time::OffsetDateTime>)
        ensures
            final(self)@ == (ChangelogView { finish_ts, ..old(self)@ }),
    {
        self.finish_ts = finish_ts;
    }

    /// Sets when the entry was reverted or amended.
    pub fn set_revert_ts(&mut self, revert_ts: Option<time::OffsetDateTime>)
        ensures
            final(self)@ == (ChangelogView { revert_ts, ..old(self)@ }),
    {
        self.revert_ts = revert_ts;
    }
}

/// Formats a timestamp with `Debug`. Nothing is stated of the text.
#[verifier::external_body]
fn timestamp_text(ts: &time::OffsetDateTime) -> String {
    format!("{:?}", ts)
}

/// An optional text, or `-` when there is none.
pub open spec fn text_or_dash(o: Option<Seq<char>>) -> Seq<char> {
    match o {
        Some(t) => t,
        None => "-"@,
    }
}

/// How an entry is written in messages, before its timestamps:
/// `#{log_id} v: {version} {name} {kind}, ({checksum})`.
pub open spec fn changelog_head(l: ChangelogView) -> Seq<char> {
    "#"@ + decimal(l.log_id as int) + " v: "@ + l.version + " "@ + text_or_dash(l.name) + " "@
        + l.kind + ", ("@ + text_or_dash(l.checksum) + ")"@
}

/// A timestamp's part of an entry's text: the label and the timestamp's text
/// when there is a timestamp, else nothing.
pub open spec fn timestamp_part(ts: Option<time::OffsetDateTime>, label: Seq<char>, text: Seq<char>) -> Seq<char> {
    match ts {
        Some(_) => label + text,
        None => Seq::empty(),
    }
}

impl Changelog {
    /// The entry as written in messages: its head, then `, started: `,
    /// `, finished: ` and `, reverted: ` with each timestamp it has, in its
    /// `Debug` form (of which nothing is stated).
    pub fn to_string(&self) -> (r: String)
        ensures
            exists|started: Seq<char>, finished: Seq<char>, reverted: Seq<char>|
                r@ == changelog_head(self@) + timestamp_part(self@.start_ts, ", started: "@, started)
                    + timestamp_part(self@.finish_ts, ", finished: "@, finished) + timestamp_part(
                    self@.revert_ts,
                    ", reverted: "@,
                    reverted,
                ),
    {
        let mut s = String::new();
        append(&mut s, "#");
        append(&mut s, decimal_text(self.log_id).as_str());
        append(&mut s, " v: ");
        append(&mut s, self.version.as_str());
        append(&mut s, " ");
        match &self.name {
            Some(n) => append(&mut s, n.as_str()),
            None => append(&mut s, "-"),
        }
        append(&mut s, " ");
        append(&mut s, self.kind.as_str());
        append(&mut s, ", (");
        match &self.checksum {
            Some(c) => append(&mut s, c.as_str()),
            None => append(&mut s, "-"),
        }
        append(&mut s, ")");
        assert(s@ =~= changelog_head(self@));
        let ghost mut started: Seq<char> = Seq::empty();
        let ghost mut finished: Seq<char> = Seq::empty();
        let ghost mut reverted: Seq<char> = Seq::empty();
        if let Some(ts) = &self.start_ts {
            append(&mut s, ", started: ");
            let t = timestamp_text(ts);
            proof {
                started = t@;
            }
            append(&mut s, t.as_str());
        }
        assert(s@ =~= changelog_head(self@) + timestamp_part(self@.start_ts, ", started: "@, started));
        let ghost after_start = s@;
        if let Some(ts) = &self.finish_ts {
            append(&mut s, ", finished: ");
            let t = timestamp_text(ts);
            proof {
                finished = t@;
            }
            append(&mut s, t.as_str());
        }
        assert(s@ =~= after_start + timestamp_part(self@.finish_ts, ", finished: "@, finished));
        let ghost after_finish = s@;
        if let Some(ts) = &self.revert_ts {
            append(&mut s, ", reverted: ");
            let t = timestamp_text(ts);
            proof {
                reverted = t@;
            }
            append(&mut s, t.as_str());
        }
        assert(s@ =~= after_finish + timestamp_part(self@.revert_ts, ", reverted: "@, reverted));
        s
    }
}

} // verus!
