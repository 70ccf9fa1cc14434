//! Metadata of a recipe script: the `-- key: value` comments on its first lines.

use vstd::prelude::*;
use crate::text::{
    chars_of, find_char, lemma_next_index_of_bounds, next_index_of, same_text, trim, trimmed,
};

verus! {

/// The lines of a text as `str::lines` yields them: split at `\n`, a `\r`
/// before the `\n` dropped, and no empty line after a final `\n`.
pub open spec fn lines(s: Seq<char>) -> Seq<Seq<char>>
    decreases s.len(),
{
    if s.len() == 0 {
        Seq::empty()
    } else {
        let j = next_index_of(s, '\n', 0);
        if j < s.len() {
            let line = s.take(j);
            let line = if line.len() > 0 && line.last() == '\r' {
                line.drop_last()
            } else {
                line
            };
            proof {
                lemma_next_index_of_bounds(s, '\n', 0);
            }
            seq![line] + lines(s.skip(j + 1))
        } else {
            seq![s]
        }
    }
}

/// Key and value pairs, a key at most once, in the order keys first came.
pub type Entries = Seq<(Seq<char>, Seq<char>)>;

/// The first index at or after `i` whose key is `key`, or the length.
pub open spec fn key_index(entries: Entries, key: Seq<char>, i: int) -> int
    decreases entries.len() - i,
{
    if i >= entries.len() {
        entries.len() as int
    } else if entries[i].0 == key {
        i
    } else {
        key_index(entries, key, i + 1)
    }
}

proof fn lemma_key_index_bounds(entries: Entries, key: Seq<char>, i: int)
    requires
        0 <= i <= entries.len(),
    ensures
        i <= key_index(entries, key, i) <= entries.len(),
        key_index(entries, key, i) < entries.len() ==> entries[key_index(entries, key, i)].0
            == key,
        forall|k: int| i <= k < key_index(entries, key, i) ==> entries[k].0 != key,
    decreases entries.len() - i,
{
    if i < entries.len() && entries[i].0 != key {
        lemma_key_index_bounds(entries, key, i + 1);
    }
}

/// The value of a key, if the key is there.
pub open spec fn lookup(entries: Entries, key: Seq<char>) -> Option<Seq<char>> {
    let i = key_index(entries, key, 0);
    if i < entries.len() {
        Some(entries[i].1)
    } else {
        None
    }
}

/// Sets the value of a key: in place where the key is, at the end otherwise.
pub open spec fn assoc_insert(entries: Entries, key: Seq<char>, value: Seq<char>) -> Entries {
    let i = key_index(entries, key, 0);
    if i < entries.len() {
        entries.update(i, (key, value))
    } else {
        entries.push((key, value))
    }
}

/// Metadata read from a script: a map from keys to values.
#[derive(Debug)]
pub struct SqlMetadata {
    entries: Vec<(String, String)>,
}

impl View for SqlMetadata {
    type V = Entries;

    closed spec fn view(&self) -> Entries {
        self.entries@.map_values(|e: (String, String)| (e.0@, e.1@))
    }
}

impl SqlMetadata {
    /// Empty metadata.
    pub fn new() -> (m: SqlMetadata)
        ensures
            m@ == Seq::<(Seq<char>, Seq<char>)>::empty(),
    {
        let m = SqlMetadata { entries: Vec::new() };
        assert(m@ =~= Seq::<(Seq<char>, Seq<char>)>::empty());
        m
    }

    fn position(&self, key: &str) -> (r: usize)
        ensures
            r == key_index(self@, key@, 0),
    {
        let mut i: usize = 0;
        proof {
            lemma_key_index_bounds(self@, key@, 0);
        }
        while i < self.entries.len()
            invariant
                i <= self.entries@.len(),
                self@.len() == self.entries@.len(),
                key_index(self@, key@, 0) == key_index(self@, key@, i as int),
            decreases self.entries@.len() - i,
        {
            if same_text(self.entries[i].0.as_str(), key) {
                return i;
            }
            i = i + 1;
        }
        i
    }

    /// The number of keys.
    pub fn len(&self) -> (r: usize)
        ensures
            r == self@.len(),
    {
        self.entries.len()
    }

    /// Whether there is no key.
    pub fn is_empty(&self) -> (r: bool)
        ensures
            r == (self@.len() == 0),
    {
        self.entries.len() == 0
    }

    /// The value of a key.
    pub fn get(&self, key: &str) -> (r: Option<&String>)
        ensures
            r matches Some(v) ==> lookup(self@, key@) == Some(v@),
            r is None ==> lookup(self@, key@) is None,
    {
        let i = self.position(key);
        if i < self.entries.len() {
            Some(&self.entries[i].1)
        } else {
            None
        }
    }

    /// Sets the value of a key.
    pub fn insert(&mut self, key: String, value: String)
        ensures
            final(self)@ == assoc_insert(old(self)@, key@, value@),
    {
        let i = self.position(key.as_str());
        let ghost k = key@;
        let ghost v = value@;
        if i < self.entries.len() {
            self.entries.set(i, (key, value));
            assert(self@ =~= old(self)@.update(i as int, (k, v)));
        } else {
            self.entries.push((key, value));
            assert(self@ =~= old(self)@.push((k, v)));
        }
    }
}

/// A metadata line starts with `--`.
pub open spec fn is_comment(line: Seq<char>) -> bool {
    line.len() >= 2 && line[0] == '-' && line[1] == '-'
}

/// What one comment line adds: after the `--`, the text before the first `:`
/// and the text after it, both trimmed, as key and value; nothing without `:`.
pub open spec fn apply_comment(entries: Entries, line: Seq<char>) -> Entries {
    let rest = line.skip(2);
    let k = next_index_of(rest, ':', 0);
    if k < rest.len() {
        assoc_insert(entries, trim(rest.take(k)), trim(rest.skip(k + 1)))
    } else {
        entries
    }
}

/// The metadata of the leading comment lines, added to `entries` in order;
/// the first line that is not a comment ends the metadata.
pub open spec fn metadata_of_lines(ls: Seq<Seq<char>>, entries: Entries) -> Entries
    decreases ls.len(),
{
    if ls.len() == 0 || !is_comment(ls[0]) {
        entries
    } else {
        metadata_of_lines(ls.drop_first(), apply_comment(entries, ls[0]))
    }
}

/// The metadata of a script.
pub open spec fn script_metadata(sql: Seq<char>) -> Entries {
    metadata_of_lines(lines(sql), Seq::empty())
}

/// Reads the `-- key: value` lines at the start of a script into `metadata`.
pub fn parse_sql_metadata(sql: &str, metadata: &mut SqlMetadata)
    ensures
        final(metadata)@ == metadata_of_lines(lines(sql@), old(metadata)@),
{
    let v = chars_of(sql);
    let n = v.len();
    let mut i: usize = 0;
    assert(v@.skip(0) =~= v@);
    while i < n
        invariant
            v@ == sql@,
            n == v@.len(),
            i <= n,
            metadata_of_lines(lines(v@.skip(i as int)), metadata@) == metadata_of_lines(
                lines(sql@),
                old(metadata)@,
            ),
        decreases n - i,
    {
        let ghost s = v@.skip(i as int);
        let j = find_char(v.as_slice(), '\n', i, n);
        proof {
            assert(v@.subrange(i as int, n as int) =~= s);
            lemma_next_index_of_bounds(s, '\n', 0);
        }
        let mut e = j;
        if j < n && e > i && v[e - 1] == '\r' {
            e = e - 1;
        }
        let ghost line = v@.subrange(i as int, e as int);
        proof {
            let jj = next_index_of(s, '\n', 0);
            if jj < s.len() {
                assert(s.take(jj) =~= v@.subrange(i as int, j as int));
                if jj > 0 && s.take(jj).last() == '\r' {
                    assert(s.take(jj).drop_last() =~= line);
                } else {
                    assert(s.take(jj) =~= line);
                }
                assert(s.skip(jj + 1) =~= v@.skip(j + 1));
            } else {
                assert(s =~= line);
            }
            assert(lines(s)[0] == line);
            if jj < s.len() {
                assert(lines(s).drop_first() =~= lines(v@.skip(j + 1)));
            } else {
                assert(lines(s).drop_first() =~= Seq::<Seq<char>>::empty());
            }
        }
        let ghost before = metadata@;
        if !(e - i >= 2 && v[i] == '-' && v[i + 1] == '-') {
            return;
        }
        let colon = find_char(v.as_slice(), ':', i + 2, e);
        proof {
            let rest = line.skip(2);
            assert(rest =~= v@.subrange(i + 2, e as int));
            lemma_next_index_of_bounds(rest, ':', 0);
            if colon < e {
                assert(rest.take(colon - (i + 2)) =~= v@.subrange(i + 2, colon as int));
                assert(rest.skip(colon - (i + 2) + 1) =~= v@.subrange(colon + 1, e as int));
            }
        }
        if colon < e {
            let key = trimmed(v.as_slice(), i + 2, colon);
            let value = trimmed(v.as_slice(), colon + 1, e);
            metadata.insert(key, value);
        }
        assert(metadata@ == apply_comment(before, line));
        if j < n {
            i = j + 1;
        } else {
            assert(v@.skip(n as int) =~= Seq::<char>::empty());
            i = n;
        }
    }
}

} // verus!
