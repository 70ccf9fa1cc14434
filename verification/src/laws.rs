//! Laws of the library that relate several of its functions.

use vstd::prelude::*;
use crate::changelog::ChangelogView;
use crate::migrator::{
    agg_update, all_checksummed, consolidate, find_log, lemma_agg_update_checksummed,
    lemma_log_index_bounds, log_index,
};
use crate::order::{
    check_chunks, check_ordered, check_targets, chunk_end, find_upgrade, first_pass, insert_pos,
    insert_sorted, key_order, rank_order, target_known,
    lemma_chunk_end_bounds, lemma_insert_pos_bounds, recipe_order, sort_recipes,
};
use crate::metadata::{
    apply_comment, assoc_insert, is_comment, key_index, lines, lookup, metadata_of_lines,
    script_metadata, Entries,
};
use crate::recipe::{
    checksum_matches, has_prefix8, kind_rank, prefix8, recipe_from_script, RecipeKind,
    RecipeScriptView,
};
use crate::text::is_prefix;
use crate::version::{
    lemma_relation_equal_subst, lemma_relation_flip, lemma_relation_less_trans, VersionComparator,
};

verus! {

/// The entries are in strictly increasing version order.
pub open spec fn strictly_sorted(c: VersionComparator, s: Seq<ChangelogView>) -> bool {
    forall|i: int, j: int|
        0 <= i < j < s.len() ==> #[trigger] c.relation(s[i].version, s[j].version) is Less
}

/// The entry of version `v` that a search of the effective changelog finds.
pub open spec fn lookup_log(c: VersionComparator, s: Seq<ChangelogView>, v: Seq<char>) -> Option<ChangelogView> {
    match find_log(c, s, v) {
        Some(i) => Some(s[i]),
        None => None,
    }
}

/// The last row of version `v` among the rows.
pub open spec fn last_row(c: VersionComparator, rows: Seq<ChangelogView>, v: Seq<char>) -> Option<ChangelogView>
    decreases rows.len(),
{
    if rows.len() == 0 {
        None
    } else if c.relation(rows.last().version, v) is Equal {
        Some(rows.last())
    } else {
        last_row(c, rows.drop_last(), v)
    }
}

/// The effective state of version `v` after the rows: its last row, unless
/// that row has no checksum (a revert).
pub open spec fn effective_row(c: VersionComparator, rows: Seq<ChangelogView>, v: Seq<char>) -> Option<ChangelogView> {
    match last_row(c, rows, v) {
        Some(r) => if r.checksum is Some {
            Some(r)
        } else {
            None
        },
        None => None,
    }
}

/// What a search of an ordered changelog finds.
pub proof fn lemma_find_sorted(c: VersionComparator, s: Seq<ChangelogView>, v: Seq<char>)
    requires
        c.is_total_preorder(),
        strictly_sorted(c, s),
    ensures
        forall|j: int|
            0 <= j < s.len() && #[trigger] c.relation(s[j].version, v) is Equal ==> lookup_log(
                c,
                s,
                v,
            ) == Some(s[j]),
        lookup_log(c, s, v) is None ==> forall|j: int|
            0 <= j < s.len() ==> !(#[trigger] c.relation(s[j].version, v) is Equal),
        lookup_log(c, s, v) matches Some(x) ==> c.relation(x.version, v) is Equal,
        (forall|j: int| 0 <= j < s.len() ==> !(#[trigger] c.relation(s[j].version, v) is Equal))
            ==> lookup_log(c, s, v) is None,
{
    lemma_log_index_bounds(c, s, v, 0);
    if find_log(c, s, v) is Some {
        let i = find_log(c, s, v)->0;
        assert(c.relation(s[i].version, v) is Equal);
    }
    let k = log_index(c, s, v, 0);
    assert forall|j: int| 0 <= j < s.len() && #[trigger] c.relation(s[j].version, v) is Equal implies lookup_log(c, s, v) == Some(s[j]) by {
        if j < k {
        } else if j > k {
            // s[k] is not before v, and s[k] is before s[j], which equals v.
            assert(c.relation(s[k].version, s[j].version) is Less);
            lemma_relation_equal_subst(c, s[j].version, v, s[k].version);
            assert(c.relation(s[k].version, v) is Less);
        } else {
        }
    }
    if k < s.len() && !(c.relation(s[k].version, v) is Equal) {
        assert forall|j: int| 0 <= j < s.len() implies !(#[trigger] c.relation(s[j].version, v) is Equal) by {
            if j > k {
                assert(c.relation(s[k].version, s[j].version) is Less);
                lemma_relation_flip(c, s[k].version, v);
                lemma_relation_less_trans(c, v, s[k].version, s[j].version);
                lemma_relation_flip(c, v, s[j].version);
            }
        }
    }
}

/// One row keeps an effective changelog in strict version order.
pub proof fn lemma_agg_update_sorted(c: VersionComparator, s: Seq<ChangelogView>, log: ChangelogView)
    requires
        c.is_total_preorder(),
        strictly_sorted(c, s),
    ensures
        strictly_sorted(c, agg_update(c, s, log)),
{
    lemma_log_index_bounds(c, s, log.version, 0);
    let k = log_index(c, s, log.version, 0);
    let r = agg_update(c, s, log);
    assert forall|i: int, j: int| 0 <= i < j < r.len() implies #[trigger] c.relation(r[i].version, r[j].version) is Less by {
        match find_log(c, s, log.version) {
            Some(m) => if log.checksum is Some {
                if i == m {
                    lemma_relation_equal_subst(c, s[m].version, log.version, s[j].version);
                } else if j == m {
                    lemma_relation_equal_subst(c, s[m].version, log.version, s[i].version);
                }
            } else {
                if i < m {
                    if j >= m {
                        assert(r[j] == s[j + 1]);
                    }
                } else {
                    assert(r[i] == s[i + 1]);
                    assert(r[j] == s[j + 1]);
                }
            },
            None => if log.checksum is Some {
                if i < k && j < k {
                } else if i < k && j == k {
                } else if i < k && j > k {
                    assert(r[j] == s[j - 1]);
                } else if i == k {
                    assert(r[j] == s[j - 1]);
                    lemma_relation_flip(c, s[k].version, log.version);
                    if j - 1 > k {
                        assert(c.relation(s[k].version, s[j - 1].version) is Less);
                        lemma_relation_less_trans(c, log.version, s[k].version, s[j - 1].version);
                    }
                } else {
                    assert(r[i] == s[i - 1]);
                    assert(r[j] == s[j - 1]);
                }
            },
        }
    }
}

proof fn lemma_lookup_update(c: VersionComparator, s: Seq<ChangelogView>, m: int, log: ChangelogView, v: Seq<char>)
    requires
        c.is_total_preorder(),
        strictly_sorted(c, s),
        strictly_sorted(c, s.update(m, log)),
        0 <= m < s.len(),
        c.relation(s[m].version, log.version) is Equal,
    ensures
        lookup_log(c, s.update(m, log), v) == if c.relation(log.version, v) is Equal {
            Some(log)
        } else {
            lookup_log(c, s, v)
        },
{
    let r = s.update(m, log);
    lemma_find_sorted(c, s, v);
    lemma_find_sorted(c, r, v);
    lemma_relation_equal_subst(c, s[m].version, log.version, v);
    lemma_relation_flip(c, log.version, v);
    lemma_relation_flip(c, s[m].version, v);
    if c.relation(log.version, v) is Equal {
        assert(r[m] == log);
        assert(c.relation(r[m].version, v) is Equal);
        assert(lookup_log(c, r, v) == Some(r[m]));
    } else {
        match lookup_log(c, s, v) {
            Some(x) => {
                lemma_log_index_bounds(c, s, v, 0);
                let j = find_log(c, s, v)->0;
                assert(r[j] == s[j]);
                assert(c.relation(r[j].version, v) is Equal);
                assert(lookup_log(c, r, v) == Some(r[j]));
                assert(lookup_log(c, s, v) == Some(s[j]));
            },
            None => {
                assert forall|j: int| 0 <= j < r.len() implies !(#[trigger] c.relation(r[j].version, v) is Equal) by {
                    if j != m {
                        assert(r[j] == s[j]);
                    }
                }
                assert(lookup_log(c, r, v) is None);
            },
        }
    }
}

proof fn lemma_lookup_remove(c: VersionComparator, s: Seq<ChangelogView>, m: int, v: Seq<char>)
    requires
        c.is_total_preorder(),
        strictly_sorted(c, s),
        strictly_sorted(c, s.remove(m)),
        0 <= m < s.len(),
    ensures
        lookup_log(c, s.remove(m), v) == if c.relation(s[m].version, v) is Equal {
            None
        } else {
            lookup_log(c, s, v)
        },
{
    let r = s.remove(m);
    lemma_find_sorted(c, s, v);
    lemma_find_sorted(c, r, v);
    if c.relation(s[m].version, v) is Equal {
        assert forall|j: int| 0 <= j < r.len() implies !(#[trigger] c.relation(r[j].version, v) is Equal) by {
            let jj = if j < m { j } else { j + 1 };
            assert(r[j] == s[jj]);
            if c.relation(s[jj].version, v) is Equal {
                assert(lookup_log(c, s, v) == Some(s[jj]));
                assert(lookup_log(c, s, v) == Some(s[m]));
                if jj < m {
                    assert(c.relation(s[jj].version, s[m].version) is Less);
                } else {
                    assert(c.relation(s[m].version, s[jj].version) is Less);
                }
                lemma_relation_equal_subst(c, s[m].version, v, s[jj].version);
                lemma_relation_flip(c, v, s[jj].version);
                lemma_relation_flip(c, s[m].version, s[jj].version);
            }
        }
    } else {
        match lookup_log(c, s, v) {
            Some(x) => {
                lemma_log_index_bounds(c, s, v, 0);
                let j = find_log(c, s, v)->0;
                assert(j != m);
                if j < m {
                    assert(r[j] == s[j]);
                    assert(c.relation(r[j].version, v) is Equal);
                } else {
                    assert(r[j - 1] == s[j]);
                    assert(c.relation(r[j - 1].version, v) is Equal);
                }
            },
            None => {
                assert forall|j: int| 0 <= j < r.len() implies !(#[trigger] c.relation(r[j].version, v) is Equal) by {
                    if j < m {
                        assert(r[j] == s[j]);
                    } else {
                        assert(r[j] == s[j + 1]);
                    }
                }
            },
        }
    }
}

proof fn lemma_lookup_insert(c: VersionComparator, s: Seq<ChangelogView>, k: int, log: ChangelogView, v: Seq<char>)
    requires
        c.is_total_preorder(),
        strictly_sorted(c, s),
        strictly_sorted(c, s.insert(k, log)),
        0 <= k <= s.len(),
        lookup_log(c, s, log.version) is None,
    ensures
        lookup_log(c, s.insert(k, log), v) == if c.relation(log.version, v) is Equal {
            Some(log)
        } else {
            lookup_log(c, s, v)
        },
{
    let r = s.insert(k, log);
    lemma_find_sorted(c, s, v);
    lemma_find_sorted(c, r, v);
    lemma_find_sorted(c, s, log.version);
    if c.relation(log.version, v) is Equal {
        assert(r[k] == log);
        assert(c.relation(r[k].version, v) is Equal);
    } else {
        lemma_relation_flip(c, log.version, v);
        match lookup_log(c, s, v) {
            Some(x) => {
                lemma_log_index_bounds(c, s, v, 0);
                let j = find_log(c, s, v)->0;
                if j < k {
                    assert(r[j] == s[j]);
                    assert(c.relation(r[j].version, v) is Equal);
                } else {
                    assert(r[j + 1] == s[j]);
                    assert(c.relation(r[j + 1].version, v) is Equal);
                }
            },
            None => {
                assert forall|j: int| 0 <= j < r.len() implies !(#[trigger] c.relation(r[j].version, v) is Equal) by {
                    if j < k {
                        assert(r[j] == s[j]);
                    } else if j > k {
                        assert(r[j] == s[j - 1]);
                    }
                }
            },
        }
    }
}

proof fn lemma_agg_update(c: VersionComparator, s: Seq<ChangelogView>, log: ChangelogView, v: Seq<char>)
    requires
        c.is_total_preorder(),
        strictly_sorted(c, s),
    ensures
        strictly_sorted(c, agg_update(c, s, log)),
        lookup_log(c, agg_update(c, s, log), v) == if c.relation(log.version, v) is Equal {
            if log.checksum is Some {
                Some(log)
            } else {
                None
            }
        } else {
            lookup_log(c, s, v)
        },
{
    lemma_agg_update_sorted(c, s, log);
    lemma_log_index_bounds(c, s, log.version, 0);
    lemma_log_index_bounds(c, s, v, 0);
    let k = log_index(c, s, log.version, 0);
    match find_log(c, s, log.version) {
        Some(m) => {
            if log.checksum is Some {
                lemma_lookup_update(c, s, m, log, v);
            } else {
                lemma_lookup_remove(c, s, m, v);
                lemma_relation_equal_subst(c, s[m].version, log.version, v);
            }
        },
        None => {
            if log.checksum is Some {
                lemma_lookup_insert(c, s, k, log, v);
            } else {
                lemma_find_sorted(c, s, v);
                lemma_find_sorted(c, s, log.version);
                if c.relation(log.version, v) is Equal {
                    if lookup_log(c, s, v) is Some {
                        let j = find_log(c, s, v)->0;
                        lemma_relation_equal_subst(c, log.version, v, s[j].version);
                        lemma_relation_flip(c, s[j].version, log.version);
                        lemma_relation_flip(c, s[j].version, v);
                        lemma_relation_flip(c, log.version, v);
                    }
                }
            }
        },
    }
}

/// The effective changelog: with a comparator that is a total preorder, the
/// consolidated changelog is in strictly increasing version order, and the
/// entry it holds for any version is the last row of that version, unless
/// that row has no checksum, in which case it holds none.
pub proof fn consolidated_changelog_is_effective_state(
    c: VersionComparator,
    rows: Seq<ChangelogView>,
    v: Seq<char>,
)
    requires
        c.is_total_preorder(),
    ensures
        strictly_sorted(c, consolidate(c, rows)),
        lookup_log(c, consolidate(c, rows), v) == effective_row(c, rows, v),
    decreases rows.len(),
{
    if rows.len() > 0 {
        consolidated_changelog_is_effective_state(c, rows.drop_last(), v);
        lemma_agg_update(c, consolidate(c, rows.drop_last()), rows.last(), v);
    }
}

/// Each recipe is placed not after the next one, by version and kind.
pub open spec fn recipes_sorted(c: VersionComparator, s: Seq<RecipeScriptView>) -> bool {
    forall|i: int, j: int| 0 <= i < j < s.len() ==> (#[trigger] recipe_order(c, s[i], s[j])).is_le()
}

proof fn lemma_recipe_order_flip(c: VersionComparator, a: RecipeScriptView, b: RecipeScriptView)
    requires
        c.is_total_preorder(),
    ensures
        recipe_order(c, a, b) == recipe_order(c, b, a).flip(),
{
    lemma_relation_flip(c, a.version, b.version);
}

proof fn lemma_recipe_order_trans(
    c: VersionComparator,
    a: RecipeScriptView,
    b: RecipeScriptView,
    x: RecipeScriptView,
)
    requires
        c.is_total_preorder(),
        recipe_order(c, a, b).is_le(),
        recipe_order(c, b, x).is_le(),
    ensures
        recipe_order(c, a, x).is_le(),
{
    let ab = c.relation(a.version, b.version);
    let bx = c.relation(b.version, x.version);
    if ab is Less || bx is Less {
        lemma_relation_less_trans(c, a.version, b.version, x.version);
    } else {
        lemma_relation_equal_subst(c, a.version, b.version, x.version);
        assert(kind_rank(a.kind()) <= kind_rank(b.kind()) <= kind_rank(x.kind()));
    }
}

proof fn lemma_insert_pos_props(c: VersionComparator, s: Seq<RecipeScriptView>, x: RecipeScriptView)
    ensures
        forall|i: int|
            insert_pos(c, s, x) <= i < s.len() ==> #[trigger] recipe_order(c, s[i], x) is Greater,
        insert_pos(c, s, x) > 0 ==> !(recipe_order(c, s[insert_pos(c, s, x) - 1], x) is Greater),
    decreases s.len(),
{
    lemma_insert_pos_bounds(c, s, x);
    if s.len() > 0 && recipe_order(c, s.last(), x) is Greater {
        lemma_insert_pos_props(c, s.drop_last(), x);
        lemma_insert_pos_bounds(c, s.drop_last(), x);
        let p = insert_pos(c, s, x);
        assert forall|i: int| p <= i < s.len() implies #[trigger] recipe_order(c, s[i], x) is Greater by {
            if i < s.len() - 1 {
                assert(s[i] == s.drop_last()[i]);
            }
        }
        if p > 0 {
            assert(s[p - 1] == s.drop_last()[p - 1]);
        }
    }
}

proof fn lemma_insert_sorted(c: VersionComparator, s: Seq<RecipeScriptView>, x: RecipeScriptView)
    requires
        c.is_total_preorder(),
        recipes_sorted(c, s),
    ensures
        recipes_sorted(c, insert_sorted(c, s, x)),
        insert_sorted(c, s, x).to_multiset() == s.to_multiset().insert(x),
{
    lemma_insert_pos_bounds(c, s, x);
    lemma_insert_pos_props(c, s, x);
    let p = insert_pos(c, s, x);
    let r = insert_sorted(c, s, x);
    assert(r =~= s.insert(p, x));
    vstd::seq_lib::to_multiset_insert(s, p, x);
    assert forall|i: int, j: int| 0 <= i < j < r.len() implies (#[trigger] recipe_order(c, r[i], r[j])).is_le() by {
        if j < p {
        } else if j == p {
            // r[i] = s[i] is not after s[p - 1], which is not after x
            lemma_recipe_order_flip(c, s[p - 1], x);
            if i < p - 1 {
                assert(recipe_order(c, s[i], s[p - 1]).is_le());
                lemma_recipe_order_trans(c, s[i], s[p - 1], x);
            }
        } else if i == p {
            assert(r[j] == s[j - 1]);
            assert(recipe_order(c, s[j - 1], x) is Greater);
            lemma_recipe_order_flip(c, s[j - 1], x);
        } else if i < p {
            assert(r[j] == s[j - 1]);
        } else {
            assert(r[i] == s[i - 1]);
            assert(r[j] == s[j - 1]);
        }
    }
}

/// Ordering recipes keeps the same recipes and, with a comparator that is a
/// total preorder, places each recipe not after the next one by version, then
/// by kind (baseline, upgrade, revert, fixup).
pub proof fn ordered_recipes_are_sorted_permutation(c: VersionComparator, s: Seq<RecipeScriptView>)
    ensures
        sort_recipes(c, s).to_multiset() == s.to_multiset(),
        c.is_total_preorder() ==> recipes_sorted(c, sort_recipes(c, s)),
    decreases s.len(),
{
    broadcast use vstd::seq_lib::group_to_multiset_ensures;

    if s.len() > 0 {
        ordered_recipes_are_sorted_permutation(c, s.drop_last());
        let t = sort_recipes(c, s.drop_last());
        lemma_insert_pos_bounds(c, t, s.last());
        let p = insert_pos(c, t, s.last());
        assert(insert_sorted(c, t, s.last()) =~= t.insert(p, s.last()));
        vstd::seq_lib::to_multiset_insert(t, p, s.last());
        assert(s =~= s.drop_last().push(s.last()));
        if c.is_total_preorder() {
            lemma_insert_sorted(c, t, s.last());
        }
    } else {
        assert(sort_recipes(c, s) =~= s);
    }
}

/// Metadata comes from the first comment lines only: the lines from the
/// first line that is not a comment on never change it.
pub proof fn metadata_ends_at_first_non_comment(ls: Seq<Seq<char>>, k: int, entries: Entries)
    requires
        0 <= k < ls.len(),
        !is_comment(ls[k]),
    ensures
        metadata_of_lines(ls, entries) == metadata_of_lines(ls.take(k), entries),
    decreases k,
{
    if k > 0 && is_comment(ls[0]) {
        let rest = ls.drop_first();
        metadata_ends_at_first_non_comment(
            rest,
            k - 1,
            apply_comment(entries, ls[0]),
        );
        assert(ls.take(k).drop_first() =~= rest.take(k - 1));
        assert(ls.take(k)[0] == ls[0]);
    } else if k == 0 {
        assert(ls.take(0).len() == 0);
    }
}

proof fn lemma_key_index_first(entries: Entries, key: Seq<char>, i: int)
    requires
        0 <= i <= entries.len(),
    ensures
        i <= key_index(entries, key, i) <= entries.len(),
        key_index(entries, key, i) < entries.len() ==> entries[key_index(entries, key, i)].0 == key,
        forall|j: int| i <= j < key_index(entries, key, i) ==> entries[j].0 != key,
    decreases entries.len() - i,
{
    if i < entries.len() && entries[i].0 != key {
        lemma_key_index_first(entries, key, i + 1);
    }
}

proof fn lemma_key_index_unique(entries: Entries, key: Seq<char>, j: int)
    requires
        0 <= j < entries.len(),
        entries[j].0 == key,
        forall|i: int| 0 <= i < j ==> entries[i].0 != key,
    ensures
        key_index(entries, key, 0) == j,
{
    lemma_key_index_first(entries, key, 0);
    let k = key_index(entries, key, 0);
    if k < j {
    } else if k > j {
    }
}

/// Setting a metadata key: reading that key gives the value set, reading any
/// other key gives what it gave before.
pub proof fn metadata_insert_then_lookup(entries: Entries, key: Seq<char>, value: Seq<char>, other: Seq<char>)
    ensures
        lookup(assoc_insert(entries, key, value), key) == Some(value),
        other != key ==> lookup(assoc_insert(entries, key, value), other) == lookup(entries, other),
{
    lemma_key_index_first(entries, key, 0);
    lemma_key_index_first(entries, other, 0);
    let k = key_index(entries, key, 0);
    let r = assoc_insert(entries, key, value);
    if k < entries.len() {
        lemma_key_index_unique(r, key, k);
    } else {
        lemma_key_index_unique(r, key, k);
    }
    if other != key {
        lemma_key_index_first(r, other, 0);
        let o = key_index(entries, other, 0);
        if o < entries.len() {
            lemma_key_index_unique(r, other, o);
        } else {
            let ro = key_index(r, other, 0);
            if ro < r.len() {
                assert(r[ro] == entries[ro] || ro == k);
            }
        }
    }
}

/// A revert or fixup may name the entry it fixes by the entry's whole
/// checksum or by the first 8 bytes of it.
pub proof fn fix_names_entry_by_whole_or_short_checksum(checksum: Seq<char>)
    requires
        has_prefix8(checksum),
    ensures
        checksum_matches(checksum, checksum),
        checksum_matches(checksum, prefix8(checksum)),
{
    let bytes = vstd::utf8::encode_utf8(checksum);
    vstd::utf8::encode_utf8_valid_utf8(checksum);
    vstd::utf8::encode_utf8_decode_utf8(checksum);
    assert(bytes.len() >= 8) by {
        if bytes.len() < 8 {
            assert(!vstd::utf8::is_char_boundary(bytes, 8));
        }
    }
    assert(checksum.take(checksum.len() as int) =~= checksum);
    assert(is_prefix(checksum, checksum));
    vstd::utf8::valid_utf8_split(bytes, 8);
    vstd::utf8::decode_utf8_split(bytes, 8);
    let head = bytes.subrange(0, 8);
    let rest = vstd::utf8::decode_utf8(bytes.subrange(8, bytes.len() as int));
    assert(bytes.take(8) =~= head);
    vstd::utf8::decode_utf8_encode_utf8(head);
    let p = prefix8(checksum);
    assert(checksum == p + rest);
    assert(checksum.take(p.len() as int) =~= p);
}

/// Each key occurs at most once.
pub open spec fn keys_unique(entries: Entries) -> bool {
    forall|i: int, j: int| 0 <= i < j < entries.len() ==> #[trigger] entries[i].0 != #[trigger] entries[j].0
}

/// Setting a metadata key keeps each key at most once.
pub proof fn metadata_insert_keeps_keys_unique(entries: Entries, key: Seq<char>, value: Seq<char>)
    requires
        keys_unique(entries),
    ensures
        keys_unique(assoc_insert(entries, key, value)),
{
    lemma_key_index_first(entries, key, 0);
}

proof fn lemma_lines_keep_keys_unique(ls: Seq<Seq<char>>, entries: Entries)
    requires
        keys_unique(entries),
    ensures
        keys_unique(metadata_of_lines(ls, entries)),
    decreases ls.len(),
{
    if ls.len() > 0 && is_comment(ls[0]) {
        let rest = ls[0].skip(2);
        let k = crate::text::next_index_of(rest, ':', 0);
        if k < rest.len() {
            metadata_insert_keeps_keys_unique(
                entries,
                crate::text::trim(rest.take(k)),
                crate::text::trim(rest.skip(k + 1)),
            );
        }
        lemma_lines_keep_keys_unique(ls.drop_first(), apply_comment(entries, ls[0]));
    }
}

/// The metadata of a script is a map: each key occurs at most once.
pub proof fn script_metadata_is_a_map(sql: Seq<char>)
    ensures
        keys_unique(script_metadata(sql)),
{
    lemma_lines_keep_keys_unique(lines(sql), Seq::empty());
}

/// A baseline or an upgrade.
pub open spec fn is_unique_kind(k: RecipeKind) -> bool {
    k == RecipeKind::Baseline || k == RecipeKind::Upgrade
}

/// The slot of the chunk scan that remembers recipes of kind `k`.
pub open spec fn slot_of(k: RecipeKind, baseline: Option<int>, upgrade: Option<int>) -> Option<int> {
    if k == RecipeKind::Baseline {
        baseline
    } else {
        upgrade
    }
}

proof fn lemma_first_pass_remembered(
    s: Seq<RecipeScriptView>,
    p: int,
    e: int,
    baseline: Option<int>,
    upgrade: Option<int>,
    k: RecipeKind,
    j: int,
)
    requires
        0 <= p <= j < e <= s.len(),
        is_unique_kind(k),
        s[j].kind() == k,
        slot_of(k, baseline, upgrade) is Some,
    ensures
        first_pass(s, p, e, baseline, upgrade) is Err,
    decreases j - p,
{
    if p < j {
        let item = s[p];
        if item.kind() == RecipeKind::Baseline {
            if baseline is None {
                lemma_first_pass_remembered(s, p + 1, e, Some(p), upgrade, k, j);
            }
        } else if item.kind() == RecipeKind::Upgrade {
            if upgrade is None {
                lemma_first_pass_remembered(s, p + 1, e, baseline, Some(p), k, j);
            }
        } else {
            lemma_first_pass_remembered(s, p + 1, e, baseline, upgrade, k, j);
        }
    }
}

proof fn lemma_first_pass_repeat(
    s: Seq<RecipeScriptView>,
    p: int,
    e: int,
    baseline: Option<int>,
    upgrade: Option<int>,
    i: int,
    j: int,
)
    requires
        0 <= p <= i < j < e <= s.len(),
        is_unique_kind(s[i].kind()),
        s[i].kind() == s[j].kind(),
    ensures
        first_pass(s, p, e, baseline, upgrade) is Err,
    decreases i - p,
{
    let k = s[i].kind();
    let item = s[p];
    if p == i {
        if k == RecipeKind::Baseline {
            if baseline is None {
                lemma_first_pass_remembered(s, p + 1, e, Some(p), upgrade, k, j);
            }
        } else {
            if upgrade is None {
                lemma_first_pass_remembered(s, p + 1, e, baseline, Some(p), k, j);
            }
        }
    } else if item.kind() == RecipeKind::Baseline {
        if baseline is None {
            lemma_first_pass_repeat(s, p + 1, e, Some(p), upgrade, i, j);
        }
    } else if item.kind() == RecipeKind::Upgrade {
        if upgrade is None {
            lemma_first_pass_repeat(s, p + 1, e, baseline, Some(p), i, j);
        }
    } else {
        lemma_first_pass_repeat(s, p + 1, e, baseline, upgrade, i, j);
    }
}

proof fn lemma_chunk_end_differs(s: Seq<RecipeScriptView>, p: int)
    requires
        0 <= p < s.len(),
        chunk_end(s, p) < s.len(),
    ensures
        s[chunk_end(s, p)].version != s[chunk_end(s, p) - 1].version,
    decreases s.len() - p,
{
    if p + 1 < s.len() && s[p + 1].version == s[p].version {
        lemma_chunk_end_differs(s, p + 1);
    }
}

proof fn lemma_no_repeat_in_chunks(s: Seq<RecipeScriptView>, p: int, i: int, j: int)
    requires
        0 <= p <= i < j < s.len(),
        check_chunks(s, p) is None,
        forall|k: int| i <= k <= j ==> (#[trigger] s[k]).version == s[i].version,
        is_unique_kind(s[i].kind()),
    ensures
        s[i].kind() != s[j].kind(),
    decreases s.len() - p,
{
    lemma_chunk_end_bounds(s, p);
    let e = chunk_end(s, p);
    if s[i].kind() == s[j].kind() {
        if j < e {
            lemma_first_pass_repeat(s, p, e, None, None, i, j);
        } else if i >= e {
            lemma_no_repeat_in_chunks(s, e, i, j);
        } else {
            lemma_chunk_end_differs(s, p);
            assert(s[e].version == s[i].version);
            assert(s[e - 1].version == s[i].version);
        }
    }
}

/// A recipe collection that is in order and passes the ordering check has at
/// most one baseline and at most one upgrade recipe of each version, when the
/// comparator calls two versions equal only when they are the same string
/// (as `simple_compare` does).
pub proof fn checked_recipes_have_unique_versions(
    c: VersionComparator,
    s: Seq<RecipeScriptView>,
    i: int,
    j: int,
)
    requires
        c.is_total_preorder(),
        forall|a: Seq<char>, b: Seq<char>| #[trigger] c.relation(a, b) is Equal ==> a == b,
        recipes_sorted(c, s),
        check_ordered(c, s) is None,
        0 <= i < j < s.len(),
        s[i].version == s[j].version,
        is_unique_kind(s[i].kind()),
    ensures
        s[i].kind() != s[j].kind(),
{
    assert forall|k: int| i <= k <= j implies (#[trigger] s[k]).version == s[i].version by {
        if i < k < j {
            let a = s[i].version;
            let b = s[k].version;
            assert(recipe_order(c, s[i], s[k]).is_le());
            assert(recipe_order(c, s[k], s[j]).is_le());
            assert(c.relation(a, b).is_le());
            assert(c.relation(b, a).is_le());
            lemma_relation_flip(c, a, b);
        }
    }
    lemma_no_repeat_in_chunks(s, 0, i, j);
}

/// One changelog row applied to an effective changelog in strict version
/// order, every entry checksummed: the result stays in strict version order
/// with every entry checksummed; the row's version then holds the row when it
/// has a checksum and nothing when it has none; every other version keeps its
/// entry.
pub proof fn effective_changelog_step(
    c: VersionComparator,
    s: Seq<ChangelogView>,
    log: ChangelogView,
    v: Seq<char>,
)
    requires
        c.is_total_preorder(),
        strictly_sorted(c, s),
        all_checksummed(s),
    ensures
        strictly_sorted(c, agg_update(c, s, log)),
        all_checksummed(agg_update(c, s, log)),
        lookup_log(c, agg_update(c, s, log), v) == if c.relation(log.version, v) is Equal {
            if log.checksum is Some {
                Some(log)
            } else {
                None
            }
        } else {
            lookup_log(c, s, v)
        },
{
    lemma_agg_update(c, s, log, v);
    lemma_agg_update_checksummed(c, s, log);
}

/// The entry an ordered changelog holds for a version is not after its last
/// entry, nor is the version.
pub proof fn lemma_lookup_not_after_last(c: VersionComparator, s: Seq<ChangelogView>, v: Seq<char>)
    requires
        c.is_total_preorder(),
        strictly_sorted(c, s),
        lookup_log(c, s, v) is Some,
    ensures
        s.len() > 0,
        c.relation(v, s.last().version).is_le(),
{
    lemma_log_index_bounds(c, s, v, 0);
    let i = find_log(c, s, v)->0;
    let last = s.len() - 1;
    if i < last {
        assert(c.relation(s[i].version, s[last].version) is Less);
    }
    lemma_relation_equal_subst(c, s[i].version, v, s[last].version);
}

/// Ordering recipes that are already in order changes nothing.
pub proof fn ordering_ordered_recipes_changes_nothing(c: VersionComparator, s: Seq<RecipeScriptView>)
    requires
        recipes_sorted(c, s),
    ensures
        sort_recipes(c, s) == s,
    decreases s.len(),
{
    if s.len() > 0 {
        let t = s.drop_last();
        assert(recipes_sorted(c, t)) by {
            assert forall|i: int, j: int| 0 <= i < j < t.len() implies (#[trigger] recipe_order(
                c,
                t[i],
                t[j],
            )).is_le() by {
                assert(t[i] == s[i] && t[j] == s[j]);
            }
        }
        ordering_ordered_recipes_changes_nothing(c, t);
        if t.len() > 0 {
            assert(recipe_order(c, s[t.len() - 1], s[s.len() - 1]).is_le());
        }
        assert(insert_pos(c, t, s.last()) == t.len());
        assert(t.take(t.len() as int).push(s.last()) + t.skip(t.len() as int) =~= s);
    }
}

/// Ordering recipes twice orders them as once, when versions are ordered by
/// a total preorder.
pub proof fn ordering_is_idempotent(c: VersionComparator, s: Seq<RecipeScriptView>)
    requires
        c.is_total_preorder(),
    ensures
        sort_recipes(c, sort_recipes(c, s)) == sort_recipes(c, s),
{
    ordered_recipes_are_sorted_permutation(c, s);
    ordering_ordered_recipes_changes_nothing(c, sort_recipes(c, s));
}

proof fn lemma_check_targets_all(c: VersionComparator, s: Seq<RecipeScriptView>, i: int, j: int)
    requires
        0 <= i <= j < s.len(),
        check_targets(c, s, i) is None,
        s[j].new_target() is Some,
    ensures
        target_known(c, s, s[j].new_target()->0),
    decreases j - i,
{
    if i < j {
        lemma_check_targets_all(c, s, i + 1, j);
    }
}

/// Every fixup of a recipe collection that passes the ordering check names
/// an existing upgrade recipe as its target: one whose version compares
/// equal to the target version, with the target name and checksum.
pub proof fn checked_fixup_targets_exist(c: VersionComparator, s: Seq<RecipeScriptView>, j: int)
    requires
        check_ordered(c, s) is None,
        0 <= j < s.len(),
        s[j].new_target() is Some,
    ensures
        exists|k: int|
            0 <= k < s.len() && (#[trigger] s[k]).kind() == RecipeKind::Upgrade && c.relation(
                s[k].version,
                (s[j].new_target()->0).0,
            ) is Equal && s[k].name == (s[j].new_target()->0).1 && s[k].checksum == (s[j].new_target()->0).2,
{
    lemma_check_targets_all(c, s, 0, j);
    let t = s[j].new_target()->0;
    let k = find_upgrade(c, s, t.0)->0;
    assert(key_order(c, s[k], t.0, RecipeKind::Upgrade) is Equal);
    assert(kind_rank(s[k].kind()) == kind_rank(RecipeKind::Upgrade));
    assert(s[k].kind() == RecipeKind::Upgrade);
}

/// A revert or fixup recipe made from a script without `maximum_version`
/// metadata applies to databases up to its own version (the `version` of the
/// metadata when given, else the version it was made with), whatever new
/// version a fixup names; with the metadata, up to the version it gives.
pub proof fn fix_maximum_version_defaults_to_own_version(
    version: Seq<char>,
    name: Seq<char>,
    sql: Seq<char>,
    default_kind: Option<RecipeKind>,
)
    requires
        recipe_from_script(version, name, sql, default_kind) is Ok,
        recipe_from_script(version, name, sql, default_kind)->Ok_0.kind() == RecipeKind::Revert
            || recipe_from_script(version, name, sql, default_kind)->Ok_0.kind() == RecipeKind::Fixup,
    ensures
        ({
            let r = recipe_from_script(version, name, sql, default_kind)->Ok_0;
            let m = script_metadata(sql);
            &&& r.version == match lookup(m, "version"@) {
                Some(v) => v,
                None => version,
            }
            &&& r.maximum_version() == Some(
                match lookup(m, "maximum_version"@) {
                    Some(v) => v,
                    None => r.version,
                },
            )
        }),
{
}

} // verus!
