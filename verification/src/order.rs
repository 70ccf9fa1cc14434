//! Ordering of the recipe collection by version and kind, and its checks.

use vstd::prelude::*;
use crate::recipe::{
    checksum_matches, kind_rank, RecipeError, RecipeErrorView, RecipeKind, RecipeScript,
    RecipeScriptView,
};
use crate::text::same_text;
use crate::laws::checked_fixup_targets_exist;
use crate::version::{Comparison, VersionComparator};

verus! {

/// The views of a sequence of recipes.
pub open spec fn views(s: Seq<RecipeScript>) -> Seq<RecipeScriptView> {
    s.map_values(|r: RecipeScript| r@)
}

/// Compares two kind positions.
pub open spec fn rank_order(a: int, b: int) -> Comparison {
    if a < b {
        Comparison::Less
    } else if a == b {
        Comparison::Equal
    } else {
        Comparison::Greater
    }
}

/// How a recipe is placed against a version and kind: by version first, then
/// by kind in the order baseline, upgrade, revert, fixup.
pub open spec fn key_order(
    c: VersionComparator,
    item: RecipeScriptView,
    version: Seq<char>,
    kind: RecipeKind,
) -> Comparison {
    let o = c.relation(item.version, version);
    if o is Equal {
        rank_order(kind_rank(item.kind()), kind_rank(kind))
    } else {
        o
    }
}

/// How recipe `a` is placed against recipe `b`.
pub open spec fn recipe_order(c: VersionComparator, a: RecipeScriptView, b: RecipeScriptView) -> Comparison {
    key_order(c, a, b.version, b.kind())
}

/// Where a stable insertion puts `x` into `s`: after the last element that is
/// not placed after `x`.
pub open spec fn insert_pos(c: VersionComparator, s: Seq<RecipeScriptView>, x: RecipeScriptView) -> int
    decreases s.len(),
{
    if s.len() == 0 {
        0
    } else if recipe_order(c, s.last(), x) is Greater {
        insert_pos(c, s.drop_last(), x)
    } else {
        s.len() as int
    }
}

/// `s` with `x` inserted at `insert_pos`.
pub open spec fn insert_sorted(c: VersionComparator, s: Seq<RecipeScriptView>, x: RecipeScriptView) -> Seq<RecipeScriptView> {
    let p = insert_pos(c, s, x);
    s.take(p).push(x) + s.skip(p)
}

/// The stable insertion sort of the recipes by `recipe_order`.
pub open spec fn sort_recipes(c: VersionComparator, s: Seq<RecipeScriptView>) -> Seq<RecipeScriptView>
    decreases s.len(),
{
    if s.len() == 0 {
        Seq::empty()
    } else {
        insert_sorted(c, sort_recipes(c, s.drop_last()), s.last())
    }
}

/// The insertion position lies within the sequence.
pub proof fn lemma_insert_pos_bounds(c: VersionComparator, s: Seq<RecipeScriptView>, x: RecipeScriptView)
    ensures
        0 <= insert_pos(c, s, x) <= s.len(),
    decreases s.len(),
{
    if s.len() > 0 {
        lemma_insert_pos_bounds(c, s.drop_last(), x);
    }
}

/// Sorting keeps the number of recipes.
pub proof fn lemma_sort_len(c: VersionComparator, s: Seq<RecipeScriptView>)
    ensures
        sort_recipes(c, s).len() == s.len(),
    decreases s.len(),
{
    if s.len() > 0 {
        lemma_sort_len(c, s.drop_last());
        lemma_insert_pos_bounds(c, sort_recipes(c, s.drop_last()), s.last());
    }
}

/// The end of the run of recipes from `i` on whose versions are the same
/// string as their predecessor's.
pub open spec fn chunk_end(s: Seq<RecipeScriptView>, i: int) -> int
    decreases s.len() - i,
{
    if i + 1 >= s.len() {
        s.len() as int
    } else if s[i + 1].version == s[i].version {
        chunk_end(s, i + 1)
    } else {
        i + 1
    }
}

/// The end of a run of equal versions lies within the sequence.
pub proof fn lemma_chunk_end_bounds(s: Seq<RecipeScriptView>, i: int)
    requires
        0 <= i < s.len(),
    ensures
        i < chunk_end(s, i) <= s.len(),
    decreases s.len() - i,
{
    if i + 1 < s.len() && s[i + 1].version == s[i].version {
        lemma_chunk_end_bounds(s, i + 1);
    }
}

/// Within a chunk `[i, e)`: the index of its baseline and of its upgrade, or
/// the error for a second baseline or a second upgrade.
pub open spec fn first_pass(
    s: Seq<RecipeScriptView>,
    i: int,
    e: int,
    baseline: Option<int>,
    upgrade: Option<int>,
) -> Result<(Option<int>, Option<int>), RecipeErrorView>
    decreases e - i,
{
    if i >= e {
        Ok((baseline, upgrade))
    } else {
        let item = s[i];
        if item.kind() == RecipeKind::Baseline {
            match baseline {
                Some(b) => Err(
                    RecipeErrorView::RepeatedVersion {
                        version: item.version,
                        name1: s[b].name,
                        name2: item.name,
                    },
                ),
                None => first_pass(s, i + 1, e, Some(i), upgrade),
            }
        } else if item.kind() == RecipeKind::Upgrade {
            match upgrade {
                Some(u) => Err(
                    RecipeErrorView::RepeatedVersion {
                        version: item.version,
                        name1: s[u].name,
                        name2: item.name,
                    },
                ),
                None => first_pass(s, i + 1, e, baseline, Some(i)),
            }
        } else {
            first_pass(s, i + 1, e, baseline, upgrade)
        }
    }
}

/// Whether the recipe at index `r`, if any, is named by `old_checksum`.
pub open spec fn named_by(s: Seq<RecipeScriptView>, r: Option<int>, old_checksum: Seq<char>) -> bool {
    match r {
        Some(k) => checksum_matches(s[k].checksum, old_checksum),
        None => false,
    }
}

/// Within a chunk: the error for the first revert or fixup whose old
/// checksum names the chunk's baseline or the chunk's upgrade; a fix may not
/// refer to a recipe that exists.
pub open spec fn second_pass(
    s: Seq<RecipeScriptView>,
    i: int,
    e: int,
    baseline: Option<int>,
    upgrade: Option<int>,
) -> Option<RecipeErrorView>
    decreases e - i,
{
    if i >= e {
        None
    } else {
        let item = s[i];
        match item.old_checksum() {
            None => second_pass(s, i + 1, e, baseline, upgrade),
            Some(old) => if named_by(s, baseline, old) || named_by(s, upgrade, old) {
                Some(
                    RecipeErrorView::ConflictedFixup {
                        version: item.version,
                        name: item.name,
                        old_checksum: old,
                    },
                )
            } else {
                second_pass(s, i + 1, e, baseline, upgrade)
            },
        }
    }
}

/// The first error of the chunks from index `i` on.
pub open spec fn check_chunks(s: Seq<RecipeScriptView>, i: int) -> Option<RecipeErrorView>
    decreases s.len() - i,
{
    if i < 0 || i >= s.len() {
        None
    } else {
        let e = chunk_end(s, i);
        proof {
            lemma_chunk_end_bounds(s, i);
        }
        match first_pass(s, i, e, None, None) {
            Err(err) => Some(err),
            Ok((b, u)) => match second_pass(s, i, e, b, u) {
                Some(err) => Some(err),
                None => check_chunks(s, e),
            },
        }
    }
}

/// The first index from `i` on whose recipe is not placed before the recipe
/// of `version` and `kind`, or the length.
pub open spec fn recipe_index(
    c: VersionComparator,
    s: Seq<RecipeScriptView>,
    version: Seq<char>,
    kind: RecipeKind,
    i: int,
) -> int
    decreases s.len() - i,
{
    if i < 0 || i >= s.len() {
        s.len() as int
    } else if key_order(c, s[i], version, kind) is Less {
        recipe_index(c, s, version, kind, i + 1)
    } else {
        i
    }
}

/// The search index stays within the recipes.
pub proof fn lemma_recipe_index_bounds(
    c: VersionComparator,
    s: Seq<RecipeScriptView>,
    version: Seq<char>,
    kind: RecipeKind,
    i: int,
)
    requires
        0 <= i <= s.len(),
    ensures
        i <= recipe_index(c, s, version, kind, i) <= s.len(),
    decreases s.len() - i,
{
    if i < s.len() && key_order(c, s[i], version, kind) is Less {
        lemma_recipe_index_bounds(c, s, version, kind, i + 1);
    }
}

/// The recipe of `version` and `kind` found by the search, if any.
pub open spec fn find_recipe(c: VersionComparator, s: Seq<RecipeScriptView>, version: Seq<char>, kind: RecipeKind) -> Option<int> {
    let k = recipe_index(c, s, version, kind, 0);
    if 0 <= k < s.len() && key_order(c, s[k], version, kind) is Equal {
        Some(k)
    } else {
        None
    }
}

/// The upgrade recipe of `version` found by the search, if any.
pub open spec fn find_upgrade(c: VersionComparator, s: Seq<RecipeScriptView>, version: Seq<char>) -> Option<int> {
    find_recipe(c, s, version, RecipeKind::Upgrade)
}

/// The target of a fixup is an upgrade recipe with its version, name and checksum.
pub open spec fn target_known(c: VersionComparator, s: Seq<RecipeScriptView>, target: (Seq<char>, Seq<char>, Seq<char>)) -> bool {
    match find_upgrade(c, s, target.0) {
        Some(k) => s[k].name == target.1 && s[k].checksum == target.2,
        None => false,
    }
}

/// The first fixup from index `i` on whose target is not known.
pub open spec fn check_targets(c: VersionComparator, s: Seq<RecipeScriptView>, i: int) -> Option<RecipeErrorView>
    decreases s.len() - i,
{
    if i < 0 || i >= s.len() {
        None
    } else {
        match s[i].new_target() {
            Some(t) => if target_known(c, s, t) {
                check_targets(c, s, i + 1)
            } else {
                Some(
                    RecipeErrorView::InvalidFixupNewTarget {
                        version: s[i].version,
                        name: s[i].name,
                        old_checksum: s[i].old_checksum()->0,
                        new_version: t.0,
                        new_name: t.1,
                        new_checksum: t.2,
                    },
                )
            },
            None => check_targets(c, s, i + 1),
        }
    }
}

/// The error that the checks of an ordered collection report, if any.
pub open spec fn check_ordered(c: VersionComparator, s: Seq<RecipeScriptView>) -> Option<RecipeErrorView> {
    match check_chunks(s, 0) {
        Some(err) => Some(err),
        None => check_targets(c, s, 0),
    }
}

/// How a recipe is placed against a version and kind.
pub fn key_order_of(
    c: &VersionComparator,
    item: &RecipeScript,
    version: &str,
    kind: RecipeKind,
) -> (r: Comparison)
    ensures
        r == key_order(*c, item@, version@, kind),
{
    let o = c.order(item.version(), version);
    match o {
        Comparison::Equal => {
            let a = item.kind().rank();
            let b = kind.rank();
            if a < b {
                Comparison::Less
            } else if a == b {
                Comparison::Equal
            } else {
                Comparison::Greater
            }
        },
        _ => o,
    }
}

proof fn lemma_insert_pos_step(
    c: VersionComparator,
    s: Seq<RecipeScriptView>,
    x: RecipeScriptView,
    p: int,
)
    requires
        0 < p <= s.len(),
        recipe_order(c, s[p - 1], x) is Greater,
    ensures
        insert_pos(c, s.take(p), x) == insert_pos(c, s.take(p - 1), x),
{
    assert(s.take(p).drop_last() =~= s.take(p - 1));
}

/// Sorts the recipes stably by version and kind.
fn sort_by_key(recipes: &Vec<RecipeScript>, c: &VersionComparator) -> (out: Vec<RecipeScript>)
    ensures
        views(out@) == sort_recipes(*c, views(recipes@)),
{
    let mut out: Vec<RecipeScript> = Vec::new();
    let mut i: usize = 0;
    assert(views(recipes@).take(0) =~= Seq::<RecipeScriptView>::empty());
    while i < recipes.len()
        invariant
            i <= recipes@.len(),
            views(out@) == sort_recipes(*c, views(recipes@).take(i as int)),
        decreases recipes@.len() - i,
    {
        let x = recipes[i].clone();
        let ghost sv = views(out@);
        let mut p = out.len();
        assert(sv.take(p as int) =~= sv);
        while p > 0 && key_order_of(c, &out[p - 1], x.version(), x.kind()) == Comparison::Greater
            invariant
                p <= out@.len(),
                sv == views(out@),
                insert_pos(*c, sv, x@) == insert_pos(*c, sv.take(p as int), x@),
            decreases p,
        {
            proof {
                lemma_insert_pos_step(*c, sv, x@, p as int);
            }
            p = p - 1;
        }
        proof {
            if p > 0 {
                assert(sv.take(p as int).drop_last() =~= sv.take(p - 1));
            }
            assert(insert_pos(*c, sv, x@) == p);
        }
        out.insert(p, x);
        proof {
            let t = views(recipes@).take(i + 1);
            assert(t.drop_last() =~= views(recipes@).take(i as int));
            assert(t.last() == x@);
            assert(views(out@) =~= sv.take(p as int).push(x@) + sv.skip(p as int));
        }
        i = i + 1;
    }
    assert(views(recipes@).take(recipes@.len() as int) =~= views(recipes@));
    out
}

/// An index kept in a `usize`, seen as an `int`.
pub open spec fn opt_index(o: Option<usize>) -> Option<int> {
    match o {
        Some(k) => Some(k as int),
        None => None,
    }
}

fn chunk_end_of(recipes: &Vec<RecipeScript>, i: usize) -> (e: usize)
    requires
        i < recipes@.len(),
    ensures
        e == chunk_end(views(recipes@), i as int),
{
    let ghost s = views(recipes@);
    let mut j = i;
    while recipes.len() - j > 1 && same_text(recipes[j + 1].version(), recipes[j].version())
        invariant
            i <= j < recipes@.len(),
            s == views(recipes@),
            chunk_end(s, i as int) == chunk_end(s, j as int),
        decreases recipes@.len() - j,
    {
        j = j + 1;
    }
    j + 1
}

fn first_pass_of(recipes: &Vec<RecipeScript>, a: usize, e: usize) -> (r: Result<
    (Option<usize>, Option<usize>),
    RecipeError,
>)
    requires
        a <= e <= recipes@.len(),
    ensures
        match r {
            Ok((b, u)) => first_pass(views(recipes@), a as int, e as int, None, None) == Ok::<
                (Option<int>, Option<int>),
                RecipeErrorView,
            >((opt_index(b), opt_index(u))),
            Err(err) => first_pass(views(recipes@), a as int, e as int, None, None) == Err::<
                (Option<int>, Option<int>),
                RecipeErrorView,
            >(err@),
        },
{
    let ghost s = views(recipes@);
    let mut baseline: Option<usize> = None;
    let mut upgrade: Option<usize> = None;
    let mut i = a;
    while i < e
        invariant
            a <= i <= e <= recipes@.len(),
            s == views(recipes@),
            baseline matches Some(b) ==> b < recipes@.len(),
            upgrade matches Some(u) ==> u < recipes@.len(),
            first_pass(s, a as int, e as int, None, None) == first_pass(
                s,
                i as int,
                e as int,
                opt_index(baseline),
                opt_index(upgrade),
            ),
        decreases e - i,
    {
        let item = &recipes[i];
        if item.is_baseline() {
            if let Some(b) = baseline {
                return Err(
                    RecipeError::RepeatedVersion {
                        version: item.version.clone(),
                        name1: recipes[b].name.clone(),
                        name2: item.name.clone(),
                    },
                );
            }
            baseline = Some(i);
        } else if item.is_upgrade() {
            if let Some(u) = upgrade {
                return Err(
                    RecipeError::RepeatedVersion {
                        version: item.version.clone(),
                        name1: recipes[u].name.clone(),
                        name2: item.name.clone(),
                    },
                );
            }
            upgrade = Some(i);
        }
        i = i + 1;
    }
    Ok((baseline, upgrade))
}

fn named_by_of(recipes: &Vec<RecipeScript>, r: Option<usize>, old_checksum: &str) -> (m: bool)
    requires
        r matches Some(k) ==> k < recipes@.len(),
    ensures
        m == named_by(views(recipes@), opt_index(r), old_checksum@),
{
    match r {
        Some(k) => recipes[k].match_checksum(old_checksum),
        None => false,
    }
}

fn second_pass_of(
    recipes: &Vec<RecipeScript>,
    a: usize,
    e: usize,
    baseline: Option<usize>,
    upgrade: Option<usize>,
) -> (r: Option<RecipeError>)
    requires
        a <= e <= recipes@.len(),
        baseline matches Some(b) ==> b < recipes@.len(),
        upgrade matches Some(u) ==> u < recipes@.len(),
    ensures
        match r {
            Some(err) => second_pass(
                views(recipes@),
                a as int,
                e as int,
                opt_index(baseline),
                opt_index(upgrade),
            ) == Some(err@),
            None => second_pass(
                views(recipes@),
                a as int,
                e as int,
                opt_index(baseline),
                opt_index(upgrade),
            ) is None,
        },
{
    let ghost s = views(recipes@);
    let mut i = a;
    while i < e
        invariant
            a <= i <= e <= recipes@.len(),
            s == views(recipes@),
            baseline matches Some(b) ==> b < recipes@.len(),
            upgrade matches Some(u) ==> u < recipes@.len(),
            second_pass(s, a as int, e as int, opt_index(baseline), opt_index(upgrade))
                == second_pass(s, i as int, e as int, opt_index(baseline), opt_index(upgrade)),
        decreases e - i,
    {
        let item = &recipes[i];
        assert(s[i as int] == item@);
        if let Some(old_checksum) = item.old_checksum() {
            if named_by_of(recipes, baseline, old_checksum) || named_by_of(
                recipes,
                upgrade,
                old_checksum,
            ) {
                let err = RecipeError::ConflictedFixup {
                    version: item.version.clone(),
                    name: item.name.clone(),
                    old_checksum: old_checksum.to_owned(),
                };
                return Some(err);
            }
        }
        i = i + 1;
    }
    None
}

fn check_chunks_of(recipes: &Vec<RecipeScript>) -> (r: Option<RecipeError>)
    ensures
        match r {
            Some(err) => check_chunks(views(recipes@), 0) == Some(err@),
            None => check_chunks(views(recipes@), 0) is None,
        },
{
    let ghost s = views(recipes@);
    let mut i: usize = 0;
    while i < recipes.len()
        invariant
            i <= recipes@.len(),
            s == views(recipes@),
            check_chunks(s, 0) == check_chunks(s, i as int),
        decreases recipes@.len() - i,
    {
        let e = chunk_end_of(recipes, i);
        proof {
            lemma_chunk_end_bounds(s, i as int);
        }
        match first_pass_of(recipes, i, e) {
            Err(err) => {
                return Some(err);
            },
            Ok((b, u)) => {
                proof {
                    if let Some(k) = b {
                        assert(k < recipes@.len()) by {
                            lemma_first_pass_bounds(s, i as int, e as int, None, None);
                        }
                    }
                    if let Some(k) = u {
                        assert(k < recipes@.len()) by {
                            lemma_first_pass_bounds(s, i as int, e as int, None, None);
                        }
                    }
                }
                if let Some(err) = second_pass_of(recipes, i, e, b, u) {
                    return Some(err);
                }
            },
        }
        i = e;
    }
    None
}

proof fn lemma_first_pass_bounds(
    s: Seq<RecipeScriptView>,
    i: int,
    e: int,
    baseline: Option<int>,
    upgrade: Option<int>,
)
    requires
        0 <= i,
        e <= s.len(),
        baseline matches Some(b) ==> 0 <= b < s.len(),
        upgrade matches Some(u) ==> 0 <= u < s.len(),
    ensures
        first_pass(s, i, e, baseline, upgrade) matches Ok((b, u)) ==> (b matches Some(k) ==> 0
            <= k < s.len()) && (u matches Some(k) ==> 0 <= k < s.len()),
    decreases e - i,
{
    if i < e {
        let item = s[i];
        if item.kind() == RecipeKind::Baseline {
            if baseline is None {
                lemma_first_pass_bounds(s, i + 1, e, Some(i), upgrade);
            }
        } else if item.kind() == RecipeKind::Upgrade {
            if upgrade is None {
                lemma_first_pass_bounds(s, i + 1, e, baseline, Some(i));
            }
        } else {
            lemma_first_pass_bounds(s, i + 1, e, baseline, upgrade);
        }
    }
}

/// The first index whose recipe is not placed before the recipe of `version`
/// and `kind`, or the length.
pub fn recipe_index_of(
    recipes: &Vec<RecipeScript>,
    c: &VersionComparator,
    version: &str,
    kind: RecipeKind,
) -> (r: usize)
    ensures
        r == recipe_index(*c, views(recipes@), version@, kind, 0),
{
    let ghost s = views(recipes@);
    let mut k: usize = 0;
    while k < recipes.len() && key_order_of(c, &recipes[k], version, kind) == Comparison::Less
        invariant
            k <= recipes@.len(),
            s == views(recipes@),
            recipe_index(*c, s, version@, kind, 0) == recipe_index(*c, s, version@, kind, k as int),
        decreases recipes@.len() - k,
    {
        k = k + 1;
    }
    k
}

/// The position of the recipe of `version` and `kind`, if any.
pub fn find_recipe_of(
    recipes: &Vec<RecipeScript>,
    c: &VersionComparator,
    version: &str,
    kind: RecipeKind,
) -> (r: Option<usize>)
    ensures
        opt_index(r) == find_recipe(*c, views(recipes@), version@, kind),
{
    let k = recipe_index_of(recipes, c, version, kind);
    if k < recipes.len() && key_order_of(c, &recipes[k], version, kind) == Comparison::Equal {
        Some(k)
    } else {
        None
    }
}

fn check_targets_of(recipes: &Vec<RecipeScript>, c: &VersionComparator) -> (r: Option<RecipeError>)
    ensures
        match r {
            Some(err) => check_targets(*c, views(recipes@), 0) == Some(err@),
            None => check_targets(*c, views(recipes@), 0) is None,
        },
{
    let ghost s = views(recipes@);
    let mut i: usize = 0;
    while i < recipes.len()
        invariant
            i <= recipes@.len(),
            s == views(recipes@),
            check_targets(*c, s, 0) == check_targets(*c, s, i as int),
        decreases recipes@.len() - i,
    {
        let item = &recipes[i];
        if let Some((new_version, new_name, new_checksum)) = item.new_target() {
            let known = match find_recipe_of(recipes, c, new_version, RecipeKind::Upgrade) {
                Some(k) => same_text(recipes[k].name(), new_name) && same_text(
                    recipes[k].checksum(),
                    new_checksum,
                ),
                None => false,
            };
            if !known {
                let old_checksum = match item.old_checksum() {
                    Some(o) => o.to_owned(),
                    None => String::new(),
                };
                return Some(
                    RecipeError::InvalidFixupNewTarget {
                        version: item.version.clone(),
                        name: item.name.clone(),
                        old_checksum,
                        new_version: new_version.to_owned(),
                        new_name: new_name.to_owned(),
                        new_checksum: new_checksum.to_owned(),
                    },
                );
            }
        }
        i = i + 1;
    }
    None
}

/// Orders the recipe collection by version and kind, then checks it: at most
/// one baseline and one upgrade per version, no revert or fixup naming a
/// recipe of its own version, and every fixup target an existing upgrade.
pub fn order_recipes(recipes: &mut Vec<RecipeScript>, version_comparator: VersionComparator) -> (r:
    Result<(), RecipeError>)
    ensures
        views(final(recipes)@) == sort_recipes(version_comparator, views(old(recipes)@)),
        match r {
            Ok(()) => check_ordered(version_comparator, views(final(recipes)@)) is None,
            Err(err) => check_ordered(version_comparator, views(final(recipes)@)) == Some(err@),
        },
        r is Ok ==> forall|j: int|
            0 <= j < final(recipes)@.len() && (#[trigger] views(final(recipes)@)[j]).new_target()
                is Some ==> exists|k: int|
                0 <= k < final(recipes)@.len() && (#[trigger] views(final(recipes)@)[k]).kind()
                    == RecipeKind::Upgrade && version_comparator.relation(
                    views(final(recipes)@)[k].version,
                    (views(final(recipes)@)[j].new_target()->0).0,
                ) is Equal && views(final(recipes)@)[k].name == (views(
                    final(recipes)@,
                )[j].new_target()->0).1 && views(final(recipes)@)[k].checksum == (views(
                    final(recipes)@,
                )[j].new_target()->0).2,
{
    let sorted = sort_by_key(recipes, &version_comparator);
    *recipes = sorted;
    if let Some(err) = check_chunks_of(recipes) {
        return Err(err);
    }
    if let Some(err) = check_targets_of(recipes, &version_comparator) {
        return Err(err);
    }
    proof {
        let s = views(recipes@);
        assert forall|j: int| 0 <= j < recipes@.len() && (#[trigger] s[j]).new_target() is Some implies exists|k: int|
            0 <= k < recipes@.len() && (#[trigger] s[k]).kind() == RecipeKind::Upgrade
                && version_comparator.relation(s[k].version, (s[j].new_target()->0).0) is Equal
                && s[k].name == (s[j].new_target()->0).1 && s[k].checksum == (s[j].new_target()->0).2 by {
            checked_fixup_targets_exist(version_comparator, s, j);
        }
    }
    Ok(())
}

} // verus!
