use vstd::prelude::*;
use crate::catalog::{InstalledAppCatalogEntry, InstalledAppCatalogTarget};
use crate::shell::{strip_windows_verbatim_prefix, to_lowercase, unicode_lowercase, without_verbatim_prefix};
use crate::text::{concat, str_chars, str_eq};

verus! {

/// A path as the catalog compares it: its resolved form on disk without the verbatim
/// prefix (`canonical`, where the path resolves), otherwise the path itself.
pub open spec fn existing_path_spec(path: Seq<char>, canonical: Option<Seq<char>>) -> Seq<char> {
    match canonical {
        Some(c) => without_verbatim_prefix(c),
        None => path,
    }
}

/// Normalizes a path for comparison (see `existing_path_spec`); `canonical` is what
/// resolving it on disk gave.
pub fn normalize_existing_windows_path(path: &str, canonical: Option<String>) -> (r: String)
    ensures
        r@ == existing_path_spec(
            path@,
            match canonical {
                Some(c) => Some(c@),
                None => None,
            },
        ),
{
    match canonical {
        Some(c) => strip_windows_verbatim_prefix(c.as_str()),
        None => crate::text::owned(path),
    }
}

/// The identity under which the catalog keeps one entry per target: `aumid:` and the
/// lower-cased application id, or `path:` and the lower-cased normalized path.
pub open spec fn target_identity_spec(target: InstalledAppCatalogTarget, canonical: Option<Seq<char>>) -> Seq<char> {
    match target {
        InstalledAppCatalogTarget::Aumid(aumid) => "aumid:"@ + unicode_lowercase(aumid@),
        InstalledAppCatalogTarget::Path(path) => "path:"@ + unicode_lowercase(existing_path_spec(path@, canonical)),
    }
}

/// The identity of a catalog target (see `target_identity_spec`); `canonical` is what
/// resolving a path target on disk gave.
pub fn target_identity(target: &InstalledAppCatalogTarget, canonical: Option<String>) -> (r: String)
    ensures
        r@ == target_identity_spec(
            *target,
            match canonical {
                Some(c) => Some(c@),
                None => None,
            },
        ),
{
    match target {
        InstalledAppCatalogTarget::Aumid(aumid) => {
            let lower = to_lowercase(aumid.as_str());
            concat("aumid:", lower.as_str())
        },
        InstalledAppCatalogTarget::Path(path) => {
            let normalized = normalize_existing_windows_path(path.as_str(), canonical);
            let lower = to_lowercase(normalized.as_str());
            concat("path:", lower.as_str())
        },
    }
}

/// A catalog entry with its identity.
pub type IdentifiedEntry = (InstalledAppCatalogEntry, String);

/// Whether some entry of `s` has identity `id`.
pub open spec fn has_identity(s: Seq<IdentifiedEntry>, id: Seq<char>) -> bool {
    exists|i: int| 0 <= i < s.len() && (#[trigger] s[i]).1@ == id
}

/// `kept` followed by the entries of `more` whose identity is new, each the first of its
/// identity, in order.
pub open spec fn append_new(kept: Seq<IdentifiedEntry>, more: Seq<IdentifiedEntry>) -> Seq<IdentifiedEntry>
    decreases more.len(),
{
    if more.len() == 0 {
        kept
    } else {
        let r = append_new(kept, more.drop_last());
        if has_identity(r, more.last().1@) {
            r
        } else {
            r.push(more.last())
        }
    }
}

/// Text order: the order of `String`, character by character by code point.
pub open spec fn text_lt(a: Seq<char>, b: Seq<char>) -> bool
    decreases a.len(),
{
    if a.len() == 0 {
        b.len() > 0
    } else if b.len() == 0 {
        false
    } else if a[0] != b[0] {
        a[0] < b[0]
    } else {
        text_lt(a.drop_first(), b.drop_first())
    }
}

/// The key entries are listed by: the lower-cased name.
pub open spec fn name_key(e: IdentifiedEntry) -> Seq<char> {
    unicode_lowercase(e.0.name@)
}

/// `sorted` with `e` inserted after every entry whose key is not above `e`'s.
pub open spec fn insert_by_name(sorted: Seq<IdentifiedEntry>, e: IdentifiedEntry) -> Seq<IdentifiedEntry>
    decreases sorted.len(),
{
    if sorted.len() == 0 {
        seq![e]
    } else if text_lt(name_key(e), name_key(sorted.last())) {
        insert_by_name(sorted.drop_last(), e).push(sorted.last())
    } else {
        sorted.push(e)
    }
}

/// Entries listed by their lower-cased names; entries with the same key keep their order.
pub open spec fn sorted_by_name(s: Seq<IdentifiedEntry>) -> Seq<IdentifiedEntry>
    decreases s.len(),
{
    if s.len() == 0 {
        Seq::empty()
    } else {
        insert_by_name(sorted_by_name(s.drop_last()), s.last())
    }
}

proof fn lemma_text_lt_irreflexive(a: Seq<char>)
    ensures
        !text_lt(a, a),
    decreases a.len(),
{
    if a.len() > 0 {
        lemma_text_lt_irreflexive(a.drop_first());
    }
}

proof fn lemma_text_lt_total(a: Seq<char>, b: Seq<char>)
    ensures
        text_lt(a, b) || text_lt(b, a) || a == b,
    decreases a.len(),
{
    if a.len() > 0 && b.len() > 0 && a[0] == b[0] {
        lemma_text_lt_total(a.drop_first(), b.drop_first());
        if a.drop_first() == b.drop_first() {
            assert forall|i: int| 0 <= i < a.len() implies a[i] == b[i] by {
                if i > 0 {
                    assert(a[i] == a.drop_first()[i - 1]);
                    assert(b[i] == b.drop_first()[i - 1]);
                }
            }
            assert(a =~= b);
        }
    } else if a.len() == 0 && b.len() == 0 {
        assert(a =~= b);
    } else if a.len() > 0 && b.len() > 0 {
    }
}

proof fn lemma_text_lt_transitive(a: Seq<char>, b: Seq<char>, c: Seq<char>)
    requires
        text_lt(a, b),
        text_lt(b, c),
    ensures
        text_lt(a, c),
    decreases a.len(),
{
    if a.len() > 0 && b.len() > 0 && c.len() > 0 && a[0] == b[0] && b[0] == c[0] {
        lemma_text_lt_transitive(a.drop_first(), b.drop_first(), c.drop_first());
    }
}

proof fn lemma_not_lt_transitive(a: Seq<char>, b: Seq<char>, c: Seq<char>)
    requires
        !text_lt(a, b),
        !text_lt(b, c),
    ensures
        !text_lt(a, c),
{
    lemma_text_lt_total(a, b);
    if text_lt(a, c) {
        if text_lt(b, a) {
            lemma_text_lt_transitive(b, a, c);
        }
    }
}

/// Entries listed so that no entry's key is below the key of an entry before it.
pub open spec fn listed_by_name(s: Seq<IdentifiedEntry>) -> bool {
    forall|i: int, j: int| 0 <= i < j < s.len() ==> !text_lt(name_key(#[trigger] s[j]), name_key(#[trigger] s[i]))
}

proof fn lemma_insert_by_name(sorted: Seq<IdentifiedEntry>, e: IdentifiedEntry)
    requires
        listed_by_name(sorted),
    ensures
        listed_by_name(insert_by_name(sorted, e)),
        insert_by_name(sorted, e).to_multiset() == sorted.to_multiset().insert(e),
    decreases sorted.len(),
{
    broadcast use vstd::seq_lib::group_to_multiset_ensures;
    if sorted.len() == 0 {
        assert(seq![e] =~= Seq::<IdentifiedEntry>::empty().push(e));
        assert(sorted =~= Seq::<IdentifiedEntry>::empty());
    } else {
        let last = sorted.last();
        let front = sorted.drop_last();
        assert(sorted =~= front.push(last));
        assert(listed_by_name(front)) by {
            assert forall|i: int, j: int| 0 <= i < j < front.len() implies !text_lt(name_key(#[trigger] front[j]), name_key(#[trigger] front[i])) by {
                assert(front[i] == sorted[i] && front[j] == sorted[j]);
            }
        }
        if text_lt(name_key(e), name_key(last)) {
            lemma_insert_by_name(front, e);
            let mid = insert_by_name(front, e);
            let r = mid.push(last);
            assert(r.to_multiset() =~= sorted.to_multiset().insert(e));
            assert forall|i: int, j: int| 0 <= i < j < r.len() implies !text_lt(name_key(#[trigger] r[j]), name_key(#[trigger] r[i])) by {
                if j < mid.len() {
                    assert(r[i] == mid[i] && r[j] == mid[j]);
                } else {
                    let x = mid[i];
                    assert(r[i] == x);
                    assert(mid.contains(x));
                    assert(mid.to_multiset().count(x) > 0);
                    if x == e {
                        lemma_text_lt_irreflexive(name_key(e));
                        if text_lt(name_key(last), name_key(e)) {
                            lemma_text_lt_transitive(name_key(e), name_key(last), name_key(e));
                        }
                    } else {
                        assert(front.to_multiset().count(x) > 0);
                        assert(front.contains(x));
                        let k = choose|k: int| 0 <= k < front.len() && front[k] == x;
                        assert(sorted[k] == x && sorted[sorted.len() - 1] == last);
                    }
                }
            }
        } else {
            let r = sorted.push(e);
            assert forall|i: int, j: int| 0 <= i < j < r.len() implies !text_lt(name_key(#[trigger] r[j]), name_key(#[trigger] r[i])) by {
                if j < sorted.len() {
                    assert(r[i] == sorted[i] && r[j] == sorted[j]);
                } else {
                    assert(r[j] == e && r[i] == sorted[i]);
                    if i < sorted.len() - 1 {
                        assert(!text_lt(name_key(sorted[sorted.len() - 1]), name_key(sorted[i])));
                        lemma_not_lt_transitive(name_key(e), name_key(last), name_key(sorted[i]));
                    }
                }
            }
        }
    }
}

/// Listing entries by name puts them in name order and keeps every entry: what comes out is
/// a reordering of what went in, with no entry's key below that of one before it.
pub proof fn lemma_sorted_by_name_orders_and_keeps(s: Seq<IdentifiedEntry>)
    ensures
        listed_by_name(sorted_by_name(s)),
        sorted_by_name(s).to_multiset() == s.to_multiset(),
    decreases s.len(),
{
    broadcast use vstd::seq_lib::group_to_multiset_ensures;
    if s.len() == 0 {
        assert(s =~= Seq::<IdentifiedEntry>::empty());
    } else {
        lemma_sorted_by_name_orders_and_keeps(s.drop_last());
        lemma_insert_by_name(sorted_by_name(s.drop_last()), s.last());
        assert(s =~= s.drop_last().push(s.last()));
    }
}

/// No two entries share an identity.
pub open spec fn identities_distinct(s: Seq<IdentifiedEntry>) -> bool {
    forall|i: int, j: int| 0 <= i < j < s.len() ==> (#[trigger] s[i]).1@ != (#[trigger] s[j]).1@
}

/// Appending the new entries of a source keeps what was kept, keeps identities distinct and
/// leaves no identity of the source out.
pub proof fn lemma_append_new_distinct(kept: Seq<IdentifiedEntry>, more: Seq<IdentifiedEntry>)
    requires
        identities_distinct(kept),
    ensures
        identities_distinct(append_new(kept, more)),
        append_new(kept, more).len() >= kept.len(),
        append_new(kept, more).take(kept.len() as int) == kept,
        forall|i: int| 0 <= i < more.len() ==> has_identity(append_new(kept, more), (#[trigger] more[i]).1@),
    decreases more.len(),
{
    if more.len() == 0 {
        assert(kept.take(kept.len() as int) =~= kept);
    } else {
        let front = more.drop_last();
        lemma_append_new_distinct(kept, front);
        let r = append_new(kept, front);
        let e = more.last();
        if has_identity(r, e.1@) {
            assert forall|i: int| 0 <= i < more.len() implies has_identity(append_new(kept, more), (#[trigger] more[i]).1@) by {
                if i < front.len() {
                    assert(more[i] == front[i]);
                }
            }
        } else {
            let r2 = r.push(e);
            assert(r2.take(kept.len() as int) =~= r.take(kept.len() as int));
            assert forall|i: int, j: int| 0 <= i < j < r2.len() implies (#[trigger] r2[i]).1@ != (#[trigger] r2[j]).1@ by {
                if j < r.len() {
                    assert(r2[i] == r[i] && r2[j] == r[j]);
                } else {
                    assert(r2[i] == r[i]);
                    assert(r2[j] == e);
                }
            }
            assert forall|i: int| 0 <= i < more.len() implies has_identity(r2, (#[trigger] more[i]).1@) by {
                if i < front.len() {
                    assert(more[i] == front[i]);
                    let k = choose|k: int| 0 <= k < r.len() && (#[trigger] r[k]).1@ == front[i].1@;
                    assert(r2[k] == r[k]);
                } else {
                    assert(r2[r.len() as int] == e);
                }
            }
        }
    }
}

/// Deduplicating a source leaves one entry per identity and drops no identity.
pub proof fn lemma_dedup_keeps_one_entry_per_identity(entries: Seq<IdentifiedEntry>)
    ensures
        identities_distinct(append_new(Seq::empty(), entries)),
        forall|i: int| 0 <= i < entries.len() ==> has_identity(append_new(Seq::empty(), entries), (#[trigger] entries[i]).1@),
{
    lemma_append_new_distinct(Seq::empty(), entries);
}

fn text_less(a: &Vec<char>, b: &Vec<char>) -> (r: bool)
    ensures
        r == text_lt(a@, b@),
{
    let mut i: usize = 0;
    assert(a@.skip(0) =~= a@);
    assert(b@.skip(0) =~= b@);
    while i < a.len() && i < b.len()
        invariant
            i <= a@.len(),
            i <= b@.len(),
            a@.take(i as int) == b@.take(i as int),
            text_lt(a@, b@) == text_lt(a@.skip(i as int), b@.skip(i as int)),
        decreases a.len() - i,
    {
        proof {
            assert(a@.skip(i as int).drop_first() =~= a@.skip(i + 1));
            assert(b@.skip(i as int).drop_first() =~= b@.skip(i + 1));
        }
        if a[i] != b[i] {
            return a[i] < b[i];
        }
        assert(a@.take(i + 1) =~= a@.take(i as int).push(a@[i as int]));
        assert(b@.take(i + 1) =~= b@.take(i as int).push(b@[i as int]));
        i = i + 1;
    }
    i == a.len() && i < b.len()
}

fn lowercase_name(e: &IdentifiedEntry) -> (r: Vec<char>)
    ensures
        r@ == name_key(*e),
{
    let lower = to_lowercase(e.0.name.as_str());
    str_chars(lower.as_str())
}

/// Lists entries by their lower-cased names, keeping the order of entries with the same key
/// (see `sorted_by_name`).
pub fn sort_catalog_entries(entries: Vec<IdentifiedEntry>) -> (r: Vec<IdentifiedEntry>)
    ensures
        r@ == sorted_by_name(entries@),
{
    let mut sorted: Vec<IdentifiedEntry> = Vec::new();
    let mut keys: Vec<Vec<char>> = Vec::new();
    let mut rest = entries;
    let ghost all = rest@;
    let _len = rest.len();
    assert(all.len() <= usize::MAX);
    let mut taken: usize = 0;
    let mut source: Vec<IdentifiedEntry> = Vec::new();
    // Take the entries in order: reverse them once so that popping gives the first.
    while rest.len() > 0
        invariant
            all.len() == rest@.len() + source@.len(),
            forall|k: int| 0 <= k < source@.len() ==> source@[k] == all[all.len() - 1 - k],
            forall|k: int| 0 <= k < rest@.len() ==> rest@[k] == all[k],
        decreases rest.len(),
    {
        let ghost r0 = rest@;
        let e = rest.pop().unwrap();
        assert(rest@ =~= r0.drop_last());
        source.push(e);
    }
    while source.len() > 0
        invariant
            taken + source@.len() == all.len(),
            all.len() <= usize::MAX,
            forall|k: int| 0 <= k < source@.len() ==> source@[k] == all[all.len() - 1 - k],
            sorted@ == sorted_by_name(all.take(taken as int)),
            keys@.len() == sorted@.len(),
            forall|k: int| 0 <= k < keys@.len() ==> (#[trigger] keys@[k])@ == name_key(sorted@[k]),
        decreases source.len(),
    {
        let ghost s0 = source@;
        let e = source.pop().unwrap();
        assert(source@ =~= s0.drop_last());
        assert(e == all[taken as int]);
        let key = lowercase_name(&e);
        let ghost before = sorted@;
        let ghost before_keys = keys@;
        // Find the insertion point: after the last entry whose key is not above `key`.
        let mut j: usize = sorted.len();
        assert(before.take(j as int) =~= before);
        assert(before.skip(j as int) =~= Seq::<IdentifiedEntry>::empty());
        assert(insert_by_name(before, e) =~= insert_by_name(before.take(j as int), e) + before.skip(j as int));
        while j > 0
            invariant
                j <= before.len(),
                sorted@ == before,
                keys@ == before_keys,
                keys@.len() == sorted@.len(),
                forall|k: int| 0 <= k < keys@.len() ==> (#[trigger] keys@[k])@ == name_key(sorted@[k]),
                insert_by_name(before, e) == insert_by_name(before.take(j as int), e) + before.skip(j as int),
                key@ == name_key(e),
            ensures
                j <= before.len(),
                sorted@ == before,
                keys@ == before_keys,
                insert_by_name(before, e) == insert_by_name(before.take(j as int), e) + before.skip(j as int),
                j == 0 || !text_lt(name_key(e), name_key(before[j - 1])),
            decreases j,
        {
            assert(keys@[j - 1]@ == name_key(sorted@[j - 1]));
            if !text_less(&key, &keys[j - 1]) {
                break;
            }
            proof {
                let t = before.take(j as int);
                assert(t.drop_last() =~= before.take(j - 1));
                assert(t.last() == before[j - 1]);
                assert(before.skip(j - 1) =~= seq![before[j - 1]] + before.skip(j as int));
                assert(insert_by_name(t, e) =~= insert_by_name(before.take(j - 1), e).push(before[j - 1]));
                assert(insert_by_name(before.take(j - 1), e).push(before[j - 1]) + before.skip(j as int)
                    =~= insert_by_name(before.take(j - 1), e) + before.skip(j - 1));
            }
            j = j - 1;
        }
        proof {
            let t = before.take(j as int);
            if j > 0 {
                assert(t.last() == before[j - 1]);
                assert(insert_by_name(t, e) =~= t.push(e));
            } else {
                assert(insert_by_name(t, e) =~= seq![e]);
            }
        }
        sorted.insert(j, e);
        keys.insert(j, key);
        proof {
            assert(sorted@ =~= before.take(j as int).push(e) + before.skip(j as int));
            assert(all.take(taken + 1).drop_last() =~= all.take(taken as int));
            assert(all.take(taken + 1).last() == e);
            assert forall|k: int| 0 <= k < keys@.len() implies (#[trigger] keys@[k])@ == name_key(sorted@[k]) by {
                if k < j {
                    assert(keys@[k] == before_keys[k]);
                    assert(sorted@[k] == before[k]);
                } else if k > j {
                    assert(keys@[k] == before_keys[k - 1]);
                    assert(sorted@[k] == before[k - 1]);
                }
            }
        }
        taken = taken + 1;
    }
    assert(all.take(taken as int) =~= all);
    sorted
}

fn identity_listed(s: &Vec<IdentifiedEntry>, id: &str) -> (r: bool)
    ensures
        r == has_identity(s@, id@),
{
    let mut i: usize = 0;
    while i < s.len()
        invariant
            i <= s@.len(),
            forall|k: int| 0 <= k < i ==> (#[trigger] s@[k]).1@ != id@,
        decreases s.len() - i,
    {
        if str_eq(s[i].1.as_str(), id) {
            return true;
        }
        i = i + 1;
    }
    false
}

/// Appends to `kept` the entries of `more` whose identity is new (see `append_new`).
fn append_new_entries(kept: &mut Vec<IdentifiedEntry>, more: Vec<IdentifiedEntry>)
    ensures
        final(kept)@ == append_new(old(kept)@, more@),
{
    let ghost all = more@;
    let _len = more.len();
    assert(all.len() <= usize::MAX);
    let mut source: Vec<IdentifiedEntry> = Vec::new();
    let mut rest = more;
    while rest.len() > 0
        invariant
            all.len() == rest@.len() + source@.len(),
            forall|k: int| 0 <= k < source@.len() ==> source@[k] == all[all.len() - 1 - k],
            forall|k: int| 0 <= k < rest@.len() ==> rest@[k] == all[k],
        decreases rest.len(),
    {
        let ghost r0 = rest@;
        let e = rest.pop().unwrap();
        assert(rest@ =~= r0.drop_last());
        source.push(e);
    }
    let mut taken: usize = 0;
    while source.len() > 0
        invariant
            taken + source@.len() == all.len(),
            all.len() <= usize::MAX,
            forall|k: int| 0 <= k < source@.len() ==> source@[k] == all[all.len() - 1 - k],
            kept@ == append_new(old(kept)@, all.take(taken as int)),
        decreases source.len(),
    {
        let ghost s0 = source@;
        let e = source.pop().unwrap();
        assert(source@ =~= s0.drop_last());
        assert(e == all[taken as int]);
        assert(all.take(taken + 1).drop_last() =~= all.take(taken as int));
        assert(all.take(taken + 1).last() == e);
        if !identity_listed(kept, e.1.as_str()) {
            kept.push(e);
        }
        taken = taken + 1;
    }
    assert(all.take(taken as int) =~= all);
}

/// Keeps the first entry of each identity, in order.
pub fn dedup_catalog_entries(entries: Vec<IdentifiedEntry>) -> (r: Vec<IdentifiedEntry>)
    ensures
        r@ == append_new(Seq::empty(), entries@),
{
    let mut kept: Vec<IdentifiedEntry> = Vec::new();
    append_new_entries(&mut kept, entries);
    kept
}

/// Merges a source into the entries gathered so far: the entries of `secondary` whose
/// identity is new follow those of `primary`, and all are listed by name.
pub fn merge_catalog_sources(primary: Vec<IdentifiedEntry>, secondary: Vec<IdentifiedEntry>) -> (r: Vec<IdentifiedEntry>)
    ensures
        r@ == sorted_by_name(append_new(primary@, secondary@)),
{
    let mut merged = primary;
    append_new_entries(&mut merged, secondary);
    sort_catalog_entries(merged)
}

/// The entries of the sources gathered so far (`None` before any source gave entries) after
/// one more source: its entries, deduplicated and listed by name when it is the first; merged
/// into those gathered otherwise.
pub open spec fn merged_with(merged: Option<Seq<IdentifiedEntry>>, entries: Seq<IdentifiedEntry>) -> Seq<IdentifiedEntry> {
    match merged {
        Some(m) => sorted_by_name(append_new(m, entries)),
        None => sorted_by_name(append_new(Seq::empty(), entries)),
    }
}

/// One step of merging the catalog's sources (see `merged_with`).
pub open spec fn merge_step(merged: Option<Seq<IdentifiedEntry>>, source: Result<Vec<IdentifiedEntry>, String>) -> Option<Seq<IdentifiedEntry>> {
    match source {
        Ok(entries) => Some(merged_with(merged, entries@)),
        Err(_) => merged,
    }
}

/// The failure text of one source.
pub open spec fn source_failure(name: Seq<char>, source: Result<Vec<IdentifiedEntry>, String>) -> Seq<Seq<char>> {
    match source {
        Ok(_) => Seq::empty(),
        Err(e) => seq![name + " ("@ + e@ + ")"@],
    }
}

/// Texts joined with `, `.
pub open spec fn comma_joined(parts: Seq<Seq<char>>) -> Seq<char>
    decreases parts.len(),
{
    if parts.len() == 0 {
        Seq::empty()
    } else if parts.len() == 1 {
        parts[0]
    } else {
        comma_joined(parts.drop_last()) + ", "@ + parts.last()
    }
}

fn merge_one(merged: Option<Vec<IdentifiedEntry>>, entries: Vec<IdentifiedEntry>) -> (r: Vec<IdentifiedEntry>)
    ensures
        r@ == merged_with(
            match merged {
                Some(m) => Some(m@),
                None => None,
            },
            entries@,
        ),
{
    match merged {
        Some(existing) => merge_catalog_sources(existing, entries),
        None => sort_catalog_entries(dedup_catalog_entries(entries)),
    }
}

fn push_failure(errors: &mut Vec<String>, name: &str, error: &String)
    ensures
        final(errors)@.map_values(|s: String| s@) == old(errors)@.map_values(|s: String| s@).push(
            name@ + " ("@ + error@ + ")"@,
        ),
{
    let a = concat(name, " (");
    let b = concat(a.as_str(), error.as_str());
    let c = concat(b.as_str(), ")");
    let ghost before = errors@;
    errors.push(c);
    assert(errors@.map_values(|s: String| s@) =~= before.map_values(|s: String| s@).push(c@));
}

/// Merges what the three sources of installed applications gave, in this order of
/// precedence: the AppsFolder, the Start Menu and App Paths. The merged entries come back
/// when any source gave entries; otherwise the failure of every source, in order.
pub fn merge_catalog_results(
    apps_folder: Result<Vec<IdentifiedEntry>, String>,
    start_menu: Result<Vec<IdentifiedEntry>, String>,
    app_paths: Result<Vec<IdentifiedEntry>, String>,
) -> (r: Result<Vec<IdentifiedEntry>, String>)
    ensures
        ({
            let m = merge_step(merge_step(merge_step(None, apps_folder), start_menu), app_paths);
            match m {
                Some(entries) => r matches Ok(v) && v@ == entries,
                None => r matches Err(e) && e@ == "Failed to enumerate installed apps from "@ + comma_joined(
                    source_failure("AppsFolder"@, apps_folder) + source_failure("Start Menu"@, start_menu)
                        + source_failure("App Paths"@, app_paths),
                ),
            }
        }),
{
    let ghost a0 = apps_folder;
    let ghost b0 = start_menu;
    let ghost c0 = app_paths;
    let mut merged: Option<Vec<IdentifiedEntry>> = None;
    let mut errors: Vec<String> = Vec::new();
    proof {
        reveal_strlit("AppsFolder");
        reveal_strlit("Start Menu");
        reveal_strlit("App Paths");
    }
    match apps_folder {
        Ok(entries) => {
            merged = Some(merge_one(merged, entries));
        },
        Err(e) => push_failure(&mut errors, "AppsFolder", &e),
    }
    match start_menu {
        Ok(entries) => {
            merged = Some(merge_one(merged, entries));
        },
        Err(e) => push_failure(&mut errors, "Start Menu", &e),
    }
    match app_paths {
        Ok(entries) => {
            merged = Some(merge_one(merged, entries));
        },
        Err(e) => push_failure(&mut errors, "App Paths", &e),
    }
    match merged {
        Some(entries) => Ok(entries),
        None => {
            let ghost parts = errors@.map_values(|s: String| s@);
            assert(parts =~= source_failure("AppsFolder"@, a0) + source_failure("Start Menu"@, b0) + source_failure(
                "App Paths"@,
                c0,
            ));
            assert(parts.len() == 3);
            let first = concat(errors[0].as_str(), ", ");
            let second = concat(first.as_str(), errors[1].as_str());
            let third = concat(second.as_str(), ", ");
            let joined = concat(third.as_str(), errors[2].as_str());
            proof {
                reveal_strlit(", ");
                assert(parts[0] == errors@[0]@);
                assert(parts[1] == errors@[1]@);
                assert(parts[2] == errors@[2]@);
                assert(parts.take(2).drop_last() =~= parts.take(1));
                assert(comma_joined(parts.take(1)) == parts[0]);
                assert(comma_joined(parts.take(2)) =~= parts[0] + ", "@ + parts[1]);
                assert(parts.drop_last() =~= parts.take(2));
                assert(comma_joined(parts) =~= parts[0] + ", "@ + parts[1] + ", "@ + parts[2]);
            }
            assert(joined@ =~= comma_joined(parts));
            Err(concat("Failed to enumerate installed apps from ", joined.as_str()))
        },
    }
}

} // verus!
