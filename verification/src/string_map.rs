//! The canonical order of string-map entries: by key, in Unicode scalar
//! value order.

use vstd::prelude::*;

use crate::text::chars_of;

verus! {

/// Whether `a` comes no later than `b` in lexicographic order of Unicode
/// scalar values, a prefix first. For UTF-8 strings this is the order of
/// their bytes, the order of `String`'s `Ord`.
pub open spec fn chars_at_most(a: Seq<char>, b: Seq<char>) -> bool
    decreases a.len(),
{
    if a.len() == 0 {
        true
    } else if b.len() == 0 {
        false
    } else if a[0] != b[0] {
        (a[0] as u32) < (b[0] as u32)
    } else {
        chars_at_most(a.drop_first(), b.drop_first())
    }
}

/// The texts of string-map entries, key first.
pub open spec fn entry_views(entries: Seq<(String, String)>) -> Seq<(Seq<char>, Seq<char>)> {
    entries.map_values(|entry: (String, String)| (entry.0@, entry.1@))
}

/// Whether `a` comes strictly before `b`.
pub open spec fn chars_before(a: Seq<char>, b: Seq<char>) -> bool {
    chars_at_most(a, b) && a != b
}

/// Whether no key occurs twice, as in a map.
pub open spec fn distinct_keys(entries: Seq<(Seq<char>, Seq<char>)>) -> bool {
    forall|i: int, j: int| 0 <= i < j < entries.len() ==> entries[i].0 != entries[j].0
}

/// Whether entries are ordered by strictly ascending key.
pub open spec fn sorted_by_key(entries: Seq<(Seq<char>, Seq<char>)>) -> bool {
    forall|i: int, j: int|
        0 <= i < j < entries.len() ==> chars_before(entries[i].0, entries[j].0)
}

/// Any two texts are ordered one way or the other.
proof fn lemma_chars_at_most_total(a: Seq<char>, b: Seq<char>)
    ensures
        chars_at_most(a, b) || chars_at_most(b, a),
    decreases a.len(),
{
    if a.len() > 0 && b.len() > 0 {
        if a[0] == b[0] {
            lemma_chars_at_most_total(a.drop_first(), b.drop_first());
        } else {
            assert(a[0] as u32 != b[0] as u32) by {
                vstd::utf8::char_u32_cast(a[0], a[0] as u32);
                vstd::utf8::char_u32_cast(b[0], b[0] as u32);
            }
        }
    }
}

/// The order is transitive.
proof fn lemma_chars_at_most_transitive(a: Seq<char>, b: Seq<char>, c: Seq<char>)
    requires
        chars_at_most(a, b),
        chars_at_most(b, c),
    ensures
        chars_at_most(a, c),
    decreases a.len(),
{
    if a.len() > 0 && b.len() > 0 && c.len() > 0 && a[0] == b[0] && b[0] == c[0] {
        lemma_chars_at_most_transitive(a.drop_first(), b.drop_first(), c.drop_first());
    }
}

/// Inserting one element adds it to the multiset of a sequence.
proof fn lemma_insert_to_multiset<A>(s: Seq<A>, p: int, a: A)
    requires
        0 <= p <= s.len(),
    ensures
        s.insert(p, a).to_multiset() == s.to_multiset().insert(a),
{
    broadcast use vstd::seq_lib::group_to_multiset_ensures;

    let t = s.insert(p, a);
    assert(t.remove(p) =~= s);
    assert(t[p] == a);
    assert(t.to_multiset().remove(a) == s.to_multiset());
    assert(t.to_multiset().count(a) > 0) by {
        assert(t.contains(a));
    }
    assert(t.to_multiset() =~= s.to_multiset().insert(a));
}

/// Reports whether `a` comes no later than `b`.
fn key_at_most(a: &Vec<char>, b: &Vec<char>) -> (result: bool)
    ensures
        result == chars_at_most(a@, b@),
{
    let mut i: usize = 0;
    assert(a@.skip(0) =~= a@);
    assert(b@.skip(0) =~= b@);
    while i < a.len() && i < b.len() && a[i] == b[i]
        invariant
            i <= a.len(),
            i <= b.len(),
            chars_at_most(a@, b@) == chars_at_most(a@.skip(i as int), b@.skip(i as int)),
        decreases a.len() - i,
    {
        assert(a@.skip(i as int).drop_first() =~= a@.skip(i + 1));
        assert(b@.skip(i as int).drop_first() =~= b@.skip(i + 1));
        i += 1;
    }
    if i == a.len() {
        return true;
    }
    if i == b.len() {
        return false;
    }
    assert(a@.skip(i as int)[0] == a@[i as int]);
    assert(b@.skip(i as int)[0] == b@[i as int]);
    (a[i] as u32) < (b[i] as u32)
}

/// Orders the entries of a string map by key.
///
/// The entries are a map's: no key occurs twice. The result holds the same
/// entries, each once, with keys in strictly ascending order.
pub fn sorted_string_map_entries(entries: &Vec<(String, String)>) -> (sorted: Vec<(String, String)>)
    requires
        distinct_keys(entry_views(entries@)),
    ensures
        entry_views(sorted@).to_multiset() == entry_views(entries@).to_multiset(),
        sorted@.len() == entries@.len(),
        sorted_by_key(entry_views(sorted@)),
{
    let mut sorted: Vec<(String, String)> = Vec::new();
    let mut keys: Vec<Vec<char>> = Vec::new();
    let mut i: usize = 0;
    assert(entries@.take(0) =~= Seq::<(String, String)>::empty());
    assert(entry_views(sorted@) =~= entry_views(entries@.take(0)));
    while i < entries.len()
        invariant
            i <= entries.len(),
            keys.len() == sorted.len(),
            forall|m: int| 0 <= m < keys.len() ==> (#[trigger] keys@[m])@ == sorted@[m].0@,
            entry_views(sorted@).to_multiset() == entry_views(entries@.take(i as int)).to_multiset(),
            sorted_by_key(entry_views(sorted@)),
            distinct_keys(entry_views(entries@)),
        decreases entries.len() - i,
    {
        let key = entries[i].0.clone();
        let value = entries[i].1.clone();
        let k = chars_of(key.as_str());
        let mut p: usize = sorted.len();
        while p > 0 && !key_at_most(&keys[p - 1], &k)
            invariant
                p <= sorted.len(),
                keys.len() == sorted.len(),
                forall|m: int| 0 <= m < keys.len() ==> (#[trigger] keys@[m])@ == sorted@[m].0@,
                forall|m: int| p <= m < sorted.len() ==> !chars_at_most(sorted@[m].0@, k@),
            decreases p,
        {
            p -= 1;
        }
        let ghost before = sorted@;
        let ghost views_before = entry_views(before);
        proof {
            broadcast use vstd::seq_lib::group_to_multiset_ensures;

            let taken = entry_views(entries@.take(i as int));
            assert forall|m: int| 0 <= m < before.len() implies (#[trigger] views_before[m]).0
                != k@ by {
                assert(views_before.contains(views_before[m]));
                assert(taken.to_multiset().count(views_before[m]) > 0);
                assert(taken.contains(views_before[m]));
                let j = choose|j: int| 0 <= j < taken.len() && taken[j] == views_before[m];
                assert(taken[j] == entry_views(entries@)[j]);
                assert(entry_views(entries@)[i as int].0 == k@);
            }
            if p > 0 {
                assert(chars_at_most(keys@[p - 1]@, k@));
            }
            assert forall|m: int| 0 <= m < p implies chars_at_most(
                #[trigger] views_before[m].0,
                k@,
            ) by {
                if m < p - 1 {
                    assert(chars_before(views_before[m].0, views_before[p - 1].0));
                    lemma_chars_at_most_transitive(views_before[m].0, views_before[p - 1].0, k@);
                }
            }
            assert forall|m: int| p <= m < before.len() implies chars_at_most(
                k@,
                #[trigger] views_before[m].0,
            ) by {
                lemma_chars_at_most_total(k@, views_before[m].0);
            }
        }
        sorted.insert(p, (key, value));
        keys.insert(p, k);
        proof {
            let entry = (key@, value@);
            assert(entry_views(sorted@) =~= views_before.insert(p as int, entry));
            lemma_insert_to_multiset(views_before, p as int, entry);
            assert(entries@.take(i + 1) =~= entries@.take(i as int).push(entries@[i as int]));
            assert(entry_views(entries@.take(i + 1)) =~= entry_views(entries@.take(i as int)).push(
                entry,
            ));
            vstd::seq_lib::to_multiset_build(entry_views(entries@.take(i as int)), entry);
            let after = entry_views(sorted@);
            assert forall|a: int, b: int| 0 <= a < b < after.len() implies chars_before(
                after[a].0,
                after[b].0,
            ) by {
                if b < p {
                } else if b == p {
                    assert(after[b].0 == k@);
                    assert(after[a] == views_before[a]);
                    assert(views_before[a].0 != k@);
                } else if a < p {
                    assert(after[a] == views_before[a]);
                    assert(after[b] == views_before[b - 1]);
                    assert(chars_at_most(views_before[a].0, k@));
                    assert(chars_at_most(k@, views_before[b - 1].0));
                    lemma_chars_at_most_transitive(views_before[a].0, k@, views_before[b - 1].0);
                    assert(chars_before(views_before[a].0, views_before[b - 1].0));
                } else if a == p {
                    assert(after[b] == views_before[b - 1]);
                    assert(views_before[b - 1].0 != k@);
                } else {
                    assert(after[a] == views_before[a - 1]);
                    assert(after[b] == views_before[b - 1]);
                }
            }
            assert forall|m: int| 0 <= m < keys.len() implies (#[trigger] keys@[m])@
                == sorted@[m].0@ by {
                if m < p {
                } else if m == p {
                } else {
                }
            }
        }
        i += 1;
    }
    assert(entries@.take(entries.len() as int) =~= entries@);
    proof {
        broadcast use vstd::seq_lib::group_to_multiset_ensures;

        assert(entry_views(sorted@).to_multiset().len() == entry_views(entries@).to_multiset().len());
        assert(entry_views(sorted@).len() == entry_views(entries@).len());
    }
    sorted
}

} // verus!
