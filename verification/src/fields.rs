//! Field inheritance: merging span field sets down the ancestor chain.
//!
//! A field set is an ordered list of key/value pairs with unique keys.  When a
//! log event is formatted, the field sets cached on the ancestor spans are
//! merged root-to-leaf, and the event's own fields are merged last.  Merging
//! overwrites an existing key in place (the key keeps its first-seen position)
//! and appends a new key at the end.  The resulting precedence is: an inner
//! span overrides an outer span, and the event overrides every span.

use vstd::prelude::*;

use crate::json::JsonValue;
use crate::json::JsonValueView;

verus! {

/// Spec-level view of an ordered field list.
pub type FieldsView = Seq<(Seq<char>, JsonValueView)>;

/// The view of an executable field list.
pub open spec fn fields_view(v: Seq<(String, JsonValue)>) -> FieldsView {
    v.map_values(|p: (String, JsonValue)| (p.0@, p.1@))
}

/// A push on the executable list is a push on its view.
pub proof fn lemma_fields_view_push(v: Seq<(String, JsonValue)>, p: (String, JsonValue))
    ensures
        fields_view(v.push(p)) == fields_view(v).push((p.0@, p.1@)),
{
    assert(fields_view(v.push(p)) =~= fields_view(v).push((p.0@, p.1@)));
}

/// Whether some entry of `es` has key `k`.
pub open spec fn has_key(es: FieldsView, k: Seq<char>) -> bool {
    exists|i: int| 0 <= i < es.len() && es[i].0 == k
}

/// The value at the first entry of `es` whose key is `k`, if any.
pub open spec fn lookup(es: FieldsView, k: Seq<char>) -> Option<JsonValueView>
    decreases es.len(),
{
    if es.len() == 0 {
        None
    } else if es[0].0 == k {
        Some(es[0].1)
    } else {
        lookup(es.drop_first(), k)
    }
}

/// `es` with the first entry keyed `k` replaced by `(k, v)`, or with `(k, v)`
/// appended when no entry has key `k`.
pub open spec fn upsert(es: FieldsView, k: Seq<char>, v: JsonValueView) -> FieldsView
    decreases es.len(),
{
    if es.len() == 0 {
        seq![(k, v)]
    } else if es[0].0 == k {
        seq![(k, v)] + es.drop_first()
    } else {
        seq![es[0]] + upsert(es.drop_first(), k, v)
    }
}

/// All entries of `es` merged into `acc`, front to back.
pub open spec fn merge_into(acc: FieldsView, es: FieldsView) -> FieldsView
    decreases es.len(),
{
    if es.len() == 0 {
        acc
    } else {
        merge_into(upsert(acc, es[0].0, es[0].1), es.drop_first())
    }
}

/// The field sets of `chain` (root first) merged in order, starting empty.
pub open spec fn merge_chain(chain: Seq<FieldsView>) -> FieldsView
    decreases chain.len(),
{
    if chain.len() == 0 {
        Seq::empty()
    } else {
        merge_into(merge_chain(chain.drop_last()), chain.last())
    }
}

/// Merging one more field set extends a chain merge by one step.
pub proof fn lemma_merge_chain_step(sets: Seq<FieldsView>, k: int)
    requires
        0 <= k < sets.len(),
    ensures
        merge_chain(sets.take(k + 1)) == merge_into(merge_chain(sets.take(k)), sets[k]),
{
    assert(sets.take(k + 1).drop_last() =~= sets.take(k));
    assert(sets.take(k + 1).last() == sets[k]);
}

/// The full merge for one event: the ancestor chain root-to-leaf, then the
/// event's own fields.
pub open spec fn merged_fields(chain: Seq<FieldsView>, event_fields: FieldsView) -> FieldsView {
    merge_into(merge_chain(chain), event_fields)
}

/// The value `k` would take from the chain alone: the innermost (closest to
/// the leaf) field set that carries `k` decides.
pub open spec fn chain_lookup(chain: Seq<FieldsView>, k: Seq<char>) -> Option<JsonValueView>
    decreases chain.len(),
{
    if chain.len() == 0 {
        None
    } else if has_key(chain.last(), k) {
        lookup(chain.last(), k)
    } else {
        chain_lookup(chain.drop_last(), k)
    }
}

/// `lookup` finds a value exactly when `has_key` holds.
pub proof fn lemma_lookup_has_key(es: FieldsView, k: Seq<char>)
    ensures
        lookup(es, k) is Some <==> has_key(es, k),
    decreases es.len(),
{
    if es.len() == 0 {
    } else if es[0].0 == k {
    } else {
        lemma_lookup_has_key(es.drop_first(), k);
        assert(has_key(es.drop_first(), k) ==> has_key(es, k)) by {
            if has_key(es.drop_first(), k) {
                let i = choose|i: int| 0 <= i < es.drop_first().len() && es.drop_first()[i].0 == k;
                assert(es[i + 1].0 == k);
            }
        }
        assert(has_key(es, k) ==> has_key(es.drop_first(), k)) by {
            if has_key(es, k) {
                let i = choose|i: int| 0 <= i < es.len() && es[i].0 == k;
                assert(i != 0);
                assert(es.drop_first()[i - 1].0 == k);
            }
        }
    }
}

/// After an upsert, `k` maps to `v` and every other key is unchanged.
pub proof fn lemma_upsert_lookup(es: FieldsView, k: Seq<char>, v: JsonValueView, q: Seq<char>)
    ensures
        lookup(upsert(es, k, v), q) == if q == k {
            Some(v)
        } else {
            lookup(es, q)
        },
    decreases es.len(),
{
    if es.len() == 0 {
        assert(upsert(es, k, v) =~= seq![(k, v)]);
        if q != k {
            assert(upsert(es, k, v).drop_first() =~= Seq::<(Seq<char>, JsonValueView)>::empty());
        }
    } else if es[0].0 == k {
        let r = upsert(es, k, v);
        assert(r =~= seq![(k, v)] + es.drop_first());
        assert(r[0] == (k, v));
        if q != k {
            assert(r.drop_first() =~= es.drop_first());
        }
    } else {
        let r = upsert(es, k, v);
        assert(r =~= seq![es[0]] + upsert(es.drop_first(), k, v));
        assert(r[0] == es[0]);
        assert(r.drop_first() =~= upsert(es.drop_first(), k, v));
        lemma_upsert_lookup(es.drop_first(), k, v, q);
        if q == k {
            assert(r[0].0 != q);
        }
    }
}

/// After merging `es` into `acc`, a key carried by `es` takes the value that
/// `es` gives it (its last occurrence, which under unique keys is its only
/// one), and every other key keeps its value from `acc`.
pub proof fn lemma_merge_into_lookup(acc: FieldsView, es: FieldsView, q: Seq<char>)
    requires
        forall|i: int, j: int|
            0 <= i < j < es.len() ==> es[i].0 != es[j].0,
    ensures
        lookup(merge_into(acc, es), q) == if has_key(es, q) {
            lookup(es, q)
        } else {
            lookup(acc, q)
        },
    decreases es.len(),
{
    if es.len() == 0 {
    } else {
        let acc1 = upsert(acc, es[0].0, es[0].1);
        lemma_merge_into_lookup(acc1, es.drop_first(), q);
        lemma_upsert_lookup(acc, es[0].0, es[0].1, q);
        lemma_lookup_has_key(es, q);
        lemma_lookup_has_key(es.drop_first(), q);
        assert(has_key(es.drop_first(), q) ==> has_key(es, q)) by {
            if has_key(es.drop_first(), q) {
                let i = choose|i: int|
                    0 <= i < es.drop_first().len() && es.drop_first()[i].0 == q;
                assert(es[i + 1].0 == q);
            }
        }
        if has_key(es, q) {
            if es[0].0 == q {
                // unique keys: no later entry of es carries q
                assert(!has_key(es.drop_first(), q)) by {
                    if has_key(es.drop_first(), q) {
                        let i = choose|i: int|
                            0 <= i < es.drop_first().len() && es.drop_first()[i].0 == q;
                        assert(es[0].0 == es[i + 1].0);
                    }
                }
            } else {
                let i = choose|i: int| 0 <= i < es.len() && es[i].0 == q;
                assert(es.drop_first()[i - 1].0 == q);
            }
        }
    }
}

/// Merging a chain: the innermost field set that carries `q` decides; a key
/// no set carries is absent.
pub proof fn lemma_merge_chain_lookup(chain: Seq<FieldsView>, q: Seq<char>)
    requires
        forall|s: int| 0 <= s < chain.len() ==> wf_fields(#[trigger] chain[s]),
    ensures
        lookup(merge_chain(chain), q) == chain_lookup(chain, q),
    decreases chain.len(),
{
    if chain.len() == 0 {
    } else {
        lemma_merge_chain_lookup(chain.drop_last(), q);
        assert(forall|s: int|
            0 <= s < chain.drop_last().len() ==> wf_fields(#[trigger] chain.drop_last()[s]));
        lemma_merge_into_lookup(merge_chain(chain.drop_last()), chain.last(), q);
        lemma_lookup_has_key(chain.last(), q);
    }
}

/// Unique keys: no two entries share a key.
pub open spec fn wf_fields(es: FieldsView) -> bool {
    forall|i: int, j: int| 0 <= i < j < es.len() ==> es[i].0 != es[j].0
}

/// The inheritance law.  For well-formed field sets, the merged result gives
/// a key the event's value when the event carries it; otherwise the value
/// from the innermost ancestor span that carries it; otherwise nothing.
pub proof fn lemma_merge_precedence(
    chain: Seq<FieldsView>,
    event_fields: FieldsView,
    q: Seq<char>,
)
    requires
        forall|s: int| 0 <= s < chain.len() ==> wf_fields(#[trigger] chain[s]),
        wf_fields(event_fields),
    ensures
        lookup(merged_fields(chain, event_fields), q) == if has_key(event_fields, q) {
            lookup(event_fields, q)
        } else {
            chain_lookup(chain, q)
        },
{
    lemma_merge_chain_lookup(chain, q);
    lemma_merge_into_lookup(merge_chain(chain), event_fields, q);
}

/// No key appears from nowhere and none is lost: the merged result carries
/// exactly the keys of the event and of the chain's field sets.
pub proof fn lemma_merge_keys(chain: Seq<FieldsView>, event_fields: FieldsView, q: Seq<char>)
    requires
        forall|s: int| 0 <= s < chain.len() ==> wf_fields(#[trigger] chain[s]),
        wf_fields(event_fields),
    ensures
        has_key(merged_fields(chain, event_fields), q) <==> (has_key(event_fields, q) || exists|s: int|
            0 <= s < chain.len() && has_key(#[trigger] chain[s], q)),
{
    lemma_merge_precedence(chain, event_fields, q);
    lemma_lookup_has_key(merged_fields(chain, event_fields), q);
    lemma_lookup_has_key(event_fields, q);
    lemma_chain_lookup_has_key(chain, q);
}

/// `chain_lookup` finds a value exactly when some field set of the chain
/// carries the key.
pub proof fn lemma_chain_lookup_has_key(chain: Seq<FieldsView>, q: Seq<char>)
    ensures
        chain_lookup(chain, q) is Some <==> exists|s: int|
            0 <= s < chain.len() && has_key(#[trigger] chain[s], q),
    decreases chain.len(),
{
    if chain.len() == 0 {
    } else {
        lemma_chain_lookup_has_key(chain.drop_last(), q);
        lemma_lookup_has_key(chain.last(), q);
        if has_key(chain.last(), q) {
            assert(chain[chain.len() - 1] == chain.last());
        } else {
            assert(forall|s: int|
                0 <= s < chain.drop_last().len() ==> chain.drop_last()[s] == chain[s]);
            if exists|s: int| 0 <= s < chain.len() && has_key(#[trigger] chain[s], q) {
                let s = choose|s: int| 0 <= s < chain.len() && has_key(#[trigger] chain[s], q);
                assert(s < chain.len() - 1);
                assert(chain.drop_last()[s] == chain[s]);
            }
        }
    }
}

/// Find the first entry of `acc` whose key equals `k`.
fn find_key(acc: &Vec<(String, JsonValue)>, k: &String) -> (r: Option<usize>)
    ensures
        match r {
            Some(i) => i < acc@.len() && acc@[i as int].0@ == k@ && forall|j: int|
                0 <= j < i ==> fields_view(acc@)[j].0 != k@,
            None => !has_key(fields_view(acc@), k@),
        },
{
    let mut i: usize = 0;
    while i < acc.len()
        invariant
            i <= acc@.len(),
            forall|j: int| 0 <= j < i ==> fields_view(acc@)[j].0 != k@,
        decreases acc@.len() - i,
    {
        if acc[i].0 == *k {
            assert(acc@[i as int].0@ == k@);
            return Some(i);
        }
        assert(fields_view(acc@)[i as int].0 == acc@[i as int].0@);
        i = i + 1;
    }
    assert(!has_key(fields_view(acc@), k@)) by {
        if has_key(fields_view(acc@), k@) {
            let j = choose|j: int|
                0 <= j < fields_view(acc@).len() && fields_view(acc@)[j].0 == k@;
        }
    }
    None
}

/// Merge one field into `acc`, overwriting in place or appending.
pub fn upsert_field(acc: &mut Vec<(String, JsonValue)>, k: String, v: JsonValue)
    ensures
        fields_view(final(acc)@) == upsert(fields_view(old(acc)@), k@, v@),
{
    let ghost es = fields_view(acc@);
    match find_key(acc, &k) {
        Some(i) => {
            let ghost vv = v@;
            acc[i].1 = v;
            proof {
                lemma_upsert_found(es, k@, vv, i as int);
                assert(fields_view(acc@) =~= es.update(i as int, (k@, vv)));
            }
        }
        None => {
            let ghost vv = v@;
            acc.push((k, v));
            proof {
                lemma_upsert_absent(es, k@, vv);
                assert(fields_view(acc@) =~= es.push((k@, vv)));
            }
        }
    }
}

/// When no entry has key `k`, an upsert is an append.
proof fn lemma_upsert_absent(es: FieldsView, k: Seq<char>, v: JsonValueView)
    requires
        !has_key(es, k),
    ensures
        upsert(es, k, v) == es.push((k, v)),
    decreases es.len(),
{
    if es.len() == 0 {
        assert(upsert(es, k, v) =~= es.push((k, v)));
    } else {
        assert(es[0].0 != k);
        assert(!has_key(es.drop_first(), k)) by {
            if has_key(es.drop_first(), k) {
                let i = choose|i: int| 0 <= i < es.drop_first().len() && es.drop_first()[i].0 == k;
                assert(es[i + 1].0 == k);
            }
        }
        lemma_upsert_absent(es.drop_first(), k, v);
        assert(upsert(es, k, v) =~= es.push((k, v)));
    }
}

/// When the first entry with key `k` stands at `i`, an upsert is an in-place
/// update at `i`.
proof fn lemma_upsert_found(es: FieldsView, k: Seq<char>, v: JsonValueView, i: int)
    requires
        0 <= i < es.len(),
        es[i].0 == k,
        forall|j: int| 0 <= j < i ==> es[j].0 != k,
    ensures
        upsert(es, k, v) == es.update(i, (k, v)),
    decreases es.len(),
{
    if i == 0 {
        assert(upsert(es, k, v) =~= es.update(0, (k, v)));
    } else {
        assert(es[0].0 != k);
        assert(es.drop_first()[i - 1].0 == k);
        assert(forall|j: int| 0 <= j < i - 1 ==> es.drop_first()[j].0 != k);
        lemma_upsert_found(es.drop_first(), k, v, i - 1);
        assert(upsert(es, k, v) =~= es.update(i, (k, v)));
    }
}

/// Merge every entry of `entries` into `acc`, in order.
pub fn merge_fields(acc: &mut Vec<(String, JsonValue)>, entries: &Vec<(String, JsonValue)>)
    ensures
        fields_view(final(acc)@) == merge_into(fields_view(old(acc)@), fields_view(entries@)),
{
    let ghost orig = fields_view(acc@);
    let ghost es = fields_view(entries@);
    proof {
        assert(es.skip(0) =~= es);
    }
    let mut i: usize = 0;
    while i < entries.len()
        invariant
            i <= entries@.len(),
            es == fields_view(entries@),
            merge_into(orig, es) == merge_into(fields_view(acc@), es.skip(i as int)),
        decreases entries@.len() - i,
    {
        let ghost before = fields_view(acc@);
        let entry = (entries[i].0.clone(), entries[i].1.dup());
        assert(entry.0@ == entries@[i as int].0@);
        assert(entry.1@ == entries@[i as int].1@);
        upsert_field(acc, entry.0, entry.1);
        proof {
            assert(es.skip(i as int)[0] == es[i as int]);
            assert(es.skip(i as int).drop_first() =~= es.skip(i as int + 1));
            assert(es[i as int] == (entries@[i as int].0@, entries@[i as int].1@));
            assert(fields_view(acc@) == upsert(before, es[i as int].0, es[i as int].1));
        }
        i = i + 1;
    }
    proof {
        assert(es.skip(es.len() as int) =~= Seq::<(Seq<char>, JsonValueView)>::empty());
    }
}

} // verus!
