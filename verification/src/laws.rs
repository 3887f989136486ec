//! Laws of attribute tables and of the merge engine, over the model.
use vstd::prelude::*;
use crate::error::ErrorView;
use crate::model::{DictView, EntryView, ValueView};
use crate::schema_model::{first_missing_from, optional_check_fault};

verus! {

/// In a table without repeated names, the attribute at a position is the one
/// that its name finds.
pub proof fn lemma_index_of(d: DictView, i: int)
    requires
        d.wf(),
        0 <= i < d.entries.len(),
    ensures
        d.contains_key(d.entries[i].key),
        d.index_of(d.entries[i].key) == i,
        d.get(d.entries[i].key) == Some(d.entries[i]),
{
    let key = d.entries[i].key;
    let j = d.index_of(key);
    assert(d.entries[i].key == key);
    if j < i {
        assert(d.entries[j].key != d.entries[i].key);
    } else if i < j {
        assert(d.entries[i].key != d.entries[j].key);
    }
}

/// Setting a whole attribute keeps the names distinct, makes the attribute
/// the one that its name finds, and leaves every other name as it was.
pub proof fn lemma_set_entry(d: DictView, e: EntryView)
    requires
        d.wf(),
    ensures
        d.set_entry(e).wf(),
        d.set_entry(e).get(e.key) == Some(e),
        d.set_entry(e).attr_map == d.attr_map,
        forall|k: Seq<char>|
            k != e.key ==> #[trigger] d.set_entry(e).get(k) == d.get(k) && d.set_entry(
                e,
            ).contains_key(k) == d.contains_key(k),
{
    let r = d.set_entry(e);
    if d.contains_key(e.key) {
        let i = d.index_of(e.key);
        assert(r.entries.len() == d.entries.len());
        assert forall|a: int, b: int| 0 <= a < b < r.entries.len() implies (
        #[trigger] r.entries[a]).key != (#[trigger] r.entries[b]).key by {
            assert(r.entries[a].key == d.entries[a].key);
            assert(r.entries[b].key == d.entries[b].key);
        }
        assert(r.entries[i] == e);
        lemma_index_of(r, i);
        assert forall|k: Seq<char>| k != e.key implies #[trigger] r.get(k) == d.get(k)
            && r.contains_key(k) == d.contains_key(k) by {
            if d.contains_key(k) {
                let j = d.index_of(k);
                assert(r.entries[j] == d.entries[j]);
                lemma_index_of(r, j);
            }
            if r.contains_key(k) {
                let j = r.index_of(k);
                assert(r.entries[j] == d.entries[j]);
                lemma_index_of(d, j);
            }
        }
    } else {
        let n = d.entries.len() as int;
        assert(r.entries.len() == n + 1);
        assert forall|a: int, b: int| 0 <= a < b < r.entries.len() implies (
        #[trigger] r.entries[a]).key != (#[trigger] r.entries[b]).key by {
            assert(r.entries[a] == d.entries[a]);
            if b < n {
                assert(r.entries[b] == d.entries[b]);
            }
        }
        assert(r.entries[n] == e);
        lemma_index_of(r, n);
        assert forall|k: Seq<char>| k != e.key implies #[trigger] r.get(k) == d.get(k)
            && r.contains_key(k) == d.contains_key(k) by {
            if d.contains_key(k) {
                let j = d.index_of(k);
                assert(r.entries[j] == d.entries[j]);
                lemma_index_of(r, j);
            }
            if r.contains_key(k) {
                let j = r.index_of(k);
                assert(r.entries[j] == d.entries[j]);
                lemma_index_of(d, j);
            }
        }
    }
}

/// Setting a value keeps the names distinct, makes the value the one that
/// the name finds, and leaves every other name as it was.
pub proof fn lemma_set_value(d: DictView, key: Seq<char>, value: ValueView)
    requires
        d.wf(),
    ensures
        d.set_value(key, value).wf(),
        d.set_value(key, value).value_of(key) == Some(value),
        d.set_value(key, value).attr_map == d.attr_map,
        forall|k: Seq<char>|
            k != key ==> #[trigger] d.set_value(key, value).get(k) == d.get(k) && d.set_value(
                key,
                value,
            ).contains_key(k) == d.contains_key(k),
{
    let e = if d.contains_key(key) {
        EntryView { value, ..d.entries[d.index_of(key)] }
    } else {
        EntryView::plain(key, value)
    };
    assert(d.set_value(key, value) == d.set_entry(e));
    lemma_set_entry(d, e);
}

/// Unpacking keeps the names distinct.
pub proof fn lemma_update_values_wf(d: DictView, other: Seq<EntryView>, n: nat)
    requires
        d.wf(),
        n <= other.len(),
    ensures
        d.update_values_upto(other, n).wf(),
    decreases n,
{
    if n > 0 {
        lemma_update_values_wf(d, other, (n - 1) as nat);
        lemma_set_value(
            d.update_values_upto(other, (n - 1) as nat),
            other[n - 1].key,
            other[n - 1].value,
        );
    }
}

/// After the first `n` attributes of `other` are unpacked, each of their
/// names finds the value that `other` holds under it.
pub proof fn lemma_update_values_upto(d: DictView, other: DictView, n: nat, j: int)
    requires
        d.wf(),
        other.wf(),
        0 <= j < n <= other.entries.len(),
    ensures
        d.update_values_upto(other.entries, n).value_of(other.entries[j].key) == Some(
            other.entries[j].value,
        ),
    decreases n,
{
    let before = d.update_values_upto(other.entries, (n - 1) as nat);
    lemma_update_values_wf(d, other.entries, (n - 1) as nat);
    lemma_set_value(before, other.entries[n - 1].key, other.entries[n - 1].value);
    if j < n - 1 {
        lemma_update_values_upto(d, other, (n - 1) as nat, j);
        assert(other.entries[j].key != other.entries[n - 1].key);
    }
}

/// Last unpack wins: once `other` is unpacked into a table, every name of
/// `other` finds the value that `other` holds under it.
pub proof fn law_unpack_last_wins(d: DictView, other: DictView, key: Seq<char>)
    requires
        d.wf(),
        other.wf(),
        other.contains_key(key),
    ensures
        d.update_values(other).value_of(key) == other.value_of(key),
        d.update_values(other).values_map()[key] == other.values_map()[key],
{
    let j = other.index_of(key);
    lemma_index_of(other, j);
    lemma_update_values_upto(d, other, other.entries.len(), j);
}

/// A dictionary turned into a schema instance and back is the dictionary it
/// was: the same attributes, values, operations and positions.
pub proof fn law_schema_round_trip(
    d: ValueView,
    name: Seq<char>,
    pkgpath: Seq<char>,
    config_keys: Seq<Seq<char>>,
)
    requires
        d is Dict,
    ensures
        d.to_schema(name, pkgpath, config_keys) is Ok,
        d.to_schema(name, pkgpath, config_keys)->Ok_0.to_dict() == Ok::<ValueView, ErrorView>(
            d,
        ),
        d.to_schema(name, pkgpath, config_keys)->Ok_0.config().values_map()
            == d.config().values_map(),
{
}

/// An attribute that was set whole is read back whole: its name finds it
/// with the value, operation and position that were set, and projecting the
/// table on the name gives a table of that one attribute.
pub proof fn law_update_entry_then_get_entry(d: DictView, e: EntryView)
    requires
        d.wf(),
    ensures
        d.set_entry(e).get(e.key) == Some(e),
        d.set_entry(e).project(seq![e.key]) == (DictView {
            entries: seq![e],
            attr_map: Seq::empty(),
        }),
        DictView::empty().set_entry(d.set_entry(e).get(e.key).unwrap()) == (DictView {
            entries: seq![e],
            attr_map: Seq::empty(),
        }),
{
    lemma_set_entry(d, e);
    let keys = seq![e.key];
    let t = d.set_entry(e);
    assert(t.project_upto(keys, 0) == DictView::empty());
    assert(!DictView::empty().contains_key(e.key));
    assert(DictView::empty().set_entry(e).entries =~= seq![e]);
    assert(t.project_upto(keys, 1) == DictView::empty().set_entry(e)) by {
        reveal_with_fuel(DictView::project_upto, 2);
    }
}

/// Setting whole attributes keeps the names distinct.
pub proof fn lemma_update_entries_wf(d: DictView, other: Seq<EntryView>, n: nat)
    requires
        d.wf(),
        n <= other.len(),
    ensures
        d.update_entries_upto(other, n).wf(),
    decreases n,
{
    if n > 0 {
        lemma_update_entries_wf(d, other, (n - 1) as nat);
        lemma_set_entry(d.update_entries_upto(other, (n - 1) as nat), other[n - 1]);
    }
}

/// Setting the first `n` attributes of a table that shares no name with
/// `d` puts them behind those of `d`, as they are.
pub proof fn lemma_update_entries_disjoint(d: DictView, other: DictView, n: nat)
    requires
        d.wf(),
        other.wf(),
        n <= other.entries.len(),
        forall|k: Seq<char>| !(d.contains_key(k) && other.contains_key(k)),
    ensures
        d.update_entries_upto(other.entries, n).entries == d.entries + other.entries.subrange(
            0,
            n as int,
        ),
    decreases n,
{
    if n == 0 {
        assert(d.entries + other.entries.subrange(0, 0) =~= d.entries);
    } else {
        lemma_update_entries_disjoint(d, other, (n - 1) as nat);
        let before = d.update_entries_upto(other.entries, (n - 1) as nat);
        let e = other.entries[n - 1];
        lemma_index_of(other, n - 1);
        if before.contains_key(e.key) {
            let i = before.index_of(e.key);
            if i < d.entries.len() {
                assert(before.entries[i] == d.entries[i]);
                assert(d.contains_key(e.key));
            } else {
                let j = i - d.entries.len();
                assert(before.entries[i] == other.entries[j]);
                assert(other.entries[j].key != other.entries[n - 1].key);
            }
        }
        assert(before.set_entry(e).entries =~= d.entries + other.entries.subrange(0, n as int));
    }
}

/// Updating a schema instance with one that shares no attribute name with
/// it: the destination then holds its own attributes followed by those of
/// the source, each with the value, operation and position that it has in
/// the source; its names are those of both.
pub proof fn law_schema_update_disjoint(dst: DictView, src: DictView)
    requires
        dst.wf(),
        src.wf(),
        forall|k: Seq<char>| !(dst.contains_key(k) && src.contains_key(k)),
    ensures
        dst.update_entries(src).entries == dst.entries + src.entries,
        dst.update_entries(src).wf(),
        forall|k: Seq<char>|
            #[trigger] dst.update_entries(src).contains_key(k) == (dst.contains_key(k)
                || src.contains_key(k)),
        forall|k: Seq<char>|
            src.contains_key(k) ==> #[trigger] dst.update_entries(src).get(k) == src.get(k),
        forall|k: Seq<char>|
            dst.contains_key(k) ==> #[trigger] dst.update_entries(src).get(k) == dst.get(k),
        dst.update_entries(src).values_map().dom() == dst.values_map().dom().union(
            src.values_map().dom(),
        ),
        forall|k: Seq<char>|
            src.contains_key(k) ==> #[trigger] dst.update_entries(src).ops_map()[k]
                == src.ops_map()[k] && dst.update_entries(src).insert_indexs_map()[k]
                == src.insert_indexs_map()[k] && dst.update_entries(src).values_map()[k]
                == src.values_map()[k],
{
    let r = dst.update_entries(src);
    let n = dst.entries.len() as int;
    lemma_update_entries_disjoint(dst, src, src.entries.len());
    lemma_update_entries_wf(dst, src.entries, src.entries.len());
    assert(src.entries.subrange(0, src.entries.len() as int) =~= src.entries);
    assert forall|k: Seq<char>| #[trigger]
        r.contains_key(k) == (dst.contains_key(k) || src.contains_key(k)) by {
        if r.contains_key(k) {
            let i = r.index_of(k);
            if i < n {
                assert(r.entries[i] == dst.entries[i]);
            } else {
                assert(r.entries[i] == src.entries[i - n]);
            }
        }
        if dst.contains_key(k) {
            let i = dst.index_of(k);
            assert(r.entries[i] == dst.entries[i]);
        }
        if src.contains_key(k) {
            let i = src.index_of(k);
            assert(r.entries[n + i] == src.entries[i]);
        }
    }
    assert forall|k: Seq<char>| src.contains_key(k) implies #[trigger] r.get(k) == src.get(
        k,
    ) by {
        let i = src.index_of(k);
        assert(r.entries[n + i] == src.entries[i]);
        lemma_index_of(r, n + i);
    }
    assert forall|k: Seq<char>| dst.contains_key(k) implies #[trigger] r.get(k) == dst.get(
        k,
    ) by {
        let i = dst.index_of(k);
        assert(r.entries[i] == dst.entries[i]);
        lemma_index_of(r, i);
    }
    assert(r.values_map().dom() =~= dst.values_map().dom().union(src.values_map().dom()));
}

/// Operations and positions are kept for names that have a value, and for
/// no others: the three maps of a table have the same names.
pub proof fn law_metadata_names(d: DictView)
    ensures
        d.ops_map().dom() == d.values_map().dom(),
        d.insert_indexs_map().dom() == d.values_map().dom(),
        forall|k: Seq<char>| d.values_map().dom().contains(k) <==> d.contains_key(k),
{
    assert(d.ops_map().dom() =~= d.values_map().dom());
    assert(d.insert_indexs_map().dom() =~= d.values_map().dom());
}

/// The check of one attribute: a required attribute fails the check exactly
/// where the table holds no value under its name, or holds `None` or
/// `Undefined`; an optional attribute passes whatever the table holds.
pub proof fn law_required_attribute(
    this: ValueView,
    attribute: Seq<char>,
    is_optional: bool,
    schema_name: Seq<char>,
)
    requires
        this.is_config(),
    ensures
        ({
            let mapping = ValueView::Dict(
                DictView::empty().set_value(attribute, ValueView::Bool(is_optional)),
            );
            let lacking = match this.config().value_of(attribute) {
                Some(v) => v.is_none_or_undefined(),
                None => true,
            };
            optional_check_fault(this, mapping, schema_name) == if !is_optional && lacking {
                Some(ErrorView::RequiredAttributeError { attribute, schema_name })
            } else {
                None
            }
        }),
{
    let m = DictView::empty().set_value(attribute, ValueView::Bool(is_optional));
    assert(!DictView::empty().contains_key(attribute));
    assert(m.entries =~= seq![EntryView::plain(attribute, ValueView::Bool(is_optional))]);
    reveal_with_fuel(first_missing_from, 3);
}

} // verus!
