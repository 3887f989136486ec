//! The merge engine: folding declarations into an attribute table.
use vstd::prelude::*;
use crate::error::{ErrorView, RuntimeError};
use crate::kind::ConfigEntryOperationKind;
use crate::model::{DictView, EntryView, ValueView};
use crate::val_basic::value_eq;
use crate::value::{DictEntry, DictValue, Value, ValueRef};

verus! {

/// Whether `r` is what the model gives, as a value or as a failure.
pub open spec fn value_result_is(
    r: Result<ValueRef, RuntimeError>,
    model: Result<ValueView, ErrorView>,
) -> bool {
    match r {
        Ok(v) => model == Ok::<ValueView, ErrorView>(v@),
        Err(e) => model == Err::<ValueView, ErrorView>(e@),
    }
}

/// The held list with the items of `items` put in at `index`; at the end
/// where `index` is negative or beyond the end. A held `None` or `Undefined`
/// counts as the empty list. Fails with `InvalidValueType` where the held
/// value, or else `items`, is of another kind.
pub fn insert_items(held: &ValueRef, items: &ValueRef, index: i32) -> (r: Result<
    ValueRef,
    RuntimeError,
>)
    ensures
        value_result_is(r, held@.insert_items(items@, index)),
{
    let empty: Vec<ValueRef> = Vec::new();
    let base: &Vec<ValueRef> = match &*held.rc {
        Value::list_value(xs) => xs,
        Value::none => &empty,
        Value::undefined => &empty,
        _ => {
            return Err(RuntimeError::InvalidValueType { type_str: held.type_str() });
        },
    };
    let added: &Vec<ValueRef> = match &*items.rc {
        Value::list_value(ys) => ys,
        _ => {
            return Err(RuntimeError::InvalidValueType { type_str: items.type_str() });
        },
    };
    let ghost held_seq = if held@ is List {
        held@->List_0
    } else {
        Seq::<ValueView>::empty()
    };
    assert(held_seq.len() == base@.len());
    assert(forall|j: int| 0 <= j < base@.len() ==> held_seq[j] == (#[trigger] base@[j])@);
    let at: usize = if index >= 0 && (index as usize) <= base.len() {
        index as usize
    } else {
        base.len()
    };
    let ghost want = held_seq.subrange(0, at as int) + items@->List_0 + held_seq.subrange(
        at as int,
        held_seq.len() as int,
    );
    let mut out: Vec<ValueRef> = Vec::new();
    let mut i: usize = 0;
    while i < at
        invariant
            0 <= i <= at <= base@.len(),
            out@.len() == i,
            forall|j: int| 0 <= j < i ==> #[trigger] out@[j] == base@[j],
        decreases at - i,
    {
        out.push(base[i].clone());
        i += 1;
    }
    let mut k: usize = 0;
    while k < added.len()
        invariant
            0 <= k <= added@.len(),
            at <= base@.len(),
            out@.len() == at + k,
            forall|j: int| 0 <= j < at ==> #[trigger] out@[j] == base@[j],
            forall|j: int| 0 <= j < k ==> #[trigger] out@[at + j] == added@[j],
        decreases added@.len() - k,
    {
        out.push(added[k].clone());
        k += 1;
    }
    let mut m: usize = at;
    while m < base.len()
        invariant
            at <= m <= base@.len(),
            out@.len() == added@.len() + m,
            forall|j: int| 0 <= j < at ==> #[trigger] out@[j] == base@[j],
            forall|j: int| 0 <= j < added@.len() ==> #[trigger] out@[at + j] == added@[j],
            forall|j: int| at <= j < m ==> #[trigger] out@[added@.len() + j] == base@[j],
        decreases base@.len() - m,
    {
        out.push(base[m].clone());
        m += 1;
    }
    let r = ValueRef::from_value(Value::list_value(out));
    proof {
        assert(r@->List_0.len() == want.len());
        assert forall|j: int| 0 <= j < want.len() implies r@->List_0[j] == want[j] by {
            if j < at {
                assert(out@[j] == base@[j]);
            } else if j < at + added@.len() {
                assert(out@[at + (j - at)] == added@[j - at]);
            } else {
                assert(out@[added@.len() + (j - added@.len())] == base@[j - added@.len()]);
            }
        }
        assert(r@->List_0 =~= want);
    }
    Ok(r)
}

/// The merge of the new value into the held one, for the attribute `key`.
///
/// `None` and `Undefined` yield to the other value. Two tables (each a
/// dictionary or a schema instance) merge attribute by attribute into the
/// held one, which keeps its identity. Of any other two values the new one
/// wins; with `check` they must be the same value, else the result is a
/// `RedeclarationConflict` that names the key and both operations.
pub fn union_value(
    held: &ValueRef,
    new: &ValueRef,
    key: &String,
    existing_op: ConfigEntryOperationKind,
    new_op: ConfigEntryOperationKind,
    check: bool,
) -> (r: Result<ValueRef, RuntimeError>)
    ensures
        value_result_is(r, held@.union_with(new@, key@, existing_op, new_op, check)),
    decreases new, 0nat,
{
    if held.is_none_or_undefined() {
        return Ok(new.clone());
    }
    if new.is_none_or_undefined() {
        return Ok(held.clone());
    }
    if held.is_config() {
        let delta: Option<&DictValue> = match &*new.rc {
            Value::dict_value(d) => Some(d),
            Value::schema_value(s) => {
                assert(new@ == ValueView::Schema(s@));
                Some(&s.config)
            },
            _ => None,
        };
        if let Some(delta) = delta {
            let mut merged = match held.dict_config() {
                Ok(d) => d.clone(),
                Err(e) => {
                    return Err(e);
                },
            };
            return match merge_into(&mut merged, delta, check) {
                Ok(()) => Ok(held.with_config(merged)),
                Err(e) => Err(e),
            };
        }
    }
    if check && !value_eq(held, new) {
        Err(RuntimeError::RedeclarationConflict { key: key.clone(), existing_op, new_op })
    } else {
        Ok(new.clone())
    }
}

/// Merges one declaration into the table. Where the table lacks the name,
/// the declaration is added at the end. Where it holds the name, `Union`
/// merges the values, `Override` replaces the held value, `Insert` puts the
/// items of the new list into the held list; the attribute takes the
/// operation and position of the declaration. On a failure the table is
/// left as it was.
pub fn merge_entry_into(table: &mut DictValue, entry: &DictEntry, check: bool) -> (r: Result<
    (),
    RuntimeError,
>)
    ensures
        match r {
            Ok(()) => old(table)@.merge_entry(entry@, check) == Ok::<DictView, ErrorView>(
                final(table)@,
            ),
            Err(e) => old(table)@.merge_entry(entry@, check) == Err::<DictView, ErrorView>(e@)
                && final(table)@ == old(table)@,
        },
    decreases entry, 0nat,
{
    let held: Option<(ValueRef, ConfigEntryOperationKind)> = match table.get_entry(
        entry.key.as_str(),
    ) {
        Some(e) => Some((e.value.clone(), e.op)),
        None => None,
    };
    match held {
        None => {
            table.set_entry(entry.clone());
            Ok(())
        },
        Some((held_value, held_op)) => {
            let merged = match entry.op {
                ConfigEntryOperationKind::Union => union_value(
                    &held_value,
                    &entry.value,
                    &entry.key,
                    held_op,
                    entry.op,
                    check,
                ),
                ConfigEntryOperationKind::Override => Ok(entry.value.clone()),
                ConfigEntryOperationKind::Insert => insert_items(
                    &held_value,
                    &entry.value,
                    entry.insert_index,
                ),
            };
            match merged {
                Ok(value) => {
                    table.set_entry(
                        DictEntry {
                            key: entry.key.clone(),
                            value,
                            op: entry.op,
                            insert_index: entry.insert_index,
                        },
                    );
                    Ok(())
                },
                Err(e) => Err(e),
            }
        },
    }
}

/// Merges every declaration of `delta` into the table, in their order. The
/// first failure ends it; the table then holds what was merged before it.
pub fn merge_into(table: &mut DictValue, delta: &DictValue, check: bool) -> (r: Result<
    (),
    RuntimeError,
>)
    ensures
        match r {
            Ok(()) => old(table)@.merge(delta@, check) == Ok::<DictView, ErrorView>(
                final(table)@,
            ),
            Err(e) => old(table)@.merge(delta@, check) == Err::<DictView, ErrorView>(e@),
        },
    decreases delta, 1nat,
{
    proof {
        delta.lemma_view();
    }
    let mut i: usize = 0;
    while i < delta.entries.len()
        invariant
            0 <= i <= delta.entries@.len(),
            delta@.entries.len() == delta.entries@.len(),
            forall|j: int|
                0 <= j < delta.entries@.len() ==> #[trigger] delta@.entries[j]
                    == delta.entries@[j]@,
            old(table)@.merge_upto(delta@.entries, i as nat, check) == Ok::<DictView, ErrorView>(
                table@,
            ),
        decreases delta.entries@.len() - i,
    {
        match merge_entry_into(table, &delta.entries[i], check) {
            Ok(()) => {},
            Err(e) => {
                proof {
                    lemma_merge_failure_stays(
                        old(table)@,
                        delta@.entries,
                        (i + 1) as nat,
                        delta@.entries.len(),
                        check,
                    );
                }
                return Err(e);
            },
        }
        i += 1;
    }
    Ok(())
}

/// Once merging the first `n` declarations has failed, merging more of them
/// fails in the same way.
pub proof fn lemma_merge_failure_stays(
    table: DictView,
    delta: Seq<EntryView>,
    n: nat,
    m: nat,
    check: bool,
)
    requires
        n <= m <= delta.len(),
        table.merge_upto(delta, n, check) is Err,
    ensures
        table.merge_upto(delta, m, check) == table.merge_upto(delta, n, check),
    decreases m,
{
    if n < m {
        lemma_merge_failure_stays(table, delta, n, (m - 1) as nat, check);
    }
}

} // verus!
