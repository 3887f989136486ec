//! Laws of the merge engine: what a second, equal declaration does.
use vstd::prelude::*;
use crate::context::ContextConfig;
use crate::error::ErrorView;
use crate::kind::ConfigEntryOperationKind;
use crate::laws::{lemma_index_of, lemma_set_entry};
use crate::merge_model::{merge_pair, range_fault};
use crate::model::{DictView, EntryView, ValueView};
use crate::value::{DictValue, Value, ValueRef};

verus! {

/// Every value of the attributes is valid all the way down.
pub open spec fn all_deep_wf(entries: Seq<EntryView>) -> bool
    decreases entries,
{
    forall|i: int| 0 <= i < entries.len() ==> (#[trigger] entries[i]).value.deep_wf()
}

/// No attribute is declared with `Insert`, all the way down.
pub open spec fn all_insert_free(entries: Seq<EntryView>) -> bool
    decreases entries,
{
    forall|i: int|
        0 <= i < entries.len() ==> (#[trigger] entries[i]).op != ConfigEntryOperationKind::Insert
            && entries[i].value.insert_free()
}

impl DictView {
    /// The table is valid all the way down: no table in it, at any depth of
    /// nested dictionaries and schema instances, holds a name twice.
    pub open spec fn deep_wf(self) -> bool {
        self.wf() && all_deep_wf(self.entries)
    }
}

impl ValueView {
    /// The value is valid all the way down: no table in it, at any depth of
    /// nested dictionaries and schema instances, holds a name twice. Every
    /// value that the library builds is.
    pub open spec fn deep_wf(self) -> bool
        decreases self,
    {
        match self {
            ValueView::Dict(d) => d.wf() && all_deep_wf(d.entries),
            ValueView::Schema(s) => s.config.wf() && all_deep_wf(s.config.entries),
            _ => true,
        }
    }

    /// No table in the value, at any depth of nested dictionaries and schema
    /// instances, has an attribute declared with `Insert`.
    pub open spec fn insert_free(self) -> bool
        decreases self,
    {
        match self {
            ValueView::Dict(d) => all_insert_free(d.entries),
            ValueView::Schema(s) => all_insert_free(s.config.entries),
            _ => true,
        }
    }
}

/// Setting an attribute that the table already holds as it is changes
/// nothing.
pub proof fn lemma_set_entry_same(d: DictView, e: EntryView)
    requires
        d.wf(),
        d.get(e.key) == Some(e),
    ensures
        d.set_entry(e) == d,
{
    let i = d.index_of(e.key);
    assert(d.entries.update(i, e) =~= d.entries);
}

impl DictView {
    /// The value that the attribute `e.key` has once `e` is merged in.
    pub open spec fn merged_value(self, e: EntryView, check: bool) -> ValueView {
        match self.get(e.key) {
            None => e.value,
            Some(held) => match e.op {
                ConfigEntryOperationKind::Union => held.value.union_with(
                    e.value,
                    e.key,
                    held.op,
                    e.op,
                    check,
                )->Ok_0,
                ConfigEntryOperationKind::Override => e.value,
                ConfigEntryOperationKind::Insert => held.value.insert_items(
                    e.value,
                    e.insert_index,
                )->Ok_0,
            },
        }
    }
}

/// A merge that succeeds sets one attribute: the one that the declaration
/// names, with the operation and position of the declaration. Every other
/// name is left as it was.
pub proof fn lemma_merge_entry_shape(h: DictView, e: EntryView, check: bool)
    requires
        h.wf(),
        h.merge_entry(e, check) is Ok,
    ensures
        h.merge_entry(e, check)->Ok_0 == h.set_entry(
            EntryView { value: h.merged_value(e, check), ..e },
        ),
        h.merge_entry(e, check)->Ok_0.wf(),
        h.merge_entry(e, check)->Ok_0.get(e.key) == Some(
            EntryView { value: h.merged_value(e, check), ..e },
        ),
        forall|k: Seq<char>|
            k != e.key ==> #[trigger] h.merge_entry(e, check)->Ok_0.get(k) == h.get(k),
{
    let ne = EntryView { value: h.merged_value(e, check), ..e };
    lemma_set_entry(h, ne);
}

/// The attributes of a table that is valid all the way down, one changed
/// for a value that is valid all the way down, are valid all the way down.
pub proof fn lemma_set_entry_deep_wf(h: DictView, e: EntryView)
    requires
        h.deep_wf(),
        e.value.deep_wf(),
    ensures
        h.set_entry(e).deep_wf(),
{
    lemma_set_entry(h, e);
    let r = h.set_entry(e);
    assert forall|i: int| 0 <= i < r.entries.len() implies (
    #[trigger] r.entries[i]).value.deep_wf() by {
        if h.contains_key(e.key) {
            if i != h.index_of(e.key) {
                assert(r.entries[i] == h.entries[i]);
            }
        } else {
            if i < h.entries.len() {
                assert(r.entries[i] == h.entries[i]);
            }
        }
    }
}

/// A merge that changed nothing in one table changes nothing in another
/// table that holds the same under the name.
pub proof fn lemma_merge_entry_elsewhere(p: DictView, r: DictView, e: EntryView, check: bool)
    requires
        p.wf(),
        r.wf(),
        p.get(e.key) == r.get(e.key),
        p.merge_entry(e, check) == Ok::<DictView, ErrorView>(p),
    ensures
        r.merge_entry(e, check) == Ok::<DictView, ErrorView>(r),
{
    lemma_merge_entry_shape(p, e, check);
    let ne = EntryView { value: p.merged_value(e, check), ..e };
    if p.get(e.key) is None {
        assert(p.entries.push(e).len() == p.entries.len() + 1);
        assert(false);
    }
    assert(p.get(e.key) == Some(ne));
    assert(r.merged_value(e, check) == p.merged_value(e, check));
    lemma_set_entry_same(r, ne);
}

/// Declarations that each change nothing change nothing together.
pub proof fn lemma_merge_repeat(r: DictView, delta: Seq<EntryView>, m: nat, check: bool)
    requires
        m <= delta.len(),
        forall|j: int|
            0 <= j < m ==> r.merge_entry(#[trigger] delta[j], check) == Ok::<DictView, ErrorView>(
                r,
            ),
    ensures
        r.merge_upto(delta, m, check) == Ok::<DictView, ErrorView>(r),
    decreases m,
{
    if m > 0 {
        lemma_merge_repeat(r, delta, (m - 1) as nat, check);
    }
}

/// Merging a value into what an earlier merge of the same value gave
/// changes nothing.
pub proof fn lemma_union_absorbs(
    x: ValueView,
    v: ValueView,
    key: Seq<char>,
    existing_op: ConfigEntryOperationKind,
    new_op: ConfigEntryOperationKind,
    key2: Seq<char>,
    existing_op2: ConfigEntryOperationKind,
    new_op2: ConfigEntryOperationKind,
    check: bool,
)
    requires
        x.deep_wf(),
        v.deep_wf(),
        v.insert_free(),
        x.union_with(v, key, existing_op, new_op, check) is Ok,
    ensures
        x.union_with(v, key, existing_op, new_op, check)->Ok_0.deep_wf(),
        x.union_with(v, key, existing_op, new_op, check)->Ok_0.union_with(
            v,
            key2,
            existing_op2,
            new_op2,
            check,
        ) == Ok::<ValueView, ErrorView>(x.union_with(v, key, existing_op, new_op, check)->Ok_0),
    decreases v, 1nat,
{
    let u = x.union_with(v, key, existing_op, new_op, check)->Ok_0;
    if x.is_none_or_undefined() || (!v.is_none_or_undefined() && !(x.is_config()
        && v.is_config())) {
        // the new value was taken as it is
        assert(u == v);
        if v.is_config() {
            lemma_self_merge(v, check);
        }
    } else if v.is_none_or_undefined() {
        assert(u == x);
    } else {
        let delta = v.config();
        let d = x.config().merge_upto(delta.entries, delta.entries.len(), check)->Ok_0;
        assert(x.config().deep_wf());
        assert(delta.deep_wf());
        lemma_merge_absorbs(x.config(), delta, delta.entries.len(), check);
        lemma_merge_repeat(d, delta.entries, delta.entries.len(), check);
        assert(u == x.with_config(d));
        assert(u.config() == d);
        assert(u.with_config(d) == u);
    }
}

/// Merging a dictionary or schema instance into itself changes nothing.
pub proof fn lemma_self_merge(v: ValueView, check: bool)
    requires
        v.is_config(),
        v.deep_wf(),
        v.insert_free(),
    ensures
        v.config().merge_upto(v.config().entries, v.config().entries.len(), check) == Ok::<
            DictView,
            ErrorView,
        >(v.config()),
    decreases v, 0nat,
{
    let d = v.config();
    assert forall|j: int| 0 <= j < d.entries.len() implies d.merge_entry(
        #[trigger] d.entries[j],
        check,
    ) == Ok::<DictView, ErrorView>(d) by {
        let e = d.entries[j];
        lemma_index_of(d, j);
        if e.op == ConfigEntryOperationKind::Union {
            lemma_union_absorbs(
                ValueView::Undefined,
                e.value,
                e.key,
                e.op,
                e.op,
                e.key,
                e.op,
                e.op,
                check,
            );
        }
        lemma_set_entry_same(d, e);
    }
    lemma_merge_repeat(d, d.entries, d.entries.len(), check);
}

/// Merging a declaration into what an earlier merge of it gave changes
/// nothing.
pub proof fn lemma_merge_entry_absorbs(h: DictView, e: EntryView, check: bool)
    requires
        h.deep_wf(),
        e.value.deep_wf(),
        e.value.insert_free(),
        e.op != ConfigEntryOperationKind::Insert,
        h.merge_entry(e, check) is Ok,
    ensures
        h.merge_entry(e, check)->Ok_0.deep_wf(),
        h.merge_entry(e, check)->Ok_0.merge_entry(e, check) == Ok::<DictView, ErrorView>(
            h.merge_entry(e, check)->Ok_0,
        ),
    decreases e, 0nat,
{
    let r = h.merge_entry(e, check)->Ok_0;
    let mv = h.merged_value(e, check);
    let ne = EntryView { value: mv, ..e };
    lemma_merge_entry_shape(h, e, check);
    match h.get(e.key) {
        None => {
            if e.op == ConfigEntryOperationKind::Union {
                lemma_union_absorbs(
                    ValueView::Undefined,
                    e.value,
                    e.key,
                    e.op,
                    e.op,
                    e.key,
                    e.op,
                    e.op,
                    check,
                );
            }
        },
        Some(held) => {
            let i = h.index_of(e.key);
            assert(held == h.entries[i]);
            assert(held.value.deep_wf());
            if e.op == ConfigEntryOperationKind::Union {
                lemma_union_absorbs(
                    held.value,
                    e.value,
                    e.key,
                    held.op,
                    e.op,
                    e.key,
                    e.op,
                    e.op,
                    check,
                );
            }
        },
    }
    assert(mv.deep_wf());
    lemma_set_entry_deep_wf(h, ne);
    lemma_set_entry_same(r, ne);
}

/// Merging any of the first `n` declarations of a table into what merging
/// them all gave changes nothing.
pub proof fn lemma_merge_absorbs(h: DictView, delta: DictView, n: nat, check: bool)
    requires
        h.deep_wf(),
        delta.deep_wf(),
        all_insert_free(delta.entries),
        n <= delta.entries.len(),
        h.merge_upto(delta.entries, n, check) is Ok,
    ensures
        h.merge_upto(delta.entries, n, check)->Ok_0.deep_wf(),
        forall|j: int|
            0 <= j < n ==> h.merge_upto(delta.entries, n, check)->Ok_0.merge_entry(
                #[trigger] delta.entries[j],
                check,
            ) == Ok::<DictView, ErrorView>(h.merge_upto(delta.entries, n, check)->Ok_0),
    decreases delta.entries, n,
{
    if n > 0 {
        let p = h.merge_upto(delta.entries, (n - 1) as nat, check)->Ok_0;
        let e = delta.entries[n - 1];
        let r = h.merge_upto(delta.entries, n, check)->Ok_0;
        lemma_merge_absorbs(h, delta, (n - 1) as nat, check);
        assert(r == p.merge_entry(e, check)->Ok_0);
        lemma_merge_entry_absorbs(p, e, check);
        lemma_merge_entry_shape(p, e, check);
        assert forall|j: int| 0 <= j < n implies r.merge_entry(
            #[trigger] delta.entries[j],
            check,
        ) == Ok::<DictView, ErrorView>(r) by {
            if j < n - 1 {
                assert(delta.entries[j].key != delta.entries[n - 1].key);
                lemma_merge_entry_elsewhere(p, r, delta.entries[j], check);
            }
        }
    }
}

/// A declaration made twice: where merging a declaration into a table has
/// succeeded, merging the same declaration again succeeds and changes
/// nothing. It holds with and without the idempotent check, of every
/// declaration without `Insert` in it: `Insert` puts its items in once more.
pub proof fn law_declare_twice(d: DictView, e: EntryView, check: bool)
    requires
        d.deep_wf(),
        e.value.deep_wf(),
        e.value.insert_free(),
        e.op != ConfigEntryOperationKind::Insert,
        d.merge_entry(e, check) is Ok,
    ensures
        d.merge_entry(e, check)->Ok_0.merge_entry(e, check) == Ok::<DictView, ErrorView>(
            d.merge_entry(e, check)->Ok_0,
        ),
{
    lemma_merge_entry_absorbs(d, e, check);
}

/// A checked `Union` declaration of another value: where the table holds
/// the name with a value, and neither that value nor the new one is `None`
/// or `Undefined`, nor are both dictionaries or schema instances, a new
/// value that differs is a `RedeclarationConflict` that names the key and
/// both operations.
pub proof fn law_declare_other_value(d: DictView, e: EntryView)
    requires
        e.op == ConfigEntryOperationKind::Union,
        d.get(e.key) is Some,
        !d.get(e.key)->Some_0.value.is_none_or_undefined(),
        !e.value.is_none_or_undefined(),
        !(d.get(e.key)->Some_0.value.is_config() && e.value.is_config()),
        d.get(e.key)->Some_0.value != e.value,
    ensures
        d.merge_entry(e, true) == Err::<DictView, ErrorView>(
            ErrorView::RedeclarationConflict {
                key: e.key,
                existing_op: d.get(e.key)->Some_0.op,
                new_op: ConfigEntryOperationKind::Union,
            },
        ),
        d.merge_entry(e, false) is Ok,
        d.merge_entry(e, false)->Ok_0.value_of(e.key) == Some(e.value) || !d.wf(),
{
    if d.wf() {
        lemma_merge_entry_shape(d, e, false);
    }
}

/// A declaration made twice through a value: where merging a declaration
/// into a dictionary or schema instance has succeeded, merging the same
/// declaration into the result succeeds and changes nothing.
pub proof fn law_insert_twice(cfg: ContextConfig, this: ValueView, e: EntryView, check: bool)
    requires
        this.deep_wf(),
        e.value.deep_wf(),
        e.value.insert_free(),
        e.op != ConfigEntryOperationKind::Insert,
        merge_pair(cfg, this, e, check) is Ok,
    ensures
        merge_pair(cfg, merge_pair(cfg, this, e, check)->Ok_0, e, check) == Ok::<
            ValueView,
            ErrorView,
        >(merge_pair(cfg, this, e, check)->Ok_0),
{
    let d = this.config();
    assert(d.deep_wf());
    lemma_merge_entry_absorbs(d, e, check);
    let d1 = d.merge_entry(e, check)->Ok_0;
    let v1 = this.with_config(d1);
    assert(v1.config() == d1);
    assert(v1.with_config(d1) == v1);
}

/// The range check of debug mode: with the strict check an integer passes
/// exactly where it fits 32 bits, and merging one that does not fails with
/// `IntOverflowError`; without the strict check, and outside debug mode,
/// every integer passes.
pub proof fn law_range_check(cfg: ContextConfig, this: ValueView, e: EntryView, check: bool)
    requires
        e.value is Int,
    ensures
        cfg.debug_mode && cfg.strict_range_check ==> (range_fault(cfg, e.value) is None <==> -0x8000_0000
            <= e.value->Int_0 <= 0x7fff_ffff),
        cfg.debug_mode && cfg.strict_range_check && !(-0x8000_0000 <= e.value->Int_0
            <= 0x7fff_ffff) ==> merge_pair(cfg, this, e, check) == Err::<ValueView, ErrorView>(
            ErrorView::IntOverflowError { value: e.value->Int_0, bits: 32 },
        ),
        !(cfg.debug_mode && cfg.strict_range_check) ==> range_fault(cfg, e.value) is None,
{
}

/// Walks a table and shows that it is valid all the way down.
pub fn dict_prove_valid(d: &DictValue)
    ensures
        d@.deep_wf(),
    decreases d,
{
    proof {
        d.lemma_view();
        use_type_invariant(d);
    }
    let mut i: usize = 0;
    while i < d.entries.len()
        invariant
            0 <= i <= d.entries@.len(),
            d@.entries.len() == d.entries@.len(),
            forall|j: int|
                0 <= j < d.entries@.len() ==> #[trigger] d@.entries[j] == d.entries@[j]@,
            forall|j: int| 0 <= j < i ==> (#[trigger] d@.entries[j]).value.deep_wf(),
        decreases d.entries@.len() - i,
    {
        let e = &d.entries[i];
        e.value.prove_valid();
        assert(d@.entries[i as int].value == e.value@);
        i += 1;
    }
}

impl ValueRef {
    /// Walks the value and shows that it is valid all the way down: no table
    /// in it holds a name twice. It computes nothing; the laws of the merge
    /// engine ask this of the values they speak of.
    pub fn prove_valid(&self)
        ensures
            self@.deep_wf(),
        decreases self,
    {
        match &*self.rc {
            Value::dict_value(d) => {
                dict_prove_valid(d);
            },
            Value::schema_value(s) => {
                assert(self@ == ValueView::Schema(s@));
                dict_prove_valid(&s.config);
            },
            _ => {},
        }
    }
}

} // verus!
