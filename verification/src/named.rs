//! Lists of named entries: lookup, removal and ordering by name.

use vstd::prelude::*;

use crate::text;
use crate::text::{str_eq, str_le};

verus! {

/// An entry that has a name and can be switched on and off.
pub trait Named: Sized {
    /// The name of the entry.
    spec fn spec_name(&self) -> Seq<char>;

    /// Whether the entry is switched on.
    spec fn spec_enabled(&self) -> bool;

    /// The entry with its enabled flag set to `on`.
    spec fn spec_with_enabled(&self, on: bool) -> Self;

    /// The name of the entry.
    fn entry_name(&self) -> (r: &str)
        ensures
            r@ == self.spec_name(),
    ;

    /// Whether the entry is switched on.
    fn is_enabled(&self) -> (r: bool)
        ensures
            r == self.spec_enabled(),
    ;

    /// Sets the enabled flag.
    fn put_enabled(&mut self, on: bool)
        ensures
            *final(self) == old(self).spec_with_enabled(on),
            final(self).spec_name() == old(self).spec_name(),
            final(self).spec_enabled() == on,
    ;
}

/// Whether some entry of `s` is called `name`.
pub open spec fn has_name<T: Named>(s: Seq<T>, name: Seq<char>) -> bool {
    exists|i: int| 0 <= i < s.len() && #[trigger] s[i].spec_name() == name
}

/// The test for entries that are called `name`.
pub open spec fn called<T: Named>(name: Seq<char>) -> spec_fn(T) -> bool {
    |t: T| t.spec_name() == name
}

/// The test for entries that are not called `name`.
pub open spec fn not_called<T: Named>(name: Seq<char>) -> spec_fn(T) -> bool {
    |t: T| t.spec_name() != name
}

/// The test for entries that are switched on.
pub open spec fn switched_on<T: Named>() -> spec_fn(T) -> bool {
    |t: T| t.spec_enabled()
}

/// `s` without the entries that are called `name`, in the same order.
pub open spec fn without_name<T: Named>(s: Seq<T>, name: Seq<char>) -> Seq<T> {
    s.filter(not_called::<T>(name))
}

/// The entries of `s` that are switched on, in the same order.
pub open spec fn enabled_only<T: Named>(s: Seq<T>) -> Seq<T> {
    s.filter(switched_on::<T>())
}

/// `s` with the enabled flag of every entry called `name` set to `on`.
pub open spec fn with_enabled<T: Named>(s: Seq<T>, name: Seq<char>, on: bool) -> Seq<T> {
    s.map_values(
        |t: T|
            if t.spec_name() == name {
                t.spec_with_enabled(on)
            } else {
                t
            },
    )
}

/// The number of leading entries of `s` after which an entry called `name` goes: all those up to
/// the last one whose name does not come after `name`.
pub open spec fn slot<T: Named>(s: Seq<T>, name: Seq<char>) -> nat
    decreases s.len(),
{
    if s.len() == 0 {
        0
    } else if text::text_le(s.last().spec_name(), name) {
        s.len()
    } else {
        slot(s.drop_last(), name)
    }
}

/// The stable sort of `s` by name: each entry in turn goes behind those that do not come after it.
pub open spec fn sorted_by_name<T: Named>(s: Seq<T>) -> Seq<T>
    decreases s.len(),
{
    if s.len() == 0 {
        s
    } else {
        let front = sorted_by_name(s.drop_last());
        front.insert(slot(front, s.last().spec_name()) as int, s.last())
    }
}

/// Whether the names of `s` are in ascending order.
pub open spec fn is_sorted<T: Named>(s: Seq<T>) -> bool {
    forall|i: int, j: int|
        0 <= i <= j < s.len() ==> text::text_le(#[trigger] s[i].spec_name(), #[trigger] s[j].spec_name())
}

proof fn lemma_slot_bound<T: Named>(s: Seq<T>, name: Seq<char>)
    ensures
        slot(s, name) <= s.len(),
        slot(s, name) > 0 ==> text::text_le(s[slot(s, name) - 1].spec_name(), name),
        forall|i: int| slot(s, name) <= i < s.len() ==> !text::text_le(#[trigger] s[i].spec_name(), name),
    decreases s.len(),
{
    if s.len() > 0 && !text::text_le(s.last().spec_name(), name) {
        let t = s.drop_last();
        lemma_slot_bound(t, name);
        assert forall|i: int| slot(s, name) <= i < s.len() implies !text::text_le(
            #[trigger] s[i].spec_name(),
            name,
        ) by {
            if i < t.len() {
                assert(t[i] == s[i]);
            }
        }
    }
}

proof fn lemma_sorted_len<T: Named>(s: Seq<T>)
    ensures
        sorted_by_name(s).len() == s.len(),
    decreases s.len(),
{
    if s.len() > 0 {
        lemma_sorted_len(s.drop_last());
        lemma_slot_bound(sorted_by_name(s.drop_last()), s.last().spec_name());
    }
}

/// Sorting puts the names in ascending order.
pub proof fn lemma_sort_sorts<T: Named>(s: Seq<T>)
    ensures
        is_sorted(sorted_by_name(s)),
    decreases s.len(),
{
    if s.len() > 0 {
        let front = sorted_by_name(s.drop_last());
        let x = s.last();
        let k = slot(front, x.spec_name()) as int;
        let r = sorted_by_name(s);
        lemma_sort_sorts(s.drop_last());
        lemma_slot_bound(front, x.spec_name());
        assert(r == front.insert(k, x));
        assert forall|i: int, j: int| 0 <= i <= j < r.len() implies text::text_le(
            #[trigger] r[i].spec_name(),
            #[trigger] r[j].spec_name(),
        ) by {
            let n = x.spec_name();
            if i < k && j < k {
                assert(r[i] == front[i] && r[j] == front[j]);
            } else if i > k {
                assert(r[i] == front[i - 1] && r[j] == front[j - 1]);
            } else if i < k && j > k {
                assert(r[i] == front[i] && r[j] == front[j - 1]);
            } else if i < k {
                assert(r[i] == front[i]);
                assert(text::text_le(front[i].spec_name(), front[k - 1].spec_name()));
                text::lemma_text_le_total_order(
                    front[i].spec_name(),
                    front[k - 1].spec_name(),
                    n,
                );
            } else if j > k {
                assert(r[j] == front[j - 1]);
                text::lemma_text_le_total_order(n, front[j - 1].spec_name(), n);
            } else {
                text::lemma_text_le_total_order(n, n, n);
            }
        }
    }
}

/// Sorting keeps every entry, as often as it occurs.
pub proof fn lemma_sort_permutes<T: Named>(s: Seq<T>)
    ensures
        sorted_by_name(s).to_multiset() == s.to_multiset(),
        sorted_by_name(s).len() == s.len(),
    decreases s.len(),
{
    lemma_sorted_len(s);
    if s.len() > 0 {
        let t = s.drop_last();
        let front = sorted_by_name(t);
        let x = s.last();
        let k = slot(front, x.spec_name()) as int;
        lemma_sort_permutes(t);
        lemma_slot_bound(front, x.spec_name());
        vstd::seq_lib::to_multiset_insert(front, k, x);
        assert(s =~= t.push(x));
        broadcast use vstd::seq_lib::group_to_multiset_ensures;
    }
}

/// Sorting is stable: the entries that share a name keep their order.
pub proof fn lemma_sort_stable<T: Named>(s: Seq<T>, name: Seq<char>)
    ensures
        sorted_by_name(s).filter(called(name)) == s.filter(called(name)),
    decreases s.len(),
{
    let p = called::<T>(name);
    if s.len() > 0 {
        let t = s.drop_last();
        let front = sorted_by_name(t);
        let x = s.last();
        let k = slot(front, x.spec_name()) as int;
        lemma_sort_stable(t, name);
        lemma_slot_bound(front, x.spec_name());
        lemma_sorted_len(t);
        let lo = front.take(k);
        let hi = front.skip(k);
        let r = sorted_by_name(s);
        assert(r =~= (lo + seq![x]) + hi);
        assert(front =~= lo + hi);
        assert(s =~= t + seq![x]);
        Seq::filter_distributes_over_add(lo + seq![x], hi, p);
        Seq::filter_distributes_over_add(lo, seq![x], p);
        Seq::filter_distributes_over_add(lo, hi, p);
        Seq::filter_distributes_over_add(t, seq![x], p);
        if p(x) {
            assert forall|i: int| 0 <= i < hi.len() implies !p(#[trigger] hi[i]) by {
                assert(hi[i] == front[k + i]);
                text::lemma_text_le_total_order(x.spec_name(), x.spec_name(), x.spec_name());
            }
            lemma_filter_none(hi, p);
            assert(lo.filter(p) + seq![x].filter(p) + hi.filter(p) =~= lo.filter(p) + hi.filter(p)
                + seq![x].filter(p));
        } else {
            lemma_filter_none(seq![x], p);
            assert(lo.filter(p) + seq![x].filter(p) + hi.filter(p) =~= lo.filter(p) + hi.filter(p)
                + seq![x].filter(p));
        }
    }
}

/// What a filter lets through satisfies it and was there before.
pub proof fn lemma_filter_keeps<T>(s: Seq<T>, p: spec_fn(T) -> bool, i: int)
    requires
        0 <= i < s.filter(p).len(),
    ensures
        p(s.filter(p)[i]),
        s.contains(s.filter(p)[i]),
    decreases s.len(),
{
    reveal(Seq::filter);
    let front = s.drop_last();
    if i < front.filter(p).len() {
        lemma_filter_keeps(front, p, i);
        let j = choose|j: int| 0 <= j < front.len() && front[j] == front.filter(p)[i];
        assert(s[j] == front.filter(p)[i]);
    } else {
        assert(s[s.len() - 1] == s.last());
    }
}

proof fn lemma_filter_none<T>(s: Seq<T>, p: spec_fn(T) -> bool)
    requires
        forall|i: int| 0 <= i < s.len() ==> !p(#[trigger] s[i]),
    ensures
        s.filter(p) == Seq::<T>::empty(),
    decreases s.len(),
{
    reveal(Seq::filter);
    if s.len() > 0 {
        lemma_filter_none(s.drop_last(), p);
    }
}

/// How many entries of `s` are called `name`.
pub open spec fn name_count<T: Named>(s: Seq<T>, name: Seq<char>) -> nat {
    s.filter(called(name)).len()
}

/// A name occurs where it is counted.
pub proof fn lemma_name_count<T: Named>(s: Seq<T>, name: Seq<char>)
    ensures
        has_name(s, name) <==> name_count(s, name) > 0,
{
    let p = called::<T>(name);
    if name_count(s, name) > 0 {
        lemma_filter_keeps(s, p, 0);
        let j = choose|j: int| 0 <= j < s.len() && s[j] == s.filter(p)[0];
        assert(s[j].spec_name() == name);
    } else if has_name(s, name) {
        let j = choose|j: int| 0 <= j < s.len() && #[trigger] s[j].spec_name() == name;
        broadcast use vstd::seq_lib::group_filter_ensures;

        assert(s.filter(p).contains(s[j]));
    }
}

/// Adding an entry in its place adds one to the count of its name and leaves the others.
pub proof fn lemma_count_added<T: Named>(s: Seq<T>, x: T, name: Seq<char>)
    ensures
        name_count(sorted_by_name(s.push(x)), name) == name_count(s, name) + if x.spec_name()
            == name {
            1nat
        } else {
            0nat
        },
{
    let p = called::<T>(name);
    lemma_sort_stable(s.push(x), name);
    reveal(Seq::filter);
    assert(s.push(x).drop_last() =~= s);
}

/// Sorting keeps how many entries pass a test.
pub proof fn lemma_sort_keeps_count<T: Named>(s: Seq<T>, p: spec_fn(T) -> bool)
    ensures
        sorted_by_name(s).filter(p).len() == s.filter(p).len(),
    decreases s.len(),
{
    if s.len() > 0 {
        let t = s.drop_last();
        let front = sorted_by_name(t);
        let x = s.last();
        let k = slot(front, x.spec_name()) as int;
        lemma_sort_keeps_count(t, p);
        lemma_slot_bound(front, x.spec_name());
        let lo = front.take(k);
        let hi = front.skip(k);
        assert(sorted_by_name(s) =~= (lo + seq![x]) + hi);
        assert(front =~= lo + hi);
        assert(s =~= t + seq![x]);
        Seq::filter_distributes_over_add(lo + seq![x], hi, p);
        Seq::filter_distributes_over_add(lo, seq![x], p);
        Seq::filter_distributes_over_add(lo, hi, p);
        Seq::filter_distributes_over_add(t, seq![x], p);
    }
}

/// Dropping a name leaves no more entries that pass a test.
pub proof fn lemma_drop_keeps_bound<T: Named>(s: Seq<T>, name: Seq<char>, p: spec_fn(T) -> bool)
    ensures
        without_name(s, name).filter(p).len() <= s.filter(p).len(),
    decreases s.len(),
{
    reveal(Seq::filter);
    let q = not_called::<T>(name);
    if s.len() > 0 {
        let t = s.drop_last();
        lemma_drop_keeps_bound(t, name, p);
        if q(s.last()) {
            let kept = t.filter(q);
            assert(s.filter(q) =~= kept.push(s.last()));
            assert(kept.push(s.last()).drop_last() =~= kept);
        }
    } else {
        assert(without_name(s, name) =~= s);
    }
}

/// Switching a name keeps how many entries pass a test that does not look at the flag.
pub proof fn lemma_switch_keeps_count<T: Named>(
    s: Seq<T>,
    name: Seq<char>,
    on: bool,
    p: spec_fn(T) -> bool,
)
    requires
        forall|t: T, b: bool| p(#[trigger] t.spec_with_enabled(b)) == p(t),
    ensures
        with_enabled(s, name, on).filter(p).len() == s.filter(p).len(),
    decreases s.len(),
{
    reveal(Seq::filter);
    let w = with_enabled(s, name, on);
    if s.len() > 0 {
        let t = s.drop_last();
        lemma_switch_keeps_count(t, name, on, p);
        assert(w.drop_last() =~= with_enabled(t, name, on));
        assert(p(w.last()) == p(s.last()));
    } else {
        assert(w =~= s);
    }
}

/// A list in order stays as it is when it is sorted.
pub proof fn lemma_sorted_stays<T: Named>(s: Seq<T>)
    requires
        is_sorted(s),
    ensures
        sorted_by_name(s) == s,
    decreases s.len(),
{
    if s.len() > 0 {
        let t = s.drop_last();
        assert forall|i: int, j: int| 0 <= i <= j < t.len() implies text::text_le(
            #[trigger] t[i].spec_name(),
            #[trigger] t[j].spec_name(),
        ) by {
            assert(t[i] == s[i] && t[j] == s[j]);
        }
        lemma_sorted_stays(t);
        if t.len() > 0 {
            assert(t.last() == s[s.len() - 2]);
        }
        assert(slot(t, s.last().spec_name()) == t.len());
        assert(t.insert(t.len() as int, s.last()) =~= s);
    } else {
        assert(s =~= sorted_by_name(s));
    }
}

/// Dropping a name that does not occur changes nothing.
pub proof fn lemma_drop_absent<T: Named>(s: Seq<T>, name: Seq<char>)
    requires
        !has_name(s, name),
    ensures
        without_name(s, name) == s,
    decreases s.len(),
{
    reveal(Seq::filter);
    if s.len() > 0 {
        let t = s.drop_last();
        assert(s[s.len() - 1].spec_name() != name);
        assert forall|i: int| 0 <= i < t.len() implies #[trigger] t[i].spec_name() != name by {
            assert(t[i] == s[i]);
        }
        lemma_drop_absent(t, name);
        assert(t.push(s.last()) =~= s);
    } else {
        assert(without_name(s, name) =~= s);
    }
}

/// Dropping undoes adding: a list in order to which an entry of a new name was added is itself
/// again when that name is dropped.
pub proof fn lemma_drop_undoes_add<T: Named>(s: Seq<T>, x: T)
    requires
        is_sorted(s),
        !has_name(s, x.spec_name()),
    ensures
        without_name(sorted_by_name(s.push(x)), x.spec_name()) == s,
{
    let name = x.spec_name();
    let p = not_called::<T>(name);
    assert(s.push(x).drop_last() =~= s);
    lemma_sorted_stays(s);
    lemma_slot_bound(s, name);
    let k = slot(s, name) as int;
    let lo = s.take(k);
    let hi = s.skip(k);
    assert(sorted_by_name(s.push(x)) =~= (lo + seq![x]) + hi);
    assert(lo + hi =~= s);
    Seq::filter_distributes_over_add(lo + seq![x], hi, p);
    Seq::filter_distributes_over_add(lo, seq![x], p);
    Seq::filter_distributes_over_add(lo, hi, p);
    lemma_filter_none(seq![x], p);
    lemma_drop_absent(s, name);
    assert(lo.filter(p) + seq![x].filter(p) + hi.filter(p) =~= lo.filter(p) + hi.filter(p));
}

/// After a name has been dropped it does not occur, and every other name occurs as often as before.
pub proof fn lemma_dropped<T: Named>(s: Seq<T>, name: Seq<char>, other: Seq<char>)
    ensures
        name_count(without_name(s, name), other) == if other == name {
            0
        } else {
            name_count(s, other)
        },
    decreases s.len(),
{
    reveal(Seq::filter);
    let p = called::<T>(other);
    let q = not_called::<T>(name);
    if s.len() > 0 {
        let t = s.drop_last();
        lemma_dropped(t, name, other);
        if q(s.last()) {
            let kept = t.filter(q);
            assert(s.filter(q) =~= kept.push(s.last()));
            assert(kept.push(s.last()).drop_last() =~= kept);
        }
    } else {
        assert(without_name(s, name) =~= s);
    }
}

/// Switching a name keeps the number, the order and the names of all entries; only the last switch
/// counts, and no other name is touched.
pub proof fn lemma_switched<T: Named>(s: Seq<T>, name: Seq<char>, first: bool, on: bool)
    requires
        forall|t: T, b: bool, c: bool|
            (#[trigger] t.spec_with_enabled(b).spec_with_enabled(c)) == t.spec_with_enabled(c),
        forall|t: T, b: bool| (#[trigger] t.spec_with_enabled(b)).spec_name() == t.spec_name(),
    ensures
        with_enabled(with_enabled(s, name, first), name, on) == with_enabled(s, name, on),
        with_enabled(s, name, on).len() == s.len(),
        forall|i: int|
            0 <= i < s.len() ==> (#[trigger] with_enabled(s, name, on)[i]).spec_name()
                == s[i].spec_name(),
        forall|i: int|
            0 <= i < s.len() && s[i].spec_name() != name ==> #[trigger] with_enabled(
                s,
                name,
                on,
            )[i] == s[i],
{
    assert(with_enabled(with_enabled(s, name, first), name, on) =~= with_enabled(s, name, on));
}

/// Whether some entry of the list is called `name`.
pub fn contains_name<T: Named>(v: &Vec<T>, name: &str) -> (r: bool)
    ensures
        r == has_name(v@, name@),
{
    let mut i: usize = 0;
    while i < v.len()
        invariant
            i <= v@.len(),
            forall|k: int| 0 <= k < i ==> #[trigger] v@[k].spec_name() != name@,
        decreases v@.len() - i,
    {
        if str_eq(v[i].entry_name(), name) {
            assert(v@[i as int].spec_name() == name@);
            return true;
        }
        i = i + 1;
    }
    false
}

/// Whether the entry at `i` is the first that is called `name`.
pub open spec fn first_named<T: Named>(s: Seq<T>, name: Seq<char>, i: int) -> bool {
    &&& 0 <= i < s.len()
    &&& s[i].spec_name() == name
    &&& forall|j: int| 0 <= j < i ==> #[trigger] s[j].spec_name() != name
}

/// Where the first entry called `name` is.
pub fn position_named<T: Named>(v: &Vec<T>, name: &str) -> (r: Option<usize>)
    ensures
        match r {
            Some(i) => has_name(v@, name@) && first_named(v@, name@, i as int),
            None => !has_name(v@, name@),
        },
{
    let mut i: usize = 0;
    while i < v.len()
        invariant
            i <= v@.len(),
            forall|k: int| 0 <= k < i ==> #[trigger] v@[k].spec_name() != name@,
        decreases v@.len() - i,
    {
        if str_eq(v[i].entry_name(), name) {
            assert(v@[i as int].spec_name() == name@);
            return Some(i);
        }
        i = i + 1;
    }
    None
}

/// Sets the enabled flag of every entry called `name`; says whether there was one.
pub fn switch_named<T: Named>(v: &mut Vec<T>, name: &str, on: bool) -> (r: bool)
    ensures
        final(v)@ == with_enabled(old(v)@, name@, on),
        r == has_name(old(v)@, name@),
{
    let mut i: usize = 0;
    let mut found: bool = false;
    while i < v.len()
        invariant
            i <= v@.len(),
            v@.len() == old(v)@.len(),
            forall|k: int| 0 <= k < i ==> v@[k] == with_enabled(old(v)@, name@, on)[k],
            forall|k: int| i <= k < v@.len() ==> v@[k] == old(v)@[k],
            found == exists|k: int| 0 <= k < i && #[trigger] old(v)@[k].spec_name() == name@,
        decreases v@.len() - i,
    {
        if str_eq(v[i].entry_name(), name) {
            v[i].put_enabled(on);
            found = true;
            assert(old(v)@[i as int].spec_name() == name@);
        }
        i = i + 1;
    }
    assert(v@ =~= with_enabled(old(v)@, name@, on));
    found
}

/// Drops every entry called `name`, keeping the others in order.
pub fn drop_named<T: Named>(v: &mut Vec<T>, name: &str)
    ensures
        final(v)@ == without_name(old(v)@, name@),
{
    let ghost p = not_called::<T>(name@);
    let ghost whole = v@;
    let mut i: usize = 0;
    let ghost mut seen: int = 0;
    assert(whole.take(0).filter(p) =~= Seq::<T>::empty()) by {
        reveal(Seq::filter);
    }
    while i < v.len()
        invariant
            p == not_called::<T>(name@),
            i <= v@.len(),
            0 <= seen <= whole.len(),
            v@.len() - i == whole.len() - seen,
            v@.take(i as int) == whole.take(seen).filter(p),
            v@.skip(i as int) == whole.skip(seen),
        decreases v@.len() - i,
    {
        let ghost before = v@;
        let ghost at = i as int;
        assert(whole.skip(seen)[0] == before.skip(i as int)[0]);
        assert(whole.take(seen + 1) =~= whole.take(seen).push(whole[seen]));
        assert(whole.take(seen + 1).drop_last() =~= whole.take(seen));
        reveal(Seq::filter);
        if str_eq(v[i].entry_name(), name) {
            let _gone: T = v.remove(i);
            assert(v@.take(i as int) =~= before.take(i as int));
            assert(v@.skip(i as int) =~= before.skip(i + 1));
        } else {
            assert(before.take(i + 1) =~= before.take(i as int).push(before[i as int]));
            i = i + 1;
        }
        assert(whole.skip(seen + 1) =~= whole.skip(seen).skip(1));
        assert(before.skip(at + 1) =~= before.skip(at).skip(1));
        proof {
            seen = seen + 1;
        }
    }
    assert(v@.take(i as int) =~= v@);
    assert(whole.take(seen) =~= whole);
}

/// Drops every entry that is switched off, keeping the others in order.
pub fn drop_disabled<T: Named>(v: &mut Vec<T>)
    ensures
        final(v)@ == enabled_only(old(v)@),
{
    let ghost p = switched_on::<T>();
    let ghost whole = v@;
    let mut i: usize = 0;
    let ghost mut seen: int = 0;
    assert(whole.take(0).filter(p) =~= Seq::<T>::empty()) by {
        reveal(Seq::filter);
    }
    while i < v.len()
        invariant
            p == switched_on::<T>(),
            i <= v@.len(),
            0 <= seen <= whole.len(),
            v@.len() - i == whole.len() - seen,
            v@.take(i as int) == whole.take(seen).filter(p),
            v@.skip(i as int) == whole.skip(seen),
        decreases v@.len() - i,
    {
        let ghost before = v@;
        let ghost at = i as int;
        assert(whole.skip(seen)[0] == before.skip(i as int)[0]);
        assert(whole.take(seen + 1) =~= whole.take(seen).push(whole[seen]));
        assert(whole.take(seen + 1).drop_last() =~= whole.take(seen));
        reveal(Seq::filter);
        if !v[i].is_enabled() {
            let _gone: T = v.remove(i);
            assert(v@.take(i as int) =~= before.take(i as int));
            assert(v@.skip(i as int) =~= before.skip(i + 1));
        } else {
            assert(before.take(i + 1) =~= before.take(i as int).push(before[i as int]));
            i = i + 1;
        }
        assert(whole.skip(seen + 1) =~= whole.skip(seen).skip(1));
        assert(before.skip(at + 1) =~= before.skip(at).skip(1));
        proof {
            seen = seen + 1;
        }
    }
    assert(v@.take(i as int) =~= v@);
    assert(whole.take(seen) =~= whole);
}

/// Sorts the list by name. Entries that share a name keep their order.
pub fn sort_by_name<T: Named>(v: &mut Vec<T>)
    ensures
        final(v)@ == sorted_by_name(old(v)@),
{
    let ghost whole = v@;
    let mut i: usize = 0;
    assert(whole.take(0) =~= Seq::<T>::empty());
    while i < v.len()
        invariant
            i <= v@.len(),
            v@.len() == whole.len(),
            v@.take(i as int) == sorted_by_name(whole.take(i as int)),
            forall|k: int| i <= k < v@.len() ==> v@[k] == whole[k],
        decreases v@.len() - i,
    {
        let ghost before = v@;
        let ghost front = before.take(i as int);
        let x: T = v.remove(i);
        assert(v@.take(i as int) =~= front);
        let mut k: usize = i;
        assert(front.take(i as int) =~= front);
        while k > 0 && !str_le(v[k - 1].entry_name(), x.entry_name())
            invariant
                k <= i,
                i <= v@.len(),
                v@.take(i as int) == front,
                front.len() == i,
                slot(front, x.spec_name()) == slot(front.take(k as int), x.spec_name()),
            decreases k,
        {
            assert(front.take(k as int).drop_last() =~= front.take(k - 1));
            assert(front.take(k as int).last() == v@[k - 1]) by {
                assert(front[k - 1] == v@[k - 1]);
            }
            k = k - 1;
        }
        proof {
            if k > 0 {
                assert(front.take(k as int).last() == front[k - 1]);
                assert(front[k - 1] == v@[k - 1]);
            }
            assert(slot(front, x.spec_name()) == k);
            assert(whole.take(i + 1).drop_last() =~= whole.take(i as int));
            assert(whole.take(i + 1).last() == x);
        }
        let ghost middle = v@;
        v.insert(k, x);
        assert(v@.take(i + 1) =~= front.insert(k as int, x)) by {
            assert(v@ =~= middle.insert(k as int, x));
            assert forall|m: int| 0 <= m < i + 1 implies v@.take(i + 1)[m] == front.insert(
                k as int,
                x,
            )[m] by {
                if m < k {
                    assert(middle[m] == middle.take(i as int)[m]);
                } else if m > k {
                    assert(middle[m - 1] == middle.take(i as int)[m - 1]);
                }
            }
        }
        i = i + 1;
    }
    assert(v@.take(i as int) =~= v@);
    assert(whole.take(i as int) =~= whole);
}

} // verus!
