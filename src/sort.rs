//! Ordering of mod names: case-folded, compared as UTF-16 code units.

use vstd::prelude::*;
use std::cmp::Ordering;
use crate::text::chars_of;
use crate::store::ModInfo;

verus! {

/// What `str::to_lowercase` returns for a character sequence.
pub uninterp spec fn lower_of(s: Seq<char>) -> Seq<char>;

/// Relies on `str::to_lowercase`: the result depends on the characters alone,
/// and an empty string stays empty.
#[verifier::external_body]
fn lowercase(s: &str) -> (r: String)
    ensures
        r@ == lower_of(s@),
        s@.len() == 0 ==> r@.len() == 0,
{
    s.to_lowercase()
}

/// The UTF-16 code units of one character.
pub open spec fn utf16_of_char(c: char) -> Seq<u16> {
    let v = c as u32;
    if v < 0x10000 {
        seq![v as u16]
    } else {
        seq![
            (0xD800 + (v - 0x10000) / 0x400) as u16,
            (0xDC00 + (v - 0x10000) % 0x400) as u16,
        ]
    }
}

/// The UTF-16 encoding of a character sequence.
pub open spec fn utf16_of(s: Seq<char>) -> Seq<u16>
    decreases s.len(),
{
    if s.len() == 0 {
        Seq::empty()
    } else {
        utf16_of(s.drop_last()) + utf16_of_char(s.last())
    }
}

/// The key on which mod names are ordered.
pub open spec fn name_key(name: Seq<char>) -> Seq<u16> {
    utf16_of(lower_of(name))
}

/// Lexicographic order on code-unit sequences; a strict prefix comes first.
pub open spec fn cmp_units(a: Seq<u16>, b: Seq<u16>) -> Ordering
    decreases a.len(),
{
    if a.len() == 0 {
        if b.len() == 0 {
            Ordering::Equal
        } else {
            Ordering::Less
        }
    } else if b.len() == 0 {
        Ordering::Greater
    } else if a[0] < b[0] {
        Ordering::Less
    } else if a[0] > b[0] {
        Ordering::Greater
    } else {
        cmp_units(a.drop_first(), b.drop_first())
    }
}

/// The order of two mod names.
pub open spec fn name_order(a: Seq<char>, b: Seq<char>) -> Ordering {
    cmp_units(name_key(a), name_key(b))
}

/// The UTF-16 code units of a string.
pub fn utf16_units(s: &str) -> (r: Vec<u16>)
    ensures
        r@ == utf16_of(s@),
{
    let cs = chars_of(s);
    let mut r: Vec<u16> = Vec::new();
    let mut i: usize = 0;
    while i < cs.len()
        invariant
            cs@ == s@,
            i <= cs.len(),
            r@ == utf16_of(s@.subrange(0, i as int)),
        decreases cs.len() - i,
    {
        let c = cs[i];
        let v = c as u32;
        if v < 0x10000 {
            r.push(v as u16);
        } else {
            let w = v - 0x10000;
            r.push((0xD800 + w / 0x400) as u16);
            r.push((0xDC00 + w % 0x400) as u16);
        }
        assert(s@.subrange(0, i + 1).drop_last() == s@.subrange(0, i as int));
        i = i + 1;
    }
    assert(s@.subrange(0, cs.len() as int) == s@);
    r
}

/// Compares two code-unit sequences, a strict prefix first.
pub fn compare_folded(a: &Vec<u16>, b: &Vec<u16>) -> (r: Ordering)
    ensures
        r == cmp_units(a@, b@),
{
    let mut i: usize = 0;
    assert(a@.subrange(0, a.len() as int) == a@);
    assert(b@.subrange(0, b.len() as int) == b@);
    while i < a.len() && i < b.len() && a[i] == b[i]
        invariant
            i <= a.len(),
            i <= b.len(),
            cmp_units(a@, b@) == cmp_units(a@.subrange(i as int, a.len() as int), b@.subrange(i as int, b.len() as int)),
        decreases a.len() - i,
    {
        assert(a@.subrange(i as int, a.len() as int).drop_first() == a@.subrange(i + 1, a.len() as int));
        assert(b@.subrange(i as int, b.len() as int).drop_first() == b@.subrange(i + 1, b.len() as int));
        i = i + 1;
    }
    if i == a.len() {
        if i == b.len() {
            Ordering::Equal
        } else {
            Ordering::Less
        }
    } else if i == b.len() {
        Ordering::Greater
    } else if a[i] < b[i] {
        Ordering::Less
    } else {
        Ordering::Greater
    }
}

/// The ordering key of a mod name: lower-cased, then UTF-16 encoded.
pub fn fold_name(name: &str) -> (r: Vec<u16>)
    ensures
        r@ == name_key(name@),
{
    let lower = lowercase(name);
    utf16_units(lower.as_str())
}

/// Compares two mod names without regard to case.
pub fn compare_mod_names(a: &str, b: &str) -> (r: Ordering)
    ensures
        r == name_order(a@, b@),
{
    let ka = fold_name(a);
    let kb = fold_name(b);
    compare_folded(&ka, &kb)
}

proof fn lemma_cmp_units_reflexive(a: Seq<u16>)
    ensures
        cmp_units(a, a) == Ordering::Equal,
    decreases a.len(),
{
    if a.len() > 0 {
        lemma_cmp_units_reflexive(a.drop_first());
    }
}

proof fn lemma_cmp_units_antisymmetric(a: Seq<u16>, b: Seq<u16>)
    ensures
        cmp_units(a, b) == Ordering::Less <==> cmp_units(b, a) == Ordering::Greater,
        cmp_units(a, b) == Ordering::Equal <==> a == b,
    decreases a.len(),
{
    if a.len() > 0 && b.len() > 0 && a[0] == b[0] {
        lemma_cmp_units_antisymmetric(a.drop_first(), b.drop_first());
        if a.drop_first() == b.drop_first() {
            assert(a =~= b) by {
                assert forall|i: int| 0 <= i < a.len() implies a[i] == b[i] by {
                    if i > 0 {
                        assert(a[i] == a.drop_first()[i - 1]);
                        assert(b[i] == b.drop_first()[i - 1]);
                    }
                }
            }
        }
    }
    if a.len() == 0 && b.len() == 0 {
        assert(a =~= b);
    }
    if a == b {
        lemma_cmp_units_reflexive(a);
    }
}

proof fn lemma_cmp_units_transitive(a: Seq<u16>, b: Seq<u16>, c: Seq<u16>)
    ensures
        cmp_units(a, b) == Ordering::Less && cmp_units(b, c) == Ordering::Less ==> cmp_units(a, c)
            == Ordering::Less,
        cmp_units(a, b) != Ordering::Greater && cmp_units(b, c) != Ordering::Greater
            ==> cmp_units(a, c) != Ordering::Greater,
    decreases a.len(),
{
    lemma_cmp_units_antisymmetric(a, b);
    lemma_cmp_units_antisymmetric(b, c);
    if a.len() > 0 && b.len() > 0 && c.len() > 0 {
        lemma_cmp_units_transitive(a.drop_first(), b.drop_first(), c.drop_first());
    }
}

/// The name order is reflexive: every name is equal to itself.
pub proof fn lemma_name_order_reflexive(a: Seq<char>)
    ensures
        name_order(a, a) == Ordering::Equal,
{
    lemma_cmp_units_reflexive(name_key(a));
}

/// The name order is antisymmetric: `a` comes before `b` exactly when `b`
/// comes after `a`, and two names are equal in it exactly when their folded
/// keys are the same.
pub proof fn lemma_name_order_antisymmetric(a: Seq<char>, b: Seq<char>)
    ensures
        name_order(a, b) == Ordering::Less <==> name_order(b, a) == Ordering::Greater,
        name_order(a, b) == Ordering::Equal <==> name_key(a) == name_key(b),
        name_order(a, b) == Ordering::Equal <==> name_order(b, a) == Ordering::Equal,
{
    lemma_cmp_units_antisymmetric(name_key(a), name_key(b));
    lemma_cmp_units_antisymmetric(name_key(b), name_key(a));
}

/// The name order is transitive, both strictly and non-strictly.
pub proof fn lemma_name_order_transitive(a: Seq<char>, b: Seq<char>, c: Seq<char>)
    ensures
        name_order(a, b) == Ordering::Less && name_order(b, c) == Ordering::Less ==> name_order(
            a,
            c,
        ) == Ordering::Less,
        name_order(a, b) != Ordering::Greater && name_order(b, c) != Ordering::Greater
            ==> name_order(a, c) != Ordering::Greater,
{
    lemma_cmp_units_transitive(name_key(a), name_key(b), name_key(c));
}

/// The name order is total: any two names are comparable one way or the other.
pub proof fn lemma_name_order_total(a: Seq<char>, b: Seq<char>)
    ensures
        name_order(a, b) != Ordering::Greater || name_order(b, a) != Ordering::Greater,
{
    lemma_cmp_units_antisymmetric(name_key(a), name_key(b));
}

/// Whether key `a` sorts strictly after key `b`.
fn comes_after(a: &Vec<u16>, b: &Vec<u16>) -> (r: bool)
    ensures
        r == (cmp_units(a@, b@) == Ordering::Greater),
{
    match compare_folded(a, b) {
        Ordering::Greater => true,
        _ => false,
    }
}

/// Profile entries in name order.
pub open spec fn sorted_by_name(s: Seq<ModInfo>) -> bool {
    forall|a: int, b: int| 0 <= a < b < s.len() ==> name_order(s[a].name@, s[b].name@) != Ordering::Greater
}

/// The entries of `s` whose name folds to `k`, in their order in `s`.
pub open spec fn entries_with_key(s: Seq<ModInfo>, k: Seq<u16>) -> Seq<ModInfo>
    decreases s.len(),
{
    if s.len() == 0 {
        Seq::empty()
    } else {
        let r = entries_with_key(s.drop_last(), k);
        if name_key(s.last().name@) == k {
            r.push(s.last())
        } else {
            r
        }
    }
}

/// `t` holds the entries of `s` in name order, and entries whose names fold
/// alike stand in `t` in the order they stood in `s`.
pub open spec fn stable_by_name(s: Seq<ModInfo>, t: Seq<ModInfo>) -> bool {
    forall|k: Seq<u16>| #[trigger] entries_with_key(t, k) == entries_with_key(s, k)
}

proof fn lemma_entries_with_key_append(a: Seq<ModInfo>, b: Seq<ModInfo>, k: Seq<u16>)
    ensures
        entries_with_key(a + b, k) == entries_with_key(a, k) + entries_with_key(b, k),
    decreases b.len(),
{
    if b.len() == 0 {
        assert(a + b == a);
        assert(entries_with_key(a, k) + entries_with_key(b, k) == entries_with_key(a, k));
    } else {
        lemma_entries_with_key_append(a, b.drop_last(), k);
        assert((a + b).drop_last() == a + b.drop_last());
        assert((a + b).last() == b.last());
    }
}

proof fn lemma_entries_with_key_none(s: Seq<ModInfo>, k: Seq<u16>)
    requires
        forall|j: int| 0 <= j < s.len() ==> name_key((#[trigger] s[j]).name@) != k,
    ensures
        entries_with_key(s, k) == Seq::<ModInfo>::empty(),
    decreases s.len(),
{
    if s.len() > 0 {
        assert forall|j: int| 0 <= j < s.len() - 1 implies name_key((#[trigger] s.drop_last()[j]).name@) != k by {
            assert(s.drop_last()[j] == s[j]);
        }
        lemma_entries_with_key_none(s.drop_last(), k);
    }
}

/// Collections of profile entries that can be put in name order.
pub trait SortMods: Sized {
    /// The entries are in name order.
    spec fn in_name_order(&self) -> bool;

    /// The two collections hold the same entries, counted with multiplicity.
    spec fn same_entries(&self, other: &Self) -> bool;

    /// Entries whose names fold alike stand in this collection in the order
    /// they stand in `other`.
    spec fn keeps_ties_of(&self, other: &Self) -> bool;

    /// The two collections hold the same entries in the same order.
    spec fn same_sequence(&self, other: &Self) -> bool;

    /// Puts the entries in name order; entries whose names fold alike keep
    /// their relative order, so entries already in name order stay as they
    /// are.
    fn sort_mods(&mut self)
        ensures
            final(self).in_name_order(),
            final(self).same_entries(old(self)),
            final(self).keeps_ties_of(old(self)),
            old(self).in_name_order() ==> final(self).same_sequence(old(self)),
    ;
}

impl SortMods for Vec<ModInfo> {
    open spec fn in_name_order(&self) -> bool {
        sorted_by_name(self@)
    }

    open spec fn same_entries(&self, other: &Self) -> bool {
        self@.to_multiset() == other@.to_multiset()
    }

    open spec fn keeps_ties_of(&self, other: &Self) -> bool {
        stable_by_name(other@, self@)
    }

    open spec fn same_sequence(&self, other: &Self) -> bool {
        self@ == other@
    }

    fn sort_mods(&mut self) {
        sort_mods(self);
    }
}

/// Sorts profile entries by name, case-folded. Entries whose names fold
/// alike keep their relative order; sorting entries that are already in name
/// order leaves them as they are, so sorting twice gives what sorting once
/// gives.
pub fn sort_mods(mods: &mut Vec<ModInfo>)
    ensures
        final(mods)@.to_multiset() == old(mods)@.to_multiset(),
        sorted_by_name(final(mods)@),
        stable_by_name(old(mods)@, final(mods)@),
        sorted_by_name(old(mods)@) ==> final(mods)@ == old(mods)@,
{
    let mut out: Vec<ModInfo> = Vec::new();
    let mut keys: Vec<Vec<u16>> = Vec::new();
    let mut i: usize = 0;
    assert(mods@.subrange(0, 0) == Seq::<ModInfo>::empty());
    assert(out@ == Seq::<ModInfo>::empty());
    while i < mods.len()
        invariant
            i <= mods.len(),
            mods@ == old(mods)@,
            keys.len() == out.len(),
            forall|a: int| 0 <= a < out.len() ==> (#[trigger] keys[a])@ == name_key(out[a].name@),
            sorted_by_name(out@),
            out@.to_multiset() == mods@.subrange(0, i as int).to_multiset(),
            sorted_by_name(mods@) ==> out@ == mods@.subrange(0, i as int),
            stable_by_name(mods@.subrange(0, i as int), out@),
        decreases mods.len() - i,
    {
        let m = mods[i].copied();
        let k = fold_name(m.name.as_str());
        let mut p: usize = 0;
        while p < out.len() && !comes_after(&keys[p], &k)
            invariant
                p <= out.len(),
                k@ == name_key(m.name@),
                keys.len() == out.len(),
                forall|a: int| 0 <= a < out.len() ==> (#[trigger] keys[a])@ == name_key(out[a].name@),
                forall|a: int| 0 <= a < p ==> name_order(out[a].name@, m.name@) != Ordering::Greater,
            decreases out.len() - p,
        {
            p = p + 1;
        }
        proof {
            if sorted_by_name(mods@) && p < out.len() {
                assert(out@ == mods@.subrange(0, i as int));
                assert(out[p as int] == mods@[p as int]);
                assert(name_order(mods@[p as int].name@, mods@[i as int].name@) != Ordering::Greater);
                assert(m == mods@[i as int]);
                assert(false);
            }
        }
        let ghost o0 = out@;
        let ghost k0 = keys@;
        out.insert(p, m);
        keys.insert(p, k);
        proof {
            assert(out@ == o0.insert(p as int, m));
            assert forall|a: int| 0 <= a < out.len() implies (#[trigger] keys[a])@ == name_key(out[a].name@) by {
                if a < p {
                    assert(keys[a] == k0[a] && out[a] == o0[a]);
                } else if a > p {
                    assert(keys[a] == k0[a - 1] && out[a] == o0[a - 1]);
                }
            }
            if p < o0.len() {
                assert(name_order(o0[p as int].name@, m.name@) == Ordering::Greater);
                lemma_name_order_antisymmetric(o0[p as int].name@, m.name@);
            }
            assert forall|a: int, b: int| 0 <= a < b < out.len() implies name_order(out[a].name@, out[b].name@) != Ordering::Greater by {
                if b < p {
                    assert(out[a] == o0[a] && out[b] == o0[b]);
                } else if b == p {
                    assert(out[a] == o0[a]);
                } else if a < p {
                    assert(out[a] == o0[a] && out[b] == o0[b - 1]);
                    lemma_name_order_transitive(o0[a].name@, m.name@, o0[b - 1].name@);
                    lemma_name_order_transitive(m.name@, o0[p as int].name@, o0[b - 1].name@);
                } else if a == p {
                    assert(out[b] == o0[b - 1]);
                    lemma_name_order_transitive(m.name@, o0[p as int].name@, o0[b - 1].name@);
                } else {
                    assert(out[a] == o0[a - 1] && out[b] == o0[b - 1]);
                }
            }
            vstd::seq_lib::to_multiset_insert(o0, p as int, m);
            let pre = mods@.subrange(0, i as int);
            assert(mods@.subrange(0, i + 1).drop_last() == pre);
            assert(mods@.subrange(0, i + 1).last() == m);
            let a = o0.subrange(0, p as int);
            let b = o0.subrange(p as int, o0.len() as int);
            assert(o0 == a + b);
            assert(out@ == a + seq![m] + b);
            assert forall|j: int| 0 <= j < b.len() implies name_key((#[trigger] b[j]).name@) != name_key(m.name@) by {
                assert(b[j] == o0[p + j]);
                if j > 0 {
                    assert(name_order(o0[p as int].name@, o0[p + j].name@) != Ordering::Greater);
                }
            }
            assert(seq![m].drop_last() == Seq::<ModInfo>::empty());
            assert forall|k: Seq<u16>| #[trigger] entries_with_key(out@, k) == entries_with_key(mods@.subrange(0, i + 1), k) by {
                lemma_entries_with_key_append(a, b, k);
                lemma_entries_with_key_append(a + seq![m], b, k);
                lemma_entries_with_key_append(a, seq![m], k);
                assert(seq![m].last() == m);
                assert(seq![m].len() == 1);
                assert(entries_with_key(Seq::<ModInfo>::empty(), k) == Seq::<ModInfo>::empty());
                assert(entries_with_key(pre, k) == entries_with_key(o0, k));
                if k == name_key(m.name@) {
                    lemma_entries_with_key_none(b, k);
                    assert(entries_with_key(a, k) + Seq::<ModInfo>::empty() == entries_with_key(a, k));
                    assert(entries_with_key(a, k) + seq![m] == entries_with_key(a, k).push(m));
                } else {
                    assert(entries_with_key(seq![m], k) == Seq::<ModInfo>::empty());
                    assert(entries_with_key(a, k) + Seq::<ModInfo>::empty() == entries_with_key(a, k));
                }
            }
            if sorted_by_name(mods@) {
                assert(p == o0.len());
                assert(out@ == mods@.subrange(0, i + 1));
            }
            assert(m == mods@[i as int]);
            assert(mods@.subrange(0, i + 1) == mods@.subrange(0, i as int).push(m));
            vstd::seq_lib::to_multiset_build(mods@.subrange(0, i as int), m);
        }
        i = i + 1;
    }
    assert(mods@.subrange(0, mods.len() as int) == mods@);
    *mods = out;
}

} // verus!
