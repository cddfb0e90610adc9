//! Equality of JSON content, whatever order object members are listed in, and
//! the law that canonical text depends on the content alone.
use vstd::prelude::*;

use crate::json::{JsonData, member_lookup};
use crate::json_text::{
    arranges, canonical_text, items_text, json_wf, keys_sorted, lemma_insert_keeps_sorted,
    lemma_member_lookup_distinct, lemma_members_wf_at, member_keys_distinct, members_text,
    members_wf_from, sorted_of, values_wf_from,
};
use crate::text::{lemma_lex_trichotomy, lex_less};

verus! {

/// Where a member with key `key` belongs in `s`: after every smaller key.
pub open spec fn insert_position(s: Seq<(Seq<char>, JsonData)>, key: Seq<char>) -> int
    decreases s.len(),
{
    if s.len() == 0 {
        0
    } else if lex_less(s[0].0, key) {
        1 + insert_position(s.drop_first(), key)
    } else {
        0
    }
}

proof fn lemma_insert_position(s: Seq<(Seq<char>, JsonData)>, key: Seq<char>)
    ensures
        0 <= insert_position(s, key) <= s.len(),
        forall|k: int| 0 <= k < insert_position(s, key) ==> lex_less(#[trigger] s[k].0, key),
        insert_position(s, key) < s.len() ==> !lex_less(s[insert_position(s, key)].0, key),
    decreases s.len(),
{
    if s.len() > 0 && lex_less(s[0].0, key) {
        let t = s.drop_first();
        lemma_insert_position(t, key);
        assert forall|k: int| 0 <= k < insert_position(s, key) implies lex_less(#[trigger] s[k].0, key) by {
            if k > 0 {
                assert(s[k] == t[k - 1]);
            }
        }
        if insert_position(s, key) < s.len() {
            assert(s[insert_position(s, key)] == t[insert_position(t, key)]);
        }
    }
}

/// Members with distinct keys can be listed in ascending key order.
pub proof fn lemma_arrangement_exists(ps: Seq<(Seq<char>, JsonData)>)
    requires
        member_keys_distinct(ps),
    ensures
        exists|s: Seq<(Seq<char>, JsonData)>| arranges(s, ps.to_multiset()),
    decreases ps.len(),
{
    if ps.len() == 0 {
        let s = Seq::<(Seq<char>, JsonData)>::empty();
        assert(s.to_multiset() =~= ps.to_multiset()) by {
            broadcast use vstd::seq_lib::group_to_multiset_ensures;
            assert(ps =~= s);
        }
        assert(arranges(s, ps.to_multiset()));
    } else {
        let init = ps.drop_last();
        let x = ps.last();
        assert(member_keys_distinct(init)) by {
            assert forall|a: int, b: int| 0 <= a < init.len() && 0 <= b < init.len() && a != b implies #[trigger] init[a].0
                != #[trigger] init[b].0 by {
                assert(init[a] == ps[a] && init[b] == ps[b]);
            }
        }
        lemma_arrangement_exists(init);
        let s0 = choose|s: Seq<(Seq<char>, JsonData)>| arranges(s, init.to_multiset());
        lemma_insert_position(s0, x.0);
        let p = insert_position(s0, x.0);
        if p < s0.len() {
            vstd::seq_lib::to_multiset_contains(s0, s0[p]);
            vstd::seq_lib::to_multiset_contains(init, s0[p]);
            assert(s0.contains(s0[p]));
            let j = choose|j: int| 0 <= j < init.len() && init[j] == s0[p];
            assert(ps[j] == init[j]);
            assert(ps[ps.len() - 1] == x);
            assert(s0[p].0 != x.0);
            lemma_lex_trichotomy(s0[p].0, x.0);
        }
        lemma_insert_keeps_sorted(s0, p, x);
        let s = s0.insert(p, x);
        vstd::seq_lib::to_multiset_insert(s0, p, x);
        assert(ps =~= init.push(x));
        vstd::seq_lib::to_multiset_build(init, x);
        assert(arranges(s, ps.to_multiset()));
    }
}

/// The keys of a list of members, in order.
pub open spec fn member_keys(s: Seq<(Seq<char>, JsonData)>) -> Seq<Seq<char>> {
    s.map_values(|p: (Seq<char>, JsonData)| p.0)
}

/// Two lists of members in strictly ascending key order with the same keys
/// list them at the same positions.
proof fn lemma_sorted_keys_match(a: Seq<(Seq<char>, JsonData)>, b: Seq<(Seq<char>, JsonData)>)
    requires
        keys_sorted(a),
        keys_sorted(b),
        forall|k: Seq<char>| member_keys(a).contains(k) <==> member_keys(b).contains(k),
    ensures
        a.len() == b.len(),
        forall|r: int| 0 <= r < a.len() ==> #[trigger] a[r].0 == b[r].0,
    decreases a.len() + b.len(),
{
    if a.len() == 0 {
        if b.len() > 0 {
            assert(member_keys(b)[0] == b[0].0);
            assert(member_keys(b).contains(b[0].0));
        }
    } else if b.len() == 0 {
        assert(member_keys(a)[0] == a[0].0);
        assert(member_keys(a).contains(a[0].0));
    } else {
        assert(member_keys(a)[0] == a[0].0);
        assert(member_keys(b)[0] == b[0].0);
        assert(member_keys(a).contains(a[0].0));
        assert(member_keys(b).contains(b[0].0));
        let j = choose|j: int| 0 <= j < b.len() && member_keys(b)[j] == a[0].0;
        let i = choose|i: int| 0 <= i < a.len() && member_keys(a)[i] == b[0].0;
        if j > 0 && i > 0 {
            assert(lex_less(b[0].0, b[j].0));
            assert(lex_less(a[0].0, a[i].0));
            lemma_lex_trichotomy(a[0].0, b[0].0);
        }
        assert(a[0].0 == b[0].0);
        let ta = a.drop_first();
        let tb = b.drop_first();
        assert forall|k: Seq<char>| member_keys(ta).contains(k) <==> member_keys(tb).contains(k) by {
            if member_keys(ta).contains(k) {
                let x = choose|x: int| 0 <= x < ta.len() && member_keys(ta)[x] == k;
                assert(k == a[x + 1].0);
                assert(lex_less(a[0].0, a[x + 1].0));
                lemma_lex_trichotomy(a[0].0, k);
                assert(member_keys(a)[x + 1] == k);
                assert(member_keys(b).contains(k));
                let y = choose|y: int| 0 <= y < b.len() && member_keys(b)[y] == k;
                assert(y != 0);
                assert(member_keys(tb)[y - 1] == k);
            }
            if member_keys(tb).contains(k) {
                let x = choose|x: int| 0 <= x < tb.len() && member_keys(tb)[x] == k;
                assert(k == b[x + 1].0);
                assert(lex_less(b[0].0, b[x + 1].0));
                lemma_lex_trichotomy(b[0].0, k);
                assert(member_keys(b)[x + 1] == k);
                assert(member_keys(a).contains(k));
                let y = choose|y: int| 0 <= y < a.len() && member_keys(a)[y] == k;
                assert(y != 0);
                assert(member_keys(ta)[y - 1] == k);
            }
        }
        lemma_sorted_keys_match(ta, tb);
        assert forall|r: int| 0 <= r < a.len() implies #[trigger] a[r].0 == b[r].0 by {
            if r > 0 {
                assert(a[r] == ta[r - 1] && b[r] == tb[r - 1]);
            }
        }
    }
}

/// Looking a key up finds a member exactly when some member has that key.
proof fn lemma_member_lookup_some(qs: Seq<(Seq<char>, JsonData)>, k: Seq<char>)
    ensures
        member_lookup(qs, k) is Some <==> member_keys(qs).contains(k),
    decreases qs.len(),
{
    if qs.len() > 0 {
        let t = qs.drop_first();
        lemma_member_lookup_some(t, k);
        if member_keys(t).contains(k) {
            let x = choose|x: int| 0 <= x < t.len() && member_keys(t)[x] == k;
            assert(member_keys(qs)[x + 1] == k);
        }
        if member_keys(qs).contains(k) && qs[0].0 != k {
            let x = choose|x: int| 0 <= x < qs.len() && member_keys(qs)[x] == k;
            assert(x > 0);
            assert(member_keys(t)[x - 1] == k);
        }
        if qs[0].0 == k {
            assert(member_keys(qs)[0] == k);
        }
    }
}

/// Same content: equal scalars, arrays item by item, and objects with the same
/// keys whose values, key by key, have the same content. The order in which an
/// object lists its members does not count.
pub open spec fn json_same(a: JsonData, b: JsonData) -> bool
    decreases a, 0nat,
{
    match a {
        JsonData::Array(xs) => match b {
            JsonData::Array(ys) => xs.len() == ys.len() && values_same_from(xs, ys, 0),
            _ => false,
        },
        JsonData::Object(ps) => match b {
            JsonData::Object(qs) => members_same_from(ps, qs, 0) && (forall|k: Seq<char>|
                #[trigger] member_keys(qs).contains(k) ==> member_keys(ps).contains(k)),
            _ => false,
        },
        _ => a == b,
    }
}

/// Items of the same content from position `i` on.
pub open spec fn values_same_from(xs: Seq<JsonData>, ys: Seq<JsonData>, i: nat) -> bool
    decreases xs, xs.len() - i,
{
    if i >= xs.len() || i >= ys.len() {
        true
    } else {
        json_same(xs[i as int], ys[i as int]) && values_same_from(xs, ys, i + 1)
    }
}

/// Every member of `ps` from position `i` on has a member of `qs` with its key
/// and a value of the same content.
pub open spec fn members_same_from(ps: Seq<(Seq<char>, JsonData)>, qs: Seq<(Seq<char>, JsonData)>, i: nat) -> bool
    decreases ps, ps.len() - i,
{
    if i >= ps.len() {
        true
    } else {
        match member_lookup(qs, ps[i as int].0) {
            Some(w) => json_same(ps[i as int].1, w) && members_same_from(ps, qs, i + 1),
            None => false,
        }
    }
}

proof fn lemma_members_same_at(ps: Seq<(Seq<char>, JsonData)>, qs: Seq<(Seq<char>, JsonData)>, i: nat, t: int)
    requires
        members_same_from(ps, qs, i),
        i <= t < ps.len(),
    ensures
        member_lookup(qs, ps[t].0) matches Some(w) && json_same(ps[t].1, w),
    decreases t - i,
{
    if i < t {
        lemma_members_same_at(ps, qs, i + 1, t);
    }
}

/// Law: the canonical text of a well-formed value depends on its content alone:
/// values of the same content, whatever order their objects list members in at
/// any depth, have the same canonical text.
pub proof fn lemma_canonical_text_depends_on_content(a: JsonData, b: JsonData)
    requires
        json_wf(a),
        json_wf(b),
        json_same(a, b),
    ensures
        canonical_text(a) == canonical_text(b),
    decreases a, 0nat,
{
    match a {
        JsonData::Array(xs) => {
            let ys = b->Array_0;
            lemma_items_text_same(xs, ys, 0);
        },
        JsonData::Object(ps) => {
            let qs = b->Object_0;
            lemma_members_text_same(ps, qs);
        },
        _ => {},
    }
}

proof fn lemma_items_text_same(xs: Seq<JsonData>, ys: Seq<JsonData>, i: nat)
    requires
        xs.len() == ys.len(),
        values_wf_from(xs, i),
        values_wf_from(ys, i),
        values_same_from(xs, ys, i),
    ensures
        items_text(xs, i) == items_text(ys, i),
    decreases xs, xs.len() - i,
{
    if i < xs.len() {
        lemma_canonical_text_depends_on_content(xs[i as int], ys[i as int]);
        lemma_items_text_same(xs, ys, i + 1);
    }
}

proof fn lemma_members_text_same(ps: Seq<(Seq<char>, JsonData)>, qs: Seq<(Seq<char>, JsonData)>)
    requires
        member_keys_distinct(ps),
        member_keys_distinct(qs),
        members_wf_from(ps, 0),
        members_wf_from(qs, 0),
        members_same_from(ps, qs, 0),
        forall|k: Seq<char>| #[trigger] member_keys(qs).contains(k) ==> member_keys(ps).contains(k),
    ensures
        members_text(ps, 0) == members_text(qs, 0),
    decreases ps, 0nat,
{
    lemma_arrangement_exists(ps);
    lemma_arrangement_exists(qs);
    let sp = sorted_of(ps.to_multiset());
    let sq = sorted_of(qs.to_multiset());
    assert(arranges(sp, ps.to_multiset()));
    assert(arranges(sq, qs.to_multiset()));
    vstd::seq_lib::to_multiset_len(sp);
    vstd::seq_lib::to_multiset_len(ps);
    vstd::seq_lib::to_multiset_len(sq);
    vstd::seq_lib::to_multiset_len(qs);
    assert forall|k: Seq<char>| member_keys(sp).contains(k) <==> member_keys(sq).contains(k) by {
        lemma_member_keys_of_arrangement(ps, sp, k);
        lemma_member_keys_of_arrangement(qs, sq, k);
        lemma_member_lookup_some(qs, k);
        if member_keys(ps).contains(k) {
            let j = choose|j: int| 0 <= j < ps.len() && member_keys(ps)[j] == k;
            lemma_members_same_at(ps, qs, 0, j);
        }
    }
    lemma_sorted_keys_match(sp, sq);
    assert forall|r: int| 0 <= r < sp.len() implies canonical_text(#[trigger] sp[r].1) == canonical_text(sq[r].1) by {
        vstd::seq_lib::to_multiset_contains(sp, sp[r]);
        vstd::seq_lib::to_multiset_contains(ps, sp[r]);
        assert(sp.contains(sp[r]));
        let j = choose|j: int| 0 <= j < ps.len() && ps[j] == sp[r];
        vstd::seq_lib::to_multiset_contains(sq, sq[r]);
        vstd::seq_lib::to_multiset_contains(qs, sq[r]);
        assert(sq.contains(sq[r]));
        let m = choose|m: int| 0 <= m < qs.len() && qs[m] == sq[r];
        lemma_members_same_at(ps, qs, 0, j);
        lemma_member_lookup_distinct(qs, m);
        lemma_members_wf_at(ps, 0, j);
        lemma_members_wf_at(qs, 0, m);
        assert(decreases_to!(ps => ps[j]));
        lemma_canonical_text_depends_on_content(ps[j].1, qs[m].1);
    }
    lemma_members_text_match(ps, qs, 0);
}

/// A key is a key of an arrangement exactly when it is a key of the members.
proof fn lemma_member_keys_of_arrangement(ps: Seq<(Seq<char>, JsonData)>, s: Seq<(Seq<char>, JsonData)>, k: Seq<char>)
    requires
        s.to_multiset() == ps.to_multiset(),
    ensures
        member_keys(s).contains(k) <==> member_keys(ps).contains(k),
{
    if member_keys(s).contains(k) {
        let i = choose|i: int| 0 <= i < s.len() && member_keys(s)[i] == k;
        vstd::seq_lib::to_multiset_contains(s, s[i]);
        vstd::seq_lib::to_multiset_contains(ps, s[i]);
        assert(s.contains(s[i]));
        let j = choose|j: int| 0 <= j < ps.len() && ps[j] == s[i];
        assert(member_keys(ps)[j] == k);
    }
    if member_keys(ps).contains(k) {
        let j = choose|j: int| 0 <= j < ps.len() && member_keys(ps)[j] == k;
        vstd::seq_lib::to_multiset_contains(ps, ps[j]);
        vstd::seq_lib::to_multiset_contains(s, ps[j]);
        assert(ps.contains(ps[j]));
        let i = choose|i: int| 0 <= i < s.len() && s[i] == ps[j];
        assert(member_keys(s)[i] == k);
    }
}

proof fn lemma_members_text_match(ps: Seq<(Seq<char>, JsonData)>, qs: Seq<(Seq<char>, JsonData)>, r: nat)
    requires
        ps.len() == qs.len(),
        exists|s: Seq<(Seq<char>, JsonData)>| arranges(s, ps.to_multiset()),
        exists|s: Seq<(Seq<char>, JsonData)>| arranges(s, qs.to_multiset()),
        sorted_of(ps.to_multiset()).len() == ps.len(),
        sorted_of(qs.to_multiset()).len() == qs.len(),
        forall|t: int| 0 <= t < ps.len() ==> #[trigger] sorted_of(ps.to_multiset())[t].0 == sorted_of(qs.to_multiset())[t].0,
        forall|t: int| 0 <= t < ps.len() ==> canonical_text(#[trigger] sorted_of(ps.to_multiset())[t].1) == canonical_text(
            sorted_of(qs.to_multiset())[t].1,
        ),
    ensures
        members_text(ps, r) == members_text(qs, r),
    decreases ps.len() - r,
{
    if r < ps.len() {
        lemma_members_text_match(ps, qs, r + 1);
        let t = r as int;
        assert(sorted_of(ps.to_multiset())[t].0 == sorted_of(qs.to_multiset())[t].0);
        assert(canonical_text(sorted_of(ps.to_multiset())[t].1) == canonical_text(sorted_of(qs.to_multiset())[t].1));
    }
}

} // verus!
