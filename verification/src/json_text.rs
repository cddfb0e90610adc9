//! Compact JSON text with object members in ascending key order: the text that
//! serde_json writes for each scalar, arrays in their own order, and objects
//! written member by member from the smallest key up.
use vstd::prelude::*;

use vstd::multiset::Multiset;

use crate::core_model::scalar_set::number_text;
use crate::foreign::push_char;
use crate::float_bits::is_nan_bits;
use crate::json::{json_eq, member_lookup, members_eq_from, values_eq_from, lemma_members_view, lemma_values_view, members_view, values_view, JsonData, JsonNumber, JsonValue, NumberData};
use crate::text::{join, lemma_lex_transitive, lemma_lex_trichotomy, lex_less, str_eq, str_less};

verus! {

/// The hexadecimal digit for `d` below 16, lowercase.
pub open spec fn hex_digit(d: nat) -> char {
    if d == 0 {
        '0'
    } else if d == 1 {
        '1'
    } else if d == 2 {
        '2'
    } else if d == 3 {
        '3'
    } else if d == 4 {
        '4'
    } else if d == 5 {
        '5'
    } else if d == 6 {
        '6'
    } else if d == 7 {
        '7'
    } else if d == 8 {
        '8'
    } else if d == 9 {
        '9'
    } else if d == 10 {
        'a'
    } else if d == 11 {
        'b'
    } else if d == 12 {
        'c'
    } else if d == 13 {
        'd'
    } else if d == 14 {
        'e'
    } else {
        'f'
    }
}

/// How serde_json writes one character inside a string literal: the quote, the
/// backslash and control characters are escaped, everything else stands as is.
pub open spec fn escape_char(c: char) -> Seq<char> {
    if c == '"' {
        seq!['\\', '"']
    } else if c == '\\' {
        seq!['\\', '\\']
    } else if c == '\n' {
        seq!['\\', 'n']
    } else if c == '\r' {
        seq!['\\', 'r']
    } else if c == '\t' {
        seq!['\\', 't']
    } else if c == '\u{8}' {
        seq!['\\', 'b']
    } else if c == '\u{c}' {
        seq!['\\', 'f']
    } else if (c as u32) < 0x20 {
        seq!['\\', 'u', '0', '0', hex_digit((c as u32 as nat) / 16), hex_digit((c as u32 as nat) % 16)]
    } else {
        seq![c]
    }
}

/// Law: only the quote, the backslash and the control characters below U+0020
/// are escaped; every other character, `/` and all non-ASCII characters
/// included, is written as itself, and an escape is always a backslash
/// followed by at least one more character.
pub proof fn lemma_escape_only_quote_backslash_control(c: char)
    ensures
        (c != '"' && c != '\\' && (c as u32) >= 0x20) ==> escape_char(c) == seq![c],
        (c == '"' || c == '\\' || (c as u32) < 0x20) ==> (escape_char(c).len() >= 2 && escape_char(c)[0] == '\\'),
{
}

/// Law: a text with no quote, backslash or control character is written
/// between quotes exactly as it is.
pub proof fn lemma_plain_text_unescaped(s: Seq<char>)
    requires
        forall|i: int| 0 <= i < s.len() ==> #[trigger] s[i] != '"' && s[i] != '\\' && (s[i] as u32) >= 0x20,
    ensures
        escape_text(s) == s,
        quoted(s) == seq!['"'] + s + seq!['"'],
    decreases s.len(),
{
    if s.len() > 0 {
        let t = s.drop_last();
        assert forall|i: int| 0 <= i < t.len() implies #[trigger] t[i] != '"' && t[i] != '\\' && (t[i] as u32) >= 0x20 by {
            assert(t[i] == s[i]);
        }
        lemma_plain_text_unescaped(t);
        assert(s.last() == s[s.len() - 1]);
        lemma_escape_only_quote_backslash_control(s.last());
        assert(t + seq![s.last()] =~= s);
    }
}

/// The escaped characters of `s`.
pub open spec fn escape_text(s: Seq<char>) -> Seq<char>
    decreases s.len(),
{
    if s.len() == 0 {
        Seq::empty()
    } else {
        escape_text(s.drop_last()) + escape_char(s.last())
    }
}

/// A JSON string literal for `s`.
pub open spec fn quoted(s: Seq<char>) -> Seq<char> {
    seq!['"'] + escape_text(s) + seq!['"']
}

/// Object members in strictly ascending key order.
pub open spec fn keys_sorted(s: Seq<(Seq<char>, JsonData)>) -> bool {
    forall|i: int, j: int| 0 <= i < j < s.len() ==> lex_less(#[trigger] s[i].0, #[trigger] s[j].0)
}

/// `s` holds the members `m`, each as often, in strictly ascending key order.
pub open spec fn arranges(s: Seq<(Seq<char>, JsonData)>, m: Multiset<(Seq<char>, JsonData)>) -> bool {
    s.to_multiset() == m && keys_sorted(s)
}

/// The members `m` in ascending key order.
pub open spec fn sorted_of(m: Multiset<(Seq<char>, JsonData)>) -> Seq<(Seq<char>, JsonData)> {
    choose|s: Seq<(Seq<char>, JsonData)>| arranges(s, m)
}

/// No two members of an object share a key.
pub open spec fn member_keys_distinct(ps: Seq<(Seq<char>, JsonData)>) -> bool {
    forall|i: int, j: int| 0 <= i < ps.len() && 0 <= j < ps.len() && i != j ==> #[trigger] ps[i].0 != #[trigger] ps[j].0
}

/// Every object, at every depth, has distinct keys and no number is a NaN:
/// what a serde_json value always is.
pub open spec fn json_wf(v: JsonData) -> bool
    decreases v, 0nat,
{
    match v {
        JsonData::Number(NumberData::Float { bits, .. }) => !is_nan_bits(bits),
        JsonData::Array(xs) => values_wf_from(xs, 0),
        JsonData::Object(ps) => member_keys_distinct(ps) && members_wf_from(ps, 0),
        _ => true,
    }
}

/// The array items from position `i` on are well formed.
pub open spec fn values_wf_from(xs: Seq<JsonData>, i: nat) -> bool
    decreases xs, xs.len() - i,
{
    i >= xs.len() || (json_wf(xs[i as int]) && values_wf_from(xs, i + 1))
}

/// The member values from position `i` on are well formed.
pub open spec fn members_wf_from(ps: Seq<(Seq<char>, JsonData)>, i: nat) -> bool
    decreases ps, ps.len() - i,
{
    i >= ps.len() || (json_wf(ps[i as int].1) && members_wf_from(ps, i + 1))
}

/// A member of an arrangement is a member of the object.
pub proof fn lemma_arrangement_member(ps: Seq<(Seq<char>, JsonData)>, s: Seq<(Seq<char>, JsonData)>, i: int)
    requires
        s.to_multiset() == ps.to_multiset(),
        0 <= i < s.len(),
    ensures
        exists|j: int| 0 <= j < ps.len() && ps[j] == s[i],
{
    vstd::seq_lib::to_multiset_contains(s, s[i]);
    vstd::seq_lib::to_multiset_contains(ps, s[i]);
    assert(s.contains(s[i]));
}

/// Two arrangements of the same members in strictly ascending key order are the
/// same sequence.
pub proof fn lemma_sorted_arrangement_unique(a: Seq<(Seq<char>, JsonData)>, b: Seq<(Seq<char>, JsonData)>)
    requires
        keys_sorted(a),
        keys_sorted(b),
        a.to_multiset() == b.to_multiset(),
    ensures
        a == b,
    decreases a.len(),
{
    vstd::seq_lib::to_multiset_len(a);
    vstd::seq_lib::to_multiset_len(b);
    if a.len() == 0 {
        assert(a =~= b);
    } else {
        vstd::seq_lib::to_multiset_contains(a, a[0]);
        vstd::seq_lib::to_multiset_contains(b, a[0]);
        vstd::seq_lib::to_multiset_contains(b, b[0]);
        vstd::seq_lib::to_multiset_contains(a, b[0]);
        assert(a.contains(a[0]));
        assert(b.contains(b[0]));
        let k = choose|k: int| 0 <= k < b.len() && b[k] == a[0];
        let m = choose|m: int| 0 <= m < a.len() && a[m] == b[0];
        if k > 0 {
            assert(lex_less(b[0].0, b[k].0));
            lemma_lex_trichotomy(b[0].0, b[0].0);
            if m > 0 {
                assert(lex_less(a[0].0, a[m].0));
                lemma_lex_transitive(b[0].0, b[k].0, a[m].0);
            }
        }
        assert(a[0] == b[0]);
        vstd::seq_lib::to_multiset_remove(a, 0);
        vstd::seq_lib::to_multiset_remove(b, 0);
        assert(a.remove(0) =~= a.drop_first());
        assert(b.remove(0) =~= b.drop_first());
        lemma_sorted_arrangement_unique(a.drop_first(), b.drop_first());
        assert(a =~= seq![a[0]] + a.drop_first());
        assert(b =~= seq![b[0]] + b.drop_first());
    }
}

/// The canonical text of a value.
pub open spec fn canonical_text(v: JsonData) -> Seq<char>
    decreases v, 0nat,
{
    match v {
        JsonData::Null => "null"@,
        JsonData::Bool(b) => if b {
            "true"@
        } else {
            "false"@
        },
        JsonData::Number(n) => number_text(n),
        JsonData::String(s) => quoted(s),
        JsonData::Array(xs) => seq!['['] + items_text(xs, 0) + seq![']'],
        JsonData::Object(ps) => seq!['{'] + members_text(ps, 0) + seq!['}'],
    }
}

/// The array items from position `i` on, comma separated.
pub open spec fn items_text(xs: Seq<JsonData>, i: nat) -> Seq<char>
    decreases xs, xs.len() - i,
{
    if i >= xs.len() {
        Seq::empty()
    } else {
        (if i > 0 {
            seq![',']
        } else {
            Seq::empty()
        }) + canonical_text(xs[i as int]) + items_text(xs, i + 1)
    }
}

/// The object members from position `i` on of the ascending key order, comma
/// separated; nothing where the keys are not distinct.
pub open spec fn members_text(ps: Seq<(Seq<char>, JsonData)>, i: nat) -> Seq<char>
    decreases ps, ps.len() - i,
{
    if i >= ps.len() || !(exists|s: Seq<(Seq<char>, JsonData)>| arranges(s, ps.to_multiset())) {
        Seq::empty()
    } else {
        let s = sorted_of(ps.to_multiset());
        proof {
            vstd::seq_lib::to_multiset_len(s);
            vstd::seq_lib::to_multiset_len(ps);
            lemma_arrangement_member(ps, s, i as int);
            let j = choose|j: int| 0 <= j < ps.len() && ps[j] == s[i as int];
            assert(decreases_to!(ps => ps[j]));
        }
        (if i > 0 {
            seq![',']
        } else {
            Seq::empty()
        }) + quoted(s[i as int].0) + seq![':'] + canonical_text(s[i as int].1) + members_text(ps, i + 1)
    }
}

fn hex_digit_char(d: u32) -> (r: char)
    requires
        d < 16,
    ensures
        r == hex_digit(d as nat),
{
    if d == 0 {
        '0'
    } else if d == 1 {
        '1'
    } else if d == 2 {
        '2'
    } else if d == 3 {
        '3'
    } else if d == 4 {
        '4'
    } else if d == 5 {
        '5'
    } else if d == 6 {
        '6'
    } else if d == 7 {
        '7'
    } else if d == 8 {
        '8'
    } else if d == 9 {
        '9'
    } else if d == 10 {
        'a'
    } else if d == 11 {
        'b'
    } else if d == 12 {
        'c'
    } else if d == 13 {
        'd'
    } else if d == 14 {
        'e'
    } else {
        'f'
    }
}

fn push_escaped(out: &mut String, c: char)
    ensures
        final(out)@ == old(out)@ + escape_char(c),
{
    let ghost start = out@;
    if c == '"' {
        push_char(out, '\\');
        push_char(out, '"');
    } else if c == '\\' {
        push_char(out, '\\');
        push_char(out, '\\');
    } else if c == '\n' {
        push_char(out, '\\');
        push_char(out, 'n');
    } else if c == '\r' {
        push_char(out, '\\');
        push_char(out, 'r');
    } else if c == '\t' {
        push_char(out, '\\');
        push_char(out, 't');
    } else if c == '\u{8}' {
        push_char(out, '\\');
        push_char(out, 'b');
    } else if c == '\u{c}' {
        push_char(out, '\\');
        push_char(out, 'f');
    } else if (c as u32) < 0x20 {
        let code = c as u32;
        push_char(out, '\\');
        push_char(out, 'u');
        push_char(out, '0');
        push_char(out, '0');
        push_char(out, hex_digit_char(code / 16));
        push_char(out, hex_digit_char(code % 16));
    } else {
        push_char(out, c);
    }
    assert(out@ =~= start + escape_char(c));
}

fn push_quoted(out: &mut String, s: &str)
    ensures
        final(out)@ == old(out)@ + quoted(s@),
{
    let ghost start = out@;
    push_char(out, '"');
    let n = s.unicode_len();
    let mut i: usize = 0;
    while i < n
        invariant
            n == s@.len(),
            i <= n,
            out@ == start + seq!['"'] + escape_text(s@.subrange(0, i as int)),
        decreases n - i,
    {
        let c = s.get_char(i);
        push_escaped(out, c);
        proof {
            let t = s@.subrange(0, i + 1);
            assert(t.drop_last() =~= s@.subrange(0, i as int));
            assert(t.last() == c);
        }
        i = i + 1;
    }
    assert(s@.subrange(0, n as int) =~= s@);
    push_char(out, '"');
    assert(out@ =~= start + quoted(s@));
}

fn push_str(out: &mut String, s: &str)
    ensures
        final(out)@ == old(out)@ + s@,
{
    let mut taken = String::new();
    std::mem::swap(&mut taken, out);
    *out = join(taken, s);
}

/// Append the canonical text of `v` to `out`.
#[verifier::loop_isolation(false)]
pub fn write_canonical(v: &JsonValue, out: &mut String)
    requires
        json_wf(v@),
    ensures
        final(out)@ == old(out)@ + canonical_text(v@),
    decreases v,
{
    let ghost start = out@;
    match v {
        JsonValue::Null => {
            push_str(out, "null");
        },
        JsonValue::Bool(b) => {
            if *b {
                push_str(out, "true");
            } else {
                push_str(out, "false");
            }
        },
        JsonValue::Number(n) => {
            let text = n.text();
            push_str(out, text.as_str());
        },
        JsonValue::String(s) => {
            push_quoted(out, s.as_str());
        },
        JsonValue::Array(xs) => {
            proof {
                lemma_values_view(xs@);
            }
            let ghost vx = values_view(xs@);
            push_char(out, '[');
            let mut i: usize = 0;
            while i < xs.len()
                invariant
                    i <= xs@.len(),
                    vx == values_view(xs@),
                    vx.len() == xs@.len(),
                    forall|k: int| 0 <= k < xs@.len() ==> #[trigger] vx[k] == crate::json::json_view(xs@[k]),
                    values_wf_from(vx, i as nat),
                    out@ + items_text(vx, i as nat) == start + seq!['['] + items_text(vx, 0),
                decreases xs@.len() - i,
            {
                proof {
                    vstd::std_specs::vec::axiom_vec_index_decreases(*xs, i as int);
                }
                let ghost before = out@;
                if i > 0 {
                    push_char(out, ',');
                }
                write_canonical(&xs[i], out);
                proof {
                    let sep = if i > 0 { seq![','] } else { Seq::<char>::empty() };
                    assert(out@ == before + sep + canonical_text(vx[i as int]));
                    assert(items_text(vx, i as nat) == sep + canonical_text(vx[i as int]) + items_text(vx, (i + 1) as nat));
                    assert(out@ + items_text(vx, (i + 1) as nat) =~= before + items_text(vx, i as nat));
                }
                i = i + 1;
            }
            push_char(out, ']');
            assert(out@ =~= start + canonical_text(v@));
        },
        JsonValue::Object(ps) => {
            write_object(ps, out);
        },
    }
    proof {
        reveal_strlit("null");
        reveal_strlit("true");
        reveal_strlit("false");
    }
}

/// References to the members of an object in ascending key order, with the
/// position of each in the object.
#[verifier::loop_isolation(false)]
fn sort_member_refs<'a>(ps: &'a Vec<(String, JsonValue)>) -> (r: (Vec<&'a (String, JsonValue)>, Ghost<Seq<int>>))
    requires
        member_keys_distinct(members_view(ps@)),
    ensures
        r.0@.len() == ps@.len(),
        r.1@.len() == ps@.len(),
        forall|k: int| 0 <= k < ps@.len() ==> 0 <= #[trigger] r.1@[k] < ps@.len() && *r.0@[k] == ps@[r.1@[k]],
        arranges(refs_view(r.0@), members_view(ps@).to_multiset()),
{
    proof {
        lemma_members_view(ps@);
    }
    let ghost m = members_view(ps@);
    let n = ps.len();
    let mut sorted: Vec<&(String, JsonValue)> = Vec::new();
    let ghost mut sv: Seq<(Seq<char>, JsonData)> = Seq::empty();
    let ghost mut idx: Seq<int> = Seq::empty();
    let mut j: usize = 0;
    proof {
        assert(m.take(0) =~= Seq::<(Seq<char>, JsonData)>::empty());
        assert(refs_view(sorted@) =~= sv);
    }
    while j < n
        invariant
            n == ps@.len(),
            m == members_view(ps@),
            m.len() == n,
            forall|k: int| 0 <= k < n ==> #[trigger] m[k] == (ps@[k].0@, crate::json::json_view(ps@[k].1)),
            member_keys_distinct(m),
            j <= n,
            sv.to_multiset() == m.take(j as int).to_multiset(),
            keys_sorted(sv),
            sorted@.len() == sv.len(),
            sv == refs_view(sorted@),
            idx.len() == sv.len(),
            forall|k: int| 0 <= k < sv.len() ==> 0 <= #[trigger] idx[k] < j && *sorted@[k] == ps@[idx[k]] && sv[k] == m[idx[k]],
        decreases n - j,
    {
        let mut i: usize = 0;
        while i < sorted.len() && str_less(sorted[i].0.as_str(), ps[j].0.as_str())
            invariant
                j < n,
                sorted@.len() == sv.len(),
                sv == refs_view(sorted@),
                m[j as int] == (ps@[j as int].0@, crate::json::json_view(ps@[j as int].1)),
                i <= sorted@.len(),
                forall|k: int| 0 <= k < i ==> lex_less(#[trigger] sv[k].0, m[j as int].0),
            decreases sorted@.len() - i,
        {
            assert(sv[i as int].0 == sorted@[i as int].0@);
            i = i + 1;
        }
        proof {
            if i < sv.len() {
                let t = idx[i as int];
                assert(sv[i as int] == m[t]);
                assert(t != j);
                assert(m[t].0 != m[j as int].0);
                assert(sv[i as int].0 == sorted@[i as int].0@);
                lemma_lex_trichotomy(sv[i as int].0, m[j as int].0);
            }
            lemma_insert_keeps_sorted(sv, i as int, m[j as int]);
            vstd::seq_lib::to_multiset_insert(sv, i as int, m[j as int]);
            assert(m.take(j + 1) =~= m.take(j as int).push(m[j as int]));
            vstd::seq_lib::to_multiset_build(m.take(j as int), m[j as int]);
        }
        sorted.insert(i, &ps[j]);
        proof {
            let old_idx = idx;
            let old_sv = sv;
            sv = sv.insert(i as int, m[j as int]);
            idx = idx.insert(i as int, j as int);
            assert forall|k: int| 0 <= k < sv.len() implies 0 <= #[trigger] idx[k] < j + 1 && *sorted@[k] == ps@[idx[k]] && sv[k] == m[idx[k]] by {
                if k < i {
                    assert(idx[k] == old_idx[k] && sv[k] == old_sv[k]);
                } else if k > i {
                    assert(idx[k] == old_idx[k - 1] && sv[k] == old_sv[k - 1]);
                }
            }
            assert(refs_view(sorted@) =~= sv);
        }
        j = j + 1;
    }
    proof {
        assert(m.take(n as int) =~= m);
        vstd::seq_lib::to_multiset_len(sv);
        vstd::seq_lib::to_multiset_len(m);
    }
    (sorted, Ghost(idx))
}

/// The member views of a list of member references.
pub open spec fn refs_view(s: Seq<&(String, JsonValue)>) -> Seq<(Seq<char>, JsonData)> {
    s.map_values(|p: &(String, JsonValue)| (p.0@, crate::json::json_view(p.1)))
}

pub(crate) proof fn lemma_insert_keeps_sorted(sv: Seq<(Seq<char>, JsonData)>, i: int, x: (Seq<char>, JsonData))
    requires
        keys_sorted(sv),
        0 <= i <= sv.len(),
        forall|k: int| 0 <= k < i ==> lex_less(#[trigger] sv[k].0, x.0),
        i < sv.len() ==> lex_less(x.0, sv[i].0),
    ensures
        keys_sorted(sv.insert(i, x)),
{
    let ns = sv.insert(i, x);
    assert forall|a: int, b: int| 0 <= a < b < ns.len() implies lex_less(#[trigger] ns[a].0, #[trigger] ns[b].0) by {
        if b < i {
            assert(ns[a] == sv[a] && ns[b] == sv[b]);
        } else if b == i {
            assert(ns[a] == sv[a]);
        } else if a < i {
            assert(ns[a] == sv[a] && ns[b] == sv[b - 1]);
            if b - 1 > i {
                lemma_lex_transitive(x.0, sv[i].0, sv[b - 1].0);
            }
            lemma_lex_transitive(sv[a].0, x.0, sv[b - 1].0);
        } else if a == i {
            assert(ns[b] == sv[b - 1]);
            if b - 1 > i {
                lemma_lex_transitive(x.0, sv[i].0, sv[b - 1].0);
            }
        } else {
            assert(ns[a] == sv[a - 1] && ns[b] == sv[b - 1]);
        }
    }
}

/// Append the canonical text of an object's members to `out`.
#[verifier::loop_isolation(false)]
fn write_object(ps: &Vec<(String, JsonValue)>, out: &mut String)
    requires
        json_wf(JsonData::Object(members_view(ps@))),
    ensures
        final(out)@ == old(out)@ + canonical_text(JsonData::Object(members_view(ps@))),
    decreases ps,
{
    let ghost start = out@;
    proof {
        lemma_members_view(ps@);
    }
    let ghost m = members_view(ps@);
    let n = ps.len();
    let (sorted, idx) = sort_member_refs(ps);
    let ghost sv = refs_view(sorted@);
    proof {
        let chosen = sorted_of(m.to_multiset());
        assert(arranges(sv, m.to_multiset()));
        lemma_sorted_arrangement_unique(chosen, sv);
        vstd::seq_lib::to_multiset_len(sv);
        vstd::seq_lib::to_multiset_len(m);
    }
    push_char(out, '{');
    let mut r: usize = 0;
    while r < n
        invariant
            n == ps@.len(),
            r <= n,
            m == members_view(ps@),
            m.len() == n,
            sv == sorted_of(m.to_multiset()),
            sv == refs_view(sorted@),
            sv.len() == n,
            exists|s: Seq<(Seq<char>, JsonData)>| arranges(s, m.to_multiset()),
            sorted@.len() == n,
            forall|k: int| 0 <= k < n ==> 0 <= #[trigger] idx@[k] < n && *sorted@[k] == ps@[idx@[k]],
            out@ + members_text(m, r as nat) == start + seq!['{'] + members_text(m, 0),
        decreases n - r,
    {
        let ghost before = out@;
        if r > 0 {
            push_char(out, ',');
        }
        let entry = sorted[r];
        proof {
            let t = idx@[r as int];
            vstd::std_specs::vec::axiom_vec_index_decreases(*ps, t);
            lemma_members_wf_at(m, 0, t);
            assert(m[t] == (ps@[t].0@, crate::json::json_view(ps@[t].1)));
            assert(sv[r as int] == (entry.0@, crate::json::json_view(entry.1)));
        }
        push_quoted(out, entry.0.as_str());
        push_char(out, ':');
        write_canonical(&entry.1, out);
        proof {
            let sep = if r > 0 { seq![','] } else { Seq::<char>::empty() };
            assert(out@ == before + sep + quoted(sv[r as int].0) + seq![':'] + canonical_text(sv[r as int].1));
            assert(members_text(m, r as nat) == sep + quoted(sv[r as int].0) + seq![':'] + canonical_text(
                sv[r as int].1,
            ) + members_text(m, (r + 1) as nat));
            assert(out@ + members_text(m, (r + 1) as nat) =~= before + members_text(m, r as nat));
        }
        r = r + 1;
    }
    push_char(out, '}');
}

/// Whether every object in `v`, at every depth, has distinct keys.
#[verifier::loop_isolation(false)]
pub fn is_well_formed(v: &JsonValue) -> (r: bool)
    ensures
        r == json_wf(v@),
    decreases v,
{
    match v {
        JsonValue::Array(xs) => {
            proof {
                lemma_values_view(xs@);
            }
            let ghost vx = values_view(xs@);
            let mut i: usize = xs.len();
            while i > 0
                invariant
                    i <= xs@.len(),
                    vx == values_view(xs@),
                    vx.len() == xs@.len(),
                    forall|k: int| 0 <= k < xs@.len() ==> #[trigger] vx[k] == crate::json::json_view(xs@[k]),
                    values_wf_from(vx, i as nat),
                decreases i,
            {
                i = i - 1;
                proof {
                    vstd::std_specs::vec::axiom_vec_index_decreases(*xs, i as int);
                }
                if !is_well_formed(&xs[i]) {
                    proof {
                        if json_wf(v@) {
                            lemma_values_wf_at(vx, 0, i as int);
                        }
                    }
                    return false;
                }
            }
            true
        },
        JsonValue::Object(ps) => {
            proof {
                lemma_members_view(ps@);
            }
            let ghost m = members_view(ps@);
            let n = ps.len();
            let mut i: usize = 0;
            while i < n
                invariant
                    n == ps@.len(),
                    m == members_view(ps@),
                    m.len() == n,
                    forall|k: int| 0 <= k < n ==> #[trigger] m[k] == (ps@[k].0@, crate::json::json_view(ps@[k].1)),
                    i <= n,
                    forall|a: int, b: int| 0 <= a < i && 0 <= b < n && a != b ==> #[trigger] m[a].0 != #[trigger] m[b].0,
                decreases n - i,
            {
                let mut j: usize = 0;
                while j < n
                    invariant
                        i < n,
                        j <= n,
                        forall|b: int| 0 <= b < j && b != i ==> m[i as int].0 != #[trigger] m[b].0,
                    decreases n - j,
                {
                    if j != i && str_eq(ps[i].0.as_str(), ps[j].0.as_str()) {
                        assert(m[i as int].0 == m[j as int].0);
                        return false;
                    }
                    j = j + 1;
                }
                i = i + 1;
            }
            let mut k: usize = n;
            while k > 0
                invariant
                    k <= n,
                    members_wf_from(m, k as nat),
                decreases k,
            {
                k = k - 1;
                proof {
                    vstd::std_specs::vec::axiom_vec_index_decreases(*ps, k as int);
                }
                if !is_well_formed(&ps[k].1) {
                    proof {
                        if json_wf(v@) {
                            lemma_members_wf_at(m, 0, k as int);
                        }
                    }
                    return false;
                }
            }
            true
        },
        JsonValue::Number(JsonNumber::Float { bits, .. }) => *bits % 0x8000_0000_0000_0000 <= 0x7FF0_0000_0000_0000,
        _ => true,
    }
}

pub(crate) proof fn lemma_values_wf_at(xs: Seq<JsonData>, i: nat, t: int)
    requires
        values_wf_from(xs, i),
        i <= t < xs.len(),
    ensures
        json_wf(xs[t]),
    decreases t - i,
{
    if i < t {
        lemma_values_wf_at(xs, i + 1, t);
    }
}

pub(crate) proof fn lemma_members_wf_at(ps: Seq<(Seq<char>, JsonData)>, i: nat, t: int)
    requires
        members_wf_from(ps, i),
        i <= t < ps.len(),
    ensures
        json_wf(ps[t].1),
    decreases t - i,
{
    if i < t {
        lemma_members_wf_at(ps, i + 1, t);
    }
}

/// Law: on well-formed JSON, serde_json's `==` is reflexive: every value equals itself.
pub proof fn lemma_json_eq_reflexive(d: JsonData)
    requires
        json_wf(d),
    ensures
        json_eq(d, d),
    decreases d, 0nat,
{
    match d {
        JsonData::Array(xs) => {
            lemma_values_eq_reflexive(xs, 0);
        },
        JsonData::Object(ps) => {
            lemma_members_eq_reflexive(ps, 0);
        },
        _ => {},
    }
}

proof fn lemma_values_eq_reflexive(xs: Seq<JsonData>, i: nat)
    requires
        values_wf_from(xs, i),
    ensures
        values_eq_from(xs, xs, i),
    decreases xs, xs.len() - i,
{
    if i < xs.len() {
        lemma_json_eq_reflexive(xs[i as int]);
        lemma_values_eq_reflexive(xs, i + 1);
    }
}

proof fn lemma_members_eq_reflexive(ps: Seq<(Seq<char>, JsonData)>, i: nat)
    requires
        member_keys_distinct(ps),
        members_wf_from(ps, i),
    ensures
        members_eq_from(ps, ps, i),
    decreases ps, ps.len() - i,
{
    if i < ps.len() {
        lemma_member_lookup_distinct(ps, i as int);
        lemma_json_eq_reflexive(ps[i as int].1);
        lemma_members_eq_reflexive(ps, i + 1);
    }
}

/// With distinct keys, looking a member's key up finds that member.
pub proof fn lemma_member_lookup_distinct(ps: Seq<(Seq<char>, JsonData)>, i: int)
    requires
        member_keys_distinct(ps),
        0 <= i < ps.len(),
    ensures
        member_lookup(ps, ps[i].0) == Some(ps[i].1),
    decreases ps.len(),
{
    if i > 0 {
        let t = ps.drop_first();
        assert(ps[0].0 != ps[i].0);
        assert(member_keys_distinct(t)) by {
            assert forall|a: int, b: int| 0 <= a < t.len() && 0 <= b < t.len() && a != b implies #[trigger] t[a].0
                != #[trigger] t[b].0 by {
                assert(t[a] == ps[a + 1] && t[b] == ps[b + 1]);
            }
        }
        assert(t[i - 1] == ps[i]);
        lemma_member_lookup_distinct(t, i - 1);
    }
}

/// Law: the canonical text of an object depends only on its members, not on
/// the order in which they are listed.
pub proof fn lemma_canonical_ignores_member_order(ps: Seq<(Seq<char>, JsonData)>, qs: Seq<(Seq<char>, JsonData)>)
    requires
        ps.to_multiset() == qs.to_multiset(),
    ensures
        canonical_text(JsonData::Object(ps)) == canonical_text(JsonData::Object(qs)),
{
    vstd::seq_lib::to_multiset_len(ps);
    vstd::seq_lib::to_multiset_len(qs);
    lemma_members_text_same(ps, qs, 0);
}

proof fn lemma_members_text_same(ps: Seq<(Seq<char>, JsonData)>, qs: Seq<(Seq<char>, JsonData)>, i: nat)
    requires
        ps.len() == qs.len(),
        ps.to_multiset() == qs.to_multiset(),
    ensures
        members_text(ps, i) == members_text(qs, i),
    decreases ps.len() - i,
{
    if i < ps.len() {
        lemma_members_text_same(ps, qs, i + 1);
    }
}

} // verus!
