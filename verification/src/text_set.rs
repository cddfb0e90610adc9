//! A set of texts kept in ascending order (Rust's string order), each at most once.
use vstd::prelude::*;

use crate::text::{lemma_lex_transitive, lemma_lex_trichotomy, lex_less, str_eq, str_less};

verus! {

/// Strictly increasing in string order.
pub open spec fn texts_sorted(s: Seq<Seq<char>>) -> bool {
    forall|i: int, j: int| 0 <= i < j < s.len() ==> lex_less(#[trigger] s[i], #[trigger] s[j])
}

/// `s` with `x` added in order, unless it is there already.
pub open spec fn text_insert(s: Seq<Seq<char>>, x: Seq<char>) -> Seq<Seq<char>>
    decreases s.len(),
{
    if s.len() == 0 {
        seq![x]
    } else if lex_less(s[0], x) {
        seq![s[0]] + text_insert(s.drop_first(), x)
    } else if s[0] == x {
        s
    } else {
        seq![x] + s
    }
}

/// `items` added one after another into an empty set.
pub open spec fn texts_from(items: Seq<Seq<char>>) -> Seq<Seq<char>>
    decreases items.len(),
{
    if items.len() == 0 {
        Seq::empty()
    } else {
        text_insert(texts_from(items.drop_last()), items.last())
    }
}

/// Some text occurs twice in `items`.
pub open spec fn has_repeat(items: Seq<Seq<char>>) -> bool {
    exists|i: int, j: int| 0 <= i < j < items.len() && items[i] == items[j]
}

/// The views of a list of strings.
pub open spec fn texts_view(s: Seq<String>) -> Seq<Seq<char>> {
    s.map_values(|x: String| x@)
}

/// Texts in ascending order, each once: what a `BTreeSet<String>` holds.
#[derive(Debug, PartialEq, Eq, Hash)]
pub struct TextSet {
    items: Vec<String>,
}

impl View for TextSet {
    type V = Seq<Seq<char>>;

    closed spec fn view(&self) -> Seq<Seq<char>> {
        texts_view(self.items@)
    }
}

impl TextSet {
    #[verifier::type_invariant]
    closed spec fn inv(&self) -> bool {
        texts_sorted(texts_view(self.items@))
    }

    pub fn new() -> (r: TextSet)
        ensures
            r@ == Seq::<Seq<char>>::empty(),
    {
        let r = TextSet { items: Vec::new() };
        assert(r@ =~= Seq::<Seq<char>>::empty());
        r
    }

    /// The items in ascending order.
    pub fn items(&self) -> (r: &[String])
        ensures
            texts_view(r@) == self@,
            texts_sorted(self@),
    {
        proof {
            use_type_invariant(self);
        }
        self.items.as_slice()
    }

    pub fn len(&self) -> (r: usize)
        ensures
            r == self@.len(),
    {
        self.items.len()
    }

    pub fn is_empty(&self) -> (r: bool)
        ensures
            r == (self@.len() == 0),
    {
        self.items.len() == 0
    }

    /// Whether `x` is an item.
    pub fn contains(&self, x: &str) -> (r: bool)
        ensures
            r == self@.contains(x@),
    {
        let mut i: usize = 0;
        while i < self.items.len()
            invariant
                i <= self.items@.len(),
                forall|j: int| 0 <= j < i ==> #[trigger] self@[j] != x@,
            decreases self.items@.len() - i,
        {
            assert(self@[i as int] == self.items@[i as int]@);
            if str_eq(self.items[i].as_str(), x) {
                return true;
            }
            i = i + 1;
        }
        false
    }

    /// Add `x` in order; `true` when it was not there before.
    pub fn insert(&mut self, x: &str) -> (r: bool)
        ensures
            final(self)@ == text_insert(old(self)@, x@),
            r == !old(self)@.contains(x@),
    {
        proof {
            use_type_invariant(&*self);
        }
        let mut items: Vec<String> = Vec::new();
        std::mem::swap(&mut items, &mut self.items);
        let ghost s = texts_view(items@);
        let ghost n = s.len();
        let mut i: usize = 0;
        assert(s.subrange(0, 0) + s.subrange(0, n as int) =~= s);
        while i < items.len() && str_less(items[i].as_str(), x)
            invariant
                s == texts_view(items@),
                n == s.len(),
                texts_sorted(s),
                i <= n,
                forall|j: int| 0 <= j < i ==> lex_less(#[trigger] s[j], x@),
                text_insert(s, x@) == s.subrange(0, i as int) + text_insert(s.subrange(i as int, n as int), x@),
            decreases n - i,
        {
            proof {
                let rest = s.subrange(i as int, n as int);
                assert(rest[0] == s[i as int]);
                assert(rest.drop_first() =~= s.subrange(i + 1, n as int));
                assert(s.subrange(0, i as int) + (seq![s[i as int]] + text_insert(s.subrange(i + 1, n as int), x@))
                    =~= s.subrange(0, i + 1) + text_insert(s.subrange(i + 1, n as int), x@));
            }
            i = i + 1;
        }
        let found = i < items.len() && str_eq(items[i].as_str(), x);
        proof {
            lemma_sorted_position(s, i as int, x@);
        }
        if found {
            proof {
                let rest = s.subrange(i as int, n as int);
                assert(rest[0] == s[i as int]);
                assert(s.subrange(0, i as int) + rest =~= s);
            }
            self.items = items;
            false
        } else {
            proof {
                let rest = s.subrange(i as int, n as int);
                if i < n {
                    assert(rest[0] == s[i as int]);
                    lemma_lex_trichotomy(s[i as int], x@);
                }
            }
            items.insert(i, x.to_owned());
            proof {
                let t = texts_view(items@);
                let rest = s.subrange(i as int, n as int);
                assert(t =~= s.subrange(0, i as int) + (seq![x@] + rest));
                lemma_insert_sorted(s, i as int, x@, t);
            }
            self.items = items;
            true
        }
    }

    /// The set of `items`, refused (`None`) when some text occurs twice: a
    /// repeated entry is an error, not something to drop silently.
    pub fn from_unique(items: &[String]) -> (r: Option<TextSet>)
        ensures
            r is None <==> has_repeat(texts_view(items@)),
            r matches Some(s) ==> s@ == texts_from(texts_view(items@)),
    {
        let ghost v = texts_view(items@);
        let mut set = TextSet::new();
        let mut i: usize = 0;
        assert(v.take(0) =~= Seq::<Seq<char>>::empty());
        while i < items.len()
            invariant
                v == texts_view(items@),
                i <= items@.len(),
                set@ == texts_from(v.take(i as int)),
                !has_repeat(v.take(i as int)),
            decreases items@.len() - i,
        {
            let ghost before = set@;
            let fresh = set.insert(items[i].as_str());
            proof {
                let t = v.take(i + 1);
                assert(t.drop_last() =~= v.take(i as int));
                assert(t.last() == v[i as int]);
                assert(v[i as int] == items@[i as int]@);
                lemma_texts_from_contains(v.take(i as int), v[i as int]);
                if !fresh {
                    let j = choose|j: int| 0 <= j < i && v.take(i as int)[j] == v[i as int];
                    assert(t[j] == t[i as int]);
                    assert(has_repeat(v)) by {
                        assert(v[j] == v[i as int]);
                    }
                } else {
                    assert forall|a: int, b: int| 0 <= a < b < t.len() implies t[a] != t[b] by {
                        if b < i {
                            assert(t[a] == v.take(i as int)[a] && t[b] == v.take(i as int)[b]);
                        } else {
                            assert(t[a] == v.take(i as int)[a]);
                        }
                    }
                }
            }
            if !fresh {
                return None;
            }
            i = i + 1;
        }
        assert(v.take(i as int) =~= v);
        Some(set)
    }

    /// A copy holding the same items.
    pub fn duplicate(&self) -> (r: TextSet)
        ensures
            r@ == self@,
    {
        proof {
            use_type_invariant(self);
        }
        let mut out: Vec<String> = Vec::new();
        let mut i: usize = 0;
        while i < self.items.len()
            invariant
                i <= self.items@.len(),
                out@.len() == i,
                forall|j: int| 0 <= j < i ==> #[trigger] out@[j]@ == self.items@[j]@,
            decreases self.items@.len() - i,
        {
            out.push(self.items[i].clone());
            i = i + 1;
        }
        assert(texts_view(out@) =~= texts_view(self.items@));
        TextSet { items: out }
    }
}

impl Clone for TextSet {
    fn clone(&self) -> (r: TextSet)
        ensures
            r@ == self@,
    {
        self.duplicate()
    }
}

/// A text is in the set built from `items` exactly when it is one of them.
pub proof fn lemma_texts_from_contains(items: Seq<Seq<char>>, y: Seq<char>)
    ensures
        texts_from(items).contains(y) <==> items.contains(y),
    decreases items.len(),
{
    if items.len() > 0 {
        lemma_texts_from_contains(items.drop_last(), y);
        lemma_text_insert_contains(texts_from(items.drop_last()), items.last(), y);
        if items.drop_last().contains(y) {
            let k = choose|k: int| 0 <= k < items.drop_last().len() && items.drop_last()[k] == y;
            assert(items[k] == y);
        }
        if items.contains(y) && y != items.last() {
            let k = choose|k: int| 0 <= k < items.len() && items[k] == y;
            assert(items.drop_last()[k] == y);
        }
        if y == items.last() {
            assert(items[items.len() - 1] == y);
        }
    }
}

/// Inserting adds `x` and keeps every other item.
pub proof fn lemma_text_insert_contains(s: Seq<Seq<char>>, x: Seq<char>, y: Seq<char>)
    ensures
        text_insert(s, x).contains(y) <==> (s.contains(y) || y == x),
    decreases s.len(),
{
    if s.len() == 0 {
        assert(seq![x][0] == x);
    } else if lex_less(s[0], x) {
        lemma_text_insert_contains(s.drop_first(), x, y);
        let t = seq![s[0]] + text_insert(s.drop_first(), x);
        if s.contains(y) {
            let k = choose|k: int| 0 <= k < s.len() && s[k] == y;
            if k == 0 {
                assert(t[0] == y);
            } else {
                assert(s.drop_first()[k - 1] == y);
                let m = choose|m: int| 0 <= m < text_insert(s.drop_first(), x).len() && text_insert(s.drop_first(), x)[m] == y;
                assert(t[m + 1] == y);
            }
        }
        if y == x {
            let m = choose|m: int| 0 <= m < text_insert(s.drop_first(), x).len() && text_insert(s.drop_first(), x)[m] == y;
            assert(t[m + 1] == y);
        }
        if t.contains(y) {
            let m = choose|m: int| 0 <= m < t.len() && t[m] == y;
            if m == 0 {
                assert(s[0] == y);
            } else {
                assert(text_insert(s.drop_first(), x)[m - 1] == y);
                if s.drop_first().contains(y) {
                    let k = choose|k: int| 0 <= k < s.drop_first().len() && s.drop_first()[k] == y;
                    assert(s[k + 1] == y);
                }
            }
        }
    } else if s[0] == x {
        if y == x {
            assert(s[0] == y);
        }
    } else {
        let t = seq![x] + s;
        if s.contains(y) {
            let k = choose|k: int| 0 <= k < s.len() && s[k] == y;
            assert(t[k + 1] == y);
        }
        if y == x {
            assert(t[0] == y);
        }
        if t.contains(y) {
            let m = choose|m: int| 0 <= m < t.len() && t[m] == y;
            if m > 0 {
                assert(s[m - 1] == y);
            }
        }
    }
}

pub proof fn lemma_sorted_position(s: Seq<Seq<char>>, i: int, x: Seq<char>)
    requires
        texts_sorted(s),
        0 <= i <= s.len(),
        forall|j: int| 0 <= j < i ==> lex_less(#[trigger] s[j], x),
        i < s.len() ==> !lex_less(s[i], x),
    ensures
        s.contains(x) <==> (i < s.len() && s[i] == x),
{
    if s.contains(x) {
        let j = choose|j: int| 0 <= j < s.len() && s[j] == x;
        if j < i {
            lemma_lex_trichotomy(s[j], x);
        } else if j > i {
            assert(lex_less(s[i], s[j]));
        }
    }
    if i < s.len() && s[i] == x {
        assert(s.contains(x));
    }
}

pub proof fn lemma_insert_sorted(s: Seq<Seq<char>>, i: int, x: Seq<char>, t: Seq<Seq<char>>)
    requires
        texts_sorted(s),
        0 <= i <= s.len(),
        forall|j: int| 0 <= j < i ==> lex_less(#[trigger] s[j], x),
        i < s.len() ==> lex_less(x, s[i]),
        t == s.subrange(0, i) + (seq![x] + s.subrange(i, s.len() as int)),
    ensures
        texts_sorted(t),
{
    assert forall|a: int, b: int| 0 <= a < b < t.len() implies lex_less(#[trigger] t[a], #[trigger] t[b]) by {
        if b < i {
            assert(t[a] == s[a] && t[b] == s[b]);
        } else if b == i {
            assert(t[a] == s[a]);
        } else if a < i {
            assert(t[a] == s[a] && t[b] == s[b - 1]);
            if b - 1 > i {
                lemma_lex_transitive(x, s[i], s[b - 1]);
            }
            lemma_lex_transitive(s[a], x, s[b - 1]);
        } else if a == i {
            assert(t[b] == s[b - 1]);
            if b - 1 > i {
                lemma_lex_transitive(x, s[i], s[b - 1]);
            }
        } else {
            assert(t[a] == s[a - 1] && t[b] == s[b - 1]);
        }
    }
}

} // verus!
