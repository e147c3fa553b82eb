//! A map from texts to texts kept in key order, as a sorted vector.

use vstd::prelude::*;
use vstd::string::*;

use crate::text::{
    debug_quoted, lemma_text_lt_irreflexive, lemma_text_lt_total, lemma_text_lt_transitive,
    quote_debug, str_eq, text_less, text_lt,
};

verus! {

/// Entries whose keys strictly increase.
pub open spec fn keys_increase(s: Seq<(Seq<char>, Seq<char>)>) -> bool {
    forall|i: int, j: int| 0 <= i < j < s.len() ==> text_lt(#[trigger] s[i].0, #[trigger] s[j].0)
}

/// Whether some entry has the key.
pub open spec fn has_key(s: Seq<(Seq<char>, Seq<char>)>, k: Seq<char>) -> bool {
    exists|i: int| 0 <= i < s.len() && #[trigger] s[i].0 == k
}

/// The entries after setting `k` to `v` in sorted entries: the entry with
/// key `k` gets the new value; without one, the new entry goes in key order.
pub open spec fn inserted(
    s: Seq<(Seq<char>, Seq<char>)>,
    k: Seq<char>,
    v: Seq<char>,
    r: Seq<(Seq<char>, Seq<char>)>,
) -> bool {
    &&& keys_increase(r)
    &&& forall|i: int| 0 <= i < s.len() && #[trigger] s[i].0 == k ==> r == s.update(i, (k, v))
    &&& !has_key(s, k) ==> exists|p: int| 0 <= p <= s.len() && r == s.insert(p, (k, v))
}

/// One entry as `Debug` shows a map entry: `"key": "value"`.
pub open spec fn debug_entry(e: (Seq<char>, Seq<char>)) -> Seq<char> {
    debug_quoted(e.0) + ": "@ + debug_quoted(e.1)
}

/// Entries as `Debug` lists them, separated by `, `.
pub open spec fn debug_entries(s: Seq<(Seq<char>, Seq<char>)>) -> Seq<char>
    decreases s.len(),
{
    if s.len() == 0 {
        Seq::empty()
    } else if s.len() == 1 {
        debug_entry(s[0])
    } else {
        debug_entries(s.drop_last()) + ", "@ + debug_entry(s.last())
    }
}

/// The `Debug` text of a map with these entries: `{"k": "v", ...}`.
pub open spec fn debug_map(s: Seq<(Seq<char>, Seq<char>)>) -> Seq<char> {
    "{"@ + debug_entries(s) + "}"@
}

/// The `Debug` text of a map lists every entry once, in key order, each as
/// its quoted key, `: ` and its quoted value: `{}` for no entry, `{` entry
/// `}` for one, and an entry added after the last one goes, after `, `,
/// just before the closing `}`.
pub proof fn lemma_debug_map_lists_every_entry(
    s: Seq<(Seq<char>, Seq<char>)>,
    e: (Seq<char>, Seq<char>),
)
    ensures
        debug_map(Seq::empty()) == "{}"@,
        debug_map(seq![e]) == "{"@ + debug_quoted(e.0) + ": "@ + debug_quoted(e.1) + "}"@,
        s.len() > 0 ==> debug_map(s.push(e)) == debug_map(s).subrange(0, debug_map(s).len() - 1)
            + ", "@ + debug_quoted(e.0) + ": "@ + debug_quoted(e.1) + "}"@,
{
    reveal_strlit("{}");
    reveal_strlit("{");
    reveal_strlit("}");
    assert(debug_map(Seq::empty()) =~= "{}"@);
    assert(debug_map(seq![e]) =~= "{"@ + debug_entry(e) + "}"@);
    if s.len() > 0 {
        assert(s.push(e).drop_last() =~= s);
        assert(debug_map(s).subrange(0, debug_map(s).len() - 1) =~= "{"@ + debug_entries(s));
        assert(debug_map(s.push(e)) =~= debug_map(s).subrange(0, debug_map(s).len() - 1) + ", "@
            + debug_entry(e) + "}"@);
    }
}

/// The entries as texts.
pub open spec fn entries_view(v: Seq<(String, String)>) -> Seq<(Seq<char>, Seq<char>)> {
    v.map_values(|e: (String, String)| (e.0@, e.1@))
}

fn insert_sorted(entries: &mut Vec<(String, String)>, key: String, value: String)
    requires
        keys_increase(entries_view(old(entries)@)),
    ensures
        inserted(entries_view(old(entries)@), key@, value@, entries_view(final(entries)@)),
{
    let ghost s = entries_view(entries@);
    let n = entries.len();
    let mut i: usize = 0;
    while i < n
        invariant
            n == entries@.len(),
            s == entries_view(entries@),
            s == entries_view(old(entries)@),
            keys_increase(s),
            i <= n,
            forall|j: int| 0 <= j < i ==> text_lt(#[trigger] s[j].0, key@),
        decreases n - i,
    {
        assert(s[i as int] == (entries@[i as int].0@, entries@[i as int].1@));
        if str_eq(entries[i].0.as_str(), key.as_str()) {
            let ghost k = key@;
            let ghost v = value@;
            entries.set(i, (key, value));
            assert(entries_view(entries@) =~= s.update(i as int, (k, v)));
            assert(s[i as int].0 == k);
            assert forall|a: int, b: int| 0 <= a < b < entries_view(entries@).len() implies text_lt(
                #[trigger] entries_view(entries@)[a].0,
                #[trigger] entries_view(entries@)[b].0,
            ) by {
                assert(entries_view(entries@)[a].0 == s[a].0);
                assert(entries_view(entries@)[b].0 == s[b].0);
            }
            assert forall|j: int| 0 <= j < s.len() && #[trigger] s[j].0 == k implies entries_view(entries@)
                == s.update(j, (k, v)) by {
                if j != i {
                    if j < i {
                        assert(text_lt(s[j].0, s[i as int].0));
                    } else {
                        assert(text_lt(s[i as int].0, s[j].0));
                    }
                    lemma_text_lt_irreflexive(k);
                }
            }
            return;
        }
        if !text_less(entries[i].0.as_str(), key.as_str()) {
            let ghost k = key@;
            let ghost v = value@;
            proof {
                lemma_text_lt_total(s[i as int].0, k);
            }
            entries.insert(i, (key, value));
            assert(entries_view(entries@) =~= s.insert(i as int, (k, v)));
            assert(!has_key(s, k)) by {
                assert forall|j: int| 0 <= j < s.len() implies #[trigger] s[j].0 != k by {
                    if j < i {
                        lemma_text_lt_irreflexive(k);
                    } else if j > i {
                        assert(text_lt(s[i as int].0, s[j].0));
                        lemma_text_lt_transitive(k, s[i as int].0, s[j].0);
                        lemma_text_lt_irreflexive(k);
                    }
                }
            }
            assert forall|a: int, b: int| 0 <= a < b < entries_view(entries@).len() implies text_lt(
                #[trigger] entries_view(entries@)[a].0,
                #[trigger] entries_view(entries@)[b].0,
            ) by {
                if b == i {
                } else if a == i {
                    if b - 1 > i {
                        lemma_text_lt_transitive(k, s[i as int].0, s[b - 1].0);
                    }
                } else if a < i && b > i {
                    if b - 1 > i {
                        assert(text_lt(s[i as int].0, s[b - 1].0));
                        lemma_text_lt_transitive(k, s[i as int].0, s[b - 1].0);
                    }
                    lemma_text_lt_transitive(s[a].0, k, entries_view(entries@)[b].0);
                } else if a > i {
                    assert(entries_view(entries@)[a] == s[a - 1]);
                    assert(entries_view(entries@)[b] == s[b - 1]);
                }
            }
            return;
        }
        i = i + 1;
    }
    let ghost k = key@;
    let ghost v = value@;
    entries.push((key, value));
    assert(entries_view(entries@) =~= s.insert(n as int, (k, v)));
    assert(!has_key(s, k)) by {
        assert forall|j: int| 0 <= j < s.len() implies #[trigger] s[j].0 != k by {
            lemma_text_lt_irreflexive(k);
        }
    }
}


/// Texts keyed by text, in key order, each key at most once.
pub struct StringMap {
    entries: Vec<(String, String)>,
}

impl View for StringMap {
    type V = Seq<(Seq<char>, Seq<char>)>;

    closed spec fn view(&self) -> Seq<(Seq<char>, Seq<char>)> {
        entries_view(self.entries@)
    }
}

impl StringMap {
    /// The keys increase.
    #[verifier::type_invariant]
    pub open spec fn well_formed(&self) -> bool {
        keys_increase(self@)
    }

    /// The empty map.
    pub fn new() -> (m: Self)
        ensures
            m@ == Seq::<(Seq<char>, Seq<char>)>::empty(),
            m.well_formed(),
    {
        let m = StringMap { entries: Vec::new() };
        assert(m@ =~= Seq::<(Seq<char>, Seq<char>)>::empty());
        m
    }

    /// Whether the map has no entry.
    pub fn is_empty(&self) -> (b: bool)
        ensures
            b == (self@.len() == 0),
    {
        self.entries.len() == 0
    }

    /// Number of entries.
    pub fn len(&self) -> (n: usize)
        ensures
            n == self@.len(),
    {
        self.entries.len()
    }

    /// Sets `key` to `value`, replacing an earlier value of `key`.
    pub fn insert(&mut self, key: String, value: String)
        ensures
            final(self).well_formed(),
            inserted(old(self)@, key@, value@, final(self)@),
    {
        proof {
            use_type_invariant(&*self);
        }
        let mut entries: Vec<(String, String)> = Vec::new();
        std::mem::swap(&mut entries, &mut self.entries);
        insert_sorted(&mut entries, key, value);
        self.entries = entries;
    }

    /// Sets `key` to `value` unless the map already has `key`.
    pub fn insert_if_absent(&mut self, key: String, value: String)
        ensures
            final(self).well_formed(),
            has_key(old(self)@, key@) ==> final(self)@ == old(self)@,
            !has_key(old(self)@, key@) ==> inserted(old(self)@, key@, value@, final(self)@),
    {
        proof {
            use_type_invariant(&*self);
        }
        if !self.contains_key(key.as_str()) {
            self.insert(key, value);
        }
    }

    /// Whether the map has the key.
    pub fn contains_key(&self, key: &str) -> (b: bool)
        ensures
            b == has_key(self@, key@),
    {
        let n = self.entries.len();
        let mut i: usize = 0;
        while i < n
            invariant
                n == self@.len(),
                i <= n,
                forall|j: int| 0 <= j < i ==> #[trigger] self@[j].0 != key@,
            decreases n - i,
        {
            assert(self@[i as int].0 == self.entries@[i as int].0@);
            if str_eq(self.entries[i].0.as_str(), key) {
                return true;
            }
            i = i + 1;
        }
        false
    }

    /// The entries, in key order.
    pub fn to_pairs(&self) -> (v: Vec<(String, String)>)
        ensures
            v@.len() == self@.len(),
            forall|i: int| 0 <= i < v@.len() ==> (#[trigger] v@[i].0@, v@[i].1@) == self@[i],
    {
        let n = self.entries.len();
        let mut v: Vec<(String, String)> = Vec::new();
        let mut i: usize = 0;
        while i < n
            invariant
                n == self@.len(),
                i <= n,
                v@.len() == i,
                forall|j: int| 0 <= j < i ==> (#[trigger] v@[j].0@, v@[j].1@) == self@[j],
            decreases n - i,
        {
            let k = self.entries[i].0.clone();
            let x = self.entries[i].1.clone();
            v.push((k, x));
            i = i + 1;
        }
        v
    }

    /// The map as `Debug` shows it: `{"key": "value", ...}`.
    pub fn debug_text(&self) -> (t: String)
        ensures
            t@ == debug_map(self@),
    {
        let n = self.entries.len();
        let mut t = String::from_str("{");
        let mut i: usize = 0;
        while i < n
            invariant
                n == self@.len(),
                i <= n,
                t@ == "{"@ + debug_entries(self@.subrange(0, i as int)),
            decreases n - i,
        {
            if i > 0 {
                t.append(", ");
            }
            let k = quote_debug(self.entries[i].0.as_str());
            t.append(k.as_str());
            t.append(": ");
            let v = quote_debug(self.entries[i].1.as_str());
            t.append(v.as_str());
            let ghost p = self@.subrange(0, i + 1);
            assert(p.drop_last() =~= self@.subrange(0, i as int));
            assert(p.last() == self@[i as int]);
            assert(self@[i as int] == (self.entries@[i as int].0@, self.entries@[i as int].1@));
            assert(t@ =~= "{"@ + debug_entries(p));
            i = i + 1;
        }
        assert(self@.subrange(0, n as int) =~= self@);
        t.append("}");
        t
    }
}

/// A new key goes in key order: after every smaller key and before every
/// larger one.
pub proof fn lemma_inserted_in_order(
    s: Seq<(Seq<char>, Seq<char>)>,
    k: Seq<char>,
    v: Seq<char>,
    r: Seq<(Seq<char>, Seq<char>)>,
) -> (p: int)
    requires
        keys_increase(s),
        !has_key(s, k),
        inserted(s, k, v, r),
    ensures
        0 <= p <= s.len(),
        r == s.insert(p, (k, v)),
        forall|j: int| 0 <= j < p ==> text_lt(#[trigger] s[j].0, k),
        forall|j: int| p <= j < s.len() ==> text_lt(k, #[trigger] s[j].0),
{
    let p = choose|p: int| 0 <= p <= s.len() && r == s.insert(p, (k, v));
    assert forall|j: int| 0 <= j < p implies text_lt(#[trigger] s[j].0, k) by {
        assert(r[j] == s[j]);
        assert(r[p] == (k, v));
        assert(text_lt(r[j].0, r[p].0));
    }
    assert forall|j: int| p <= j < s.len() implies text_lt(k, #[trigger] s[j].0) by {
        assert(r[j + 1] == s[j]);
        assert(r[p] == (k, v));
        assert(text_lt(r[p].0, r[j + 1].0));
    }
    p
}

/// The map that entries denote: later entries override earlier ones.
pub open spec fn to_map(s: Seq<(Seq<char>, Seq<char>)>) -> Map<Seq<char>, Seq<char>>
    decreases s.len(),
{
    if s.len() == 0 {
        Map::empty()
    } else {
        to_map(s.drop_last()).insert(s.last().0, s.last().1)
    }
}

/// No key occurs twice.
pub open spec fn keys_distinct(s: Seq<(Seq<char>, Seq<char>)>) -> bool {
    forall|i: int, j: int| 0 <= i < s.len() && 0 <= j < s.len() && i != j ==> #[trigger] s[i].0
        != #[trigger] s[j].0
}

proof fn lemma_increasing_keys_distinct(s: Seq<(Seq<char>, Seq<char>)>)
    requires
        keys_increase(s),
    ensures
        keys_distinct(s),
{
    assert forall|i: int, j: int|
        0 <= i < s.len() && 0 <= j < s.len() && i != j implies #[trigger] s[i].0 != #[trigger] s[j].0 by {
        lemma_text_lt_irreflexive(s[i].0);
        if i < j {
            assert(text_lt(s[i].0, s[j].0));
        } else {
            assert(text_lt(s[j].0, s[i].0));
        }
    }
}

proof fn lemma_to_map_entries(s: Seq<(Seq<char>, Seq<char>)>)
    requires
        keys_distinct(s),
    ensures
        forall|k: Seq<char>| #[trigger] to_map(s).contains_key(k) <==> has_key(s, k),
        forall|i: int| 0 <= i < s.len() ==> to_map(s)[#[trigger] s[i].0] == s[i].1,
    decreases s.len(),
{
    if s.len() > 0 {
        let p = s.drop_last();
        assert(keys_distinct(p)) by {
            assert forall|i: int, j: int|
                0 <= i < p.len() && 0 <= j < p.len() && i != j implies #[trigger] p[i].0
                != #[trigger] p[j].0 by {
                assert(p[i] == s[i] && p[j] == s[j]);
            }
        }
        lemma_to_map_entries(p);
        assert forall|k: Seq<char>| #[trigger] to_map(s).contains_key(k) <==> has_key(s, k) by {
            if has_key(s, k) {
                let i = choose|i: int| 0 <= i < s.len() && #[trigger] s[i].0 == k;
                if i < s.len() - 1 {
                    assert(p[i].0 == k);
                }
            }
            if to_map(s).contains_key(k) && k != s.last().0 {
                assert(to_map(p).contains_key(k));
                assert(has_key(p, k));
                let i = choose|i: int| 0 <= i < p.len() && #[trigger] p[i].0 == k;
                assert(s[i].0 == k);
            }
        }
        assert forall|i: int| 0 <= i < s.len() implies to_map(s)[#[trigger] s[i].0] == s[i].1 by {
            if i < s.len() - 1 {
                assert(p[i] == s[i]);
                assert(s[i].0 != s[s.len() - 1].0);
            }
        }
    }
}

/// Setting a key in sorted entries is setting it in the map they denote:
/// afterwards the key gives the new value and every other key gives what
/// it gave before.
pub proof fn lemma_insert_is_map_insert(
    s: Seq<(Seq<char>, Seq<char>)>,
    k: Seq<char>,
    v: Seq<char>,
    r: Seq<(Seq<char>, Seq<char>)>,
)
    requires
        keys_increase(s),
        inserted(s, k, v, r),
    ensures
        to_map(r) == to_map(s).insert(k, v),
{
    lemma_increasing_keys_distinct(s);
    lemma_increasing_keys_distinct(r);
    lemma_to_map_entries(s);
    lemma_to_map_entries(r);
    if has_key(s, k) {
        let i = choose|i: int| 0 <= i < s.len() && #[trigger] s[i].0 == k;
        assert(r == s.update(i, (k, v)));
        assert forall|x: Seq<char>| #[trigger] to_map(r).contains_key(x) <==> to_map(s).insert(
            k,
            v,
        ).contains_key(x) by {
            if has_key(r, x) {
                let j = choose|j: int| 0 <= j < r.len() && #[trigger] r[j].0 == x;
                if j != i {
                    assert(s[j].0 == x);
                }
            }
            if has_key(s, x) {
                let j = choose|j: int| 0 <= j < s.len() && #[trigger] s[j].0 == x;
                if j != i {
                    assert(r[j].0 == x);
                } else {
                    assert(r[i].0 == x);
                }
            }
        }
        assert forall|x: Seq<char>| #[trigger] to_map(r).contains_key(x) implies to_map(r)[x]
            == to_map(s).insert(k, v)[x] by {
            let j = choose|j: int| 0 <= j < r.len() && #[trigger] r[j].0 == x;
            if j != i {
                assert(s[j] == r[j]);
            }
        }
        assert(to_map(r) =~= to_map(s).insert(k, v));
    } else {
        let p = lemma_inserted_in_order(s, k, v, r);
        assert forall|x: Seq<char>| #[trigger] to_map(r).contains_key(x) <==> to_map(s).insert(
            k,
            v,
        ).contains_key(x) by {
            if has_key(r, x) {
                let j = choose|j: int| 0 <= j < r.len() && #[trigger] r[j].0 == x;
                if j < p {
                    assert(s[j].0 == x);
                } else if j > p {
                    assert(s[j - 1].0 == x);
                }
            }
            if has_key(s, x) {
                let j = choose|j: int| 0 <= j < s.len() && #[trigger] s[j].0 == x;
                if j < p {
                    assert(r[j].0 == x);
                } else {
                    assert(r[j + 1].0 == x);
                }
            }
            if x == k {
                assert(r[p].0 == x);
            }
        }
        assert forall|x: Seq<char>| #[trigger] to_map(r).contains_key(x) implies to_map(r)[x]
            == to_map(s).insert(k, v)[x] by {
            let j = choose|j: int| 0 <= j < r.len() && #[trigger] r[j].0 == x;
            if j < p {
                assert(s[j] == r[j]);
            } else if j > p {
                assert(s[j - 1] == r[j]);
            }
        }
        assert(to_map(r) =~= to_map(s).insert(k, v));
    }
}

/// In sorted entries, a key is present exactly when the map they denote
/// has it.
pub proof fn lemma_has_key_is_map_key(s: Seq<(Seq<char>, Seq<char>)>, k: Seq<char>)
    requires
        keys_increase(s),
    ensures
        has_key(s, k) == to_map(s).contains_key(k),
{
    lemma_increasing_keys_distinct(s);
    lemma_to_map_entries(s);
}

} // verus!
