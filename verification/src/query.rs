//! The parameters of one request: a map from names to values, kept in
//! ascending key order so that a request is always sent the same way.
use vstd::prelude::*;
use crate::date::{iso_date_text, Date};
use crate::text::{compare_keys, decimal, decimal_text, key_lt, KeyOrder, lemma_key_lt_irreflexive, lemma_key_lt_total,
    lemma_key_lt_transitive};

verus! {

/// Keys strictly increase along the sequence, so no key occurs twice.
pub open spec fn keys_ascending(s: Seq<(Seq<char>, Seq<char>)>) -> bool {
    forall|i: int, j: int| 0 <= i < j < s.len() ==> key_lt(#[trigger] s[i].0, #[trigger] s[j].0)
}

/// The map that a sequence of pairs describes; a later pair wins over an
/// earlier one with the same key.
pub open spec fn pairs_map(s: Seq<(Seq<char>, Seq<char>)>) -> Map<Seq<char>, Seq<char>>
    decreases s.len(),
{
    if s.len() == 0 {
        Map::empty()
    } else {
        pairs_map(s.drop_last()).insert(s.last().0, s.last().1)
    }
}

/// Which keys a sequence of pairs maps, and to what, when no key repeats.
pub proof fn lemma_pairs_map(s: Seq<(Seq<char>, Seq<char>)>)
    requires
        keys_ascending(s),
    ensures
        forall|k: Seq<char>| #[trigger]
            pairs_map(s).dom().contains(k) <==> exists|i: int| 0 <= i < s.len() && s[i].0 == k,
        forall|i: int| 0 <= i < s.len() ==> #[trigger] pairs_map(s)[s[i].0] == s[i].1,
    decreases s.len(),
{
    if s.len() > 0 {
        let t = s.drop_last();
        assert(keys_ascending(t));
        lemma_pairs_map(t);
        assert(pairs_map(s) == pairs_map(t).insert(s.last().0, s.last().1));
        assert forall|k: Seq<char>| #[trigger]
            pairs_map(s).dom().contains(k) <==> exists|i: int| 0 <= i < s.len() && s[i].0 == k by {
            if pairs_map(s).dom().contains(k) {
                if k == s.last().0 {
                    assert(s[s.len() - 1].0 == k);
                } else {
                    assert(pairs_map(t).dom().contains(k));
                    let i = choose|i: int| 0 <= i < t.len() && t[i].0 == k;
                    assert(t[i] == s[i]);
                    assert(s[i].0 == k);
                }
            }
            if exists|i: int| 0 <= i < s.len() && s[i].0 == k {
                let i = choose|i: int| 0 <= i < s.len() && s[i].0 == k;
                if i < t.len() {
                    assert(t[i] == s[i]);
                    assert(t[i].0 == k);
                    assert(pairs_map(t).dom().contains(k));
                }
            }
        }
        assert forall|i: int| 0 <= i < s.len() implies #[trigger] pairs_map(s)[s[i].0] == s[i].1 by {
            if i < s.len() - 1 {
                assert(key_lt(s[i].0, s[s.len() - 1].0));
                lemma_key_lt_irreflexive(s[i].0);
                assert(t[i] == s[i]);
                assert(pairs_map(t)[t[i].0] == t[i].1);
            }
        }
    }
}

/// `m` with `key` set to the ISO text of `date`, where there is a date.
pub open spec fn with_date(m: Map<Seq<char>, Seq<char>>, key: Seq<char>, date: Option<Date>) -> Map<
    Seq<char>,
    Seq<char>,
> {
    match date {
        Some(d) => m.insert(key, iso_date_text(d@)),
        None => m,
    }
}

/// The text that a flag is sent as.
pub open spec fn flag_text(b: bool) -> Seq<char> {
    if b {
        "true"@
    } else {
        "false"@
    }
}

/// A query's parameters. Its view is the sequence of `(name, value)` pairs in
/// the order in which they are sent; `entries` is the map they describe.
pub struct Query {
    pairs: Vec<(String, String)>,
}

impl View for Query {
    type V = Seq<(Seq<char>, Seq<char>)>;

    closed spec fn view(&self) -> Seq<(Seq<char>, Seq<char>)> {
        self.pairs@.map_values(|p: (String, String)| (p.0@, p.1@))
    }
}

impl Query {
    #[verifier::type_invariant]
    spec fn ordered(self) -> bool {
        keys_ascending(self@)
    }

    /// The parameters as a map from name to value.
    pub open spec fn entries(self) -> Map<Seq<char>, Seq<char>> {
        pairs_map(self@)
    }

    /// A query without parameters.
    pub fn new() -> (q: Query)
        ensures
            q@ == Seq::<(Seq<char>, Seq<char>)>::empty(),
            q.entries() == Map::<Seq<char>, Seq<char>>::empty(),
    {
        let q = Query { pairs: Vec::new() };
        assert(q@ =~= Seq::<(Seq<char>, Seq<char>)>::empty());
        q
    }

    /// The parameters in the order in which they are sent.
    pub fn pairs(&self) -> (r: &Vec<(String, String)>)
        ensures
            r@.map_values(|p: (String, String)| (p.0@, p.1@)) == self@,
            keys_ascending(self@),
    {
        proof {
            use_type_invariant(self);
        }
        &self.pairs
    }

    /// Sets the parameter `key` to `value`, replacing an earlier value of it.
    pub fn put(&mut self, key: &str, value: String)
        ensures
            final(self).entries() == old(self).entries().insert(key@, value@),
            keys_ascending(final(self)@),
    {
        proof {
            use_type_invariant(&*self);
        }
        let ghost old_view = self@;
        let mut pairs: Vec<(String, String)> = Vec::new();
        std::mem::swap(&mut pairs, &mut self.pairs);
        assert(pairs@.map_values(|p: (String, String)| (p.0@, p.1@)) == old_view);
        let n = pairs.len();
        let mut i: usize = 0;
        let mut found = false;
        while i < n
            invariant_except_break
                !found,
                n == pairs.len(),
                i <= n,
                pairs@.map_values(|p: (String, String)| (p.0@, p.1@)) == old_view,
                keys_ascending(old_view),
                forall|j: int| 0 <= j < i ==> key_lt(#[trigger] old_view[j].0, key@),
            ensures
                n == pairs.len(),
                i <= n,
                pairs@.map_values(|p: (String, String)| (p.0@, p.1@)) == old_view,
                keys_ascending(old_view),
                forall|j: int| 0 <= j < i ==> key_lt(#[trigger] old_view[j].0, key@),
                found ==> i < n && old_view[i as int].0 == key@,
                !found ==> i == n || key_lt(key@, old_view[i as int].0),
            decreases n - i,
        {
            assert(old_view[i as int] == (pairs@[i as int].0@, pairs@[i as int].1@));
            match compare_keys(pairs[i].0.as_str(), key) {
                KeyOrder::Less => {
                    i = i + 1;
                },
                KeyOrder::Equal => {
                    found = true;
                    break ;
                },
                KeyOrder::Greater => {
                    break ;
                },
            }
        }
        let entry = (key.to_owned(), value);
        let ghost new_pair = (key@, value@);
        if found {
            pairs.set(i, entry);
            proof {
                assert(pairs@.map_values(|p: (String, String)| (p.0@, p.1@)) =~= old_view.update(
                    i as int,
                    new_pair,
                ));
                lemma_replace_keeps_order(old_view, i as int, new_pair);
            }
        } else {
            pairs.insert(i, entry);
            proof {
                assert(pairs@.map_values(|p: (String, String)| (p.0@, p.1@)) =~= old_view.insert(
                    i as int,
                    new_pair,
                ));
                lemma_insert_keeps_order(old_view, i as int, new_pair);
            }
        }
        self.pairs = pairs;
    }

    /// Sets `key` to a number in decimal.
    pub fn put_number(&mut self, key: &str, value: u64)
        ensures
            final(self).entries() == old(self).entries().insert(key@, decimal(value as nat)),
            keys_ascending(final(self)@),
    {
        self.put(key, decimal_text(value));
    }

    /// Sets `key` to `true` or `false`.
    pub fn put_flag(&mut self, key: &str, value: bool)
        ensures
            final(self).entries() == old(self).entries().insert(key@, flag_text(value)),
            keys_ascending(final(self)@),
    {
        let text = if value {
            "true".to_owned()
        } else {
            "false".to_owned()
        };
        self.put(key, text);
    }

    /// Sets `key` to a date as `YYYY-MM-DD` where there is a date.
    pub fn date(&mut self, key: &str, value: Option<Date>)
        ensures
            final(self).entries() == with_date(old(self).entries(), key@, value),
            keys_ascending(final(self)@),
    {
        proof {
            use_type_invariant(&*self);
        }
        match value {
            Some(d) => self.put(key, d.format_iso()),
            None => {},
        }
    }
}

/// Replacing the value of an existing key keeps the order and sets the key.
proof fn lemma_replace_keeps_order(
        old_view: Seq<(Seq<char>, Seq<char>)>,
        i: int,
        p: (Seq<char>, Seq<char>),
    )
        requires
            keys_ascending(old_view),
            0 <= i < old_view.len(),
            old_view[i].0 == p.0,
        ensures
            keys_ascending(old_view.update(i, p)),
            pairs_map(old_view.update(i, p)) == pairs_map(old_view).insert(p.0, p.1),
    {
        let s = old_view.update(i, p);
        assert(keys_ascending(s)) by {
            assert forall|a: int, b: int| 0 <= a < b < s.len() implies key_lt(
                #[trigger] s[a].0,
                #[trigger] s[b].0,
            ) by {
                assert(key_lt(old_view[a].0, old_view[b].0));
            }
        }
        lemma_pairs_map(old_view);
        let m = pairs_map(old_view).insert(p.0, p.1);
        assert forall|k: Seq<char>| #[trigger]
            m.dom().contains(k) <==> exists|j: int| 0 <= j < s.len() && s[j].0 == k by {
            if m.dom().contains(k) {
                if k == p.0 {
                    assert(s[i].0 == k);
                } else {
                    assert(pairs_map(old_view).dom().contains(k));
                    let j = choose|j: int| 0 <= j < old_view.len() && old_view[j].0 == k;
                    assert(s[j].0 == k);
                }
            }
            if exists|j: int| 0 <= j < s.len() && s[j].0 == k {
                let j = choose|j: int| 0 <= j < s.len() && s[j].0 == k;
                if j != i {
                    assert(old_view[j].0 == k);
                    assert(pairs_map(old_view).dom().contains(k));
                }
            }
        }
        assert forall|j: int| 0 <= j < s.len() implies #[trigger] m[s[j].0] == s[j].1 by {
            if j != i {
                lemma_key_lt_irreflexive(old_view[i].0);
                if j < i {
                    assert(key_lt(old_view[j].0, old_view[i].0));
                } else {
                    assert(key_lt(old_view[i].0, old_view[j].0));
                }
                assert(pairs_map(old_view)[old_view[j].0] == old_view[j].1);
            }
        }
        lemma_same_map(s, m);
    }

/// Inserting a new key at its place in the order keeps the order and adds the key.
proof fn lemma_insert_keeps_order(
        old_view: Seq<(Seq<char>, Seq<char>)>,
        i: int,
        p: (Seq<char>, Seq<char>),
    )
        requires
            keys_ascending(old_view),
            0 <= i <= old_view.len(),
            forall|j: int| 0 <= j < i ==> key_lt(#[trigger] old_view[j].0, p.0),
            i == old_view.len() || key_lt(p.0, old_view[i].0),
        ensures
            keys_ascending(old_view.insert(i, p)),
            pairs_map(old_view.insert(i, p)) == pairs_map(old_view).insert(p.0, p.1),
    {
        let s = old_view.insert(i, p);
        assert(keys_ascending(s)) by {
            assert forall|a: int, b: int| 0 <= a < b < s.len() implies key_lt(
                #[trigger] s[a].0,
                #[trigger] s[b].0,
            ) by {
                if b < i {
                    assert(key_lt(old_view[a].0, old_view[b].0));
                } else if b == i {
                } else if a < i {
                    if b - 1 == i {
                        lemma_key_lt_transitive(old_view[a].0, p.0, old_view[i].0);
                    } else {
                        assert(key_lt(old_view[i].0, old_view[b - 1].0));
                        lemma_key_lt_transitive(p.0, old_view[i].0, old_view[b - 1].0);
                        lemma_key_lt_transitive(old_view[a].0, p.0, old_view[b - 1].0);
                    }
                } else if a == i {
                    if b - 1 > i {
                        assert(key_lt(old_view[i].0, old_view[b - 1].0));
                        lemma_key_lt_transitive(p.0, old_view[i].0, old_view[b - 1].0);
                    }
                } else {
                    assert(key_lt(old_view[a - 1].0, old_view[b - 1].0));
                }
            }
        }
        lemma_pairs_map(old_view);
        let m = pairs_map(old_view).insert(p.0, p.1);
        assert forall|k: Seq<char>| #[trigger]
            m.dom().contains(k) <==> exists|j: int| 0 <= j < s.len() && s[j].0 == k by {
            if m.dom().contains(k) {
                if k == p.0 {
                    assert(s[i].0 == k);
                } else {
                    assert(pairs_map(old_view).dom().contains(k));
                    let j = choose|j: int| 0 <= j < old_view.len() && old_view[j].0 == k;
                    if j < i {
                        assert(s[j].0 == k);
                    } else {
                        assert(s[j + 1].0 == k);
                    }
                }
            }
            if exists|j: int| 0 <= j < s.len() && s[j].0 == k {
                let j = choose|j: int| 0 <= j < s.len() && s[j].0 == k;
                if j < i {
                    assert(old_view[j].0 == k);
                    assert(pairs_map(old_view).dom().contains(k));
                } else if j > i {
                    assert(old_view[j - 1].0 == k);
                    assert(pairs_map(old_view).dom().contains(k));
                }
            }
        }
        assert forall|j: int| 0 <= j < s.len() implies #[trigger] m[s[j].0] == s[j].1 by {
            if j != i {
                assert(key_lt(s[i].0, s[j].0) || key_lt(s[j].0, s[i].0));
                lemma_key_lt_irreflexive(p.0);
                if j < i {
                    assert(pairs_map(old_view)[old_view[j].0] == old_view[j].1);
                } else {
                    assert(pairs_map(old_view)[old_view[j - 1].0] == old_view[j - 1].1);
                }
            }
        }
        lemma_same_map(s, m);
    }

/// A map equals `pairs_map(s)` when it holds exactly the pairs of `s`.
proof fn lemma_same_map(s: Seq<(Seq<char>, Seq<char>)>, m: Map<Seq<char>, Seq<char>>)
    requires
        keys_ascending(s),
        forall|k: Seq<char>| #[trigger]
            m.dom().contains(k) <==> exists|i: int| 0 <= i < s.len() && s[i].0 == k,
        forall|i: int| 0 <= i < s.len() ==> #[trigger] m[s[i].0] == s[i].1,
    ensures
        pairs_map(s) == m,
{
    lemma_pairs_map(s);
    assert forall|k: Seq<char>| #[trigger] pairs_map(s).dom().contains(k) implies pairs_map(s)[k]
        == m[k] by {
        let i = choose|i: int| 0 <= i < s.len() && s[i].0 == k;
        assert(pairs_map(s)[s[i].0] == s[i].1);
        assert(m[s[i].0] == s[i].1);
    }
    assert(pairs_map(s) =~= m);
}

/// The last pair of an ordered sequence holds its greatest key.
proof fn lemma_last_is_greatest(s: Seq<(Seq<char>, Seq<char>)>, k: Seq<char>)
    requires
        keys_ascending(s),
        s.len() > 0,
        exists|i: int| 0 <= i < s.len() && s[i].0 == k,
        k != s.last().0,
    ensures
        key_lt(k, s.last().0),
{
    let i = choose|i: int| 0 <= i < s.len() && s[i].0 == k;
    assert(i != s.len() - 1);
    assert(key_lt(s[i].0, s[s.len() - 1].0));
}

/// Two ordered sequences of pairs that describe the same map are the same
/// sequence: the order in which parameters are sent depends only on the
/// parameters themselves.
pub proof fn lemma_ordered_pairs_canonical(s1: Seq<(Seq<char>, Seq<char>)>, s2: Seq<(Seq<char>, Seq<char>)>)
    requires
        keys_ascending(s1),
        keys_ascending(s2),
        pairs_map(s1) == pairs_map(s2),
    ensures
        s1 == s2,
    decreases s1.len() + s2.len(),
{
    lemma_pairs_map(s1);
    lemma_pairs_map(s2);
    if s1.len() == 0 || s2.len() == 0 {
        if s1.len() > 0 {
            assert(pairs_map(s1).dom().contains(s1[0].0));
        }
        if s2.len() > 0 {
            assert(pairs_map(s2).dom().contains(s2[0].0));
        }
        assert(s1 =~= s2);
    } else {
        let l1 = s1.last();
        let l2 = s2.last();
        assert(pairs_map(s1).dom().contains(l1.0)) by {
            assert(s1[s1.len() - 1].0 == l1.0);
        }
        assert(pairs_map(s2).dom().contains(l2.0)) by {
            assert(s2[s2.len() - 1].0 == l2.0);
        }
        if l1.0 != l2.0 {
            lemma_last_is_greatest(s1, l2.0);
            lemma_last_is_greatest(s2, l1.0);
            lemma_key_lt_transitive(l1.0, l2.0, l1.0);
            lemma_key_lt_irreflexive(l1.0);
        }
        assert(pairs_map(s1)[s1[s1.len() - 1].0] == l1.1);
        assert(pairs_map(s2)[s2[s2.len() - 1].0] == l2.1);
        let t1 = s1.drop_last();
        let t2 = s2.drop_last();
        assert(keys_ascending(t1));
        assert(keys_ascending(t2));
        lemma_pairs_map(t1);
        lemma_pairs_map(t2);
        assert forall|k: Seq<char>| #[trigger] pairs_map(t1).dom().contains(k) implies k != l1.0 by {
            let i = choose|i: int| 0 <= i < t1.len() && t1[i].0 == k;
            assert(s1[i] == t1[i]);
            assert(key_lt(s1[i].0, s1[s1.len() - 1].0));
            lemma_key_lt_irreflexive(k);
        }
        assert forall|k: Seq<char>| #[trigger] pairs_map(t2).dom().contains(k) implies k != l1.0 by {
            let i = choose|i: int| 0 <= i < t2.len() && t2[i].0 == k;
            assert(s2[i] == t2[i]);
            assert(key_lt(s2[i].0, s2[s2.len() - 1].0));
            lemma_key_lt_irreflexive(k);
        }
        assert(pairs_map(t1) =~= pairs_map(s1).remove(l1.0));
        assert(pairs_map(t2) =~= pairs_map(s2).remove(l1.0));
        lemma_ordered_pairs_canonical(t1, t2);
        assert(s1 =~= t1.push(l1));
        assert(s2 =~= t2.push(l2));
    }
}

/// Law: a query is sent in one order only. Two queries that hold the same
/// parameters list them in the same order, whatever order they were set in.
pub proof fn law_query_order_is_canonical(a: Query, b: Query)
    requires
        keys_ascending(a@),
        keys_ascending(b@),
        a.entries() == b.entries(),
    ensures
        a@ == b@,
{
    lemma_ordered_pairs_canonical(a@, b@);
}

} // verus!
