//! Key-unique option tables.
//!
//! Both the engine options (`setoption`) and the `go` options of a search
//! job are mappings from string keys to string values: keys unique, last
//! write wins. The table keeps its pairs in first-insertion order, but the
//! mapping it denotes (`table_map`) is order-free, which is all the wire
//! protocol depends on.

use vstd::prelude::*;

verus! {

/// Does some pair in `s` bear the key `k`?
pub open spec fn has_key(s: Seq<(Seq<char>, Seq<char>)>, k: Seq<char>) -> bool {
    exists|i: int| 0 <= i < s.len() && s[i].0 == k
}

/// The index of the pair bearing `k` (unique when keys are unique).
pub open spec fn key_index(s: Seq<(Seq<char>, Seq<char>)>, k: Seq<char>) -> int {
    choose|i: int| 0 <= i < s.len() && s[i].0 == k
}

/// `s` with `k` bound to `v`: replaced in place where present, appended
/// where not.
pub open spec fn table_set(
    s: Seq<(Seq<char>, Seq<char>)>,
    k: Seq<char>,
    v: Seq<char>,
) -> Seq<(Seq<char>, Seq<char>)> {
    if has_key(s, k) {
        s.update(key_index(s, k), (k, v))
    } else {
        s.push((k, v))
    }
}

/// Keys are pairwise distinct.
pub open spec fn keys_unique(s: Seq<(Seq<char>, Seq<char>)>) -> bool {
    forall|i: int, j: int| 0 <= i < j < s.len() ==> s[i].0 != s[j].0
}

/// The unordered mapping that a sequence of pairs denotes; later pairs win.
pub open spec fn table_map(s: Seq<(Seq<char>, Seq<char>)>) -> Map<Seq<char>, Seq<char>>
    decreases s.len(),
{
    if s.len() == 0 {
        Map::empty()
    } else {
        table_map(s.drop_last()).insert(s.last().0, s.last().1)
    }
}

/// Binding a key keeps the remaining keys unique.
pub proof fn lemma_table_set_keys_unique(s: Seq<(Seq<char>, Seq<char>)>, k: Seq<char>, v: Seq<char>)
    requires
        keys_unique(s),
    ensures
        keys_unique(table_set(s, k, v)),
{
}

/// Binding a key denotes insertion into the mapping.
pub proof fn lemma_table_set_map(s: Seq<(Seq<char>, Seq<char>)>, k: Seq<char>, v: Seq<char>)
    requires
        keys_unique(s),
    ensures
        table_map(table_set(s, k, v)) == table_map(s).insert(k, v),
    decreases s.len(),
{
    if has_key(s, k) {
        let i = key_index(s, k);
        let u = s.update(i, (k, v));
        if i == s.len() - 1 {
            assert(u.drop_last() =~= s.drop_last());
            assert(table_map(u) == table_map(s.drop_last()).insert(k, v));
            assert(table_map(s).insert(k, v) =~= table_map(s.drop_last()).insert(k, v));
        } else {
            let sd = s.drop_last();
            assert(u.drop_last() =~= sd.update(i, (k, v)));
            assert(has_key(sd, k) && keys_unique(sd)) by {
                assert(sd[i] == s[i]);
            }
            assert(sd[key_index(sd, k)].0 == k);
            assert(key_index(sd, k) == i) by {
                let j = key_index(sd, k);
                if j != i {
                    assert(sd[j] == s[j]);
                }
            }
            assert(table_set(sd, k, v) == sd.update(i, (k, v)));
            lemma_table_set_map(sd, k, v);
            assert(u.last() == s.last());
            assert(s.last().0 != k) by {
                assert(s[i].0 == k);
            }
            assert(table_map(u) == table_map(sd).insert(k, v).insert(s.last().0, s.last().1));
            assert(table_map(sd).insert(k, v).insert(s.last().0, s.last().1) =~= table_map(
                sd,
            ).insert(s.last().0, s.last().1).insert(k, v));
        }
    } else {
        let u = s.push((k, v));
        assert(u.drop_last() =~= s);
        assert(u.last() == (k, v));
    }
}

/// A table of options: string key/value pairs, keys unique, last write wins.
#[derive(Debug)]
pub struct OptionTable {
    pub pairs: Vec<(String, String)>,
}

impl View for OptionTable {
    type V = Seq<(Seq<char>, Seq<char>)>;

    open spec fn view(&self) -> Seq<(Seq<char>, Seq<char>)> {
        self.pairs.deep_view()
    }
}

impl OptionTable {
    /// Well-formed: no key occurs twice.
    pub open spec fn wf(&self) -> bool {
        keys_unique(self@)
    }

    /// The mapping this table denotes.
    pub open spec fn map_view(&self) -> Map<Seq<char>, Seq<char>> {
        table_map(self@)
    }

    /// An empty table.
    pub fn new() -> (r: OptionTable)
        ensures
            r@ =~= Seq::<(Seq<char>, Seq<char>)>::empty(),
            r.wf(),
    {
        OptionTable { pairs: Vec::new() }
    }

    /// Binds `key` to `value`; a later write to the same key wins.
    #[verifier::loop_isolation(false)]
    pub fn set(&mut self, key: String, value: String)
        requires
            old(self).wf(),
        ensures
            final(self).wf(),
            final(self)@ == table_set(old(self)@, key@, value@),
            final(self).map_view() == old(self).map_view().insert(key@, value@),
    {
        let ghost orig = *self;
        proof {
            lemma_table_set_keys_unique(orig@, key@, value@);
            lemma_table_set_map(orig@, key@, value@);
        }
        let n = self.pairs.len();
        let mut i: usize = 0;
        while i < n
            invariant
                n == self.pairs.len(),
                i <= n,
                *self == orig,
                keys_unique(self@),
                forall|j: int| 0 <= j < i ==> self@[j].0 != key@,
            decreases n - i,
        {
            if self.pairs[i].0 == key {
                assert(self@[i as int].0 == key@);
                assert(has_key(self@, key@));
                assert(key_index(self@, key@) == i) by {
                    assert(keys_unique(self@));
                    let j = key_index(self@, key@);
                    assert(0 <= j < self@.len() && self@[j].0 == key@);
                    if j < i as int {
                        assert(self@[j].0 != key@);
                    } else if j > i as int {
                        assert(self@[i as int].0 != self@[j].0);
                    }
                }
                self.pairs.set(i, (key, value));
                assert(self@ =~= table_set(orig@, key@, value@));
                return ;
            }
            i += 1;
        }
        assert(!has_key(self@, key@));
        self.pairs.push((key, value));
        assert(self@ =~= table_set(orig@, key@, value@));
    }
}

} // verus!
