use vstd::prelude::*;

verus! {

/// The map that a sequence of inserts builds, in order: a later insert of
/// a name replaces an earlier one.
pub open spec fn inserts_map<V>(s: Seq<(String, V)>) -> Map<Seq<char>, V>
    decreases s.len(),
{
    if s.len() == 0 {
        Map::empty()
    } else {
        inserts_map(s.drop_last()).insert(s.last().0@, s.last().1)
    }
}

/// A table from intent name to a value (a list of asset paths, or a time
/// limit). It keeps its inserts in order; its meaning is the map they build.
pub struct IntentTable<V> {
    pub entries: Vec<(String, V)>,
}

/// Intent name to the paths of its faces, or of its audio clips.
pub type AssetTable = IntentTable<Vec<String>>;

/// Intent name to its time limit in milliseconds.
pub type TimingTable = IntentTable<u64>;

proof fn lemma_later_keys_differ<V>(s: Seq<(String, V)>, i: int, k: Seq<char>)
    requires
        0 <= i <= s.len(),
        forall|j: int| i <= j < s.len() ==> #[trigger] s[j].0@ != k,
    ensures
        inserts_map(s).contains_key(k) == inserts_map(s.take(i)).contains_key(k),
        inserts_map(s).contains_key(k) ==> inserts_map(s)[k] == inserts_map(s.take(i))[k],
    decreases s.len() - i,
{
    if i < s.len() {
        let t = s.drop_last();
        assert(s.last().0@ != k) by {
            assert(s.last() == s[s.len() - 1]);
        }
        assert forall|j: int| i <= j < t.len() implies #[trigger] t[j].0@ != k by {
            assert(t[j] == s[j]);
        }
        lemma_later_keys_differ(t, i, k);
        assert(t.take(i) =~= s.take(i));
    } else {
        assert(s.take(i) =~= s);
    }
}

impl<V> IntentTable<V> {
    pub open spec fn view(&self) -> Map<Seq<char>, V> {
        inserts_map(self.entries@)
    }

    pub fn new() -> (r: Self)
        ensures
            r@ == Map::<Seq<char>, V>::empty(),
    {
        IntentTable { entries: Vec::new() }
    }

    /// Sets the value of an intent, replacing any earlier one.
    pub fn insert(&mut self, name: String, value: V)
        ensures
            final(self)@ == old(self)@.insert(name@, value),
    {
        self.entries.push((name, value));
        assert(self.entries@.drop_last() =~= old(self).entries@);
    }

    /// The value of an intent, if the table has one.
    pub fn get(&self, name: &str) -> (r: Option<&V>)
        ensures
            r is Some <==> self@.contains_key(name@),
            r is Some ==> *r->0 == self@[name@],
    {
        let mut i: usize = self.entries.len();
        while i > 0
            invariant
                i <= self.entries@.len(),
                forall|j: int| i <= j < self.entries@.len() ==> #[trigger] self.entries@[j].0@ != name@,
            decreases i,
        {
            let k = i - 1;
            if crate::text::text_eq(self.entries[k].0.as_str(), name) {
                proof {
                    let s = self.entries@;
                    lemma_later_keys_differ(s, i as int, name@);
                    let t = s.take(i as int);
                    assert(t.last() == s[k as int]);
                }
                return Some(&self.entries[k].1);
            }
            i = k;
        }
        proof {
            lemma_later_keys_differ(self.entries@, 0, name@);
            assert(self.entries@.take(0).len() == 0);
        }
        None
    }
}

} // verus!
