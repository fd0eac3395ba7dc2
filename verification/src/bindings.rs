use vstd::prelude::*;

verus! {

/// The `==` of `str`, by which a name that is looked up is compared.
/// Claimed: two strings are equal when they hold the same characters in the
/// same order.
#[verifier::external_body]
fn same_text(a: &str, b: &str) -> (r: bool)
    ensures
        r == (a@ == b@),
{
    a == b
}

/// One name with what is bound to it.
#[derive(Debug)]
pub struct Entry<V> {
    pub key: String,
    pub value: V,
}

/// What a run of entries binds: each name to the value of the entry that
/// carries it, a later entry winning over an earlier one.
pub open spec fn bound<V>(entries: Seq<Entry<V>>) -> Map<Seq<char>, V>
    decreases entries.len(),
{
    if entries.len() == 0 {
        Map::empty()
    } else {
        bound(entries.drop_last()).insert(entries.last().key@, entries.last().value)
    }
}

/// No two entries carry the same name.
pub open spec fn distinct<V>(entries: Seq<Entry<V>>) -> bool {
    forall|i: int, j: int|
        0 <= i < j < entries.len() ==> (#[trigger] entries[i]).key@ != (#[trigger] entries[j]).key@
}

/// All but the last of a run of distinct names are distinct too.
proof fn lemma_front_distinct<V>(entries: Seq<Entry<V>>)
    requires
        distinct(entries),
        entries.len() > 0,
    ensures
        distinct(entries.drop_last()),
{
    let front = entries.drop_last();
    assert forall|i: int, j: int| 0 <= i < j < front.len() implies (#[trigger] front[i]).key@
        != (#[trigger] front[j]).key@ by {
        assert(front[i] == entries[i]);
        assert(front[j] == entries[j]);
    }
}

/// A name that no entry carries is not bound.
proof fn lemma_absent<V>(entries: Seq<Entry<V>>, key: Seq<char>)
    requires
        forall|i: int| 0 <= i < entries.len() ==> (#[trigger] entries[i]).key@ != key,
    ensures
        !bound(entries).contains_key(key),
    decreases entries.len(),
{
    if entries.len() > 0 {
        let front = entries.drop_last();
        assert forall|i: int| 0 <= i < front.len() implies (#[trigger] front[i]).key@ != key by {
            assert(front[i] == entries[i]);
        }
        lemma_absent(front, key);
        assert(entries.last() == entries[entries.len() - 1]);
    }
}

/// Where names are distinct, each entry's name is bound to that entry's value.
proof fn lemma_present<V>(entries: Seq<Entry<V>>, at: int)
    requires
        distinct(entries),
        0 <= at < entries.len(),
    ensures
        bound(entries).contains_key(entries[at].key@),
        bound(entries)[entries[at].key@] == entries[at].value,
    decreases entries.len(),
{
    let front = entries.drop_last();
    if at < entries.len() - 1 {
        lemma_front_distinct(entries);
        lemma_present(front, at);
        assert(front[at] == entries[at]);
        assert(entries.last() == entries[entries.len() - 1]);
    }
}

/// Where names are distinct, putting a new value into the entry at `at`
/// rebinds that entry's name and nothing else.
proof fn lemma_replaced<V>(entries: Seq<Entry<V>>, at: int, entry: Entry<V>)
    requires
        distinct(entries),
        0 <= at < entries.len(),
        entry.key@ == entries[at].key@,
    ensures
        distinct(entries.update(at, entry)),
        bound(entries.update(at, entry)) =~= bound(entries).insert(entry.key@, entry.value),
    decreases entries.len(),
{
    let after = entries.update(at, entry);
    let front = entries.drop_last();
    assert forall|i: int, j: int| 0 <= i < j < after.len() implies (#[trigger] after[i]).key@
        != (#[trigger] after[j]).key@ by {
        assert(after[i].key@ == entries[i].key@);
        assert(after[j].key@ == entries[j].key@);
    }
    if at == entries.len() - 1 {
        assert(after.drop_last() =~= front);
    } else {
        lemma_front_distinct(entries);
        assert(front[at] == entries[at]);
        lemma_replaced(front, at, entry);
        assert(after.drop_last() =~= front.update(at, entry));
        assert(after.last() == entries.last());
        assert(entries.last() == entries[entries.len() - 1]);
        assert(entries.last().key@ != entries[at].key@);
    }
}

/// Bindings from names to values, in the order in which the names came.
/// Each name is held once.
#[derive(Debug)]
pub struct Bindings<V> {
    entries: Vec<Entry<V>>,
}

impl<V> View for Bindings<V> {
    type V = Map<Seq<char>, V>;

    closed spec fn view(&self) -> Map<Seq<char>, V> {
        bound(self.entries@)
    }
}

impl<V> Bindings<V> {
    /// Each name is held once.
    pub closed spec fn wf(&self) -> bool {
        distinct(self.entries@)
    }

    /// Bindings that bind nothing.
    pub fn new() -> (r: Self)
        ensures
            r.wf(),
            r@ == Map::<Seq<char>, V>::empty(),
    {
        Bindings { entries: Vec::new() }
    }

    /// Binds `key` to `value`. A value bound to `key` before is given up.
    pub fn insert(&mut self, key: String, value: V)
        requires
            old(self).wf(),
        ensures
            final(self).wf(),
            final(self)@ == old(self)@.insert(key@, value),
    {
        let n: usize = self.entries.len();
        let mut i: usize = 0;
        while i < n
            invariant
                i <= n,
                n == self.entries@.len(),
                self.wf(),
                *self == *old(self),
                forall|j: int| 0 <= j < i ==> (#[trigger] self.entries@[j]).key@ != key@,
            decreases n - i,
        {
            if self.entries[i].key == key {
                proof {
                    lemma_replaced(self.entries@, i as int, Entry { key, value });
                }
                self.entries.set(i, Entry { key, value });
                return ;
            }
            i += 1;
        }
        proof {
            let ghost grown = self.entries@.push(Entry { key, value });
            assert(grown.drop_last() =~= self.entries@);
            assert forall|a: int, b: int| 0 <= a < b < grown.len() implies (#[trigger] grown[
                a
            ]).key@ != (#[trigger] grown[b]).key@ by {
                if b < self.entries@.len() {
                    assert(grown[a] == self.entries@[a]);
                    assert(grown[b] == self.entries@[b]);
                } else {
                    assert(grown[a] == self.entries@[a]);
                }
            }
        }
        self.entries.push(Entry { key, value });
    }

    /// The value bound to `key`, if any.
    pub fn get(&self, key: &str) -> (r: Option<&V>)
        requires
            self.wf(),
        ensures
            match r {
                Some(v) => self@.contains_key(key@) && self@[key@] == *v,
                None => !self@.contains_key(key@),
            },
    {
        let n: usize = self.entries.len();
        let mut i: usize = 0;
        while i < n
            invariant
                i <= n,
                n == self.entries@.len(),
                self.wf(),
                forall|j: int| 0 <= j < i ==> (#[trigger] self.entries@[j]).key@ != key@,
            decreases n - i,
        {
            if same_text(self.entries[i].key.as_str(), key) {
                proof {
                    lemma_present(self.entries@, i as int);
                }
                return Some(&self.entries[i].value);
            }
            i += 1;
        }
        proof {
            lemma_absent(self.entries@, key@);
        }
        None
    }

    /// How many names are bound.
    pub fn len(&self) -> (r: usize)
        requires
            self.wf(),
        ensures
            r == self@.dom().len(),
            self@.dom().finite(),
    {
        proof {
            lemma_count(self.entries@);
        }
        self.entries.len()
    }
}

/// Where names are distinct, as many names are bound as there are entries.
proof fn lemma_count<V>(entries: Seq<Entry<V>>)
    requires
        distinct(entries),
    ensures
        bound(entries).dom().finite(),
        bound(entries).dom().len() == entries.len(),
    decreases entries.len(),
{
    if entries.len() > 0 {
        let front = entries.drop_last();
        lemma_front_distinct(entries);
        lemma_count(front);
        assert forall|i: int| 0 <= i < front.len() implies (#[trigger] front[i]).key@
            != entries.last().key@ by {
            assert(front[i] == entries[i]);
            assert(entries.last() == entries[entries.len() - 1]);
        }
        lemma_absent(front, entries.last().key@);
    }
}

} // verus!
