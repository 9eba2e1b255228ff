//! The coordinator's registries: open streams by identifier and open menus by
//! channel.
//!
//! Both are association vectors with pairwise-distinct keys, viewed as
//! mathematical maps. The vector form keeps every operation's effect on the
//! map view provable, entry by entry.

use vstd::prelude::*;
use crate::audio::{StreamId, StreamState};
use crate::bigraph::{Binding, ChannelId};

verus! {

/// No two entries share a key.
pub open spec fn keys_distinct<K, V>(s: Seq<(K, V)>) -> bool {
    forall|i: int, j: int| 0 <= i < j < s.len() ==> (#[trigger] s[i]).0 != (#[trigger] s[j]).0
}

/// The map an association sequence stands for.
pub open spec fn assoc_map<K, V>(s: Seq<(K, V)>) -> Map<K, V>
    decreases s.len(),
{
    if s.len() == 0 {
        Map::empty()
    } else {
        assoc_map(s.drop_last()).insert(s.last().0, s.last().1)
    }
}

/// A key is in the map exactly when some entry carries it.
pub proof fn lemma_assoc_contains<K, V>(s: Seq<(K, V)>, k: K)
    ensures
        assoc_map(s).contains_key(k) <==> exists|i: int| 0 <= i < s.len() && s[i].0 == k,
    decreases s.len(),
{
    if s.len() > 0 {
        lemma_assoc_contains(s.drop_last(), k);
        assert(forall|i: int| 0 <= i < s.len() - 1 ==> #[trigger] s.drop_last()[i] == s[i]);
        if s.last().0 == k {
            assert(s[s.len() - 1].0 == k);
        } else {
            if assoc_map(s).contains_key(k) {
                let i = choose|i: int| 0 <= i < s.len() - 1 && s.drop_last()[i].0 == k;
                assert(s[i].0 == k);
            }
            if exists|i: int| 0 <= i < s.len() && s[i].0 == k {
                let i = choose|i: int| 0 <= i < s.len() && s[i].0 == k;
                assert(i != s.len() - 1);
                assert(s.drop_last()[i].0 == k);
            }
        }
    }
}

/// With distinct keys, the map sends each entry's key to that entry's value.
pub proof fn lemma_assoc_index<K, V>(s: Seq<(K, V)>, i: int)
    requires
        keys_distinct(s),
        0 <= i < s.len(),
    ensures
        assoc_map(s).contains_key(s[i].0),
        assoc_map(s)[s[i].0] == s[i].1,
    decreases s.len(),
{
    if i < s.len() - 1 {
        assert(forall|j: int| 0 <= j < s.len() - 1 ==> #[trigger] s.drop_last()[j] == s[j]);
        lemma_assoc_index(s.drop_last(), i);
        assert(s.last().0 != s[i].0);
    }
}

/// Replacing the value of one entry is inserting over its key.
pub proof fn lemma_assoc_update<K, V>(s: Seq<(K, V)>, i: int, v: V)
    requires
        keys_distinct(s),
        0 <= i < s.len(),
    ensures
        keys_distinct(s.update(i, (s[i].0, v))),
        assoc_map(s.update(i, (s[i].0, v))) =~= assoc_map(s).insert(s[i].0, v),
    decreases s.len(),
{
    let k = s[i].0;
    let s2 = s.update(i, (k, v));
    assert(keys_distinct(s2));
    if i == s.len() - 1 {
        assert(s2.drop_last() =~= s.drop_last());
    } else {
        assert(s2.drop_last() =~= s.drop_last().update(i, (k, v)));
        assert(forall|j: int| 0 <= j < s.len() - 1 ==> #[trigger] s.drop_last()[j] == s[j]);
        lemma_assoc_update(s.drop_last(), i, v);
        assert(s.last().0 != k);
        assert(assoc_map(s2) =~= assoc_map(s).insert(k, v));
    }
}

/// Removing one entry is removing its key from the map.
pub proof fn lemma_assoc_remove<K, V>(s: Seq<(K, V)>, i: int)
    requires
        keys_distinct(s),
        0 <= i < s.len(),
    ensures
        keys_distinct(s.remove(i)),
        assoc_map(s.remove(i)) =~= assoc_map(s).remove(s[i].0),
    decreases s.len(),
{
    let k = s[i].0;
    let s2 = s.remove(i);
    assert(forall|j: int| 0 <= j < s.len() - 1 ==> #[trigger] s.drop_last()[j] == s[j]);
    if i == s.len() - 1 {
        assert(s2 =~= s.drop_last());
        lemma_assoc_contains(s.drop_last(), k);
        assert(!assoc_map(s.drop_last()).contains_key(k));
        assert(assoc_map(s2) =~= assoc_map(s).remove(k));
    } else {
        assert(s2.last() == s.last());
        assert(s2.drop_last() =~= s.drop_last().remove(i));
        lemma_assoc_remove(s.drop_last(), i);
        assert(s.last().0 != k);
        assert(assoc_map(s2) =~= assoc_map(s).remove(k));
    }
}

/// Appending an entry under a fresh key is inserting that key.
pub proof fn lemma_assoc_push<K, V>(s: Seq<(K, V)>, k: K, v: V)
    requires
        keys_distinct(s),
        forall|i: int| 0 <= i < s.len() ==> (#[trigger] s[i]).0 != k,
    ensures
        keys_distinct(s.push((k, v))),
        assoc_map(s.push((k, v))) == assoc_map(s).insert(k, v),
{
    assert(s.push((k, v)).drop_last() =~= s);
}

/// A distinct-keyed association sequence covers exactly as many keys as it
/// has entries.
pub proof fn lemma_assoc_len<K, V>(s: Seq<(K, V)>)
    requires
        keys_distinct(s),
    ensures
        assoc_map(s).dom().finite(),
        assoc_map(s).dom().len() == s.len(),
    decreases s.len(),
{
    if s.len() == 0 {
        assert(assoc_map(s).dom() =~= Set::<K>::empty());
    } else {
        assert(forall|i: int| 0 <= i < s.len() - 1 ==> #[trigger] s.drop_last()[i] == s[i]);
        lemma_assoc_len(s.drop_last());
        lemma_assoc_contains(s.drop_last(), s.last().0);
        if assoc_map(s.drop_last()).contains_key(s.last().0) {
            let i = choose|i: int|
                0 <= i < s.len() - 1 && (#[trigger] s.drop_last()[i]).0 == s.last().0;
            assert(s[i].0 == s[s.len() - 1].0);
            assert(false);
        }
        assert(assoc_map(s).dom() =~= assoc_map(s.drop_last()).dom().insert(s.last().0));
        vstd::set::axiom_set_insert_len(assoc_map(s.drop_last()).dom(), s.last().0);
    }
}

/// One open stream: its display name and its last known state.
#[derive(Debug, Clone)]
pub struct Stream {
    pub name: String,
    pub state: StreamState,
}

/// The registry of open streams.
pub struct StreamMap {
    entries: Vec<(StreamId, Stream)>,
}

impl StreamMap {
    /// The registry as a map from identifier to stream.
    pub closed spec fn view(self) -> Map<StreamId, Stream> {
        assoc_map(self.entries@)
    }

    pub closed spec fn wf(self) -> bool {
        keys_distinct(self.entries@)
    }

    pub fn new() -> (m: Self)
        ensures
            m.wf(),
            m@ == Map::<StreamId, Stream>::empty(),
    {
        StreamMap { entries: Vec::new() }
    }

    /// The position of an identifier's entry, if it has one.
    fn find(&self, id: StreamId) -> (r: Option<usize>)
        ensures
            match r {
                Option::Some(i) => i < self.entries@.len() && self.entries@[i as int].0 == id,
                Option::None => forall|i: int|
                    0 <= i < self.entries@.len() ==> (#[trigger] self.entries@[i]).0 != id,
            },
    {
        let mut i: usize = 0;
        while i < self.entries.len()
            invariant
                i <= self.entries@.len(),
                forall|j: int| 0 <= j < i ==> (#[trigger] self.entries@[j]).0 != id,
            decreases self.entries@.len() - i,
        {
            if self.entries[i].0.0 == id.0 {
                return Some(i);
            }
            i = i + 1;
        }
        None
    }

    pub fn contains(&self, id: StreamId) -> (r: bool)
        requires
            self.wf(),
        ensures
            r == self@.contains_key(id),
    {
        let r = self.find(id);
        proof {
            lemma_assoc_contains(self.entries@, id);
        }
        r.is_some()
    }

    /// The stream registered under `id`, if any.
    pub fn get(&self, id: StreamId) -> (r: Option<&Stream>)
        requires
            self.wf(),
        ensures
            match r {
                Option::Some(s) => self@.contains_key(id) && *s == self@[id],
                Option::None => !self@.contains_key(id),
            },
    {
        proof {
            lemma_assoc_contains(self.entries@, id);
        }
        match self.find(id) {
            Some(i) => {
                proof {
                    lemma_assoc_index(self.entries@, i as int);
                }
                Some(&self.entries[i].1)
            },
            None => None,
        }
    }

    /// Registers or replaces the stream under `id`.
    pub fn insert(&mut self, id: StreamId, stream: Stream)
        requires
            old(self).wf(),
        ensures
            final(self).wf(),
            final(self)@ == old(self)@.insert(id, stream),
    {
        proof {
            lemma_assoc_contains(self.entries@, id);
        }
        match self.find(id) {
            Some(i) => {
                proof {
                    lemma_assoc_update(self.entries@, i as int, stream);
                }
                self.entries[i] = (id, stream);
                proof {
                    assert(final(self)@ =~= old(self)@.insert(id, stream));
                }
            },
            None => {
                proof {
                    lemma_assoc_push(self.entries@, id, stream);
                }
                self.entries.push((id, stream));
            },
        }
    }

    /// Removes the stream under `id`. Returns `true` if one was registered.
    pub fn remove(&mut self, id: StreamId) -> (found: bool)
        requires
            old(self).wf(),
        ensures
            final(self).wf(),
            found == old(self)@.contains_key(id),
            final(self)@ == old(self)@.remove(id),
    {
        proof {
            lemma_assoc_contains(self.entries@, id);
        }
        match self.find(id) {
            Some(i) => {
                proof {
                    lemma_assoc_remove(self.entries@, i as int);
                }
                let _ = self.entries.remove(i);
                proof {
                    assert(final(self)@ =~= old(self)@.remove(id));
                }
                true
            },
            None => {
                proof {
                    assert(final(self)@ =~= old(self)@.remove(id));
                }
                false
            },
        }
    }

    /// Updates the state of the stream under `id`, keeping its name. Returns
    /// `true` if one was registered.
    pub fn set_state(&mut self, id: StreamId, state: StreamState) -> (found: bool)
        requires
            old(self).wf(),
        ensures
            final(self).wf(),
            found == old(self)@.contains_key(id),
            found ==> final(self)@ == old(self)@.insert(
                id,
                (Stream { name: old(self)@[id].name, state }),
            ),
            !found ==> final(self)@ == old(self)@,
    {
        proof {
            lemma_assoc_contains(self.entries@, id);
        }
        match self.find(id) {
            Some(i) => {
                proof {
                    lemma_assoc_index(self.entries@, i as int);
                }
                let name = self.entries[i].1.name.clone();
                let stream = Stream { name, state };
                proof {
                    lemma_assoc_update(self.entries@, i as int, stream);
                }
                self.entries[i] = (id, stream);
                proof {
                    assert(final(self)@ =~= old(self)@.insert(
                        id,
                        (Stream { name: old(self)@[id].name, state }),
                    ));
                }
                true
            },
            None => false,
        }
    }

    /// Every registered stream as an identifier/name pair, each identifier
    /// exactly once: the identifiers are pairwise distinct and there are
    /// exactly as many pairs as registered streams.
    pub fn stream_names(&self) -> (r: Vec<(StreamId, String)>)
        requires
            self.wf(),
        ensures
            forall|j: int|
                0 <= j < r@.len() ==> self@.contains_key((#[trigger] r@[j]).0) && r@[j].1
                    == self@[r@[j].0].name,
            forall|id: StreamId| #[trigger]
                self@.contains_key(id) ==> exists|j: int| 0 <= j < r@.len() && r@[j].0 == id,
            forall|j: int, k: int|
                0 <= j < k < r@.len() ==> (#[trigger] r@[j]).0 != (#[trigger] r@[k]).0,
            self@.dom().finite(),
            r@.len() == self@.dom().len(),
    {
        let mut out: Vec<(StreamId, String)> = Vec::new();
        let mut i: usize = 0;
        while i < self.entries.len()
            invariant
                self.wf(),
                i <= self.entries@.len(),
                out@.len() == i,
                forall|j: int|
                    0 <= j < i ==> (#[trigger] out@[j]).0 == self.entries@[j].0 && out@[j].1
                        == self.entries@[j].1.name,
            decreases self.entries@.len() - i,
        {
            let id = self.entries[i].0;
            let name = self.entries[i].1.name.clone();
            out.push((id, name));
            i = i + 1;
        }
        proof {
            assert forall|j: int| 0 <= j < out@.len() implies self@.contains_key(
                (#[trigger] out@[j]).0,
            ) && out@[j].1 == self@[out@[j].0].name by {
                lemma_assoc_index(self.entries@, j);
            };
            assert forall|id: StreamId| #[trigger] self@.contains_key(id) implies exists|j: int|
                0 <= j < out@.len() && out@[j].0 == id by {
                lemma_assoc_contains(self.entries@, id);
                let j = choose|j: int|
                    0 <= j < self.entries@.len() && self.entries@[j].0 == id;
                assert(out@[j].0 == id);
            };
            assert(forall|j: int, k: int|
                0 <= j < k < out@.len() ==> (#[trigger] out@[j]).0 != (#[trigger] out@[k]).0);
            lemma_assoc_len(self.entries@);
        }
        out
    }
}

/// One selectable menu entry: a display name and the binding it applies, or
/// `None` to unbind.
#[derive(Debug, Clone)]
pub struct MenuOption {
    pub name: String,
    pub binding: Option<Binding>,
}

/// One open menu: its options and the highlighted index.
#[derive(Debug)]
pub struct Menu {
    pub options: Vec<MenuOption>,
    pub current_index: usize,
}

impl Menu {
    /// The highlight stays on a real option, and an open menu always offers
    /// at least the three fixed options.
    pub open spec fn wf(self) -> bool {
        self.current_index < self.options@.len() && self.options@.len() >= 3
    }
}

/// The registry of open menus, at most one per channel.
pub struct MenuMap {
    entries: Vec<(ChannelId, Menu)>,
}

impl MenuMap {
    /// The registry as a map from channel to its open menu.
    pub closed spec fn view(self) -> Map<ChannelId, Menu> {
        assoc_map(self.entries@)
    }

    pub closed spec fn wf(self) -> bool {
        keys_distinct(self.entries@)
    }

    /// The channels with open menus, in storage order.
    pub closed spec fn channels(self) -> Seq<ChannelId> {
        self.entries@.map_values(|e: (ChannelId, Menu)| e.0)
    }

    /// Law: a channel has at most one open menu — no two stored menus belong
    /// to the same channel.
    pub proof fn lemma_at_most_one_menu(self)
        requires
            self.wf(),
        ensures
            forall|i: int, j: int|
                0 <= i < j < self.channels().len() ==> self.channels()[i] != self.channels()[j],
    {
    }

    pub fn new() -> (m: Self)
        ensures
            m.wf(),
            m@ == Map::<ChannelId, Menu>::empty(),
    {
        MenuMap { entries: Vec::new() }
    }

    fn find(&self, c: ChannelId) -> (r: Option<usize>)
        ensures
            match r {
                Option::Some(i) => i < self.entries@.len() && self.entries@[i as int].0 == c,
                Option::None => forall|i: int|
                    0 <= i < self.entries@.len() ==> (#[trigger] self.entries@[i]).0 != c,
            },
    {
        let mut i: usize = 0;
        while i < self.entries.len()
            invariant
                i <= self.entries@.len(),
                forall|j: int| 0 <= j < i ==> (#[trigger] self.entries@[j]).0 != c,
            decreases self.entries@.len() - i,
        {
            let e = &self.entries[i];
            if e.0.0.0 == c.0.0 && e.0.1 == c.1 {
                return Some(i);
            }
            i = i + 1;
        }
        None
    }

    /// The menu open for channel `c`, if any.
    pub fn get(&self, c: ChannelId) -> (r: Option<&Menu>)
        requires
            self.wf(),
        ensures
            match r {
                Option::Some(m) => self@.contains_key(c) && *m == self@[c],
                Option::None => !self@.contains_key(c),
            },
    {
        proof {
            lemma_assoc_contains(self.entries@, c);
        }
        match self.find(c) {
            Some(i) => {
                proof {
                    lemma_assoc_index(self.entries@, i as int);
                }
                Some(&self.entries[i].1)
            },
            None => None,
        }
    }

    /// Opens or replaces the menu for channel `c`, atomically: afterwards the
    /// channel's one menu is exactly `menu`.
    pub fn insert(&mut self, c: ChannelId, menu: Menu)
        requires
            old(self).wf(),
        ensures
            final(self).wf(),
            final(self)@ == old(self)@.insert(c, menu),
    {
        proof {
            lemma_assoc_contains(self.entries@, c);
        }
        match self.find(c) {
            Some(i) => {
                proof {
                    lemma_assoc_update(self.entries@, i as int, menu);
                }
                self.entries[i] = (c, menu);
                proof {
                    assert(final(self)@ =~= old(self)@.insert(c, menu));
                }
            },
            None => {
                proof {
                    lemma_assoc_push(self.entries@, c, menu);
                }
                self.entries.push((c, menu));
            },
        }
    }

    /// Closes the menu for channel `c`. Returns `true` if one was open.
    pub fn remove(&mut self, c: ChannelId) -> (found: bool)
        requires
            old(self).wf(),
        ensures
            final(self).wf(),
            found == old(self)@.contains_key(c),
            final(self)@ == old(self)@.remove(c),
    {
        proof {
            lemma_assoc_contains(self.entries@, c);
        }
        match self.find(c) {
            Some(i) => {
                proof {
                    lemma_assoc_remove(self.entries@, i as int);
                }
                let _ = self.entries.remove(i);
                proof {
                    assert(final(self)@ =~= old(self)@.remove(c));
                }
                true
            },
            None => {
                proof {
                    assert(final(self)@ =~= old(self)@.remove(c));
                }
                false
            },
        }
    }

    /// Moves the highlight of channel `c`'s menu to `index`, keeping the
    /// options. Does nothing when no menu is open.
    pub fn set_index(&mut self, c: ChannelId, index: usize) -> (found: bool)
        requires
            old(self).wf(),
        ensures
            final(self).wf(),
            found == old(self)@.contains_key(c),
            found ==> final(self)@ == old(self)@.insert(
                c,
                (Menu { options: old(self)@[c].options, current_index: index }),
            ),
            !found ==> final(self)@ == old(self)@,
    {
        proof {
            lemma_assoc_contains(self.entries@, c);
        }
        match self.find(c) {
            Some(i) => {
                proof {
                    lemma_assoc_index(self.entries@, i as int);
                }
                let entry = &mut self.entries[i];
                entry.1.current_index = index;
                proof {
                    lemma_assoc_update(
                        old(self).entries@,
                        i as int,
                        (Menu { options: old(self)@[c].options, current_index: index }),
                    );
                    assert(self.entries@ =~= old(self).entries@.update(
                        i as int,
                        (c, Menu { options: old(self)@[c].options, current_index: index }),
                    ));
                    assert(final(self)@ =~= old(self)@.insert(
                        c,
                        (Menu { options: old(self)@[c].options, current_index: index }),
                    ));
                }
                true
            },
            None => false,
        }
    }
}

} // verus!
