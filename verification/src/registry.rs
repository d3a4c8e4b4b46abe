//! The registry of work trees that the engine looks after.
use crate::clock;
pub use crate::clock::{now_iso, parse_iso, short_ts};
pub use crate::store::{append_event, load, save};
use crate::text;
use crate::text::{place, Place};
use vstd::prelude::*;

verus! {

/// What is known of one work tree. A field that was never written is none.
#[derive(Debug, PartialEq, Eq)]
pub struct RepoEntry {
    pub registered_at: Option<String>,
    pub last_check: Option<String>,
    pub last_dirty_count: Option<u64>,
    pub remote_url: Option<String>,
    pub primary_branch: Option<String>,
    pub last_auto_commit: Option<String>,
    pub last_push_time: Option<String>,
}

/// The model of a [`RepoEntry`].
pub struct EntryView {
    pub registered_at: Option<Seq<char>>,
    pub last_check: Option<Seq<char>>,
    pub last_dirty_count: Option<u64>,
    pub remote_url: Option<Seq<char>>,
    pub primary_branch: Option<Seq<char>>,
    pub last_auto_commit: Option<Seq<char>>,
    pub last_push_time: Option<Seq<char>>,
}

impl View for RepoEntry {
    type V = EntryView;

    open spec fn view(&self) -> EntryView {
        EntryView {
            registered_at: self.registered_at.deep_view(),
            last_check: self.last_check.deep_view(),
            last_dirty_count: self.last_dirty_count,
            remote_url: self.remote_url.deep_view(),
            primary_branch: self.primary_branch.deep_view(),
            last_auto_commit: self.last_auto_commit.deep_view(),
            last_push_time: self.last_push_time.deep_view(),
        }
    }
}

impl DeepView for RepoEntry {
    type V = EntryView;

    open spec fn deep_view(&self) -> EntryView {
        self@
    }
}

/// An entry of which nothing is known.
pub open spec fn blank_entry() -> EntryView {
    EntryView {
        registered_at: None,
        last_check: None,
        last_dirty_count: None,
        remote_url: None,
        primary_branch: None,
        last_auto_commit: None,
        last_push_time: None,
    }
}

impl Default for RepoEntry {
    fn default() -> (r: RepoEntry)
        ensures
            r@ == blank_entry(),
    {
        RepoEntry {
            registered_at: None,
            last_check: None,
            last_dirty_count: None,
            remote_url: None,
            primary_branch: None,
            last_auto_commit: None,
            last_push_time: None,
        }
    }
}

pub(crate) fn copy_text(text: &Option<String>) -> (r: Option<String>)
    ensures
        r == *text,
{
    match text {
        Some(t) => Some(t.clone()),
        None => None,
    }
}

impl Clone for RepoEntry {
    fn clone(&self) -> (r: RepoEntry)
        ensures
            r == *self,
    {
        RepoEntry {
            registered_at: copy_text(&self.registered_at),
            last_check: copy_text(&self.last_check),
            last_dirty_count: self.last_dirty_count,
            remote_url: copy_text(&self.remote_url),
            primary_branch: copy_text(&self.primary_branch),
            last_auto_commit: copy_text(&self.last_auto_commit),
            last_push_time: copy_text(&self.last_push_time),
        }
    }
}

/// A list of paths and entries as a map. Of two entries with the same path the later one counts.
pub open spec fn map_of(list: Seq<(Seq<char>, EntryView)>) -> Map<Seq<char>, EntryView>
    decreases list.len(),
{
    if list.len() == 0 {
        Map::empty()
    } else {
        map_of(list.drop_last()).insert(list.last().0, list.last().1)
    }
}

/// Whether the paths of a list ascend, so that none occurs twice.
pub open spec fn ascending(list: Seq<(Seq<char>, EntryView)>) -> bool {
    forall|i: int, j: int|
        0 <= i < j < list.len() ==> text::precedes((#[trigger] list[i]).0, (#[trigger] list[j]).0)
}

/// The views of a list of paths and entries.
pub open spec fn pairs(list: Seq<(String, RepoEntry)>) -> Seq<(Seq<char>, EntryView)> {
    list.map_values(|e: (String, RepoEntry)| (e.0@, e.1@))
}

/// Work trees by path, with what is known of each. They are kept in the order of their paths.
#[derive(Debug, PartialEq, Eq)]
pub struct Registry {
    entries: Vec<(String, RepoEntry)>,
}

impl View for Registry {
    type V = Map<Seq<char>, EntryView>;

    open spec fn view(&self) -> Map<Seq<char>, EntryView> {
        map_of(self.listing())
    }
}

/// In an ascending list every path leads to its own entry, and there are as many paths as items.
pub proof fn lemma_map_of_ascending(list: Seq<(Seq<char>, EntryView)>)
    requires
        ascending(list),
    ensures
        forall|k: Seq<char>|
            map_of(list).contains_key(k) <==> exists|i: int|
                0 <= i < list.len() && (#[trigger] list[i]).0 == k,
        forall|i: int|
            0 <= i < list.len() ==> map_of(list)[(#[trigger] list[i]).0] == list[i].1,
        map_of(list).dom().finite(),
        map_of(list).dom().len() == list.len(),
    decreases list.len(),
{
    if list.len() > 0 {
        let shorter = list.drop_last();
        assert forall|i: int, j: int| 0 <= i < j < shorter.len() implies text::precedes(
            (#[trigger] shorter[i]).0,
            (#[trigger] shorter[j]).0,
        ) by {
            assert(shorter[i] == list[i] && shorter[j] == list[j]);
        }
        lemma_map_of_ascending(shorter);
        let last = list.last();
        assert forall|i: int| 0 <= i < shorter.len() implies (#[trigger] list[i]).0 != last.0 by {
            assert(text::precedes(list[i].0, list[list.len() - 1].0));
            text::lemma_precedes_irreflexive(last.0);
        }
        assert(!map_of(shorter).contains_key(last.0)) by {
            if map_of(shorter).contains_key(last.0) {
                let i = choose|i: int|
                    0 <= i < shorter.len() && (#[trigger] shorter[i]).0 == last.0;
                assert(shorter[i] == list[i]);
            }
        }
        assert forall|k: Seq<char>|
            map_of(list).contains_key(k) <==> exists|i: int|
                0 <= i < list.len() && (#[trigger] list[i]).0 == k by {
            if map_of(list).contains_key(k) {
                if k == last.0 {
                    assert(list[list.len() - 1].0 == k);
                } else {
                    let i = choose|i: int|
                        0 <= i < shorter.len() && (#[trigger] shorter[i]).0 == k;
                    assert(list[i].0 == k);
                }
            }
            if exists|i: int| 0 <= i < list.len() && (#[trigger] list[i]).0 == k {
                let i = choose|i: int| 0 <= i < list.len() && (#[trigger] list[i]).0 == k;
                if i < shorter.len() {
                    assert(shorter[i].0 == k);
                }
            }
        }
        assert forall|i: int| 0 <= i < list.len() implies map_of(list)[(#[trigger] list[i]).0]
            == list[i].1 by {
            if i < shorter.len() {
                assert(shorter[i] == list[i]);
            }
        }
        assert(map_of(list).dom() =~= map_of(shorter).dom().insert(last.0));
    } else {
        assert(map_of(list).dom() =~= Set::empty());
    }
}

/// An ascending list is determined by its map: the order of a listing leaves no choice.
pub proof fn law_listing_is_determined(
    a: Seq<(Seq<char>, EntryView)>,
    b: Seq<(Seq<char>, EntryView)>,
)
    requires
        ascending(a),
        ascending(b),
        map_of(a) == map_of(b),
    ensures
        a == b,
    decreases a.len(),
{
    lemma_map_of_ascending(a);
    lemma_map_of_ascending(b);
    if a.len() > 0 {
        let x = a.last();
        let y = b.last();
        assert(a[a.len() - 1].0 == x.0 && b[b.len() - 1].0 == y.0);
        if x.0 != y.0 {
            assert(map_of(b).contains_key(x.0));
            let j = choose|j: int| 0 <= j < b.len() && (#[trigger] b[j]).0 == x.0;
            assert(map_of(a).contains_key(y.0));
            let i = choose|i: int| 0 <= i < a.len() && (#[trigger] a[i]).0 == y.0;
            assert(text::precedes(b[j].0, b[b.len() - 1].0));
            assert(text::precedes(a[i].0, a[a.len() - 1].0));
            text::lemma_precedes_transitive(x.0, y.0, x.0);
            text::lemma_precedes_irreflexive(x.0);
        }
        assert(map_of(a)[a[a.len() - 1].0] == a[a.len() - 1].1);
        assert(map_of(b)[b[b.len() - 1].0] == b[b.len() - 1].1);
        assert(x == y);
        let a0 = a.drop_last();
        let b0 = b.drop_last();
        assert forall|i: int, j: int| 0 <= i < j < a0.len() implies text::precedes(
            (#[trigger] a0[i]).0,
            (#[trigger] a0[j]).0,
        ) by {
            assert(a0[i] == a[i] && a0[j] == a[j]);
        }
        assert forall|i: int, j: int| 0 <= i < j < b0.len() implies text::precedes(
            (#[trigger] b0[i]).0,
            (#[trigger] b0[j]).0,
        ) by {
            assert(b0[i] == b[i] && b0[j] == b[j]);
        }
        lemma_drop_last_removes(a);
        lemma_drop_last_removes(b);
        law_listing_is_determined(a0, b0);
        assert(a =~= a0.push(x));
        assert(b =~= b0.push(y));
    } else {
        assert(a =~= b);
    }
}

proof fn lemma_drop_last_removes(list: Seq<(Seq<char>, EntryView)>)
    requires
        ascending(list),
        list.len() > 0,
    ensures
        map_of(list.drop_last()) == map_of(list).remove(list.last().0),
{
    let shorter = list.drop_last();
    let last = list.last();
    assert forall|i: int, j: int| 0 <= i < j < shorter.len() implies text::precedes(
        (#[trigger] shorter[i]).0,
        (#[trigger] shorter[j]).0,
    ) by {
        assert(shorter[i] == list[i] && shorter[j] == list[j]);
    }
    lemma_map_of_ascending(shorter);
    if map_of(shorter).contains_key(last.0) {
        let i = choose|i: int| 0 <= i < shorter.len() && (#[trigger] shorter[i]).0 == last.0;
        assert(text::precedes(list[i].0, list[list.len() - 1].0));
        text::lemma_precedes_irreflexive(last.0);
    }
    assert(map_of(shorter) =~= map_of(list).remove(last.0));
}

/// The place of `path` in an ascending list: where it stands, or else where it belongs.
fn find(entries: &Vec<(String, RepoEntry)>, path: &str) -> (r: (usize, bool))
    requires
        ascending(pairs(entries@)),
    ensures
        r.0 <= entries.len(),
        forall|j: int| 0 <= j < r.0 ==> text::precedes((#[trigger] pairs(entries@)[j]).0, path@),
        r.1 ==> r.0 < entries.len() && pairs(entries@)[r.0 as int].0 == path@,
        !r.1 ==> forall|j: int|
            r.0 <= j < entries.len() ==> text::precedes(path@, (#[trigger] pairs(entries@)[j]).0),
        r.1 <==> map_of(pairs(entries@)).contains_key(path@),
{
    let ghost list = pairs(entries@);
    let mut i: usize = 0;
    proof {
        lemma_map_of_ascending(list);
    }
    while i < entries.len()
        invariant
            i <= entries.len(),
            list == pairs(entries@),
            ascending(list),
            forall|j: int| 0 <= j < i ==> text::precedes((#[trigger] list[j]).0, path@),
            forall|k: Seq<char>|
                map_of(list).contains_key(k) <==> exists|i: int|
                    0 <= i < list.len() && (#[trigger] list[i]).0 == k,
        decreases entries.len() - i,
    {
        proof {
            assert(list[i as int].0 == entries@[i as int].0@);
        }
        match place(&entries[i].0, path) {
            Place::Before => {},
            Place::Same => {
                return (i, true);
            },
            Place::After => {
                proof {
                    assert forall|j: int| i <= j < list.len() implies text::precedes(
                        path@,
                        (#[trigger] list[j]).0,
                    ) by {
                        if i < j {
                            text::lemma_precedes_transitive(path@, list[i as int].0, list[j].0);
                        }
                    }
                    lemma_absent(list, path@, i as int);
                }
                return (i, false);
            },
        }
        i = i + 1;
    }
    proof {
        lemma_absent(list, path@, i as int);
    }
    (i, false)
}

proof fn lemma_absent(list: Seq<(Seq<char>, EntryView)>, path: Seq<char>, at: int)
    requires
        ascending(list),
        0 <= at <= list.len(),
        forall|j: int| 0 <= j < at ==> text::precedes((#[trigger] list[j]).0, path),
        forall|j: int| at <= j < list.len() ==> text::precedes(path, (#[trigger] list[j]).0),
    ensures
        !map_of(list).contains_key(path),
{
    lemma_map_of_ascending(list);
    text::lemma_precedes_irreflexive(path);
}

/// Putting an entry where its path belongs keeps the order and adds the entry to the map.
proof fn lemma_insert_new(
    list: Seq<(Seq<char>, EntryView)>,
    at: int,
    path: Seq<char>,
    entry: EntryView,
)
    requires
        ascending(list),
        0 <= at <= list.len(),
        forall|j: int| 0 <= j < at ==> text::precedes((#[trigger] list[j]).0, path),
        forall|j: int| at <= j < list.len() ==> text::precedes(path, (#[trigger] list[j]).0),
    ensures
        ascending(list.insert(at, (path, entry))),
        map_of(list.insert(at, (path, entry))) == map_of(list).insert(path, entry),
{
    let longer = list.insert(at, (path, entry));
    assert forall|i: int, j: int| 0 <= i < j < longer.len() implies text::precedes(
        (#[trigger] longer[i]).0,
        (#[trigger] longer[j]).0,
    ) by {
        if i < at {
            assert(longer[i] == list[i]);
        } else if i > at {
            assert(longer[i] == list[i - 1]);
        }
        if j < at {
            assert(longer[j] == list[j]);
        } else if j > at {
            assert(longer[j] == list[j - 1]);
        }
    }
    lemma_map_of_ascending(list);
    lemma_map_of_ascending(longer);
    lemma_absent(list, path, at);
    assert(longer[at] == (path, entry));
    assert forall|k: Seq<char>|
        map_of(longer).contains_key(k) == map_of(list).insert(path, entry).contains_key(k) by {
        if map_of(longer).contains_key(k) {
            let i = choose|i: int| 0 <= i < longer.len() && (#[trigger] longer[i]).0 == k;
            if i < at {
                assert(list[i].0 == k);
            } else if i > at {
                assert(list[i - 1].0 == k);
            }
        }
        if map_of(list).contains_key(k) {
            let i = choose|i: int| 0 <= i < list.len() && (#[trigger] list[i]).0 == k;
            if i < at {
                assert(longer[i].0 == k);
            } else {
                assert(longer[i + 1].0 == k);
            }
        }
    }
    assert forall|k: Seq<char>| map_of(longer).contains_key(k) implies map_of(longer)[k] == map_of(
        list,
    ).insert(path, entry)[k] by {
        let i = choose|i: int| 0 <= i < longer.len() && (#[trigger] longer[i]).0 == k;
        if i < at {
            assert(longer[i] == list[i]);
            assert(map_of(list).contains_key(k));
        } else if i > at {
            assert(longer[i] == list[i - 1]);
            assert(map_of(list).contains_key(k));
        }
    }
    assert(map_of(longer) =~= map_of(list).insert(path, entry));
}

/// Taking an item out of an ascending list keeps the order and takes its path out of the map.
proof fn lemma_remove(list: Seq<(Seq<char>, EntryView)>, at: int)
    requires
        ascending(list),
        0 <= at < list.len(),
    ensures
        ascending(list.remove(at)),
        map_of(list.remove(at)) == map_of(list).remove(list[at].0),
        forall|j: int|
            0 <= j < at ==> text::precedes((#[trigger] list.remove(at)[j]).0, list[at].0),
        forall|j: int|
            at <= j < list.len() - 1 ==> text::precedes(
                list[at].0,
                (#[trigger] list.remove(at)[j]).0,
            ),
{
    let shorter = list.remove(at);
    assert(forall|i: int| 0 <= i < at ==> shorter[i] == list[i]);
    assert(forall|i: int| at <= i < shorter.len() ==> shorter[i] == list[i + 1]);
    assert forall|i: int, j: int| 0 <= i < j < shorter.len() implies text::precedes(
        (#[trigger] shorter[i]).0,
        (#[trigger] shorter[j]).0,
    ) by {}
    let gone = list[at];
    lemma_insert_new(shorter, at, gone.0, gone.1);
    assert(shorter.insert(at, gone) =~= list);
    lemma_absent(shorter, gone.0, at);
    assert(map_of(shorter) =~= map_of(list).remove(gone.0));
}

impl Registry {
    /// The work trees in the order of their paths.
    pub closed spec fn listing(&self) -> Seq<(Seq<char>, EntryView)> {
        pairs(self.entries@)
    }

    #[verifier::type_invariant]
    spec fn in_order(self) -> bool {
        ascending(self.listing())
    }

    /// A registry without work trees.
    pub fn new() -> (r: Registry)
        ensures
            r@ == Map::<Seq<char>, EntryView>::empty(),
            r.listing() == Seq::<(Seq<char>, EntryView)>::empty(),
    {
        let r = Registry { entries: Vec::new() };
        proof {
            assert(r.listing() =~= Seq::empty());
        }
        r
    }

    /// The number of work trees.
    pub fn len(&self) -> (n: usize)
        ensures
            n == self@.len(),
            n == self.listing().len(),
    {
        proof {
            use_type_invariant(self);
            lemma_map_of_ascending(self.listing());
        }
        self.entries.len()
    }

    /// Whether there are no work trees.
    pub fn is_empty(&self) -> (r: bool)
        ensures
            r == (self@ == Map::<Seq<char>, EntryView>::empty()),
            r == (self.listing().len() == 0),
    {
        proof {
            use_type_invariant(self);
            lemma_map_of_ascending(self.listing());
            if self.listing().len() == 0 {
                assert(self@ =~= Map::empty());
            }
        }
        self.entries.len() == 0
    }

    /// What is known of the work tree at `path`.
    pub fn get(&self, path: &str) -> (r: Option<&RepoEntry>)
        ensures
            match r {
                Some(entry) => self@.contains_key(path@) && self@[path@] == entry@,
                None => !self@.contains_key(path@),
            },
    {
        proof {
            use_type_invariant(self);
            lemma_map_of_ascending(self.listing());
        }
        let (at, found) = find(&self.entries, path);
        if found {
            proof {
                assert(self.listing()[at as int].1 == self.entries@[at as int].1@);
            }
            Some(&self.entries[at].1)
        } else {
            None
        }
    }

    /// Whether there is a work tree at `path`.
    pub fn contains(&self, path: &str) -> (r: bool)
        ensures
            r == self@.contains_key(path@),
    {
        proof {
            use_type_invariant(self);
        }
        let (_, found) = find(&self.entries, path);
        found
    }

    /// Sets what is known of the work tree at `path`; gives back what was known before.
    pub fn insert(&mut self, path: String, entry: RepoEntry) -> (r: Option<RepoEntry>)
        ensures
            final(self)@ == old(self)@.insert(path@, entry@),
            match r {
                Some(before) => old(self)@.contains_key(path@) && old(self)@[path@] == before@,
                None => !old(self)@.contains_key(path@),
            },
    {
        proof {
            use_type_invariant(&*self);
            lemma_map_of_ascending(self.listing());
        }
        let ghost list = self.listing();
        let ghost new = (path@, entry@);
        let mut entries: Vec<(String, RepoEntry)> = Vec::new();
        std::mem::swap(&mut entries, &mut self.entries);
        let (at, found) = find(&entries, &path);
        if found {
            let before = entries.remove(at);
            proof {
                assert(pairs(entries@) =~= list.remove(at as int));
                lemma_remove(list, at as int);
                lemma_insert_new(list.remove(at as int), at as int, new.0, new.1);
                assert(list[at as int].1 == before.1@);
                assert(map_of(list).remove(new.0).insert(new.0, new.1) =~= map_of(list).insert(
                    new.0,
                    new.1,
                ));
            }
            let ghost shorter = pairs(entries@);
            entries.insert(at, (path, entry));
            proof {
                assert(pairs(entries@) =~= shorter.insert(at as int, new));
            }
            self.entries = entries;
            Some(before.1)
        } else {
            entries.insert(at, (path, entry));
            proof {
                assert(pairs(entries@) =~= list.insert(at as int, new));
                lemma_insert_new(list, at as int, new.0, new.1);
            }
            self.entries = entries;
            None
        }
    }

    /// Forgets the work tree at `path`; gives back what was known of it.
    pub fn remove(&mut self, path: &str) -> (r: Option<RepoEntry>)
        ensures
            final(self)@ == old(self)@.remove(path@),
            match r {
                Some(before) => old(self)@.contains_key(path@) && old(self)@[path@] == before@,
                None => !old(self)@.contains_key(path@),
            },
    {
        proof {
            use_type_invariant(&*self);
            lemma_map_of_ascending(self.listing());
        }
        let ghost list = self.listing();
        let mut entries: Vec<(String, RepoEntry)> = Vec::new();
        std::mem::swap(&mut entries, &mut self.entries);
        let (at, found) = find(&entries, path);
        if found {
            let before = entries.remove(at);
            proof {
                assert(pairs(entries@) =~= list.remove(at as int));
                lemma_remove(list, at as int);
                assert(list[at as int].1 == before.1@);
            }
            self.entries = entries;
            Some(before.1)
        } else {
            proof {
                assert(map_of(list).remove(path@) =~= map_of(list));
            }
            self.entries = entries;
            None
        }
    }

    /// The work trees in the order of their paths.
    pub fn sorted(&self) -> (list: Vec<(&str, &RepoEntry)>)
        ensures
            list@.map_values(|e: (&str, &RepoEntry)| (e.0@, e.1@)) == self.listing(),
            ascending(self.listing()),
    {
        proof {
            use_type_invariant(self);
        }
        let mut list: Vec<(&str, &RepoEntry)> = Vec::new();
        let mut i: usize = 0;
        while i < self.entries.len()
            invariant
                i <= self.entries.len(),
                list.len() == i,
                forall|k: int|
                    0 <= k < i ==> (#[trigger] list@[k]).0@ == self.entries@[k].0@ && list@[k].1@
                        == self.entries@[k].1@,
            decreases self.entries.len() - i,
        {
            list.push((self.entries[i].0.as_str(), &self.entries[i].1));
            i = i + 1;
        }
        proof {
            assert(list@.map_values(|e: (&str, &RepoEntry)| (e.0@, e.1@)) =~= self.listing());
        }
        list
    }

    /// The work trees in the order of their paths.
    pub fn iter(&self) -> (list: Vec<(&str, &RepoEntry)>)
        ensures
            list@.map_values(|e: (&str, &RepoEntry)| (e.0@, e.1@)) == self.listing(),
            ascending(self.listing()),
    {
        self.sorted()
    }

    /// The paths of the work trees, in order.
    pub fn paths(&self) -> (list: Vec<String>)
        ensures
            text::views(list@) == self.listing().map_values(|e: (Seq<char>, EntryView)| e.0),
            ascending(self.listing()),
    {
        proof {
            use_type_invariant(self);
        }
        let mut list: Vec<String> = Vec::new();
        let mut i: usize = 0;
        while i < self.entries.len()
            invariant
                i <= self.entries.len(),
                list.len() == i,
                forall|k: int| 0 <= k < i ==> (#[trigger] list@[k])@ == self.entries@[k].0@,
            decreases self.entries.len() - i,
        {
            list.push(self.entries[i].0.clone());
            i = i + 1;
        }
        proof {
            assert(text::views(list@) =~= self.listing().map_values(
                |e: (Seq<char>, EntryView)| e.0,
            ));
        }
        list
    }

    /// The paths of the work trees, in order.
    pub fn sorted_paths(&self) -> (list: Vec<String>)
        ensures
            text::views(list@) == self.listing().map_values(|e: (Seq<char>, EntryView)| e.0),
            ascending(self.listing()),
    {
        self.paths()
    }

    /// The work trees in the order of their paths, copied.
    pub fn entries(&self) -> (list: Vec<(String, RepoEntry)>)
        ensures
            pairs(list@) == self.listing(),
            ascending(self.listing()),
    {
        proof {
            use_type_invariant(self);
        }
        let mut list: Vec<(String, RepoEntry)> = Vec::new();
        let mut i: usize = 0;
        while i < self.entries.len()
            invariant
                i <= self.entries.len(),
                list.len() == i,
                forall|k: int|
                    0 <= k < i ==> (#[trigger] list@[k]).0@ == self.entries@[k].0@ && list@[k].1@
                        == self.entries@[k].1@,
            decreases self.entries.len() - i,
        {
            list.push((self.entries[i].0.clone(), self.entries[i].1.clone()));
            i = i + 1;
        }
        proof {
            assert(pairs(list@) =~= self.listing());
        }
        list
    }

    /// The registry that holds the given work trees. Of two with the same path the later one
    /// counts.
    pub fn from_entries(entries: Vec<(String, RepoEntry)>) -> (r: Registry)
        ensures
            r@ == map_of(pairs(entries@)),
            ascending(r.listing()),
            ascending(pairs(entries@)) ==> r.listing() == pairs(entries@),
    {
        let mut r = Registry::new();
        let mut i: usize = 0;
        proof {
            assert(pairs(entries@).take(0) =~= Seq::empty());
        }
        while i < entries.len()
            invariant
                i <= entries.len(),
                r@ == map_of(pairs(entries@).take(i as int)),
            decreases entries.len() - i,
        {
            proof {
                let list = pairs(entries@).take(i + 1);
                assert(list.drop_last() =~= pairs(entries@).take(i as int));
                assert(list.last() == (entries@[i as int].0@, entries@[i as int].1@));
            }
            r.insert(entries[i].0.clone(), entries[i].1.clone());
            i = i + 1;
        }
        proof {
            assert(pairs(entries@).take(i as int) =~= pairs(entries@));
            use_type_invariant(&r);
            if ascending(pairs(entries@)) {
                law_listing_is_determined(r.listing(), pairs(entries@));
            }
        }
        r
    }
}

impl Default for Registry {
    fn default() -> (r: Registry)
        ensures
            r@ == Map::<Seq<char>, EntryView>::empty(),
            r.listing() == Seq::<(Seq<char>, EntryView)>::empty(),
    {
        Registry::new()
    }
}

impl Clone for Registry {
    fn clone(&self) -> (r: Registry)
        ensures
            r@ == self@,
            r.listing() == self.listing(),
    {
        Registry::from_entries(self.entries())
    }
}

/// What `m` knows of `path`, marked as checked at `now`. A work tree that was not known yet is
/// registered at `now`; the time of an earlier registration stays.
pub open spec fn touched(
    m: Map<Seq<char>, EntryView>,
    path: Seq<char>,
    now: Seq<char>,
) -> EntryView {
    let known = if m.contains_key(path) {
        m[path]
    } else {
        blank_entry()
    };
    EntryView {
        registered_at: if known.registered_at is None {
            Some(now)
        } else {
            known.registered_at
        },
        last_check: Some(now),
        ..known
    }
}

/// Whether `after` knows everything that `before` knew of other work trees than `path`, and nothing
/// else, and of `path` at least the time of its registration.
pub open spec fn keeps(
    before: Map<Seq<char>, EntryView>,
    after: Map<Seq<char>, EntryView>,
    path: Seq<char>,
) -> bool {
    &&& before.remove(path) =~= after.remove(path)
    &&& before.contains_key(path) ==> after.contains_key(path)
    &&& before.contains_key(path) && before[path].registered_at is Some
        ==> after[path].registered_at == before[path].registered_at
}

/// Marking a work tree as checked keeps everything else: what is known of other work trees, the
/// time of an earlier registration, and every other field.
pub proof fn law_upsert_keeps_registration(
    m: Map<Seq<char>, EntryView>,
    path: Seq<char>,
    now: Seq<char>,
)
    ensures
        keeps(m, m.insert(path, touched(m, path, now)), path),
        touched(m, path, now).last_check == Some(now),
        touched(m, path, now).registered_at is Some,
        !m.contains_key(path) ==> touched(m, path, now) == (EntryView {
            registered_at: Some(now),
            last_check: Some(now),
            ..blank_entry()
        }),
        m.contains_key(path) ==> touched(m, path, now) == (EntryView {
            registered_at: touched(m, path, now).registered_at,
            last_check: Some(now),
            ..m[path]
        }),
{
}

/// Updates the entry for `path` at the moment `now`: it is marked as checked, and as registered
/// where it was not before, and then changed by `change`.
pub fn upsert_entry_at<F: FnOnce(RepoEntry) -> RepoEntry>(
    registry: &mut Registry,
    path: &str,
    now: &str,
    change: F,
)
    requires
        forall|e: RepoEntry|
            e@ == touched(old(registry)@, path@, now@) ==> #[trigger] call_requires(change, (e,)),
    ensures
        exists|e: RepoEntry, changed: RepoEntry|
            #![trigger call_ensures(change, (e,), changed)]
            e@ == touched(old(registry)@, path@, now@) && call_ensures(change, (e,), changed)
                && final(registry)@ == old(registry)@.insert(path@, changed@),
{
    let mut entry = match registry.remove(path) {
        Some(entry) => entry,
        None => RepoEntry::default(),
    };
    if entry.registered_at.is_none() {
        entry.registered_at = Some(now.to_owned());
    }
    entry.last_check = Some(now.to_owned());
    let changed = change(entry);
    proof {
        assert(call_ensures(change, (entry,), changed));
        assert(old(registry)@.remove(path@).insert(path@, changed@) =~= old(registry)@.insert(
            path@,
            changed@,
        ));
    }
    registry.insert(path.to_owned(), changed);
}

/// Updates the entry for `path` now: it is marked as checked, and as registered where it was not
/// before, and then changed by `change`.
pub fn upsert_entry<F: FnOnce(RepoEntry) -> RepoEntry>(
    registry: &mut Registry,
    path: &str,
    change: F,
)
    requires
        forall|e: RepoEntry| #[trigger] call_requires(change, (e,)),
    ensures
        exists|secs: int, e: RepoEntry, changed: RepoEntry|
            #![trigger call_ensures(change, (e,), changed), clock::iso_text(secs)]
            0 <= secs <= clock::LAST_SECOND && (secs <= clock::LAST_FOUR_DIGIT_SECOND
                ==> clock::has_iso_form(clock::iso_text(secs)) && clock::rfc3339_seconds(
                clock::iso_text(secs),
            ) == Some(secs)) && e@ == touched(
                old(registry)@,
                path@,
                clock::iso_text(secs),
            ) && call_ensures(change, (e,), changed) && final(registry)@ == old(registry)@.insert(
                path@,
                changed@,
            ),
{
    let now = now_iso();
    upsert_entry_at(registry, path, &now, change);
}

} // verus!
