//! The runtime states of all mappings, keyed by mapping id.
use vstd::prelude::*;
use crate::models::{FileRuntimeState, FileRuntimeStateView};

verus! {

/// The map that a sequence of `(id, state)` entries describes; a later entry for an id
/// replaces an earlier one.
pub open spec fn entries_map(s: Seq<(String, FileRuntimeState)>) -> Map<
    Seq<char>,
    FileRuntimeStateView,
>
    decreases s.len(),
{
    if s.len() == 0 {
        Map::empty()
    } else {
        entries_map(s.drop_last()).insert(s.last().0@, s.last().1@)
    }
}

/// No id occurs twice among the entries.
pub open spec fn unique_keys(s: Seq<(String, FileRuntimeState)>) -> bool {
    forall|i: int, j: int| 0 <= i < s.len() && 0 <= j < s.len() && i != j ==> #[trigger] s[i].0@
        != #[trigger] s[j].0@
}

pub proof fn lemma_entries_map_dom(s: Seq<(String, FileRuntimeState)>)
    ensures
        entries_map(s).dom().finite(),
        forall|k: Seq<char>| #[trigger]
            entries_map(s).dom().contains(k) <==> exists|i: int| 0 <= i < s.len() && s[i].0@ == k,
    decreases s.len(),
{
    if s.len() > 0 {
        let t = s.drop_last();
        lemma_entries_map_dom(t);
        assert forall|k: Seq<char>| #[trigger]
            entries_map(s).dom().contains(k) implies exists|i: int|
            0 <= i < s.len() && s[i].0@ == k by {
            if k != s.last().0@ {
                let i = choose|i: int| 0 <= i < t.len() && t[i].0@ == k;
                assert(s[i] == t[i]);
            } else {
                assert(s[s.len() - 1].0@ == k);
            }
        }
        assert forall|k: Seq<char>|
            (exists|i: int| 0 <= i < s.len() && s[i].0@ == k) implies #[trigger] entries_map(
            s,
        ).dom().contains(k) by {
            let i = choose|i: int| 0 <= i < s.len() && s[i].0@ == k;
            if i < s.len() - 1 {
                assert(t[i] == s[i]);
            }
        }
    }
}

pub proof fn lemma_entries_map_index(s: Seq<(String, FileRuntimeState)>, i: int)
    requires
        unique_keys(s),
        0 <= i < s.len(),
    ensures
        entries_map(s).dom().contains(s[i].0@),
        entries_map(s)[s[i].0@] == s[i].1@,
    decreases s.len(),
{
    let t = s.drop_last();
    if i < s.len() - 1 {
        assert(t[i] == s[i]);
        assert(unique_keys(t)) by {
            assert forall|a: int, b: int| 0 <= a < t.len() && 0 <= b < t.len() && a != b implies #[trigger] t[a].0@
                != #[trigger] t[b].0@ by {
                assert(t[a] == s[a] && t[b] == s[b]);
            }
        }
        lemma_entries_map_index(t, i);
        assert(s[i].0@ != s[s.len() - 1].0@);
    }
}

pub proof fn lemma_unique_drop_last(s: Seq<(String, FileRuntimeState)>)
    requires
        unique_keys(s),
        s.len() > 0,
    ensures
        unique_keys(s.drop_last()),
        !entries_map(s.drop_last()).dom().contains(s.last().0@),
{
    let t = s.drop_last();
    assert forall|a: int, b: int| 0 <= a < t.len() && 0 <= b < t.len() && a != b implies #[trigger] t[a].0@
        != #[trigger] t[b].0@ by {
        assert(t[a] == s[a] && t[b] == s[b]);
    }
    lemma_entries_map_dom(t);
    if entries_map(t).dom().contains(s.last().0@) {
        let i = choose|i: int| 0 <= i < t.len() && t[i].0@ == s.last().0@;
        assert(t[i] == s[i]);
    }
}

/// Replacing the state of an entry replaces the state of its id in the map.
pub proof fn lemma_entries_map_update(
    s: Seq<(String, FileRuntimeState)>,
    i: int,
    e: (String, FileRuntimeState),
)
    requires
        unique_keys(s),
        0 <= i < s.len(),
        e.0@ == s[i].0@,
    ensures
        unique_keys(s.update(i, e)),
        entries_map(s.update(i, e)) == entries_map(s).insert(e.0@, e.1@),
    decreases s.len(),
{
    let u = s.update(i, e);
    assert forall|a: int, b: int| 0 <= a < u.len() && 0 <= b < u.len() && a != b implies #[trigger] u[a].0@
        != #[trigger] u[b].0@ by {
        assert(u[a].0@ == s[a].0@ && u[b].0@ == s[b].0@);
    }
    let t = s.drop_last();
    if i == s.len() - 1 {
        assert(u.drop_last() =~= t);
        lemma_unique_drop_last(s);
        assert(entries_map(u) =~= entries_map(s).insert(e.0@, e.1@));
    } else {
        lemma_unique_drop_last(s);
        assert(u.drop_last() =~= t.update(i, e));
        assert(t[i] == s[i]);
        lemma_entries_map_update(t, i, e);
        assert(entries_map(u) =~= entries_map(s).insert(e.0@, e.1@));
    }
}

/// The runtime states of all mappings, keyed by mapping id.
pub struct FileStates {
    entries: Vec<(String, FileRuntimeState)>,
}

impl View for FileStates {
    type V = Map<Seq<char>, FileRuntimeStateView>;

    closed spec fn view(&self) -> Map<Seq<char>, FileRuntimeStateView> {
        entries_map(self.entries@)
    }
}

impl FileStates {
    #[verifier::type_invariant]
    closed spec fn well_formed(self) -> bool {
        unique_keys(self.entries@)
    }

    /// No states.
    pub fn new() -> (r: Self)
        ensures
            r@ == Map::<Seq<char>, FileRuntimeStateView>::empty(),
    {
        FileStates { entries: Vec::new() }
    }

    /// Number of mappings with a state.
    pub fn len(&self) -> (n: usize)
        ensures
            n == self@.dom().len(),
    {
        proof {
            use_type_invariant(self);
            self.lemma_len();
        }
        self.entries.len()
    }

    proof fn lemma_len(&self)
        requires
            unique_keys(self.entries@),
        ensures
            self@.dom().len() == self.entries@.len(),
            self@.dom().finite(),
    {
        lemma_len_of(self.entries@);
    }

    fn find(&self, id: &String) -> (r: Option<usize>)
        ensures
            r matches Some(i) ==> i < self.entries@.len() && self.entries@[i as int].0@ == id@,
            r is None ==> forall|i: int| 0 <= i < self.entries@.len() ==> self.entries@[i].0@ != id@,
    {
        let mut i: usize = 0;
        while i < self.entries.len()
            invariant
                i <= self.entries@.len(),
                forall|j: int| 0 <= j < i ==> self.entries@[j].0@ != id@,
            decreases self.entries@.len() - i,
        {
            if self.entries[i].0 == *id {
                return Some(i);
            }
            i = i + 1;
        }
        None
    }

    /// The state recorded for `id`.
    pub fn get(&self, id: &String) -> (r: Option<FileRuntimeState>)
        ensures
            r is Some == self@.dom().contains(id@),
            r matches Some(st) ==> st@ == self@[id@],
    {
        proof {
            use_type_invariant(self);
            lemma_entries_map_dom(self.entries@);
        }
        match self.find(id) {
            Some(i) => {
                proof {
                    lemma_entries_map_index(self.entries@, i as int);
                }
                Some(self.entries[i].1.clone())
            },
            None => None,
        }
    }

    /// Records `state` for `id`, replacing any earlier state.
    pub fn insert(&mut self, id: String, state: FileRuntimeState)
        ensures
            final(self)@ == old(self)@.insert(id@, state@),
    {
        proof {
            use_type_invariant(&*self);
            lemma_entries_map_dom(self.entries@);
        }
        match self.find(&id) {
            Some(i) => {
                let ghost before = self.entries@;
                proof {
                    lemma_entries_map_update(before, i as int, (id, state));
                }
                let mut entries: Vec<(String, FileRuntimeState)> = Vec::new();
                std::mem::swap(&mut entries, &mut self.entries);
                entries.set(i, (id, state));
                self.entries = entries;
            },
            None => {
                let ghost before = self.entries@;
                let mut entries: Vec<(String, FileRuntimeState)> = Vec::new();
                std::mem::swap(&mut entries, &mut self.entries);
                entries.push((id, state));
                proof {
                    let after = entries@;
                    assert(after.drop_last() =~= before);
                    assert forall|a: int, b: int|
                        0 <= a < after.len() && 0 <= b < after.len() && a != b implies #[trigger] after[a].0@
                        != #[trigger] after[b].0@ by {
                        if a < before.len() && b < before.len() {
                            assert(after[a] == before[a] && after[b] == before[b]);
                        } else if a < before.len() {
                            assert(after[a] == before[a]);
                        } else {
                            assert(after[b] == before[b]);
                        }
                    }
                }
                self.entries = entries;
            },
        }
    }

    /// Number of mappings whose recorded status is `status`.
    pub fn count_status(&self, status: &str) -> (n: usize)
        ensures
            n == count_with_status(self@, status@),
    {
        proof {
            use_type_invariant(self);
        }
        let target = String::from_str(status);
        let mut n: usize = 0;
        let mut i: usize = 0;
        while i < self.entries.len()
            invariant
                i <= self.entries@.len(),
                n <= i,
                target@ == status@,
                unique_keys(self.entries@),
                n == self.entries@.take(i as int).filter(has_status(status@)).len(),
            decreases self.entries@.len() - i,
        {
            proof {
                let pred = has_status(status@);
                assert(self.entries@.take(i + 1) =~= self.entries@.take(i as int).push(self.entries@[i as int]));
                self.entries@.take(i as int).lemma_filter_push(self.entries@[i as int], pred);
                assert(pred(self.entries@[i as int]) == (self.entries@[i as int].1.status@ == status@));
            }
            let hit = self.entries[i].1.status == target;
            assert(hit == (self.entries@[i as int].1.status@ == status@));
            if hit {
                n = n + 1;
            }
            i = i + 1;
        }
        proof {
            assert(self.entries@.take(self.entries@.len() as int) =~= self.entries@);
            lemma_count_with_status(self.entries@, status@);
        }
        n
    }

    /// All `(id, state)` pairs, each id once.
    pub fn to_pairs(&self) -> (r: Vec<(String, FileRuntimeState)>)
        ensures
            entries_map(r@) == self@,
            unique_keys(r@),
    {
        proof {
            use_type_invariant(self);
        }
        let mut r: Vec<(String, FileRuntimeState)> = Vec::new();
        let mut i: usize = 0;
        while i < self.entries.len()
            invariant
                i <= self.entries@.len(),
                r@.len() == i,
                forall|j: int| 0 <= j < i ==> (#[trigger] r@[j]).0@ == self.entries@[j].0@ && r@[j].1@
                    == self.entries@[j].1@,
            decreases self.entries@.len() - i,
        {
            let k = self.entries[i].0.clone();
            let v = self.entries[i].1.clone();
            r.push((k, v));
            i = i + 1;
        }
        proof {
            lemma_same_entries_map(r@, self.entries@);
        }
        r
    }
}

/// Entries with the same ids and state views describe the same map.
pub proof fn lemma_same_entries_map(a: Seq<(String, FileRuntimeState)>, b: Seq<(String, FileRuntimeState)>)
    requires
        a.len() == b.len(),
        forall|j: int| 0 <= j < a.len() ==> (#[trigger] a[j]).0@ == b[j].0@ && a[j].1@ == b[j].1@,
    ensures
        entries_map(a) == entries_map(b),
        unique_keys(a) == unique_keys(b),
    decreases a.len(),
{
    if a.len() > 0 {
        assert forall|j: int| 0 <= j < a.drop_last().len() implies (#[trigger] a.drop_last()[j]).0@
            == b.drop_last()[j].0@ && a.drop_last()[j].1@ == b.drop_last()[j].1@ by {
            assert(a.drop_last()[j] == a[j] && b.drop_last()[j] == b[j]);
        }
        lemma_same_entries_map(a.drop_last(), b.drop_last());
    }
    assert(unique_keys(a) == unique_keys(b)) by {
        if unique_keys(a) {
            assert forall|i: int, j: int| 0 <= i < b.len() && 0 <= j < b.len() && i != j implies #[trigger] b[i].0@
                != #[trigger] b[j].0@ by {
                assert(a[i].0@ == b[i].0@ && a[j].0@ == b[j].0@);
            }
        }
        if unique_keys(b) {
            assert forall|i: int, j: int| 0 <= i < a.len() && 0 <= j < a.len() && i != j implies #[trigger] a[i].0@
                != #[trigger] a[j].0@ by {
                assert(a[i].0@ == b[i].0@ && a[j].0@ == b[j].0@);
            }
        }
    }
}

/// Builds the states from `(id, state)` pairs; a later pair for an id replaces an earlier one.
pub fn file_states_from_pairs(pairs: &Vec<(String, FileRuntimeState)>) -> (r: FileStates)
    ensures
        r@ == entries_map(pairs@),
{
    let mut r = FileStates::new();
    let n = pairs.len();
    let mut i: usize = 0;
    while i < n
        invariant
            n == pairs@.len(),
            i <= n,
            r@ == entries_map(pairs@.take(i as int)),
        decreases n - i,
    {
        let k = pairs[i].0.clone();
        let v = pairs[i].1.clone();
        proof {
            assert(pairs@.take(i + 1).drop_last() =~= pairs@.take(i as int));
        }
        r.insert(k, v);
        i = i + 1;
    }
    proof {
        assert(pairs@.take(n as int) =~= pairs@);
    }
    r
}

/// The entries whose state has status `status`.
pub open spec fn has_status(status: Seq<char>) -> spec_fn((String, FileRuntimeState)) -> bool {
    |e: (String, FileRuntimeState)| e.1.status@ == status
}

/// Number of ids of `m` whose status is `status`.
pub open spec fn count_with_status(m: Map<Seq<char>, FileRuntimeStateView>, status: Seq<char>) -> nat {
    m.dom().filter(|k: Seq<char>| m[k].status == status).len()
}

pub proof fn lemma_len_of(s: Seq<(String, FileRuntimeState)>)
    requires
        unique_keys(s),
    ensures
        entries_map(s).dom().len() == s.len(),
        entries_map(s).dom().finite(),
    decreases s.len(),
{
    lemma_entries_map_dom(s);
    if s.len() > 0 {
        lemma_unique_drop_last(s);
        lemma_len_of(s.drop_last());
    }
}

pub proof fn lemma_count_with_status(s: Seq<(String, FileRuntimeState)>, status: Seq<char>)
    requires
        unique_keys(s),
    ensures
        count_with_status(entries_map(s), status) == s.filter(has_status(status)).len(),
    decreases s.len(),
{
    let pred = has_status(status);
    let m = entries_map(s);
    let f = |k: Seq<char>| m[k].status == status;
    if s.len() == 0 {
        assert(m.dom().filter(f) =~= Set::<Seq<char>>::empty());
        reveal(Seq::filter);
    } else {
        let t = s.drop_last();
        lemma_unique_drop_last(s);
        lemma_count_with_status(t, status);
        lemma_entries_map_dom(t);
        let mt = entries_map(t);
        let ft = |k: Seq<char>| mt[k].status == status;
        t.lemma_filter_push(s.last(), pred);
        assert(s =~= t.push(s.last()));
        let last = s.last();
        if last.1.status@ == status {
            assert(m.dom().filter(f) =~= mt.dom().filter(ft).insert(last.0@));
            assert(!mt.dom().filter(ft).contains(last.0@));
        } else {
            assert(m.dom().filter(f) =~= mt.dom().filter(ft));
        }
    }
}

} // verus!

verus! {

impl Clone for FileStates {
    fn clone(&self) -> (r: Self)
        ensures
            r@ == self@,
    {
        let pairs = self.to_pairs();
        file_states_from_pairs(&pairs)
    }
}

} // verus!
