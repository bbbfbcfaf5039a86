//! Decisions of the local file watcher.
use vstd::prelude::*;
use crate::models::{mapping_views, string_views, AppConfig, AppConfigView, FileMappingView};
use crate::text::{chars_of, slashes, to_forward_slashes, trim, trim_ws};

verus! {

/// A mapping's local path as the watcher compares it: trimmed, with forward slashes.
pub open spec fn watch_form(m: FileMappingView) -> Seq<char> {
    slashes(trim_ws(m.local_path))
}

/// The watch forms of the mappings.
pub open spec fn watch_forms() -> spec_fn(FileMappingView) -> Seq<char> {
    |m: FileMappingView| watch_form(m)
}

/// Non-empty texts.
pub open spec fn nonempty_text() -> spec_fn(Seq<char>) -> bool {
    |p: Seq<char>| p.len() > 0
}

/// The non-empty local paths of `ms`, in watch form.
pub open spec fn local_paths(ms: Seq<FileMappingView>) -> Seq<Seq<char>> {
    ms.map_values(watch_forms()).filter(nonempty_text())
}

/// Paths not among `known`.
pub open spec fn not_among(known: Seq<Seq<char>>) -> spec_fn(Seq<char>) -> bool {
    |p: Seq<char>| !known.contains(p)
}

/// The local paths of `current` that `previous` did not have.
pub open spec fn new_mapping_paths_spec(previous: Seq<FileMappingView>, current: Seq<FileMappingView>) -> Seq<Seq<char>> {
    local_paths(current).filter(not_among(local_paths(previous)))
}

fn local_paths_of(ms: &Vec<crate::models::FileMapping>) -> (r: Vec<String>)
    ensures
        string_views(r@) == local_paths(mapping_views(ms@)),
{
    let ghost all = mapping_views(ms@).map_values(watch_forms());
    let mut r: Vec<String> = Vec::new();
    let mut i: usize = 0;
    while i < ms.len()
        invariant
            i <= ms@.len(),
            all == mapping_views(ms@).map_values(watch_forms()),
            string_views(r@) == all.take(i as int).filter(nonempty_text()),
        decreases ms@.len() - i,
    {
        let p = to_forward_slashes(trim(ms[i].local_path.as_str()).as_str());
        proof {
            assert(all[i as int] == p@);
            assert(all.take(i + 1) =~= all.take(i as int).push(p@));
            all.take(i as int).lemma_filter_push(p@, nonempty_text());
        }
        if !p.as_str().is_empty() {
            r.push(p);
            assert(string_views(r@) =~= string_views(r@).drop_last().push(p@));
        }
        i = i + 1;
    }
    assert(all.take(ms@.len() as int) =~= all);
    r
}

/// Whether `v` holds `s`.
pub fn contains_string(v: &Vec<String>, s: &String) -> (b: bool)
    ensures
        b == string_views(v@).contains(s@),
{
    let mut i: usize = 0;
    while i < v.len()
        invariant
            i <= v@.len(),
            forall|j: int| 0 <= j < i ==> v@[j]@ != s@,
        decreases v@.len() - i,
    {
        if v[i] == *s {
            assert(string_views(v@)[i as int] == s@);
            return true;
        }
        i = i + 1;
    }
    assert forall|j: int| 0 <= j < string_views(v@).len() implies string_views(v@)[j] != s@ by {
        assert(string_views(v@)[j] == v@[j]@);
    }
    false
}

/// The local paths of the mappings in `current` that `previous` did not have, in watch form.
pub fn collect_new_mapping_paths(previous: &AppConfig, current: &AppConfig) -> (r: Vec<String>)
    ensures
        string_views(r@) == new_mapping_paths_spec(previous@.mappings, current@.mappings),
{
    let known = local_paths_of(&previous.mappings);
    let candidates = local_paths_of(&current.mappings);
    let ghost cs = string_views(candidates@);
    let mut r: Vec<String> = Vec::new();
    let mut i: usize = 0;
    while i < candidates.len()
        invariant
            i <= candidates@.len(),
            cs == string_views(candidates@),
            string_views(known@) == local_paths(previous@.mappings),
            string_views(r@) == cs.take(i as int).filter(not_among(string_views(known@))),
        decreases candidates@.len() - i,
    {
        let p = candidates[i].clone();
        let seen = contains_string(&known, &p);
        proof {
            assert(cs[i as int] == p@);
            assert(cs.take(i + 1) =~= cs.take(i as int).push(p@));
            cs.take(i as int).lemma_filter_push(p@, not_among(string_views(known@)));
        }
        if !seen {
            r.push(p);
            assert(string_views(r@) =~= string_views(r@).drop_last().push(p@));
        }
        i = i + 1;
    }
    assert(cs.take(candidates@.len() as int) =~= cs);
    r
}

/// Whether a changed file concerns a mapping: its path, with forward slashes, is a mapping's
/// local path or starts with it followed by a dot.
pub open spec fn is_watched_spec(ms: Seq<FileMappingView>, path: Seq<char>) -> bool {
    let p = slashes(path);
    exists|i: int|
        0 <= i < ms.len() && (p == watch_form(#[trigger] ms[i]) || (watch_form(ms[i]).len() + 1
            <= p.len() && p.take(watch_form(ms[i]).len() + 1int) == watch_form(ms[i]) + "."@))
}

fn starts_with_str(s: &String, prefix: &String) -> (b: bool)
    ensures
        b == (prefix@.len() <= s@.len() && s@.take(prefix@.len() as int) == prefix@),
{
    let sv = chars_of(s.as_str());
    let pv = chars_of(prefix.as_str());
    if pv.len() > sv.len() {
        return false;
    }
    let mut i: usize = 0;
    while i < pv.len()
        invariant
            sv@ == s@,
            pv@ == prefix@,
            pv@.len() <= sv@.len(),
            i <= pv@.len(),
            forall|j: int| 0 <= j < i ==> sv@[j] == pv@[j],
        decreases pv@.len() - i,
    {
        if sv[i] != pv[i] {
            assert(sv@.take(pv@.len() as int)[i as int] != pv@[i as int]);
            return false;
        }
        i = i + 1;
    }
    assert(sv@.take(pv@.len() as int) =~= pv@);
    true
}

/// Whether a changed file at `path` concerns a mapping of `config`.
pub fn is_watched_path(config: &AppConfig, path: &str) -> (b: bool)
    ensures
        b == is_watched_spec(config@.mappings, path@),
{
    let normalized = to_forward_slashes(path);
    let ghost ms = config@.mappings;
    let mut i: usize = 0;
    while i < config.mappings.len()
        invariant
            ms == config@.mappings,
            i <= ms.len(),
            normalized@ == slashes(path@),
            forall|j: int| 0 <= j < i ==> !(normalized@ == watch_form(#[trigger] ms[j]) || (watch_form(ms[j]).len() + 1
                <= normalized@.len() && normalized@.take(watch_form(ms[j]).len() + 1int) == watch_form(ms[j]) + "."@)),
        decreases ms.len() - i,
    {
        let target = to_forward_slashes(trim(config.mappings[i].local_path.as_str()).as_str());
        let dotted = target.clone().concat(".");
        assert(ms[i as int] == config.mappings@[i as int]@);
        assert(target@ == watch_form(ms[i as int]));
        proof {
            reveal_strlit(".");
        }
        if normalized == target || starts_with_str(&normalized, &dotted) {
            assert(normalized@ == watch_form(ms[i as int]) || (watch_form(ms[i as int]).len() + 1
                <= normalized@.len() && normalized@.take(watch_form(ms[i as int]).len() + 1int) == watch_form(ms[i as int]) + "."@));
            return true;
        }
        i = i + 1;
    }
    false
}

/// Texts without repetition.
pub open spec fn distinct(s: Seq<Seq<char>>) -> bool {
    s.no_duplicates()
}

/// The directories to watch: the distinct parents that the mappings' local paths have.
pub fn distinct_directories(parents: &Vec<Option<String>>) -> (r: Vec<String>)
    ensures
        string_views(r@).no_duplicates(),
        forall|d: Seq<char>| string_views(r@).contains(d) <==> exists|i: int|
            0 <= i < parents@.len() && crate::models::opt_view(#[trigger] parents@[i]) == Some(d),
{
    let mut r: Vec<String> = Vec::new();
    let mut i: usize = 0;
    while i < parents.len()
        invariant
            i <= parents@.len(),
            string_views(r@).no_duplicates(),
            forall|d: Seq<char>| string_views(r@).contains(d) <==> exists|j: int|
                0 <= j < i && crate::models::opt_view(#[trigger] parents@[j]) == Some(d),
        decreases parents@.len() - i,
    {
        let ghost before = string_views(r@);
        match &parents[i] {
            Some(p) => {
                if !contains_string(&r, p) {
                    r.push(p.clone());
                    assert(string_views(r@) =~= before.push(p@));
                }
            },
            None => {},
        }
        proof {
            let now = string_views(r@);
            assert forall|d: Seq<char>| now.contains(d) <==> (before.contains(d) || crate::models::opt_view(
                parents@[i as int],
            ) == Some(d)) by {
                match crate::models::opt_view(parents@[i as int]) {
                    Some(q) => {
                        if now.contains(d) && !before.contains(d) {
                            let k = choose|k: int| 0 <= k < now.len() && now[k] == d;
                            assert(k == before.len());
                        }
                        if before.contains(d) {
                            let k = choose|k: int| 0 <= k < before.len() && before[k] == d;
                            assert(now[k] == d);
                        }
                        if q == d && !before.contains(d) {
                            assert(now[before.len() as int] == d);
                        }
                    },
                    None => {},
                }
            }
            assert forall|d: Seq<char>| now.contains(d) <==> exists|j: int|
                0 <= j < i + 1 && crate::models::opt_view(#[trigger] parents@[j]) == Some(d) by {
                if crate::models::opt_view(parents@[i as int]) == Some(d) {
                    assert(0 <= i < i + 1);
                }
                if exists|j: int| 0 <= j < i + 1 && crate::models::opt_view(#[trigger] parents@[j]) == Some(d) {
                    let j = choose|j: int| 0 <= j < i + 1 && crate::models::opt_view(#[trigger] parents@[j]) == Some(d);
                    if j < i {
                        assert(before.contains(d));
                    }
                }
            }
        }
        i = i + 1;
    }
    r
}

/// Directories of `desired` not in `watched`, and directories of `watched` not in `desired`.
pub fn watch_changes(watched: &Vec<String>, desired: &Vec<String>) -> (r: (Vec<String>, Vec<String>))
    ensures
        string_views(r.0@) == string_views(desired@).filter(not_among(string_views(watched@))),
        string_views(r.1@) == string_views(watched@).filter(not_among(string_views(desired@))),
{
    (missing_from(desired, watched), missing_from(watched, desired))
}

/// The texts of `from` that `other` lacks, in order.
fn missing_from(from: &Vec<String>, other: &Vec<String>) -> (r: Vec<String>)
    ensures
        string_views(r@) == string_views(from@).filter(not_among(string_views(other@))),
{
    let ghost fs = string_views(from@);
    let mut r: Vec<String> = Vec::new();
    let mut i: usize = 0;
    while i < from.len()
        invariant
            i <= from@.len(),
            fs == string_views(from@),
            string_views(r@) == fs.take(i as int).filter(not_among(string_views(other@))),
        decreases from@.len() - i,
    {
        let p = from[i].clone();
        let seen = contains_string(other, &p);
        proof {
            assert(fs[i as int] == p@);
            assert(fs.take(i + 1) =~= fs.take(i as int).push(p@));
            fs.take(i as int).lemma_filter_push(p@, not_among(string_views(other@)));
        }
        if !seen {
            r.push(p);
            assert(string_views(r@) =~= string_views(r@).drop_last().push(p@));
        }
        i = i + 1;
    }
    assert(fs.take(from@.len() as int) =~= fs);
    r
}

/// Whether the watcher should start a run: changes are pending and at least the debounce delay
/// (never under 3 seconds) has passed since the last one, `elapsed_secs` whole seconds ago.
pub fn debounce_due(pending: usize, elapsed_secs: u64, debounce_delay_secs: u64) -> (b: bool)
    ensures
        b == (pending > 0 && elapsed_secs >= if debounce_delay_secs < 3 {
            3
        } else {
            debounce_delay_secs
        }),
{
    let delay = if debounce_delay_secs < 3 {
        3
    } else {
        debounce_delay_secs
    };
    pending > 0 && elapsed_secs >= delay
}

/// The changed paths that the watcher has seen since it last started a run, each once.
pub struct PendingChanges {
    paths: Vec<String>,
}

impl View for PendingChanges {
    type V = Set<Seq<char>>;

    closed spec fn view(&self) -> Set<Seq<char>> {
        string_views(self.paths@).to_set()
    }
}

impl PendingChanges {
    #[verifier::type_invariant]
    closed spec fn each_once(self) -> bool {
        string_views(self.paths@).no_duplicates()
    }

    /// No pending changes.
    pub fn new() -> (r: Self)
        ensures
            r@ == Set::<Seq<char>>::empty(),
    {
        let r = PendingChanges { paths: Vec::new() };
        assert(string_views(r.paths@) =~= Seq::<Seq<char>>::empty());
        assert(string_views(r.paths@).to_set() =~= Set::<Seq<char>>::empty());
        r
    }

    /// Notes a changed path.
    pub fn add(&mut self, path: String)
        ensures
            final(self)@ == old(self)@.insert(path@),
    {
        proof {
            use_type_invariant(&*self);
        }
        let ghost before = string_views(self.paths@);
        let ghost p = path@;
        if contains_string(&self.paths, &path) {
            assert(before.to_set().insert(p) =~= before.to_set());
        } else {
            let mut v: Vec<String> = Vec::new();
            std::mem::swap(&mut v, &mut self.paths);
            v.push(path);
            proof {
                let now = string_views(v@);
                assert(now =~= before.push(p));
                before.lemma_push_to_set_commute(p);
                assert forall|a: int, b: int|
                    0 <= a < now.len() && 0 <= b < now.len() && a != b implies now[a] != now[b] by {
                    if a == before.len() {
                        assert(now[b] == before[b]);
                    } else if b == before.len() {
                        assert(now[a] == before[a]);
                    } else {
                        assert(now[a] == before[a] && now[b] == before[b]);
                    }
                }
            }
            self.paths = v;
        }
    }

    /// Notes several changed paths.
    pub fn add_all(&mut self, paths: Vec<String>)
        ensures
            final(self)@ == old(self)@ + string_views(paths@).to_set(),
    {
        let ghost ps = string_views(paths@);
        let mut i: usize = 0;
        while i < paths.len()
            invariant
                i <= paths@.len(),
                ps == string_views(paths@),
                self@ == old(self)@ + ps.take(i as int).to_set(),
            decreases paths@.len() - i,
        {
            let p = paths[i].clone();
            self.add(p);
            proof {
                assert(ps.take(i + 1) =~= ps.take(i as int).push(ps[i as int]));
                ps.take(i as int).lemma_push_to_set_commute(ps[i as int]);
                assert(self@ =~= old(self)@ + ps.take(i + 1).to_set());
            }
            i = i + 1;
        }
        assert(ps.take(paths@.len() as int) =~= ps);
    }

    /// How many paths are pending.
    pub fn len(&self) -> (n: usize)
        ensures
            n == self@.len(),
    {
        proof {
            use_type_invariant(self);
            string_views(self.paths@).unique_seq_to_set();
        }
        self.paths.len()
    }

    /// Forgets the pending paths, returning how many there were.
    pub fn clear(&mut self) -> (n: usize)
        ensures
            n == old(self)@.len(),
            final(self)@ == Set::<Seq<char>>::empty(),
    {
        let n = self.len();
        let mut v: Vec<String> = Vec::new();
        std::mem::swap(&mut v, &mut self.paths);
        assert(string_views(self.paths@) =~= Seq::<Seq<char>>::empty());
        assert(string_views(self.paths@).to_set() =~= Set::<Seq<char>>::empty());
        n
    }
}

} // verus!
