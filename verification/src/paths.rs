//! Remote paths: splitting into segments, joining under the remote root, relative paths.
use vstd::prelude::*;
use crate::models::{string_views, WebDavSettings, WebDavSettingsView};
use crate::text::{blank, chars_of, is_blank, slashes, string_of, trim, trim_ws};

verus! {

/// `s` split at every `sep` (`str::split`): one more piece than there are separators.
pub open spec fn split_on(s: Seq<char>, sep: char) -> Seq<Seq<char>>
    decreases s.len(),
{
    if s.len() == 0 {
        seq![Seq::<char>::empty()]
    } else {
        let p = split_on(s.drop_last(), sep);
        if s.last() == sep {
            p.push(Seq::empty())
        } else {
            p.update(p.len() - 1, p.last().push(s.last()))
        }
    }
}

pub proof fn lemma_split_on_len(s: Seq<char>, sep: char)
    ensures
        split_on(s, sep).len() >= 1,
    decreases s.len(),
{
    if s.len() > 0 {
        lemma_split_on_len(s.drop_last(), sep);
    }
}

/// A segment is kept when it is neither empty nor `.`.
pub open spec fn keeps_segment() -> spec_fn(Seq<char>) -> bool {
    |seg: Seq<char>| seg.len() > 0 && seg != seq!['.']
}

/// The segments of a path: split at `/` and `\`, without empty and `.` segments.
pub open spec fn segments_of(s: Seq<char>) -> Seq<Seq<char>> {
    split_on(slashes(s), '/').filter(keeps_segment())
}

fn keep_segment(cur: &Vec<char>) -> (b: bool)
    ensures
        b == (keeps_segment())(cur@),
{
    if cur.len() == 0 {
        false
    } else if cur.len() == 1 && cur[0] == '.' {
        assert(cur@ =~= seq!['.']);
        false
    } else {
        assert(cur@ != seq!['.']) by {
            if cur@ == seq!['.'] {
                assert(cur@.len() == 1 && cur@[0] == '.');
            }
        }
        true
    }
}

/// The segments of a path (split at `/` and `\`, empty and `.` segments dropped).
pub fn normalize_segments(input: &str) -> (r: Vec<String>)
    ensures
        string_views(r@) == segments_of(input@),
{
    let v = chars_of(input);
    let n = v.len();
    let mut done: Vec<String> = Vec::new();
    let mut cur: Vec<char> = Vec::new();
    let mut i: usize = 0;
    proof {
        assert(slashes(input@.take(0)) =~= Seq::<char>::empty());
    }
    while i < n
        invariant
            n == v@.len(),
            v@ == input@,
            i <= n,
            string_views(done@) == split_on(slashes(input@.take(i as int)), '/').drop_last().filter(
                keeps_segment(),
            ),
            cur@ == split_on(slashes(input@.take(i as int)), '/').last(),
        decreases n - i,
    {
        let c = v[i];
        let ghost pre = slashes(input@.take(i as int));
        let ghost parts = split_on(pre, '/');
        proof {
            lemma_split_on_len(pre, '/');
            assert(slashes(input@.take(i + 1)) =~= pre.push(if c == '\\' { '/' } else { c }));
            assert(slashes(input@.take(i + 1)).drop_last() =~= pre);
        }
        if c == '/' || c == '\\' {
            let keep = keep_segment(&cur);
            proof {
                assert(parts =~= parts.drop_last().push(parts.last()));
                parts.drop_last().lemma_filter_push(parts.last(), keeps_segment());
                assert(split_on(slashes(input@.take(i + 1)), '/').drop_last() =~= parts);
            }
            if keep {
                let s = string_of(&cur);
                done.push(s);
                assert(string_views(done@) =~= string_views(done@).drop_last().push(s@));
            }
            cur = Vec::new();
            proof {
                assert(cur@ =~= Seq::<char>::empty());
            }
        } else {
            cur.push(c);
            proof {
                assert(split_on(slashes(input@.take(i + 1)), '/').drop_last() =~= parts.drop_last());
            }
        }
        i = i + 1;
    }
    let ghost parts = split_on(slashes(input@.take(n as int)), '/');
    proof {
        lemma_split_on_len(slashes(input@.take(n as int)), '/');
        assert(input@.take(n as int) =~= input@);
        assert(parts =~= parts.drop_last().push(parts.last()));
        parts.drop_last().lemma_filter_push(parts.last(), keeps_segment());
    }
    if keep_segment(&cur) {
        let s = string_of(&cur);
        done.push(s);
        assert(string_views(done@) =~= string_views(done@).drop_last().push(s@));
    }
    done
}

/// `a` followed by `b`.
fn concat_strings(a: Vec<String>, b: Vec<String>) -> (r: Vec<String>)
    ensures
        string_views(r@) == string_views(a@) + string_views(b@),
{
    let mut a = a;
    let mut b = b;
    let ghost va = a@;
    let ghost vb = b@;
    a.append(&mut b);
    assert(string_views(a@) =~= string_views(va) + string_views(vb));
    a
}

/// Splitting at `sep` a text made of `a`, `sep` and `b` gives the pieces of `a` followed by
/// those of `b`.
pub proof fn lemma_split_on_concat(a: Seq<char>, b: Seq<char>, sep: char)
    ensures
        split_on(a + seq![sep] + b, sep) == split_on(a, sep) + split_on(b, sep),
    decreases b.len(),
{
    let x = a + seq![sep] + b;
    if b.len() == 0 {
        assert(x =~= a.push(sep));
        assert(x.drop_last() =~= a);
        assert(split_on(a, sep) + split_on(b, sep) =~= split_on(a, sep).push(Seq::empty()));
    } else {
        let b2 = b.drop_last();
        assert(x.drop_last() =~= a + seq![sep] + b2);
        lemma_split_on_concat(a, b2, sep);
        lemma_split_on_len(b2, sep);
        let pa = split_on(a, sep);
        let pb = split_on(b2, sep);
        if b.last() == sep {
            assert((pa + pb).push(Seq::empty()) =~= pa + pb.push(Seq::empty()));
        } else {
            let p = pa + pb;
            assert(p.update(p.len() - 1, p.last().push(b.last())) =~= pa + pb.update(
                pb.len() - 1,
                pb.last().push(b.last()),
            ));
        }
    }
}

/// The segments of `base` and `extra` joined with a slash are the segments of `base` followed
/// by those of `extra`.
pub proof fn law_join_is_segments_of_joined(base: Seq<char>, extra: Seq<char>)
    ensures
        segments_of(base + "/"@ + extra) == segments_of(base) + segments_of(extra),
{
    reveal_strlit("/");
    let x = base + "/"@ + extra;
    assert(slashes(x) =~= slashes(base) + seq!['/'] + slashes(extra));
    lemma_split_on_concat(slashes(base), slashes(extra), '/');
    Seq::filter_distributes_over_add(
        split_on(slashes(base), '/'),
        split_on(slashes(extra), '/'),
        keeps_segment(),
    );
}

/// The segments of `extra` under the segments of `base`: the segments of the two joined with a
/// slash.
pub fn join_remote_segments(base: &str, extra: &str) -> (r: Vec<String>)
    ensures
        string_views(r@) == segments_of(base@) + segments_of(extra@),
        string_views(r@) == segments_of(base@ + "/"@ + extra@),
{
    proof {
        law_join_is_segments_of_joined(base@, extra@);
    }
    concat_strings(normalize_segments(base), normalize_segments(extra))
}

/// The segment a client id adds under the remote directory: none for a blank id.
pub open spec fn client_segment(client_id: Seq<char>) -> Seq<Seq<char>> {
    if is_blank(client_id) {
        Seq::empty()
    } else {
        seq![trim_ws(client_id)]
    }
}

fn client_segment_vec(client_id: &str) -> (r: Vec<String>)
    ensures
        string_views(r@) == client_segment(client_id@),
{
    let mut r: Vec<String> = Vec::new();
    if !blank(client_id) {
        let t = trim(client_id);
        r.push(t);
        assert(string_views(r@) =~= seq![t@]);
    } else {
        assert(string_views(r@) =~= Seq::<Seq<char>>::empty());
    }
    r
}

/// The segments of `extra` under the client's directory inside `base`.
pub fn join_remote_segments_with_client(base: &str, client_id: &str, extra: &str) -> (r: Vec<String>)
    ensures
        string_views(r@) == segments_of(base@) + client_segment(client_id@) + segments_of(extra@),
{
    let root = concat_strings(normalize_segments(base), client_segment_vec(client_id));
    concat_strings(root, normalize_segments(extra))
}

/// The segments of the device's root directory on the server.
pub open spec fn remote_root_spec(s: WebDavSettingsView) -> Seq<Seq<char>> {
    segments_of(s.remote_dir) + client_segment(s.device_id)
}

/// The segments of the device's root directory on the server.
pub fn remote_root_segments(settings: &WebDavSettings) -> (r: Vec<String>)
    ensures
        string_views(r@) == remote_root_spec(settings@),
{
    concat_strings(
        normalize_segments(settings.remote_dir.as_str()),
        client_segment_vec(settings.device_id.as_str()),
    )
}

/// The segments of a file's remote location.
pub open spec fn file_segments_spec(s: WebDavSettingsView, remote_path: Seq<char>) -> Seq<Seq<char>> {
    remote_root_spec(s) + segments_of(remote_path)
}

/// The segments of a file's remote location.
pub fn file_segments(settings: &WebDavSettings, remote_path: &str) -> (r: Vec<String>)
    ensures
        string_views(r@) == file_segments_spec(settings@, remote_path@),
{
    join_remote_segments_with_client(
        settings.remote_dir.as_str(),
        settings.device_id.as_str(),
        remote_path,
    )
}

/// The directories that must exist before a file is uploaded: the root and the file's parents.
pub open spec fn parent_collections_spec(s: WebDavSettingsView, remote_path: Seq<char>) -> Seq<Seq<char>> {
    let fs = segments_of(remote_path);
    remote_root_spec(s) + if fs.len() > 1 {
        fs.take(fs.len() - 1)
    } else {
        Seq::empty()
    }
}

/// The directories that must exist before a file is uploaded.
pub fn parent_collection_segments(settings: &WebDavSettings, remote_path: &str) -> (r: Vec<String>)
    ensures
        string_views(r@) == parent_collections_spec(settings@, remote_path@),
{
    let root = remote_root_segments(settings);
    let fs = normalize_segments(remote_path);
    let mut parents: Vec<String> = Vec::new();
    if fs.len() > 1 {
        let k = fs.len() - 1;
        let mut i: usize = 0;
        while i < k
            invariant
                k == fs@.len() - 1,
                i <= k,
                parents@.len() == i,
                string_views(parents@) == string_views(fs@).take(i as int),
            decreases k - i,
        {
            let s = fs[i].clone();
            parents.push(s);
            i = i + 1;
            assert(string_views(parents@) =~= string_views(fs@).take(i as int));
        }
    } else {
        assert(string_views(parents@) =~= Seq::<Seq<char>>::empty());
    }
    concat_strings(root, parents)
}

/// The segments of a remote directory `dir_path` under the root.
pub fn directory_segments(settings: &WebDavSettings, dir_path: &str) -> (r: Vec<String>)
    ensures
        string_views(r@) == remote_root_spec(settings@) + segments_of(dir_path@),
{
    concat_strings(remote_root_segments(settings), normalize_segments(dir_path))
}

/// The chain of directories to create for `segments`: each non-empty prefix, shortest first.
pub fn collection_chain(segments: &Vec<String>) -> (r: Vec<Vec<String>>)
    ensures
        r@.len() == segments@.len(),
        forall|i: int| 0 <= i < r@.len() ==> string_views(#[trigger] r@[i]@) == string_views(segments@).take(i + 1),
{
    let mut r: Vec<Vec<String>> = Vec::new();
    let mut progressive: Vec<String> = Vec::new();
    let mut i: usize = 0;
    while i < segments.len()
        invariant
            i <= segments@.len(),
            r@.len() == i,
            progressive@.len() == i,
            string_views(progressive@) == string_views(segments@).take(i as int),
            forall|j: int| 0 <= j < i ==> string_views(#[trigger] r@[j]@) == string_views(segments@).take(j + 1),
        decreases segments@.len() - i,
    {
        let s = segments[i].clone();
        progressive.push(s);
        assert(string_views(progressive@) =~= string_views(segments@).take(i + 1));
        let snapshot = crate::models::copy_strings(&progressive);
        r.push(snapshot);
        i = i + 1;
    }
    r
}

/// Characters that `/`-trimming removes.
pub open spec fn trim_slashes(s: Seq<char>) -> Seq<char> {
    crate::text::trim_of(s, crate::text::CharClass::Exactly('/'))
}

/// `full` relative to `current`: both without surrounding slashes, the prefix `current` taken
/// off `full` when it is one, and the result without surrounding slashes.
pub open spec fn relative_path_spec(full: Seq<char>, current: Seq<char>) -> Seq<char> {
    let f = trim_slashes(full);
    let c = trim_slashes(current);
    let rest = if c.len() <= f.len() && f.take(c.len() as int) == c {
        f.skip(c.len() as int)
    } else {
        f
    };
    trim_slashes(rest)
}

/// Whether `p` is a prefix of `s`.
fn starts_with_chars(s: &Vec<char>, p: &Vec<char>) -> (b: bool)
    ensures
        b == (p@.len() <= s@.len() && s@.take(p@.len() as int) == p@),
{
    if p.len() > s.len() {
        return false;
    }
    let mut i: usize = 0;
    while i < p.len()
        invariant
            p@.len() <= s@.len(),
            i <= p@.len(),
            forall|j: int| 0 <= j < i ==> s@[j] == p@[j],
        decreases p@.len() - i,
    {
        if s[i] != p[i] {
            assert(s@.take(p@.len() as int)[i as int] != p@[i as int]);
            return false;
        }
        i = i + 1;
    }
    assert(s@.take(p@.len() as int) =~= p@);
    true
}

/// `full` relative to `current`.
pub fn relative_remote_path(full_path: &str, current_path: &str) -> (r: String)
    ensures
        r@ == relative_path_spec(full_path@, current_path@),
{
    let slash = crate::text::CharClass::Exactly('/');
    let f = crate::text::trim_class(full_path, slash);
    let c = crate::text::trim_class(current_path, slash);
    let fv = chars_of(f.as_str());
    let cv = chars_of(c.as_str());
    let rest = if starts_with_chars(&fv, &cv) {
        crate::text::string_of_range(&fv, cv.len(), fv.len())
    } else {
        f
    };
    proof {
        assert(fv@.subrange(cv@.len() as int, fv@.len() as int) =~= fv@.skip(cv@.len() as int));
    }
    crate::text::trim_class(rest.as_str(), slash)
}

} // verus!

verus! {

/// The pieces of a split hold no separator, and only characters of the split text.
pub proof fn lemma_split_pieces(s: Seq<char>, sep: char)
    ensures
        forall|i: int, j: int|
            0 <= i < split_on(s, sep).len() && 0 <= j < split_on(s, sep)[i].len() ==> #[trigger] split_on(s, sep)[i][j]
                != sep && s.contains(split_on(s, sep)[i][j]),
    decreases s.len(),
{
    if s.len() > 0 {
        let t = s.drop_last();
        lemma_split_pieces(t, sep);
        lemma_split_on_len(t, sep);
        let p = split_on(t, sep);
        let r = split_on(s, sep);
        assert forall|i: int, j: int| 0 <= i < r.len() && 0 <= j < r[i].len() implies #[trigger] r[i][j] != sep
            && s.contains(r[i][j]) by {
            if s.last() == sep {
                if i < p.len() {
                    assert(r[i] == p[i]);
                    assert(t.contains(p[i][j]));
                    let k = choose|k: int| 0 <= k < t.len() && t[k] == p[i][j];
                    assert(s[k] == t[k]);
                }
            } else {
                if i < p.len() - 1 {
                    assert(r[i] == p[i]);
                    assert(t.contains(p[i][j]));
                    let k = choose|k: int| 0 <= k < t.len() && t[k] == p[i][j];
                    assert(s[k] == t[k]);
                } else {
                    let q = p.last().push(s.last());
                    assert(r[i] == q);
                    if j < q.len() - 1 {
                        assert(q[j] == p[p.len() - 1][j]);
                        assert(t.contains(p[p.len() - 1][j]));
                        let k = choose|k: int| 0 <= k < t.len() && t[k] == p[p.len() - 1][j];
                        assert(s[k] == t[k]);
                    } else {
                        assert(q[j] == s[s.len() - 1]);
                    }
                }
            }
        }
    }
}

/// Every segment of a path is non-empty, is not `.`, and holds no `/` or `\`.
pub proof fn law_segments_are_clean(s: Seq<char>)
    ensures
        forall|i: int| 0 <= i < segments_of(s).len() ==> {
            let seg = #[trigger] segments_of(s)[i];
            &&& seg.len() > 0
            &&& seg != seq!['.']
            &&& !seg.contains('/')
            &&& !seg.contains('\\')
        },
{
    let x = slashes(s);
    let pieces = split_on(x, '/');
    lemma_split_pieces(x, '/');
    assert forall|i: int| 0 <= i < segments_of(s).len() implies {
        let seg = #[trigger] segments_of(s)[i];
        &&& seg.len() > 0
        &&& seg != seq!['.']
        &&& !seg.contains('/')
        &&& !seg.contains('\\')
    } by {
        let seg = segments_of(s)[i];
        pieces.lemma_filter_pred(keeps_segment(), i);
        assert(pieces.filter(keeps_segment()).contains(seg));
        pieces.lemma_filter_contains_rev(keeps_segment(), seg);
        let k = choose|k: int| 0 <= k < pieces.len() && pieces[k] == seg;
        assert forall|j: int| 0 <= j < seg.len() implies seg[j] != '/' && seg[j] != '\\' by {
            assert(pieces[k][j] != '/' && x.contains(pieces[k][j]));
            let m = choose|m: int| 0 <= m < x.len() && x[m] == pieces[k][j];
            assert(x[m] != '\\');
        }
    }
}


/// The directories created before an upload are exactly the directories the file lies in:
/// together with the file's own name they give the file's location, and the first of them is
/// the device's root.
pub proof fn law_parents_then_name_give_file(s: WebDavSettingsView, remote_path: Seq<char>)
    ensures
        ({
            let fs = segments_of(remote_path);
            let parents = parent_collections_spec(s, remote_path);
            &&& fs.len() >= 1 ==> parents.push(fs.last()) == file_segments_spec(s, remote_path)
            &&& fs.len() == 0 ==> parents == file_segments_spec(s, remote_path)
            &&& parents.take(remote_root_spec(s).len() as int) == remote_root_spec(s)
        }),
{
    let fs = segments_of(remote_path);
    let root = remote_root_spec(s);
    let parents = parent_collections_spec(s, remote_path);
    if fs.len() > 1 {
        assert(fs.take(fs.len() - 1).push(fs.last()) =~= fs);
        assert(parents.push(fs.last()) =~= root + fs);
    } else if fs.len() == 1 {
        assert(parents =~= root);
        assert(root.push(fs.last()) =~= root + fs);
    } else {
        assert(parents =~= root);
        assert(root + fs =~= root);
    }
    assert(parents.take(root.len() as int) =~= root);
}
} // verus!
