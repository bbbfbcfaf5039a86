//! Entries of a remote directory listing (a WebDAV `PROPFIND` of depth 1).
use vstd::prelude::*;
use crate::clock::{http_date_instant, parse_http_date, rfc3339_text};
use crate::models::{copy_opt, opt_view};
use crate::paths::{relative_path_spec, relative_remote_path};
use crate::sorting::{is_stable_sort, orders_stably, stable_order, SortKey, SortKeyView};
use crate::text::{
    blank, chars_of, is_blank, parse_u64, parse_u64_spec, trim_class, trim_of, CharClass,
};
use crate::urls::{extract_href_path, href_path_spec, url_path, url_path_of};

verus! {

/// One `response` element of a listing, with the properties of its first `propstat`.
pub struct ListingResponse {
    pub href: String,
    pub display_name: Option<String>,
    pub content_length: Option<String>,
    pub last_modified: Option<String>,
    /// The resource type names a collection.
    pub is_collection: bool,
}

pub struct ListingResponseView {
    pub href: Seq<char>,
    pub display_name: Option<Seq<char>>,
    pub content_length: Option<Seq<char>>,
    pub last_modified: Option<Seq<char>>,
    pub is_collection: bool,
}

impl View for ListingResponse {
    type V = ListingResponseView;

    open spec fn view(&self) -> ListingResponseView {
        ListingResponseView {
            href: self.href@,
            display_name: opt_view(self.display_name),
            content_length: opt_view(self.content_length),
            last_modified: opt_view(self.last_modified),
            is_collection: self.is_collection,
        }
    }
}

/// An entry shown in the remote file browser.
pub struct RemoteBrowserEntry {
    pub name: String,
    pub path: String,
    pub is_dir: bool,
    pub size: Option<u64>,
    pub modified_at: Option<String>,
}

pub struct RemoteBrowserEntryView {
    pub name: Seq<char>,
    pub path: Seq<char>,
    pub is_dir: bool,
    pub size: Option<u64>,
    pub modified_at: Option<Seq<char>>,
}

impl View for RemoteBrowserEntry {
    type V = RemoteBrowserEntryView;

    open spec fn view(&self) -> RemoteBrowserEntryView {
        RemoteBrowserEntryView {
            name: self.name@,
            path: self.path@,
            is_dir: self.is_dir,
            size: self.size,
            modified_at: opt_view(self.modified_at),
        }
    }
}

impl Clone for RemoteBrowserEntry {
    fn clone(&self) -> (r: Self)
        ensures
            r@ == self@,
    {
        RemoteBrowserEntry {
            name: self.name.clone(),
            path: self.path.clone(),
            is_dir: self.is_dir,
            size: self.size,
            modified_at: copy_opt(&self.modified_at),
        }
    }
}

pub open spec fn entry_views(v: Seq<RemoteBrowserEntry>) -> Seq<RemoteBrowserEntryView> {
    v.map_values(|e: RemoteBrowserEntry| e@)
}

/// `s` without trailing slashes.
pub open spec fn trim_end_slashes(s: Seq<char>) -> Seq<char> {
    crate::text::trim_end_of(s, CharClass::Exactly('/'))
}

/// `s` without surrounding slashes.
pub open spec fn trim_slashes(s: Seq<char>) -> Seq<char> {
    trim_of(s, CharClass::Exactly('/'))
}

/// The entry a response describes, listing the directory whose URL path is `current_path` and
/// whose path below the root is `remote_path`; `None` for the directory itself and for anything
/// not directly inside it.
pub open spec fn browser_entry_spec(
    r: ListingResponseView,
    current_path: Seq<char>,
    remote_path: Seq<char>,
) -> Option<RemoteBrowserEntryView> {
    let href_path = href_path_spec(r.href);
    let relative = relative_path_spec(href_path, current_path);
    if trim_end_slashes(href_path) == trim_end_slashes(current_path) {
        None
    } else if relative.len() == 0 {
        None
    } else if trim_end_slashes(relative).contains('/') {
        None
    } else {
        Some(
            RemoteBrowserEntryView {
                name: match r.display_name {
                    Some(n) => if is_blank(n) {
                        relative
                    } else {
                        n
                    },
                    None => relative,
                },
                path: if is_blank(remote_path) {
                    trim_end_slashes(relative)
                } else {
                    trim_slashes(remote_path) + "/"@ + trim_end_slashes(relative)
                },
                is_dir: r.is_collection || (href_path.len() > 0 && href_path.last() == '/'),
                size: match r.content_length {
                    Some(c) => parse_u64_spec(c),
                    None => None,
                },
                modified_at: match r.last_modified {
                    Some(m) => match http_date_instant(m) {
                        Some(t) => Some(rfc3339_text(t)),
                        None => None,
                    },
                    None => None,
                },
            },
        )
    }
}

/// The entries of a listing, in response order.
pub open spec fn browser_entries_spec(
    rs: Seq<ListingResponseView>,
    current_path: Seq<char>,
    remote_path: Seq<char>,
) -> Seq<RemoteBrowserEntryView>
    decreases rs.len(),
{
    if rs.len() == 0 {
        Seq::empty()
    } else {
        let prefix = browser_entries_spec(rs.drop_last(), current_path, remote_path);
        match browser_entry_spec(rs.last(), current_path, remote_path) {
            Some(e) => prefix.push(e),
            None => prefix,
        }
    }
}

/// Directories first, then by name.
pub open spec fn entry_key() -> spec_fn(RemoteBrowserEntryView) -> SortKeyView {
    |e: RemoteBrowserEntryView| SortKeyView { rank: if e.is_dir { 0 } else { 1 }, text: e.name }
}

fn contains_char(s: &Vec<char>, c: char) -> (b: bool)
    ensures
        b == s@.contains(c),
{
    let mut i: usize = 0;
    while i < s.len()
        invariant
            i <= s@.len(),
            forall|j: int| 0 <= j < i ==> s@[j] != c,
        decreases s@.len() - i,
    {
        if s[i] == c {
            assert(s@[i as int] == c);
            return true;
        }
        i = i + 1;
    }
    false
}

/// The entry a response describes (see `browser_entry_spec`).
pub fn browser_entry(r: &ListingResponse, current_path: &str, remote_path: &str) -> (e: Option<RemoteBrowserEntry>)
    ensures
        match e {
            Some(x) => browser_entry_spec(r@, current_path@, remote_path@) == Some(x@),
            None => browser_entry_spec(r@, current_path@, remote_path@) is None,
        },
{
    let slash = CharClass::Exactly('/');
    let href_path = extract_href_path(r.href.as_str());
    let a = crate::text::trim_end_class(href_path.as_str(), slash);
    let b = crate::text::trim_end_class(current_path, slash);
    if a == b {
        return None;
    }
    let relative = relative_remote_path(href_path.as_str(), current_path);
    if relative.as_str().is_empty() {
        return None;
    }
    let rel_trimmed = crate::text::trim_end_class(relative.as_str(), slash);
    if contains_char(&chars_of(rel_trimmed.as_str()), '/') {
        return None;
    }
    let name = match &r.display_name {
        Some(n) => if blank(n.as_str()) {
            relative.clone()
        } else {
            n.clone()
        },
        None => relative.clone(),
    };
    let path = if blank(remote_path) {
        rel_trimmed
    } else {
        trim_class(remote_path, slash).concat("/").concat(rel_trimmed.as_str())
    };
    let hv = chars_of(href_path.as_str());
    let ends_with_slash = hv.len() > 0 && hv[hv.len() - 1] == '/';
    let size = match &r.content_length {
        Some(c) => parse_u64(c.as_str()),
        None => None,
    };
    let modified_at = match &r.last_modified {
        Some(m) => match parse_http_date(m.as_str()) {
            Some(d) => Some(d.rfc3339),
            None => None,
        },
        None => None,
    };
    Some(
        RemoteBrowserEntry {
            name,
            path,
            is_dir: r.is_collection || ends_with_slash,
            size,
            modified_at,
        },
    )
}

/// The entries of a listing of the directory whose URL path is `current_path` and whose path
/// below the root is `remote_path`: one per response directly inside the directory, directories
/// first, then stably by name.
pub fn browser_entries(responses: &Vec<ListingResponse>, current_path: &str, remote_path: &str) -> (r: Vec<
    RemoteBrowserEntry,
>)
    ensures
        is_stable_sort(
            browser_entries_spec(
                responses@.map_values(|x: ListingResponse| x@),
                current_path@,
                remote_path@,
            ),
            entry_views(r@),
            entry_key(),
        ),
{
    let ghost rs = responses@.map_values(|x: ListingResponse| x@);
    let mut entries: Vec<RemoteBrowserEntry> = Vec::new();
    let mut keys: Vec<SortKey> = Vec::new();
    let mut i: usize = 0;
    while i < responses.len()
        invariant
            rs == responses@.map_values(|x: ListingResponse| x@),
            i <= responses@.len(),
            entry_views(entries@) == browser_entries_spec(rs.take(i as int), current_path@, remote_path@),
            keys@.len() == entries@.len(),
            forall|j: int| 0 <= j < keys@.len() ==> (#[trigger] keys@[j])@ == (entry_key())(entries@[j]@),
        decreases responses@.len() - i,
    {
        proof {
            assert(rs.take(i + 1).drop_last() =~= rs.take(i as int));
            assert(rs.take(i + 1).last() == responses@[i as int]@);
        }
        match browser_entry(&responses[i], current_path, remote_path) {
            Some(e) => {
                let k = SortKey { rank: if e.is_dir { 0 } else { 1 }, text: chars_of(e.name.as_str()) };
                let ghost ev = e@;
                entries.push(e);
                keys.push(k);
                assert(entry_views(entries@) =~= entry_views(entries@).drop_last().push(ev));
            },
            None => {},
        }
        i = i + 1;
    }
    proof {
        assert(rs.take(responses@.len() as int) =~= rs);
    }
    let ghost want = entry_views(entries@);
    let order = stable_order(&keys);
    let ghost perm = order@.map_values(|i: usize| i as int);
    proof {
        assert(keys@.map_values(|k: SortKey| k@) =~= want.map_values(entry_key()));
    }
    let n = entries.len();
    let mut r: Vec<RemoteBrowserEntry> = Vec::new();
    let mut j: usize = 0;
    while j < n
        invariant
            n == entries@.len() == order@.len() == want.len() == perm.len(),
            want == entry_views(entries@),
            perm == order@.map_values(|i: usize| i as int),
            orders_stably(want.map_values(entry_key()), perm),
            j <= n,
            r@.len() == j,
            forall|a: int| 0 <= a < j ==> (#[trigger] r@[a])@ == want[perm[a]],
        decreases n - j,
    {
        let idx = order[j];
        proof {
            assert(perm[j as int] == idx as int);
        }
        let e = entries[idx].clone();
        r.push(e);
        j = j + 1;
    }
    proof {
        let out = entry_views(r@);
        assert forall|a: int| 0 <= a < out.len() implies #[trigger] out[a] == want[perm[a]] by {
            assert(out[a] == r@[a]@);
        }
    }
    r
}

/// The entries of a listing of the directory at `collection_url`, whose path below the root is
/// `remote_path`: the URL's path, without trailing slashes, is the directory's path; the error
/// is the URL's parse error.
pub fn listing_entries(collection_url: &str, responses: &Vec<ListingResponse>, remote_path: &str) -> (r: Result<
    Vec<RemoteBrowserEntry>,
    String,
>)
    ensures
        match url_path_of(collection_url@) {
            Ok(p) => r matches Ok(v) && is_stable_sort(
                browser_entries_spec(
                    responses@.map_values(|x: ListingResponse| x@),
                    trim_end_slashes(p),
                    remote_path@,
                ),
                entry_views(v@),
                entry_key(),
            ),
            Err(e) => r matches Err(m) && m@ == e,
        },
{
    match url_path(collection_url) {
        Ok(p) => {
            let current = crate::text::trim_end_class(p.as_str(), CharClass::Exactly('/'));
            Ok(browser_entries(responses, current.as_str(), remote_path))
        },
        Err(e) => Err(e),
    }
}


/// A listed entry is named by the server's display name when it gives a non-blank one, and by
/// its path relative to the listed directory otherwise.
pub proof fn law_entry_named_by_display_name(
    r: ListingResponseView,
    current_path: Seq<char>,
    remote_path: Seq<char>,
)
    ensures
        browser_entry_spec(r, current_path, remote_path) matches Some(e) ==> {
            &&& (r.display_name is Some && !is_blank(r.display_name->0)) ==> e.name
                == r.display_name->0
            &&& !(r.display_name is Some && !is_blank(r.display_name->0)) ==> e.name == relative_path_spec(
                href_path_spec(r.href),
                current_path,
            )
        },
{
}
} // verus!
