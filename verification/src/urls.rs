//! URLs of remote files and directories.
use vstd::prelude::*;
use crate::models::string_views;
use crate::paths::split_on;
use crate::text::{push_char, trim, trim_ws};

verus! {

/// The bytes that are percent-encoded in a path segment, besides non-ASCII bytes.
#[derive(Clone, Copy, PartialEq, Eq, Structural, Debug)]
pub enum EncodeSet {
    /// Controls, space, `"`, `#`, `%`, `<`, `>`, `?`, `` ` ``, `{` and `}`.
    PathSegment,
    /// Every byte but ASCII letters and digits.
    NonAlphanumeric,
}

/// Whether an ASCII byte is in the set.
pub open spec fn in_set(b: u8, set: EncodeSet) -> bool {
    match set {
        EncodeSet::PathSegment => b < 0x20 || b == 0x7f || b == 0x20 || b == 0x22 || b == 0x23
            || b == 0x25 || b == 0x3c || b == 0x3e || b == 0x3f || b == 0x60 || b == 0x7b || b
            == 0x7d,
        EncodeSet::NonAlphanumeric => !((0x30 <= b && b <= 0x39) || (0x41 <= b && b <= 0x5a) || (
        0x61 <= b && b <= 0x7a)),
    }
}

/// Upper-case hexadecimal digit of `d < 16`.
pub open spec fn hex_upper(d: u8) -> char {
    if d < 10 {
        ((d + 0x30) as u8) as char
    } else {
        ((d + 0x37) as u8) as char
    }
}

/// What one byte becomes: `%XX` when it is non-ASCII or in the set, else the byte's character.
pub open spec fn encode_byte(b: u8, set: EncodeSet) -> Seq<char> {
    if b >= 0x80 || in_set(b, set) {
        seq!['%', hex_upper(b / 16), hex_upper(b % 16)]
    } else {
        seq![b as char]
    }
}

/// Percent-encoding of `bytes` (`percent_encoding::percent_encode`).
pub open spec fn percent_encoded(bytes: Seq<u8>, set: EncodeSet) -> Seq<char>
    decreases bytes.len(),
{
    if bytes.len() == 0 {
        Seq::empty()
    } else {
        percent_encoded(bytes.drop_last(), set) + encode_byte(bytes.last(), set)
    }
}

fn hex_digit(d: u8) -> (c: char)
    requires
        d < 16,
    ensures
        c == hex_upper(d),
{
    if d < 10 {
        (d + 0x30) as char
    } else {
        (d + 0x37) as char
    }
}

fn byte_in_set(b: u8, set: EncodeSet) -> (r: bool)
    ensures
        r == in_set(b, set),
{
    match set {
        EncodeSet::PathSegment => b < 0x20 || b == 0x7f || b == 0x20 || b == 0x22 || b == 0x23
            || b == 0x25 || b == 0x3c || b == 0x3e || b == 0x3f || b == 0x60 || b == 0x7b || b
            == 0x7d,
        EncodeSet::NonAlphanumeric => !((0x30 <= b && b <= 0x39) || (0x41 <= b && b <= 0x5a) || (
        0x61 <= b && b <= 0x7a)),
    }
}

/// Percent-encodes the UTF-8 bytes of `s` (`percent_encoding::utf8_percent_encode`).
pub fn percent_encode_str(s: &str, set: EncodeSet) -> (r: String)
    ensures
        r@ == percent_encoded(vstd::utf8::encode_utf8(s@), set),
{
    let bytes = s.as_bytes();
    let mut r = String::new();
    let mut i: usize = 0;
    while i < bytes.len()
        invariant
            i <= bytes@.len(),
            bytes@ == vstd::utf8::encode_utf8(s@),
            r@ == percent_encoded(bytes@.take(i as int), set),
        decreases bytes@.len() - i,
    {
        let b = bytes[i];
        let ghost before = r@;
        if b >= 0x80 || byte_in_set(b, set) {
            push_char(&mut r, '%');
            push_char(&mut r, hex_digit(b / 16));
            push_char(&mut r, hex_digit(b % 16));
        } else {
            push_char(&mut r, b as char);
        }
        proof {
            assert(bytes@.take(i + 1).drop_last() =~= bytes@.take(i as int));
            assert(r@ =~= before + encode_byte(b, set));
        }
        i = i + 1;
    }
    assert(bytes@.take(bytes@.len() as int) =~= bytes@);
    r
}

/// The pieces joined with `sep` between them (`[T]::join`).
pub open spec fn join_with(pieces: Seq<Seq<char>>, sep: Seq<char>) -> Seq<char>
    decreases pieces.len(),
{
    if pieces.len() == 0 {
        Seq::empty()
    } else if pieces.len() == 1 {
        pieces[0]
    } else {
        join_with(pieces.drop_last(), sep) + sep + pieces.last()
    }
}

/// The path of the URL that `text` parses to, or the parse error's message.
pub uninterp spec fn url_path_of(text: Seq<char>) -> Result<Seq<char>, Seq<char>>;

/// Calls `url::Url::parse` and `Url::path`.  Trusted: the result is the named path of the
/// parsed URL, or the parse error's message.
#[verifier::external_body]
pub(crate) fn url_path(text: &str) -> (r: Result<String, String>)
    ensures
        match r {
            Ok(p) => url_path_of(text@) == Ok::<Seq<char>, Seq<char>>(p@),
            Err(e) => url_path_of(text@) == Err::<Seq<char>, Seq<char>>(e@),
        },
{
    match url::Url::parse(text) {
        Ok(u) => Ok(u.path().to_string()),
        Err(e) => Err(e.to_string()),
    }
}

/// The text of the URL that `text` parses to, once its path is set to `path`.
pub uninterp spec fn url_with_path_of(text: Seq<char>, path: Seq<char>) -> Seq<char>;

/// Calls `url::Url::parse`, `Url::set_path` and `Url::as_str`.  Trusted: the result is the
/// named text.  The text must parse.
#[verifier::external_body]
pub(crate) fn url_with_path(text: &str, path: &str) -> (r: String)
    requires
        url_path_of(text@) is Ok,
    ensures
        r@ == url_with_path_of(text@, path@),
{
    let mut u = url::Url::parse(text).unwrap();
    u.set_path(path);
    u.as_str().to_string()
}

/// A piece is kept when it is not empty.
pub open spec fn nonempty_piece() -> spec_fn(Seq<char>) -> bool {
    |p: Seq<char>| p.len() > 0
}

/// The non-empty pieces of a URL path split at `/`.
pub open spec fn path_pieces(path: Seq<char>) -> Seq<Seq<char>> {
    split_on(path, '/').filter(nonempty_piece())
}

/// The non-empty pieces of `input` split at `/`.
pub fn split_path_pieces(input: &str) -> (r: Vec<String>)
    ensures
        string_views(r@) == path_pieces(input@),
{
    let v = crate::text::chars_of(input);
    let n = v.len();
    let mut done: Vec<String> = Vec::new();
    let mut cur: Vec<char> = Vec::new();
    let mut i: usize = 0;
    while i < n
        invariant
            n == v@.len(),
            v@ == input@,
            i <= n,
            string_views(done@) == split_on(input@.take(i as int), '/').drop_last().filter(
                nonempty_piece(),
            ),
            cur@ == split_on(input@.take(i as int), '/').last(),
        decreases n - i,
    {
        let c = v[i];
        let ghost pre = input@.take(i as int);
        let ghost parts = split_on(pre, '/');
        proof {
            crate::paths::lemma_split_on_len(pre, '/');
            assert(input@.take(i + 1).drop_last() =~= pre);
        }
        if c == '/' {
            proof {
                assert(parts =~= parts.drop_last().push(parts.last()));
                parts.drop_last().lemma_filter_push(parts.last(), nonempty_piece());
                assert(split_on(input@.take(i + 1), '/').drop_last() =~= parts);
            }
            if cur.len() > 0 {
                let s = crate::text::string_of(&cur);
                done.push(s);
                assert(string_views(done@) =~= string_views(done@).drop_last().push(s@));
            }
            cur = Vec::new();
            proof {
                assert(cur@ =~= Seq::<char>::empty());
            }
        } else {
            cur.push(c);
            proof {
                assert(split_on(input@.take(i + 1), '/').drop_last() =~= parts.drop_last());
            }
        }
        i = i + 1;
    }
    let ghost parts = split_on(input@.take(n as int), '/');
    proof {
        crate::paths::lemma_split_on_len(input@.take(n as int), '/');
        assert(input@.take(n as int) =~= input@);
        assert(parts =~= parts.drop_last().push(parts.last()));
        parts.drop_last().lemma_filter_push(parts.last(), nonempty_piece());
    }
    if cur.len() > 0 {
        let s = crate::text::string_of(&cur);
        done.push(s);
        assert(string_views(done@) =~= string_views(done@).drop_last().push(s@));
    }
    done
}

/// The URL for `extra` segments below the path of `base_url`: every segment percent-encoded
/// with `set`, joined with `/` after a leading `/`.
pub open spec fn build_url_spec(base_url: Seq<char>, extra: Seq<Seq<char>>, set: EncodeSet) -> Result<
    Seq<char>,
    Seq<char>,
> {
    let base = trim_ws(base_url);
    match url_path_of(base) {
        Err(e) => Err(e),
        Ok(p) => {
            let all = path_pieces(p) + extra;
            let encoded = all.map_values(|seg: Seq<char>| percent_encoded(vstd::utf8::encode_utf8(seg), set));
            Ok(url_with_path_of(base, "/"@ + join_with(encoded, "/"@)))
        },
    }
}

/// The pieces joined with `/`.
pub fn join_slash(pieces: &Vec<String>) -> (r: String)
    ensures
        r@ == join_with(string_views(pieces@), "/"@),
{
    let mut r = String::new();
    let mut i: usize = 0;
    while i < pieces.len()
        invariant
            i <= pieces@.len(),
            r@ == join_with(string_views(pieces@).take(i as int), "/"@),
        decreases pieces@.len() - i,
    {
        let ghost before = string_views(pieces@).take(i as int);
        if i == 0 {
            r = pieces[0].clone();
            assert(string_views(pieces@).take(1) =~= seq![pieces@[0]@]);
        } else {
            r = r.concat("/").concat(pieces[i].as_str());
            assert(string_views(pieces@).take(i + 1).drop_last() =~= before);
        }
        i = i + 1;
    }
    assert(string_views(pieces@).take(pieces@.len() as int) =~= string_views(pieces@));
    r
}

/// The URL for `extra` segments below the path of `base_url` (trimmed): the segments of the
/// base path and `extra`, each percent-encoded with `set`, joined with `/`.
pub fn build_url_with_segments(base_url: &str, extra: &Vec<String>, set: EncodeSet) -> (r: Result<String, String>)
    ensures
        match r {
            Ok(u) => build_url_spec(base_url@, string_views(extra@), set) == Ok::<Seq<char>, Seq<char>>(u@),
            Err(e) => build_url_spec(base_url@, string_views(extra@), set) == Err::<Seq<char>, Seq<char>>(e@),
        },
{
    let base = trim(base_url);
    let path = match url_path(base.as_str()) {
        Ok(p) => p,
        Err(e) => return Err(e),
    };
    let pieces = split_path_pieces(path.as_str());
    let ghost all = string_views(pieces@) + string_views(extra@);
    let ghost want = all.map_values(|seg: Seq<char>| percent_encoded(vstd::utf8::encode_utf8(seg), set));
    let np = pieces.len();
    let mut encoded: Vec<String> = Vec::new();
    let mut i: usize = 0;
    while i < np
        invariant
            np == pieces@.len(),
            all == string_views(pieces@) + string_views(extra@),
            want == all.map_values(|seg: Seq<char>| percent_encoded(vstd::utf8::encode_utf8(seg), set)),
            i <= np,
            encoded@.len() == i,
            string_views(encoded@) == want.take(i as int),
        decreases np - i,
    {
        let e = percent_encode_str(pieces[i].as_str(), set);
        assert(all[i as int] == pieces@[i as int]@);
        encoded.push(e);
        i = i + 1;
        assert(string_views(encoded@) =~= want.take(i as int));
    }
    let mut j: usize = 0;
    while j < extra.len()
        invariant
            np == pieces@.len(),
            all == string_views(pieces@) + string_views(extra@),
            want == all.map_values(|seg: Seq<char>| percent_encoded(vstd::utf8::encode_utf8(seg), set)),
            j <= extra@.len(),
            encoded@.len() == np + j,
            string_views(encoded@) == want.take(np + j),
        decreases extra@.len() - j,
    {
        let e = percent_encode_str(extra[j].as_str(), set);
        assert(all[np + j] == extra@[j as int]@);
        encoded.push(e);
        j = j + 1;
        assert(string_views(encoded@) =~= want.take(np + j));
    }
    assert(want.take(np + j) =~= want);
    let joined = String::from_str("/").concat(join_slash(&encoded).as_str());
    Ok(url_with_path(base.as_str(), joined.as_str()))
}

/// The path of an `href` from a directory listing: the URL's path when it is a full URL, else
/// the text itself.
pub open spec fn href_path_spec(href: Seq<char>) -> Seq<char> {
    match url_path_of(href) {
        Ok(p) => p,
        Err(_) => href,
    }
}

/// The path of an `href` from a directory listing.
pub fn extract_href_path(href: &str) -> (r: String)
    ensures
        r@ == href_path_spec(href@),
{
    match url_path(href) {
        Ok(p) => p,
        Err(_) => String::from_str(href),
    }
}

} // verus!

verus! {

/// The URL of a file's remote location.
pub fn file_url(settings: &crate::models::WebDavSettings, remote_path: &str) -> (r: Result<String, String>)
    ensures
        match r {
            Ok(u) => build_url_spec(
                settings@.base_url,
                crate::paths::file_segments_spec(settings@, remote_path@),
                EncodeSet::PathSegment,
            ) == Ok::<Seq<char>, Seq<char>>(u@),
            Err(e) => build_url_spec(
                settings@.base_url,
                crate::paths::file_segments_spec(settings@, remote_path@),
                EncodeSet::PathSegment,
            ) == Err::<Seq<char>, Seq<char>>(e@),
        },
{
    let segments = crate::paths::file_segments(settings, remote_path);
    build_url_with_segments(settings.base_url.as_str(), &segments, EncodeSet::PathSegment)
}

/// The URL of a remote directory given by its segments.
pub fn collection_url(settings: &crate::models::WebDavSettings, segments: &Vec<String>) -> (r: Result<String, String>)
    ensures
        match r {
            Ok(u) => build_url_spec(settings@.base_url, string_views(segments@), EncodeSet::PathSegment)
                == Ok::<Seq<char>, Seq<char>>(u@),
            Err(e) => build_url_spec(settings@.base_url, string_views(segments@), EncodeSet::PathSegment)
                == Err::<Seq<char>, Seq<char>>(e@),
        },
{
    build_url_with_segments(settings.base_url.as_str(), segments, EncodeSet::PathSegment)
}

/// The URL of a file directly below the remote directory, with every byte but letters and
/// digits percent-encoded.
pub fn plain_file_url(base_url: &str, remote_dir: &str, remote_path: &str) -> (r: Result<String, String>)
    ensures
        match r {
            Ok(u) => build_url_spec(
                base_url@,
                crate::paths::segments_of(remote_dir@) + crate::paths::segments_of(remote_path@),
                EncodeSet::NonAlphanumeric,
            ) == Ok::<Seq<char>, Seq<char>>(u@),
            Err(e) => build_url_spec(
                base_url@,
                crate::paths::segments_of(remote_dir@) + crate::paths::segments_of(remote_path@),
                EncodeSet::NonAlphanumeric,
            ) == Err::<Seq<char>, Seq<char>>(e@),
        },
{
    let segments = crate::paths::join_remote_segments(remote_dir, remote_path);
    build_url_with_segments(base_url, &segments, EncodeSet::NonAlphanumeric)
}

} // verus!
