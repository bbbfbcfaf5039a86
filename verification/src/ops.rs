//! Checks and target paths of the operations on remote files.
use vstd::prelude::*;
use crate::models::{AppConfig, FileMapping, FileMappingView};
use crate::text::{blank, is_blank, slashes, to_forward_slashes, trim, trim_class, trim_of, trim_ws, CharClass};

verus! {

/// The message when the WebDAV settings are incomplete.
pub open spec fn settings_incomplete() -> Seq<char> {
    "请先完成 WebDAV 设置"@
}

/// Fails unless the remote root can be prepared.
pub fn require_remote_root(config: &AppConfig) -> (r: Result<(), String>)
    ensures
        (r is Ok) == crate::config::can_prepare_remote_root_spec(config@),
        r matches Err(e) ==> e@ == settings_incomplete(),
{
    if crate::config::can_prepare_remote_root(config) {
        Ok(())
    } else {
        Err(String::from_str("请先完成 WebDAV 设置"))
    }
}

/// `s` without surrounding slashes.
pub open spec fn without_slashes(s: Seq<char>) -> Seq<char> {
    trim_of(s, CharClass::Exactly('/'))
}

/// Where an uploaded file goes: into the given directory when one is given and not blank,
/// else directly under the root.
pub open spec fn upload_target_spec(file_name: Seq<char>, dir: Option<Seq<char>>) -> Seq<char> {
    match dir {
        Some(d) => if !is_blank(d) {
            without_slashes(d) + "/"@ + file_name
        } else {
            file_name
        },
        None => file_name,
    }
}

/// Where an uploaded file goes.
pub fn upload_target_path(file_name: &str, dir: &Option<String>) -> (r: String)
    ensures
        r@ == upload_target_spec(file_name@, crate::models::opt_view(*dir)),
{
    match dir {
        Some(d) => if !blank(d.as_str()) {
            trim_class(d.as_str(), CharClass::Exactly('/')).concat("/").concat(file_name)
        } else {
            String::from_str(file_name)
        },
        None => String::from_str(file_name),
    }
}

/// Where a renamed entry goes: `new_name` (trimmed) beside the entry, whose parent directory is
/// `parent` (as the platform's path parser reads it).
pub open spec fn rename_target_spec(parent: Option<Seq<char>>, new_name: Seq<char>) -> Result<Seq<char>, Seq<char>> {
    let name = trim_ws(new_name);
    if name.len() == 0 {
        Err("新名称不能为空"@)
    } else {
        let p = match parent {
            Some(p) => slashes(p),
            None => Seq::empty(),
        };
        if p.len() == 0 || p == "."@ {
            Ok(name)
        } else {
            Ok(without_slashes(p) + "/"@ + name)
        }
    }
}

/// Where a renamed entry goes.
pub fn rename_target_path(parent: &Option<String>, new_name: &str) -> (r: Result<String, String>)
    ensures
        match r {
            Ok(t) => rename_target_spec(crate::models::opt_view(*parent), new_name@) == Ok::<Seq<char>, Seq<char>>(t@),
            Err(e) => rename_target_spec(crate::models::opt_view(*parent), new_name@) == Err::<Seq<char>, Seq<char>>(e@),
        },
{
    let name = trim(new_name);
    if name.as_str().is_empty() {
        return Err(String::from_str("新名称不能为空"));
    }
    let p = match parent {
        Some(p) => to_forward_slashes(p.as_str()),
        None => String::new(),
    };
    if p.as_str().is_empty() || p == String::from_str(".") {
        Ok(name)
    } else {
        Ok(trim_class(p.as_str(), CharClass::Exactly('/')).concat("/").concat(name.as_str()))
    }
}

/// Where a new remote directory goes: `name` (trimmed of white space, then of slashes) inside
/// the given directory when one is given and not blank, else directly under the root.
pub open spec fn new_directory_spec(dir: Option<Seq<char>>, name: Seq<char>) -> Result<Seq<char>, Seq<char>> {
    let n = without_slashes(trim_ws(name));
    if n.len() == 0 {
        Err("目录名称不能为空"@)
    } else {
        Ok(upload_target_spec(n, dir))
    }
}

/// Where a new remote directory goes.
pub fn new_directory_path(dir: &Option<String>, name: &str) -> (r: Result<String, String>)
    ensures
        match r {
            Ok(t) => new_directory_spec(crate::models::opt_view(*dir), name@) == Ok::<Seq<char>, Seq<char>>(t@),
            Err(e) => new_directory_spec(crate::models::opt_view(*dir), name@) == Err::<Seq<char>, Seq<char>>(e@),
        },
{
    let n = trim_class(trim(name).as_str(), CharClass::Exactly('/'));
    if n.as_str().is_empty() {
        return Err(String::from_str("目录名称不能为空"));
    }
    Ok(upload_target_path(n.as_str(), dir))
}

/// Fails when a remote entry exists and overwriting was not confirmed.
pub fn check_overwrite(present: bool, overwrite: bool) -> (r: Result<(), String>)
    ensures
        (r is Ok) == (!present || overwrite),
        r matches Err(e) ==> e@ == "远端已存在同名文件，请确认是否覆盖"@,
{
    if present && !overwrite {
        Err(String::from_str("远端已存在同名文件，请确认是否覆盖"))
    } else {
        Ok(())
    }
}

/// The `Overwrite` header of a WebDAV `MOVE`.
pub fn overwrite_header(overwrite: bool) -> (r: &'static str)
    ensures
        r@ == if overwrite { "T"@ } else { "F"@ },
{
    if overwrite {
        "T"
    } else {
        "F"
    }
}

/// An HTTP status that `reqwest`'s `error_for_status` turns into an error: 4xx or 5xx.
pub open spec fn is_error_status(code: u16) -> bool {
    400 <= code && code <= 599
}

/// Whether `error_for_status` fails for `code`.
pub fn error_status(code: u16) -> (b: bool)
    ensures
        b == is_error_status(code),
{
    400 <= code && code <= 599
}

/// How a download answer is read.
#[derive(Clone, Copy, PartialEq, Eq, Structural, Debug)]
pub enum FetchStatus {
    /// 404: the remote file does not exist.
    Missing,
    /// Another error status.
    Failed,
    /// The body is the file.
    Found,
}

/// How a download answer with status `code` is read.
pub fn classify_fetch_status(code: u16) -> (r: FetchStatus)
    ensures
        r == (if code == 404 {
            FetchStatus::Missing
        } else if is_error_status(code) {
            FetchStatus::Failed
        } else {
            FetchStatus::Found
        }),
{
    if code == 404 {
        FetchStatus::Missing
    } else if error_status(code) {
        FetchStatus::Failed
    } else {
        FetchStatus::Found
    }
}

/// Whether an `MKCOL` answer means the directory now exists: 201, 200, 405 (already there), 301,
/// 302, and, when `conflict_ok`, 409.
pub open spec fn mkcol_accepts_spec(code: u16, conflict_ok: bool) -> bool {
    code == 201 || code == 200 || code == 405 || code == 301 || code == 302 || (conflict_ok && code
        == 409)
}

/// Whether an `MKCOL` answer means the directory now exists.
pub fn mkcol_accepts(code: u16, conflict_ok: bool) -> (b: bool)
    ensures
        b == mkcol_accepts_spec(code, conflict_ok),
{
    code == 201 || code == 200 || code == 405 || code == 301 || code == 302 || (conflict_ok && code
        == 409)
}

/// A file over the size limit.
pub struct FileTooLarge {
    pub display_name: String,
    pub size_bytes: u64,
}

/// Fails for a file larger than `MAX_SYNC_FILE_BYTES`.
pub fn validate_standalone_file_size(display_name: &str, size_bytes: u64) -> (r: Result<(), FileTooLarge>)
    ensures
        (r is Ok) == (size_bytes <= crate::readiness::MAX_SYNC_FILE_BYTES),
        r matches Err(e) ==> e.display_name@ == display_name@ && e.size_bytes == size_bytes,
{
    if size_bytes > crate::readiness::MAX_SYNC_FILE_BYTES {
        Err(FileTooLarge { display_name: String::from_str(display_name), size_bytes })
    } else {
        Ok(())
    }
}

/// How a mapping is named in messages: its name, or its local path when it has none.
pub open spec fn display_name_spec(m: FileMappingView) -> Seq<char> {
    if m.name.len() == 0 {
        m.local_path
    } else {
        m.name
    }
}

/// Fails when the local file of `mapping` is known to be larger than the limit.
pub fn validate_local_file_size(mapping: &FileMapping, size_bytes: Option<u64>) -> (r: Result<(), FileTooLarge>)
    ensures
        (r is Ok) == (size_bytes matches Some(s) ==> s <= crate::readiness::MAX_SYNC_FILE_BYTES),
        r matches Err(e) ==> e.display_name@ == display_name_spec(mapping@) && Some(e.size_bytes)
            == size_bytes,
{
    match size_bytes {
        Some(s) => {
            let name = if mapping.name.as_str().is_empty() {
                mapping.local_path.as_str()
            } else {
                mapping.name.as_str()
            };
            validate_standalone_file_size(name, s)
        },
        None => Ok(()),
    }
}

/// The name of a conflict copy: the file's stem (or `config`), `.remote-conflict-`, the time
/// stamp, and the file's extension when it has a non-empty one.
pub open spec fn conflict_file_name_spec(stem: Option<Seq<char>>, extension: Option<Seq<char>>, stamp: Seq<char>) -> Seq<char> {
    let s = match stem {
        Some(s) => s,
        None => "config"@,
    };
    let e = match extension {
        Some(e) => e,
        None => Seq::empty(),
    };
    if e.len() == 0 {
        s + ".remote-conflict-"@ + stamp
    } else {
        s + ".remote-conflict-"@ + stamp + "."@ + e
    }
}

/// The name of a conflict copy.
pub fn conflict_file_name(stem: &Option<String>, extension: &Option<String>, stamp: &str) -> (r: String)
    ensures
        r@ == conflict_file_name_spec(crate::models::opt_view(*stem), crate::models::opt_view(*extension), stamp@),
{
    let s = match stem {
        Some(s) => s.clone(),
        None => String::from_str("config"),
    };
    let base = s.concat(".remote-conflict-").concat(stamp);
    match extension {
        Some(e) => if e.as_str().is_empty() {
            base
        } else {
            base.concat(".").concat(e.as_str())
        },
        None => base,
    }
}

/// The name of a conflict copy stamped with the current time (as `%Y%m%d-%H%M%S`).
pub fn conflict_copy_name(stem: &Option<String>, extension: &Option<String>) -> (r: String)
    ensures
        exists|t: crate::clock::Timestamp|
            t.nanos < 1_000_000_000 && crate::clock::file_stamp_form(
                #[trigger] crate::clock::formatted_instant(t, crate::clock::file_stamp_pattern()),
                t,
            ) && r@ == conflict_file_name_spec(
                crate::models::opt_view(*stem),
                crate::models::opt_view(*extension),
                crate::clock::formatted_instant(t, crate::clock::file_stamp_pattern()),
            ),
{
    let reading = crate::clock::read_clock();
    let r = conflict_file_name(stem, extension, reading.file_stamp.as_str());
    proof {
        let t = reading.instant;
        assert(crate::clock::file_stamp_form(
            crate::clock::formatted_instant(t, crate::clock::file_stamp_pattern()),
            t,
        ));
    }
    r
}

} // verus!
