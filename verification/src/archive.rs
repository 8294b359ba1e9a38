//! Safe archive extraction: entry sanitization and resource limits.
//!
//! Every archive entry is admitted through one checker that rejects
//! absolute paths, `..` components, non-file/non-directory entries, and
//! breaches of the file-count and byte limits.

use vstd::prelude::*;

use crate::errors::Error;
use crate::paths::dotdot;
use crate::paths::is_abs;
use crate::paths::path_comps;
use crate::text::chars_string;
use crate::text::join_with;
use crate::text::lower_of;
use crate::text::push_all;
use crate::text::str_chars;
use crate::text::to_lowercase;

verus! {

/// Bounds on what an archive may extract.
#[derive(Clone, Copy, Debug)]
pub struct ExtractLimits {
    /// Most regular files extracted.
    pub max_files: usize,
    /// Most total bytes extracted across all regular files.
    pub max_total_bytes: u64,
    /// Most bytes extracted per file.
    pub max_file_bytes: u64,
}

impl ExtractLimits {
    /// The stock limits: two hundred files, ten mebibytes in all, half
    /// a mebibyte per file.
    pub fn new_default() -> (r: ExtractLimits)
        ensures
            r.max_files == 200,
            r.max_total_bytes == 10485760,
            r.max_file_bytes == 524288,
    {
        ExtractLimits { max_files: 200, max_total_bytes: 10485760, max_file_bytes: 524288 }
    }
}

/// What an extraction produced: relative paths of the files written and
/// the total bytes.
#[derive(Clone, Debug)]
pub struct ExtractReport {
    pub extracted_files: Vec<String>,
    pub total_bytes: u64,
}

/// The archive formats told apart by file suffix.
#[derive(Clone, Copy, Debug, PartialEq, Eq, Structural)]
pub enum ArchiveKind {
    Zip,
    Tar,
    TarGz,
}

/// What a file name's lowercased form says about its archive format.
pub open spec fn spec_detect(l: Seq<char>) -> Option<ArchiveKind> {
    if spec_ends_with(l, seq!['.', 'z', 'i', 'p']) {
        Some(ArchiveKind::Zip)
    } else if spec_ends_with(l, seq!['.', 't', 'a', 'r']) {
        Some(ArchiveKind::Tar)
    } else if spec_ends_with(l, seq!['.', 't', 'a', 'r', '.', 'g', 'z']) || spec_ends_with(
        l,
        seq!['.', 't', 'g', 'z'],
    ) {
        Some(ArchiveKind::TarGz)
    } else {
        None
    }
}

/// `s` ends with `suffix`.
pub open spec fn spec_ends_with(s: Seq<char>, suffix: Seq<char>) -> bool {
    s.len() >= suffix.len() && crate::text::matches_at(s, suffix, s.len() - suffix.len())
}

/// Detect the archive format from the file name's suffix, case
/// insensitively.
pub fn detect_archive_kind(file_name: &str) -> (r: Option<ArchiveKind>)
    ensures
        r == spec_detect(lower_of(file_name@)),
{
    let lower = to_lowercase(file_name);
    let lc = str_chars(lower.as_str());
    let zip_sfx = str_chars(".zip");
    let tar_sfx = str_chars(".tar");
    let targz_sfx = str_chars(".tar.gz");
    let tgz_sfx = str_chars(".tgz");
    proof {
        reveal_strlit(".zip");
        reveal_strlit(".tar");
        reveal_strlit(".tar.gz");
        reveal_strlit(".tgz");
        assert(zip_sfx@ =~= seq!['.', 'z', 'i', 'p']);
        assert(tar_sfx@ =~= seq!['.', 't', 'a', 'r']);
        assert(targz_sfx@ =~= seq!['.', 't', 'a', 'r', '.', 'g', 'z']);
        assert(tgz_sfx@ =~= seq!['.', 't', 'g', 'z']);
    }
    if crate::text::ends_with_chars(&lc, &zip_sfx) {
        return Some(ArchiveKind::Zip);
    }
    if crate::text::ends_with_chars(&lc, &tar_sfx) {
        return Some(ArchiveKind::Tar);
    }
    if crate::text::ends_with_chars(&lc, &targz_sfx) || crate::text::ends_with_chars(
        &lc,
        &tgz_sfx,
    ) {
        return Some(ArchiveKind::TarGz);
    }
    None
}

/// Why an entry path was rejected.
#[derive(Clone, Copy, Debug, PartialEq, Eq, Structural)]
pub enum PathViolation {
    /// Absolute path or drive prefix.
    Absolute,
    /// A `..` component.
    Traversal,
    /// Nothing left after dropping `.` and empty components.
    Empty,
}

/// The sanitized components of an entry path, or why it is rejected:
/// absolute paths first, then any `..` component, then emptiness.
pub open spec fn spec_sanitize(s: Seq<char>) -> Result<Seq<Seq<char>>, PathViolation> {
    if is_abs(s) {
        Err(PathViolation::Absolute)
    } else if exists|i: int| 0 <= i < path_comps(s).len() && path_comps(s)[i] == dotdot() {
        Err(PathViolation::Traversal)
    } else if path_comps(s).len() == 0 {
        Err(PathViolation::Empty)
    } else {
        Ok(path_comps(s))
    }
}

/// A sanitized path has at least one component, none of them `..`.
pub proof fn lemma_sanitized_is_safe(s: Seq<char>)
    requires
        spec_sanitize(s) is Ok,
    ensures
        !is_abs(s),
        (spec_sanitize(s)->Ok_0).len() > 0,
        forall|i: int|
            0 <= i < (spec_sanitize(s)->Ok_0).len() ==> (spec_sanitize(s)->Ok_0)[i] != dotdot(),
{
}

/// Sanitize an archive entry path: reject absolute paths and `..`,
/// drop `.` and empty components, and require something to remain.
/// The `Ok` value is the components re-joined with `/`.
pub fn sanitize_rel_path(p: &str) -> (r: Result<String, Error>)
    ensures
        match spec_sanitize(p@) {
            Ok(comps) => r matches Ok(s) && s@ == join_with(comps, seq!['/']),
            Err(v) => r matches Err(e) && e is Security,
        },
{
    let cs = str_chars(p);
    if cs.len() > 0 && cs[0] == '/' {
        return Err(Error::Security(err_text("archive contains absolute path: ", p)));
    }
    let comps = crate::paths::comps_of(&cs);
    let ghost gcomps = comps@.map_values(|c: Vec<char>| c@);
    let mut dd: Vec<char> = Vec::new();
    dd.push('.');
    dd.push('.');
    assert(dd@ =~= dotdot());
    let mut i: usize = 0;
    while i < comps.len()
        invariant
            i <= gcomps.len(),
            gcomps == comps@.map_values(|c: Vec<char>| c@),
            gcomps == path_comps(p@),
            !is_abs(p@),
            dd@ == dotdot(),
            forall|k: int| 0 <= k < i ==> gcomps[k] != dotdot(),
        decreases gcomps.len() - i,
    {
        if crate::text::chars_eq(&comps[i], &dd) {
            proof {
                assert((i as int) < path_comps(p@).len() && path_comps(p@)[i as int] == dotdot());
            }
            return Err(Error::Security(err_text("archive contains path traversal: ", p)));
        }
        i += 1;
    }
    if comps.len() == 0 {
        return Err(Error::Security(err_text("archive contains empty path", "")));
    }
    let mut sep: Vec<char> = Vec::new();
    sep.push('/');
    assert(sep@ =~= seq!['/']);
    let joined = crate::text::join_chars(&comps, &sep);
    Ok(chars_string(&joined))
}

/// A security message built from a fixed prefix and the offending text.
fn err_text(prefix: &str, detail: &str) -> (r: String)
    ensures
        r@ == prefix@ + detail@,
{
    let mut out: Vec<char> = Vec::new();
    let pc = str_chars(prefix);
    push_all(&mut out, &pc);
    let dc = str_chars(detail);
    push_all(&mut out, &dc);
    chars_string(&out)
}

/// The kind of an archive entry, as the archive reader reports it.
#[derive(Clone, Copy, Debug, PartialEq, Eq, Structural)]
pub enum EntryKind {
    File,
    Dir,
    /// Symlink, hardlink, device or anything else.
    Other,
}

/// An admitted entry: its sanitized relative path and whether it is a
/// directory.
pub struct CheckedEntry {
    pub rel: String,
    pub is_dir: bool,
}

/// The admission decision for one entry, before any bytes are copied.
///
/// `file_count` and `total` are the regular files admitted so far and
/// their bytes.  Admission fails on a non-file/non-directory entry, a
/// rejected path, or a limit breach on the declared size.
pub open spec fn spec_admit(
    name: Seq<char>,
    kind: EntryKind,
    declared: u64,
    file_count: int,
    total: int,
    limits: ExtractLimits,
) -> bool {
    &&& kind != EntryKind::Other
    &&& spec_sanitize(name) is Ok
    &&& (kind == EntryKind::File ==> {
        &&& file_count + 1 <= limits.max_files
        &&& declared <= limits.max_file_bytes
        &&& total + declared <= limits.max_total_bytes
    })
}

/// Admit or reject one archive entry against the limits.
///
/// On success the entry's sanitized relative path comes back; every
/// admitted path is relative and free of `..` components, so writing
/// under the destination directory cannot escape it.
pub fn check_entry(
    name: &str,
    kind: EntryKind,
    declared_size: u64,
    file_count: usize,
    total: u64,
    limits: &ExtractLimits,
) -> (r: Result<CheckedEntry, Error>)
    ensures
        match r {
            Ok(c) => {
                &&& spec_admit(
                    name@,
                    kind,
                    declared_size,
                    file_count as int,
                    total as int,
                    *limits,
                )
                &&& c.rel@ == join_with(spec_sanitize(name@)->Ok_0, seq!['/'])
                &&& c.is_dir == (kind == EntryKind::Dir)
            },
            Err(e) => {
                &&& !spec_admit(
                    name@,
                    kind,
                    declared_size,
                    file_count as int,
                    total as int,
                    *limits,
                )
                &&& e is Security
            },
        },
{
    match kind {
        EntryKind::Other => {
            return Err(
                Error::Security(err_text("archive contains non-file/non-dir entry: ", name)),
            );
        },
        _ => {},
    }
    let rel = match sanitize_rel_path(name) {
        Ok(s) => s,
        Err(e) => {
            let msg = match e {
                Error::Security(m) => m,
                _ => err_text("archive entry rejected", ""),
            };
            return Err(Error::Security(msg));
        },
    };
    match kind {
        EntryKind::Dir => {
            return Ok(CheckedEntry { rel, is_dir: true });
        },
        _ => {},
    }
    if file_count >= limits.max_files {
        return Err(Error::Security(err_text("archive exceeds max_files limit", "")));
    }
    if declared_size > limits.max_file_bytes {
        return Err(Error::Security(err_text("archive file too large: ", name)));
    }
    if total > limits.max_total_bytes || declared_size > limits.max_total_bytes - total {
        return Err(Error::Security(err_text("archive exceeds max_total_bytes limit", "")));
    }
    Ok(CheckedEntry { rel, is_dir: false })
}

/// Bytes actually copied for one entry must not exceed the per-file
/// limit even when the archive's metadata lied.
pub fn check_copied(copied: u64, limits: &ExtractLimits, name: &str) -> (r: Result<(), Error>)
    ensures
        r is Ok <==> copied <= limits.max_file_bytes,
        r matches Err(e) ==> e is Security,
{
    if copied > limits.max_file_bytes {
        return Err(
            Error::Security(
                err_text("archive entry exceeds max_file_bytes while extracting: ", name),
            ),
        );
    }
    Ok(())
}

} // verus!
