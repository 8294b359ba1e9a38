//! Zip extraction against the admission checker.
//!
//! The archive is read from bytes in memory; every entry passes
//! `check_entry` before any of its data is kept, and the data read is
//! capped so lying metadata cannot blow the byte limits.

use std::io::Cursor;
use std::io::Read;

use vstd::prelude::*;

use crate::archive::check_copied;
use crate::archive::check_entry;
use crate::archive::spec_sanitize;
use crate::archive::CheckedEntry;
use crate::archive::EntryKind;
use crate::archive::ExtractLimits;
use crate::archive::ExtractReport;
use crate::errors::Error;
use crate::text::chars_string;
use crate::text::join_with;
use crate::text::str_chars;

verus! {

#[verifier::external_type_specification]
#[verifier::external_body]
#[verifier::reject_recursive_types(R)]
pub struct ExZipArchive<R>(zip::ZipArchive<R>);

#[verifier::external_type_specification]
#[verifier::external_body]
#[verifier::reject_recursive_types(T)]
pub struct ExCursor<T>(Cursor<T>);

/// Relies on `zip::ZipArchive::new` over an in-memory cursor: parses
/// the central directory or reports the error as text.
#[verifier::external_body]
fn zip_open(bytes: Vec<u8>) -> (r: Result<zip::ZipArchive<Cursor<Vec<u8>>>, String>)
{
    zip::ZipArchive::new(Cursor::new(bytes)).map_err(|e| e.to_string())
}

/// Relies on `zip::ZipArchive::len`: the number of entries.
#[verifier::external_body]
fn zip_len(a: &zip::ZipArchive<Cursor<Vec<u8>>>) -> (r: usize)
{
    a.len()
}

/// Relies on `zip::ZipArchive::by_index` and the entry accessors
/// `name`, `is_dir`, `size` and `unix_mode`: one entry's metadata.
#[verifier::external_body]
fn zip_entry_meta(a: &mut zip::ZipArchive<Cursor<Vec<u8>>>, i: usize) -> (r: Result<
    (String, bool, u64, Option<u32>),
    String,
>)
{
    let e = a.by_index(i).map_err(|e| e.to_string())?;
    Ok((e.name().to_string(), e.is_dir(), e.size(), e.unix_mode()))
}

/// Relies on `zip::ZipArchive::by_index` and `Read::take` plus
/// `read_to_end`: at most `cap` decompressed bytes of one entry.
#[verifier::external_body]
fn zip_entry_data(a: &mut zip::ZipArchive<Cursor<Vec<u8>>>, i: usize, cap: u64) -> (r: Result<
    Vec<u8>,
    String,
>)
    ensures
        r matches Ok(d) ==> d@.len() <= cap,
{
    let e = a.by_index(i).map_err(|e| e.to_string())?;
    let mut out = Vec::new();
    std::io::Read::take(e, cap).read_to_end(&mut out).map_err(|e| e.to_string())?;
    Ok(out)
}

/// One admitted entry with its contents.
pub struct ExtractedEntry {
    pub rel: String,
    pub is_dir: bool,
    pub data: Vec<u8>,
}

/// What a zip extraction produced: the admitted entries, in archive
/// order, and the report.
pub struct ExtractOutcome {
    pub entries: Vec<ExtractedEntry>,
    pub report: ExtractReport,
}

/// A relative path that came out of the sanitizer: some entry name
/// sanitized to exactly these characters.
pub open spec fn spec_sanitized_rel(rel: Seq<char>) -> bool {
    exists|nm: Seq<char>|
        #[trigger] spec_sanitize(nm) matches Ok(c) && rel == join_with(c, seq!['/'])
}

/// The relative paths of the file entries, in order, directories
/// skipped.
pub open spec fn file_rels(es: Seq<ExtractedEntry>) -> Seq<Seq<char>>
    decreases es.len(),
{
    if es.len() == 0 {
        Seq::<Seq<char>>::empty()
    } else {
        file_rels(es.drop_last()) + (if es.last().is_dir {
            Seq::<Seq<char>>::empty()
        } else {
            seq![es.last().rel@]
        })
    }
}

/// The bytes held by the file entries.
pub open spec fn files_bytes(es: Seq<ExtractedEntry>) -> int
    decreases es.len(),
{
    if es.len() == 0 {
        0
    } else {
        files_bytes(es.drop_last()) + (if es.last().is_dir {
            0
        } else {
            es.last().data@.len()
        })
    }
}

/// Extract a zip archive held in memory, under the limits.
///
/// Every admitted entry's relative path came through the sanitizer, so
/// none is absolute or holds a `..` component; file data is capped at
/// the per-file limit even when the metadata lied, and the total stays
/// within the byte limit.
pub fn safe_extract_zip_bytes(bytes: Vec<u8>, limits: &ExtractLimits) -> (r: Result<
    ExtractOutcome,
    Error,
>)
    requires
        limits.max_file_bytes < u64::MAX,
        limits.max_total_bytes < u64::MAX,
    ensures
        r matches Ok(out) ==> {
            &&& forall|k: int|
                0 <= k < out.entries@.len() ==> spec_sanitized_rel(
                    (#[trigger] out.entries@[k]).rel@,
                )
            &&& forall|k: int|
                0 <= k < out.entries@.len() ==> (#[trigger] out.entries@[k]).data@.len()
                    <= limits.max_file_bytes
            &&& out.report.total_bytes <= limits.max_total_bytes
            &&& out.report.extracted_files@.map_values(|s: String| s@) == file_rels(
                out.entries@,
            )
            &&& out.report.total_bytes == files_bytes(out.entries@)
            &&& out.report.extracted_files@.len() <= limits.max_files
        },
{
    let mut archive = match zip_open(bytes) {
        Ok(a) => a,
        Err(m) => {
            return Err(Error::External(prefixed("zip error: ", m.as_str())));
        },
    };
    let n = zip_len(&archive);
    let mut entries: Vec<ExtractedEntry> = Vec::new();
    let mut rels: Vec<String> = Vec::new();
    let mut file_count: usize = 0;
    let mut total: u64 = 0;
    let mut i: usize = 0;
    proof {
        assert(rels@.map_values(|s: String| s@) =~= file_rels(entries@));
    }
    while i < n
        invariant
            limits.max_file_bytes < u64::MAX,
            limits.max_total_bytes < u64::MAX,
            total <= limits.max_total_bytes,
            forall|k: int|
                0 <= k < entries@.len() ==> spec_sanitized_rel((#[trigger] entries@[k]).rel@),
            forall|k: int|
                0 <= k < entries@.len() ==> (#[trigger] entries@[k]).data@.len()
                    <= limits.max_file_bytes,
            rels@.map_values(|s: String| s@) == file_rels(entries@),
            total == files_bytes(entries@),
            rels@.len() == file_count,
            file_count <= limits.max_files,
        decreases n - i,
    {
        let (raw_name, entry_is_dir, declared, unix_mode) = match zip_entry_meta(&mut archive, i) {
            Ok(m) => m,
            Err(msg) => {
                return Err(Error::External(prefixed("zip error: ", msg.as_str())));
            },
        };
        // Backslash separators read as slashes.
        let name_cs = str_chars(raw_name.as_str());
        let mut fixed: Vec<char> = Vec::new();
        let mut ci: usize = 0;
        while ci < name_cs.len()
            decreases name_cs@.len() - ci,
        {
            let c = name_cs[ci];
            if c == '\\' {
                fixed.push('/');
            } else {
                fixed.push(c);
            }
            ci += 1;
        }
        let name = chars_string(&fixed);
        let nlen = fixed.len();
        if nlen == 0 {
            i += 1;
            continue;
        }
        // Symlinks hide in the unix mode bits.
        let kind = match unix_mode {
            Some(mode) => {
                if mode & 0xF000u32 == 0xA000u32 {
                    EntryKind::Other
                } else if entry_is_dir {
                    EntryKind::Dir
                } else {
                    EntryKind::File
                }
            },
            None => {
                if entry_is_dir {
                    EntryKind::Dir
                } else {
                    EntryKind::File
                }
            },
        };
        let checked: CheckedEntry = match check_entry(
            name.as_str(),
            kind,
            declared,
            file_count,
            total,
            limits,
        ) {
            Ok(c) => c,
            Err(e) => {
                return Err(e);
            },
        };
        proof {
            assert(spec_sanitized_rel(checked.rel@)) by {
                assert(spec_sanitize(name@) matches Ok(c) && checked.rel@ == join_with(
                    c,
                    seq!['/'],
                ));
            }
        }
        if checked.is_dir {
            let ghost prev = entries@;
            entries.push(ExtractedEntry { rel: checked.rel, is_dir: true, data: Vec::new() });
            proof {
                assert(forall|k: int|
                    0 <= k < prev.len() ==> entries@[k] == prev[k]);
                assert(entries@.drop_last() =~= prev);
                assert(file_rels(entries@) =~= file_rels(prev));
                assert(files_bytes(entries@) == files_bytes(prev));
            }
            i += 1;
            continue;
        }
        if file_count < usize::MAX {
            file_count = file_count + 1;
        }
        let data = match zip_entry_data(&mut archive, i, limits.max_file_bytes + 1) {
            Ok(d) => d,
            Err(msg) => {
                return Err(Error::External(prefixed("zip error: ", msg.as_str())));
            },
        };
        let copied = data.len() as u64;
        match check_copied(copied, limits, name.as_str()) {
            Ok(()) => {},
            Err(e) => {
                return Err(e);
            },
        }
        if copied > limits.max_total_bytes - total {
            return Err(
                Error::Security(prefixed("archive exceeds max_total_bytes limit", "")),
            );
        }
        total = total + copied;
        let ghost prev = entries@;
        let ghost prev_rels = rels@;
        let rel_copy = copy_string(checked.rel.as_str());
        rels.push(rel_copy);
        entries.push(ExtractedEntry { rel: checked.rel, is_dir: false, data });
        proof {
            assert(forall|k: int| 0 <= k < prev.len() ==> entries@[k] == prev[k]);
            assert(entries@.drop_last() =~= prev);
            assert(!entries@.last().is_dir);
            assert(file_rels(entries@) =~= file_rels(prev).push(entries@.last().rel@));
            assert(rels@.map_values(|s: String| s@) =~= prev_rels.map_values(
                |s: String| s@,
            ).push(entries@.last().rel@));
            assert(files_bytes(entries@) == files_bytes(prev) + entries@.last().data@.len());
        }
        i += 1;
    }
    Ok(ExtractOutcome { entries, report: ExtractReport { extracted_files: rels, total_bytes: total } })
}

/// A message built from a fixed prefix and detail text.
fn prefixed(prefix: &str, detail: &str) -> (r: String)
    ensures
        r@ == prefix@ + detail@,
{
    let mut out: Vec<char> = str_chars(prefix);
    let dc = str_chars(detail);
    crate::text::push_all(&mut out, &dc);
    chars_string(&out)
}

/// A copied string.
fn copy_string(s: &str) -> (r: String)
    ensures
        r@ == s@,
{
    let c = str_chars(s);
    chars_string(&c)
}

} // verus!
