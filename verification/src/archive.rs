//! The archive container layer. Archives are held as plain byte vectors;
//! the zip crate reads and writes them through the trusted items below,
//! whose contracts speak of the entry sequence each archive denotes. The
//! packing and listing logic around those calls is verified.

use std::io::Cursor;
use vstd::prelude::*;

use crate::commands::command::StoreError;
use crate::paths::{check_safe_path, is_safe_path};
use crate::strutil::str_eq;

verus! {

/// One archive member: a relative path and its contents. A path with a
/// trailing '/' records a directory entry, which carries no contents.
pub struct Member {
    pub path: String,
    pub data: Vec<u8>,
}

impl View for Member {
    type V = (Seq<char>, Seq<u8>);

    open spec fn view(&self) -> (Seq<char>, Seq<u8>) {
        (self.path@, self.data@)
    }
}

/// The entry sequence denoted by a sequence of members.
pub open spec fn members_view(ms: Seq<Member>) -> Seq<(Seq<char>, Seq<u8>)> {
    ms.map_values(|m: Member| m@)
}

/// A member as the container stores it: a directory entry keeps its
/// path but sheds any contents.
pub open spec fn stored_entry(e: (Seq<char>, Seq<u8>)) -> (Seq<char>, Seq<u8>) {
    if e.0.len() > 0 && e.0[e.0.len() - 1] == '/' {
        (e.0, Seq::empty())
    } else {
        e
    }
}

/// The entry sequence an archive built from `es` holds.
pub open spec fn stored_entries(es: Seq<(Seq<char>, Seq<u8>)>) -> Seq<(Seq<char>, Seq<u8>)> {
    es.map_values(|e: (Seq<char>, Seq<u8>)| stored_entry(e))
}

// ---------------------------------------------------------------------
// Trusted items over the zip crate
// ---------------------------------------------------------------------

#[verifier::external_type_specification]
#[verifier::external_body]
#[verifier::reject_recursive_types(T)]
pub struct ExCursor<T>(Cursor<T>);

#[verifier::external_type_specification]
#[verifier::external_body]
#[verifier::reject_recursive_types(R)]
pub struct ExZipArchive<R>(zip::ZipArchive<R>);

/// An archive under construction. Verus refuses a declaration of the
/// zip writer type itself (its bounds name io traits it does not know),
/// so the writer is held inside this opaque struct and reached only
/// through the trusted items below; `writer_members` names the entries
/// written so far.
#[verifier::external_body]
pub struct ArchiveWriter {
    inner: zip::ZipWriter<Cursor<Vec<u8>>>,
}

/// The entry sequence that parsing an archive's bytes yields: each entry
/// is a path and the decompressed contents, in the order of the central
/// directory.
pub uninterp spec fn archive_members(bytes: Seq<u8>) -> Seq<(Seq<char>, Seq<u8>)>;

/// The entries of an open archive reader.
pub uninterp spec fn reader_members(r: zip::ZipArchive<Cursor<Vec<u8>>>) -> Seq<
    (Seq<char>, Seq<u8>),
>;

/// The entries written so far to an archive writer.
pub uninterp spec fn writer_members(w: ArchiveWriter) -> Seq<(Seq<char>, Seq<u8>)>;

/// The bytes parse as an archive: reading the central directory
/// succeeds. A pure function of the bytes.
pub uninterp spec fn parses_archive(bytes: Seq<u8>) -> bool;

/// The bytes read back as an archive in full: the container opens and
/// every entry's contents decompress. A pure function of the bytes.
pub uninterp spec fn readable_archive(bytes: Seq<u8>) -> bool;

/// Every entry of this open reader reads back.
pub uninterp spec fn reader_readable(r: zip::ZipArchive<Cursor<Vec<u8>>>) -> bool;

/// The writer accepts one more entry: with `entries` already written,
/// adding a member named `path` holding `data` succeeds — the name is
/// not among the entries yet and the member is within the container
/// format's limits. A pure function of its arguments.
pub uninterp spec fn write_accepts(
    entries: Seq<(Seq<char>, Seq<u8>)>,
    path: Seq<char>,
    data: Seq<u8>,
) -> bool;

/// Finishing a writer that holds `entries` succeeds.
pub uninterp spec fn finish_accepts(entries: Seq<(Seq<char>, Seq<u8>)>) -> bool;

/// Every successive write of `es` — each entry into those before it —
/// is accepted by the writer.
pub open spec fn writes_accepted(es: Seq<(Seq<char>, Seq<u8>)>) -> bool
    decreases es.len(),
{
    if es.len() == 0 {
        true
    } else {
        writes_accepted(es.drop_last()) && write_accepts(
            es.drop_last(),
            es.last().0,
            es.last().1,
        )
    }
}

proof fn writes_accepted_prefix(es: Seq<(Seq<char>, Seq<u8>)>, k: int)
    requires
        writes_accepted(es),
        0 <= k < es.len(),
    ensures
        write_accepts(es.take(k), es[k].0, es[k].1),
    decreases es.len(),
{
    if k == es.len() - 1 {
        assert(es.drop_last() =~= es.take(k));
        assert(es.last() == es[k]);
    } else {
        writes_accepted_prefix(es.drop_last(), k);
        assert(es.drop_last().take(k) =~= es.take(k));
        assert(es.drop_last()[k] == es[k]);
    }
}

/// Relies on zip::ZipArchive::new: reads the archive's central directory
/// from the bytes alone, succeeding exactly when the bytes parse as an
/// archive; on success the reader holds the entries those bytes denote.
/// Opening cannot fail on bytes that read back in full.
#[verifier::external_body]
fn open_archive(bytes: &Vec<u8>) -> (r: Result<zip::ZipArchive<Cursor<Vec<u8>>>, ()>)
    ensures
        match r {
            Ok(a) => reader_members(a) == archive_members(bytes@) && (reader_readable(a)
                <==> readable_archive(bytes@)),
            Err(()) => true,
        },
        r is Ok <==> parses_archive(bytes@),
        readable_archive(bytes@) ==> r is Ok,
{
    match zip::ZipArchive::new(Cursor::new(bytes.clone())) {
        Ok(a) => Ok(a),
        Err(_) => Err(()),
    }
}

/// Relies on zip::ZipArchive::len: the number of entries.
#[verifier::external_body]
fn archive_len(a: &zip::ZipArchive<Cursor<Vec<u8>>>) -> (r: usize)
    ensures
        r == reader_members(*a).len(),
{
    a.len()
}

/// Relies on zip::ZipArchive::by_index and std::io::Read::read_to_end:
/// yields entry `i`'s name and decompressed contents; the reader's
/// entries are unchanged, and no entry of a fully readable archive
/// fails to read.
#[verifier::external_body]
fn read_member(a: &mut zip::ZipArchive<Cursor<Vec<u8>>>, i: usize) -> (r: Result<Member, ()>)
    requires
        i < reader_members(*old(a)).len(),
    ensures
        reader_members(*final(a)) == reader_members(*old(a)),
        reader_readable(*final(a)) == reader_readable(*old(a)),
        match r {
            Ok(m) => m@ == reader_members(*old(a))[i as int],
            Err(()) => true,
        },
        reader_readable(*old(a)) ==> r is Ok,
{
    let mut f = match a.by_index(i) {
        Ok(f) => f,
        Err(_) => return Err(()),
    };
    let path = f.name().to_string();
    let mut data = Vec::new();
    if std::io::Read::read_to_end(&mut f, &mut data).is_err() {
        return Err(());
    }
    Ok(Member { path, data })
}

/// Relies on zip::ZipWriter::new: a fresh in-memory archive with no
/// entries.
#[verifier::external_body]
fn new_writer() -> (r: ArchiveWriter)
    ensures
        writer_members(r) == Seq::<(Seq<char>, Seq<u8>)>::empty(),
{
    ArchiveWriter { inner: zip::ZipWriter::new(Cursor::new(Vec::new())) }
}

/// Relies on zip::ZipWriter::start_file and std::io::Write::write_all:
/// on success, appends one file entry with exactly the given name and
/// contents.
#[verifier::external_body]
fn write_file_member(
    w: &mut ArchiveWriter,
    path: &str,
    data: &Vec<u8>,
) -> (r: Result<(), ()>)
    ensures
        match r {
            Ok(()) => writer_members(*final(w)) == writer_members(*old(w)).push(
                (path@, data@),
            ),
            Err(()) => true,
        },
        write_accepts(writer_members(*old(w)), path@, data@) ==> r is Ok,
{
    if w.inner.start_file(path, zip::write::SimpleFileOptions::default()).is_err() {
        return Err(());
    }
    if std::io::Write::write_all(&mut w.inner, data.as_slice()).is_err() {
        return Err(());
    }
    Ok(())
}

/// Relies on zip::ZipWriter::add_directory: on success, appends one
/// directory entry with exactly the given name, which carries no
/// contents. The name already ends in '/', so it is taken as given.
#[verifier::external_body]
fn write_dir_member(w: &mut ArchiveWriter, path: &str) -> (r: Result<
    (),
    (),
>)
    requires
        path@.len() > 0,
        path@[path@.len() - 1] == '/',
    ensures
        match r {
            Ok(()) => writer_members(*final(w)) == writer_members(*old(w)).push(
                (path@, Seq::<u8>::empty()),
            ),
            Err(()) => true,
        },
        write_accepts(writer_members(*old(w)), path@, Seq::<u8>::empty()) ==> r is Ok,
{
    match w.inner.add_directory(path, zip::write::SimpleFileOptions::default()) {
        Ok(()) => Ok(()),
        Err(_) => Err(()),
    }
}

/// Relies on zip::ZipWriter::finish: on success, the returned bytes are
/// a complete archive denoting exactly the entries written, and they
/// read back in full.
#[verifier::external_body]
fn finish_writer(w: ArchiveWriter) -> (r: Result<Vec<u8>, ()>)
    ensures
        match r {
            Ok(bytes) => archive_members(bytes@) == writer_members(w) && readable_archive(
                bytes@,
            ),
            Err(()) => true,
        },
        finish_accepts(writer_members(w)) ==> r is Ok,
{
    match w.inner.finish() {
        Ok(c) => Ok(c.into_inner()),
        Err(_) => Err(()),
    }
}

// ---------------------------------------------------------------------
// Verified packing and unpacking
// ---------------------------------------------------------------------

/// Utilities for building and reading the archive container.
pub struct ZipUtil;

impl ZipUtil {
    /// Builds an archive holding `extra_files` followed by `entries`,
    /// in order. Directory entries (trailing '/') are stored without
    /// contents.
    pub fn zip_dir(extra_files: &Vec<Member>, entries: &Vec<Member>) -> (r: Result<
        Vec<u8>,
        StoreError,
    >)
        ensures
            match r {
                Ok(bytes) => archive_members(bytes@) == stored_entries(
                    members_view(extra_files@) + members_view(entries@),
                ) && readable_archive(bytes@),
                Err(e) => e == StoreError::IOError,
            },
            (writes_accepted(stored_entries(members_view(extra_files@) + members_view(entries@)))
                && finish_accepts(
                stored_entries(members_view(extra_files@) + members_view(entries@)),
            )) ==> r is Ok,
    {
        let ghost all = members_view(extra_files@) + members_view(entries@);
        let mut w = new_writer();
        proof {
            assert(stored_entries(all).take(0) =~= Seq::<(Seq<char>, Seq<u8>)>::empty());
        }
        let mut i: usize = 0;
        while i < extra_files.len()
            invariant
                0 <= i <= extra_files@.len(),
                all == members_view(extra_files@) + members_view(entries@),
                writer_members(w) == stored_entries(all).take(i as int),
            decreases extra_files@.len() - i,
        {
            proof {
                assert(all[i as int] == extra_files@[i as int]@);
                assert(stored_entries(all)[i as int] == stored_entry(all[i as int]));
                assert(stored_entries(all).take(i + 1)
                    =~= stored_entries(all).take(i as int).push(
                        stored_entries(all)[i as int],
                    ));
            }
            if Self::write_one(&mut w, &extra_files[i]).is_err() {
                proof {
                    if writes_accepted(stored_entries(all)) {
                        writes_accepted_prefix(stored_entries(all), i as int);
                    }
                }
                return Err(StoreError::IOError);
            }
            i = i + 1;
        }
        let mut j: usize = 0;
        while j < entries.len()
            invariant
                0 <= j <= entries@.len(),
                all == members_view(extra_files@) + members_view(entries@),
                writer_members(w) == stored_entries(all).take(
                    extra_files@.len() + j,
                ),
            decreases entries@.len() - j,
        {
            let ghost p = extra_files@.len() + j;
            proof {
                assert(all[p as int] == entries@[j as int]@);
                assert(stored_entries(all)[p as int] == stored_entry(all[p as int]));
                assert(stored_entries(all).take(p + 1)
                    =~= stored_entries(all).take(p as int).push(
                        stored_entries(all)[p as int],
                    ));
            }
            if Self::write_one(&mut w, &entries[j]).is_err() {
                proof {
                    if writes_accepted(stored_entries(all)) {
                        writes_accepted_prefix(stored_entries(all), p as int);
                    }
                }
                return Err(StoreError::IOError);
            }
            j = j + 1;
        }
        proof {
            assert(stored_entries(all).take(all.len() as int) =~= stored_entries(all));
        }
        match finish_writer(w) {
            Ok(bytes) => Ok(bytes),
            Err(()) => Err(StoreError::IOError),
        }
    }

    /// Writes one member: a directory entry when its path ends in '/',
    /// a file entry otherwise.
    fn write_one(w: &mut ArchiveWriter, m: &Member) -> (r: Result<
        (),
        (),
    >)
        ensures
            match r {
                Ok(()) => writer_members(*final(w)) == writer_members(*old(w)).push(
                    stored_entry(m@),
                ),
                Err(()) => true,
            },
            write_accepts(
                writer_members(*old(w)),
                stored_entry(m@).0,
                stored_entry(m@).1,
            ) ==> r is Ok,
    {
        let plen = m.path.as_str().unicode_len();
        if plen > 0 && m.path.as_str().get_char(plen - 1) == '/' {
            write_dir_member(w, m.path.as_str())
        } else {
            write_file_member(w, m.path.as_str(), &m.data)
        }
    }

    /// Reads every entry of an archive, in order.
    pub fn unpack(bytes: &Vec<u8>) -> (r: Result<Vec<Member>, StoreError>)
        ensures
            match r {
                Ok(ms) => members_view(ms@) == archive_members(bytes@) && parses_archive(
                    bytes@,
                ),
                Err(e) => e == StoreError::ArchiveFormatError && !readable_archive(bytes@),
            },
            readable_archive(bytes@) ==> r is Ok,
            !parses_archive(bytes@) ==> r is Err,
    {
        let mut a = match open_archive(bytes) {
            Ok(a) => a,
            Err(()) => {
                return Err(StoreError::ArchiveFormatError);
            },
        };
        let n = archive_len(&a);
        let mut out: Vec<Member> = Vec::new();
        let mut i: usize = 0;
        while i < n
            invariant
                0 <= i <= n,
                n == reader_members(a).len(),
                reader_members(a) == archive_members(bytes@),
                reader_readable(a) <==> readable_archive(bytes@),
                members_view(out@) == archive_members(bytes@).take(i as int),
            decreases n - i,
        {
            let m = match read_member(&mut a, i) {
                Ok(m) => m,
                Err(()) => {
                    return Err(StoreError::ArchiveFormatError);
                },
            };
            proof {
                assert(archive_members(bytes@).take(i + 1)
                    =~= archive_members(bytes@).take(i as int).push(
                        archive_members(bytes@)[i as int],
                    ));
                assert(members_view(out@.push(m))
                    =~= members_view(out@).push(m@));
            }
            out.push(m);
            i = i + 1;
        }
        proof {
            assert(archive_members(bytes@).take(n as int) =~= archive_members(bytes@));
        }
        Ok(out)
    }

    /// Lists the internal paths of an archive, in order, leaving out the
    /// bare "/" entry and every path in `hide_from_output`. Fails with
    /// `SecurityError` when any listed entry has an unsafe path.
    pub fn get_files(data: &Vec<u8>, hide_from_output: &Vec<String>) -> (r: Result<
        Vec<String>,
        StoreError,
    >)
        ensures
            match r {
                Ok(ps) => {
                    &&& crate::strutil::string_views(ps@) == visible_paths(
                        archive_members(data@),
                        crate::strutil::string_views(hide_from_output@),
                    )
                    &&& all_entries_safe(archive_members(data@))
                },
                Err(e) => {
                    &&& {
                        ||| e == StoreError::ArchiveFormatError
                        ||| (e == StoreError::SecurityError && !all_entries_safe(
                            archive_members(data@),
                        ))
                    }
                    &&& e == StoreError::ArchiveFormatError ==> !readable_archive(data@)
                },
            },
            (readable_archive(data@) && all_entries_safe(archive_members(data@))) ==> r is Ok,
            !parses_archive(data@) ==> (r matches Err(e) && e
                == StoreError::ArchiveFormatError),
    {
        let ghost ms = archive_members(data@);
        let ghost hideview = crate::strutil::string_views(hide_from_output@);
        let members = match Self::unpack(data) {
            Ok(members) => members,
            Err(_) => {
                return Err(StoreError::ArchiveFormatError);
            },
        };
        let mut out: Vec<String> = Vec::new();
        proof {
            assert(ms.take(0) =~= Seq::<(Seq<char>, Seq<u8>)>::empty());
            assert(crate::strutil::string_views(out@)
                =~= visible_paths(ms.take(0), hideview));
        }
        let mut i: usize = 0;
        while i < members.len()
            invariant
                0 <= i <= members@.len(),
                ms == archive_members(data@),
                parses_archive(data@),
                members_view(members@) == ms,
                hideview == crate::strutil::string_views(hide_from_output@),
                crate::strutil::string_views(out@) == visible_paths(ms.take(i as int), hideview),
                forall|k: int| 0 <= k < i ==> entry_safe(ms[k]),
            decreases members@.len() - i,
        {
            proof {
                assert(ms[i as int] == members@[i as int]@);
                visible_paths_snoc(ms.take(i as int), ms[i as int], hideview);
                assert(ms.take(i + 1) =~= ms.take(i as int).push(ms[i as int]));
            }
            let m = &members[i];
            if str_eq(m.path.as_str(), "/") {
                i = i + 1;
                continue;
            }
            if !check_safe_path(m.path.as_str()) {
                proof {
                    assert(!entry_safe(ms[i as int]));
                    assert(!all_entries_safe(ms));
                }
                return Err(StoreError::SecurityError);
            }
            if crate::strutil::vec_contains_str(hide_from_output, m.path.as_str()) {
                i = i + 1;
                continue;
            }
            let p = m.path.clone();
            proof {
                assert(crate::strutil::string_views(out@.push(p))
                    =~= crate::strutil::string_views(out@).push(p@));
            }
            out.push(p);
            i = i + 1;
        }
        proof {
            assert(ms.take(members@.len() as int) =~= ms);
        }
        Ok(out)
    }

    /// Yields every entry of an archive except those whose path is in
    /// `hide_from_output`, in order: what extraction writes out.
    pub fn unzip(data: &Vec<u8>, hide_from_output: &Vec<String>) -> (r: Result<
        Vec<Member>,
        StoreError,
    >)
        ensures
            match r {
                Ok(ms) => members_view(ms@) == spawn_entries(
                    archive_members(data@),
                    crate::strutil::string_views(hide_from_output@),
                ),
                Err(e) => e == StoreError::ArchiveFormatError && !readable_archive(data@),
            },
            readable_archive(data@) ==> r is Ok,
            !parses_archive(data@) ==> r is Err,
    {
        let ghost ms = archive_members(data@);
        let ghost hideview = crate::strutil::string_views(hide_from_output@);
        let mut members = match Self::unpack(data) {
            Ok(members) => members,
            Err(_) => {
                return Err(StoreError::ArchiveFormatError);
            },
        };
        let mut out: Vec<Member> = Vec::new();
        proof {
            assert(ms.take(0) =~= Seq::<(Seq<char>, Seq<u8>)>::empty());
            assert(members_view(out@) =~= spawn_entries(ms.take(0), hideview));
        }
        let mut i: usize = 0;
        while i < members.len()
            invariant
                0 <= i <= members@.len(),
                members_view(members@) == ms,
                hideview == crate::strutil::string_views(hide_from_output@),
                members_view(out@) == spawn_entries(ms.take(i as int), hideview),
            decreases members@.len() - i,
        {
            proof {
                assert(ms[i as int] == members@[i as int]@);
                spawn_entries_snoc(ms.take(i as int), ms[i as int], hideview);
                assert(ms.take(i + 1) =~= ms.take(i as int).push(ms[i as int]));
            }
            let m = &members[i];
            if !crate::strutil::vec_contains_str(hide_from_output, m.path.as_str()) {
                let copied = Member { path: m.path.clone(), data: m.data.clone() };
                proof {
                    assert(copied@ == ms[i as int]);
                    assert(members_view(out@.push(copied))
                        =~= members_view(out@).push(copied@));
                }
                out.push(copied);
            }
            i = i + 1;
        }
        proof {
            assert(ms.take(members@.len() as int) =~= ms);
        }
        Ok(out)
    }
}

/// An entry's path cannot escape an extraction root: it is the bare "/"
/// entry (which is skipped), or a safe relative path.
pub open spec fn entry_safe(e: (Seq<char>, Seq<u8>)) -> bool {
    e.0 == "/"@ || is_safe_path(e.0)
}

/// Every entry of the sequence is safe.
pub open spec fn all_entries_safe(ms: Seq<(Seq<char>, Seq<u8>)>) -> bool {
    forall|k: int| 0 <= k < ms.len() ==> entry_safe(ms[k])
}

/// The listed paths of an entry sequence: each entry's path, in order,
/// leaving out the bare "/" entry and the hidden paths.
pub open spec fn visible_paths(ms: Seq<(Seq<char>, Seq<u8>)>, hide: Seq<Seq<char>>) -> Seq<
    Seq<char>,
>
    decreases ms.len(),
{
    if ms.len() == 0 {
        Seq::empty()
    } else {
        let rest = visible_paths(ms.drop_last(), hide);
        let p = ms.last().0;
        if p == "/"@ || hide.contains(p) {
            rest
        } else {
            rest.push(p)
        }
    }
}

proof fn visible_paths_snoc(ms: Seq<(Seq<char>, Seq<u8>)>, e: (Seq<char>, Seq<u8>), hide: Seq<Seq<char>>)
    ensures
        visible_paths(ms.push(e), hide) == if e.0 == "/"@ || hide.contains(e.0) {
            visible_paths(ms, hide)
        } else {
            visible_paths(ms, hide).push(e.0)
        },
{
    assert(ms.push(e).drop_last() =~= ms);
    assert(ms.push(e).last() == e);
}

/// The entries extraction writes: every entry except the hidden paths,
/// in order.
pub open spec fn spawn_entries(ms: Seq<(Seq<char>, Seq<u8>)>, hide: Seq<Seq<char>>) -> Seq<
    (Seq<char>, Seq<u8>),
>
    decreases ms.len(),
{
    if ms.len() == 0 {
        Seq::empty()
    } else {
        let rest = spawn_entries(ms.drop_last(), hide);
        if hide.contains(ms.last().0) {
            rest
        } else {
            rest.push(ms.last())
        }
    }
}

proof fn spawn_entries_snoc(ms: Seq<(Seq<char>, Seq<u8>)>, e: (Seq<char>, Seq<u8>), hide: Seq<Seq<char>>)
    ensures
        spawn_entries(ms.push(e), hide) == if hide.contains(e.0) {
            spawn_entries(ms, hide)
        } else {
            spawn_entries(ms, hide).push(e)
        },
{
    assert(ms.push(e).drop_last() =~= ms);
    assert(ms.push(e).last() == e);
}

} // verus!
