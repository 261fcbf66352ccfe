//! The archive preset command set and the trusted interface to the `zip`
//! crate that backs it.
//!
//! An opened archive is held in the resource table as an opaque value of
//! type `zip::ZipArchive<Cursor<Vec<u8>>>`. The crate keys its entries by
//! the raw name bytes of the central directory but lists them decoded
//! (UTF-8, or cp437, as each entry's flags say), and the two can disagree:
//! two distinct raw keys may decode to the same string, and a listed name
//! need not re-encode to any raw key. The archive's observables are
//! therefore named separately: the raw keys ([`zip_raw_names`]), the
//! decoded names in the same order ([`zip_entry_names`]), the decompressed
//! bytes per raw key ([`zip_entry_data`]), and whether a stored entry's
//! bytes can be read out ([`zip_entry_readable`]). The wrappers below
//! state, over those names, what the `zip` crate's methods return.

use vstd::prelude::*;
use vstd::utf8::encode_utf8;
use crate::command::{CommandHandler, CommandManager, HandlerError};
use crate::proto::{
    enc_opt_handle_msg, enc_query_dir_ret, paths_view, spec_decode_bytes_msg,
    spec_decode_load_file_arg, spec_decode_opt_handle_msg, IcLoadFileArg, IcLoadFileRet,
    IcOpenZipArg, IcOpenZipRet, IcQueryDirArg, IcQueryDirRet, QueryDirItem,
};
use crate::resource::{ResourceManager, ResourceValue, TBlobResource, TResource};

verus! {

#[verifier::external_type_specification]
#[verifier::external_body]
#[verifier::reject_recursive_types(T)]
pub struct ExCursor<T>(std::io::Cursor<T>);

#[verifier::external_type_specification]
#[verifier::external_body]
#[verifier::reject_recursive_types(R)]
pub struct ExZipArchive<R>(zip::ZipArchive<R>);

#[verifier::external_type_specification]
#[verifier::external_body]
pub struct ExZipError(zip::result::ZipError);

/// An archive parsed out of an in-memory byte buffer.
pub type ByteArchive = zip::ZipArchive<std::io::Cursor<Vec<u8>>>;

/// Whether `zip::ZipArchive::new` accepts the byte buffer; parsing an
/// in-memory buffer is a function of its bytes alone.
pub uninterp spec fn zip_parses(data: Seq<u8>) -> bool;

/// The raw entry-name bytes, in central-directory order; the crate's
/// index map keys the entries by exactly these.
pub uninterp spec fn zip_raw_names(a: ByteArchive) -> Seq<Seq<u8>>;

/// The decoded entry names, in the same order; these are what a listing
/// shows, and distinct raw keys may decode to the same string.
pub uninterp spec fn zip_entry_names(a: ByteArchive) -> Seq<Seq<char>>;

/// The decompressed bytes of each entry, keyed by its raw name bytes; a
/// lookup by string goes through the string's UTF-8 encoding.
pub uninterp spec fn zip_entry_data(a: ByteArchive) -> Map<Seq<u8>, Seq<u8>>;

/// Whether reading the entry stored under the raw key out of this archive
/// value succeeds; decompressing out of an in-memory buffer is a function
/// of the archive value and the key alone, and an entry that is present
/// but corrupt is not readable.
pub uninterp spec fn zip_entry_readable(a: ByteArchive, raw: Seq<u8>) -> bool;

/// An archive's raw keys are pairwise distinct, one decoded name stands
/// for each, and the entry-data map holds exactly the raw keys.
pub open spec fn zip_wf(a: ByteArchive) -> bool {
    &&& zip_entry_names(a).len() == zip_raw_names(a).len()
    &&& forall|i: int, j: int|
        0 <= i < j < zip_raw_names(a).len() ==> zip_raw_names(a)[i] != zip_raw_names(a)[j]
    &&& forall|n: Seq<u8>| zip_entry_data(a).dom().contains(n) <==> zip_raw_names(a).contains(n)
}

/// Two archive values that hold the same entries; reading an entry moves
/// the underlying reader but leaves the entries and their readability as
/// they were.
pub open spec fn same_zip(a1: ByteArchive, a2: ByteArchive) -> bool {
    &&& zip_raw_names(a1) == zip_raw_names(a2)
    &&& zip_entry_names(a1) == zip_entry_names(a2)
    &&& zip_entry_data(a1) == zip_entry_data(a2)
    &&& forall|raw: Seq<u8>| zip_entry_readable(a1, raw) == zip_entry_readable(a2, raw)
}

/// Relies on `zip::ZipArchive::new`: parses the central directory of the
/// byte buffer, collecting the entries it lists, or fails on a malformed
/// archive; which of the two happens depends on the bytes alone.
#[verifier::external_body]
pub(crate) fn zip_open(data: Vec<u8>) -> (r: Result<ByteArchive, zip::result::ZipError>)
    ensures
        r is Ok <==> zip_parses(data@),
        r matches Ok(a) ==> zip_wf(a),
{
    zip::ZipArchive::new(std::io::Cursor::new(data))
}

/// Relies on `zip::ZipArchive::len`: the number of entries in the
/// archive, which is both the number of raw keys and of decoded names.
#[verifier::external_body]
pub(crate) fn zip_len(a: &ByteArchive) -> (r: usize)
    ensures
        r == zip_entry_names(*a).len(),
        r == zip_raw_names(*a).len(),
{
    a.len()
}

/// Relies on `zip::ZipArchive::name_for_index`: the name of the entry at
/// the given index, which is present for every index below `len`.
#[verifier::external_body]
pub(crate) fn zip_name_at(a: &ByteArchive, i: usize) -> (r: String)
    requires
        i < zip_entry_names(*a).len(),
    ensures
        r@ == zip_entry_names(*a)[i as int],
{
    a.name_for_index(i).unwrap().to_owned()
}

/// Relies on `zip::ZipArchive::by_name` and `std::io::Read::read_to_end`:
/// looks the argument's UTF-8 bytes up among the raw keys (absent keys
/// fail with `ZipError::FileNotFound`) and decompresses the entry's bytes;
/// whether that succeeds depends on the archive value and the key alone,
/// and reading leaves the entries as they were.
#[verifier::external_body]
pub(crate) fn zip_read_file(a: &mut ByteArchive, name: &str) -> (r: Result<
    Vec<u8>,
    zip::result::ZipError,
>)
    ensures
        same_zip(*old(a), *final(a)),
        r matches Ok(v) ==> v@ == zip_entry_data(*old(a))[encode_utf8(name@)],
        r is Ok <==> zip_entry_data(*old(a)).dom().contains(encode_utf8(name@))
            && zip_entry_readable(*old(a), encode_utf8(name@)),
{
    let mut file = a.by_name(name)?;
    let mut buffer = Vec::new();
    std::io::Read::read_to_end(&mut file, &mut buffer)?;
    Ok(buffer)
}

/// Relies on `zip::result::ZipError`'s `Display` impl: a human-readable
/// description of the failure.
#[verifier::external_body]
pub(crate) fn zip_error_message(e: &zip::result::ZipError) -> String {
    format!("{}", e)
}

/// Failures of the archive command set.
#[derive(Debug)]
pub enum ArchiverError {
    MissingArchiverHandle,
    MissingArchiver { resource: TResource },
}

impl ArchiverError {
    pub open spec fn spec_message(self) -> Seq<char> {
        match self {
            ArchiverError::MissingArchiverHandle => "Missing archiver resource handle"@,
            ArchiverError::MissingArchiver { resource } => "Missing archiver resource"@,
        }
    }

    pub fn message(&self) -> (r: String)
        ensures
            r@ == self.spec_message(),
    {
        match self {
            ArchiverError::MissingArchiverHandle => String::from_str(
                "Missing archiver resource handle",
            ),
            ArchiverError::MissingArchiver { resource } => String::from_str(
                "Missing archiver resource",
            ),
        }
    }
}

/// Parses an archive out of raw bytes and stores it as a resource,
/// returning the fresh handle; exactly the byte buffers the `zip` crate
/// accepts succeed, and a malformed archive fails with the crate's error.
pub fn open_zip(res: &mut ResourceManager, data: IcOpenZipArg) -> (r: Result<
    IcOpenZipRet,
    HandlerError,
>)
    requires
        old(res).wf(),
        old(res).next_id() < u64::MAX,
    ensures
        final(res).wf(),
        r is Ok <==> zip_parses(data.data@),
        match r {
            Ok(ret) => {
                &&& ret.data == Some(TResource { id: old(res).next_id() })
                &&& final(res).next_id() == old(res).next_id() + 1
                &&& final(res).table()[old(res).next_id()] matches ResourceValue::Archive(a)
                    && zip_wf(a)
                &&& final(res).table() == old(res).table().insert(
                    old(res).next_id(),
                    final(res).table()[old(res).next_id()],
                )
            },
            Err(e) => {
                &&& e is Zip
                &&& final(res).table() == old(res).table()
                &&& final(res).next_id() == old(res).next_id()
            },
        },
{
    match zip_open(data.data) {
        Ok(archive) => {
            let resource = res.allocate(ResourceValue::Archive(archive));
            Ok(IcOpenZipRet { data: Some(resource) })
        },
        Err(e) => Err(HandlerError::Zip(e)),
    }
}

/// Lists the entry paths of a stored archive, in archive order. Fails
/// when the argument carries no handle, and when the handle is absent or
/// does not refer to an archive; with a valid handle it always succeeds.
pub fn query_dir(res: &mut ResourceManager, data: IcQueryDirArg) -> (r: Result<
    IcQueryDirRet,
    HandlerError,
>)
    requires
        old(res).wf(),
    ensures
        final(res).wf(),
        final(res).table() == old(res).table(),
        final(res).next_id() == old(res).next_id(),
        match r {
            Ok(ret) => {
                &&& data.archiver matches Some(h)
                &&& old(res).table().contains_key(h.id)
                &&& old(res).table()[h.id] matches ResourceValue::Archive(a) && ret@
                    == zip_entry_names(a)
            },
            Err(e) => match e {
                HandlerError::Archiver(ArchiverError::MissingArchiverHandle) => data.archiver
                    is None,
                HandlerError::Archiver(ArchiverError::MissingArchiver { resource }) => {
                    &&& data.archiver == Some(resource)
                    &&& !(old(res).table().contains_key(resource.id) && old(res).table()[resource.id] is Archive)
                },
                _ => false,
            },
        },
        r is Ok <==> (data.archiver matches Some(h) && old(res).table().contains_key(h.id) && old(res).table()[h.id] is Archive),
{
    let handle = match data.archiver {
        Some(h) => h,
        None => {
            return Err(HandlerError::Archiver(ArchiverError::MissingArchiverHandle));
        },
    };
    let taken = res.take(&handle);
    match taken {
        Some(ResourceValue::Archive(archive)) => {
            let ghost a0 = archive;
            let len = zip_len(&archive);
            let mut items: Vec<QueryDirItem> = Vec::new();
            proof {
                assert(paths_view(items@) =~= zip_entry_names(a0).take(0));
            }
            for i in 0..len
                invariant
                    archive == a0,
                    len == zip_entry_names(a0).len(),
                    paths_view(items@) == zip_entry_names(a0).take(i as int),
            {
                let name = zip_name_at(&archive, i);
                let ghost prev = items@;
                items.push(QueryDirItem { path: name });
                proof {
                    assert(paths_view(items@) =~= paths_view(prev) + seq![items@.last()@]);
                    assert(zip_entry_names(a0).take(i + 1) =~= zip_entry_names(a0).take(
                        i as int,
                    ).push(zip_entry_names(a0)[i as int]));
                    assert(paths_view(prev) + seq![items@.last()@] =~= zip_entry_names(a0).take(
                        i + 1,
                    ));
                }
            }
            res.restore(&handle, ResourceValue::Archive(archive));
            proof {
                assert(res.table() =~= old(res).table());
                assert(zip_entry_names(a0).take(len as int) =~= zip_entry_names(a0));
            }
            Ok(IcQueryDirRet { items })
        },
        Some(other) => {
            res.restore(&handle, other);
            proof {
                assert(res.table() =~= old(res).table());
            }
            Err(HandlerError::Archiver(ArchiverError::MissingArchiver { resource: handle }))
        },
        None => {
            proof {
                assert(res.table() =~= old(res).table());
            }
            Err(HandlerError::Archiver(ArchiverError::MissingArchiver { resource: handle }))
        },
    }
}

/// Loads one entry of a stored archive by path into a fresh blob
/// resource, returning the blob handle. The call succeeds exactly when
/// the handle names a stored archive that holds a readable entry under
/// the path's UTF-8 bytes; a path that is not among the raw keys fails
/// with the `zip` crate's not-found error.
pub fn load_file(res: &mut ResourceManager, data: IcLoadFileArg) -> (r: Result<
    IcLoadFileRet,
    HandlerError,
>)
    requires
        old(res).wf(),
        old(res).next_id() < u64::MAX,
    ensures
        final(res).wf(),
        r is Ok <==> (data.archiver matches Some(h) && (old(res).table().contains_key(h.id)
            && (old(res).table()[h.id] matches ResourceValue::Archive(a)
            && zip_entry_data(a).dom().contains(encode_utf8(data.path@))
            && zip_entry_readable(a, encode_utf8(data.path@))))),
        match r {
            Ok(ret) => {
                &&& data.archiver matches Some(h)
                &&& old(res).table().contains_key(h.id)
                &&& old(res).table()[h.id] matches ResourceValue::Archive(a) && (final(res).table()[
                    old(res).next_id()
                ] matches ResourceValue::Blob(b) && b@ == zip_entry_data(a)[encode_utf8(
                    data.path@,
                )]) && (final(res).table()[h.id] matches ResourceValue::Archive(a2) && same_zip(
                    a,
                    a2,
                )) && final(res).table() == old(res).table().insert(
                    h.id,
                    final(res).table()[h.id],
                ).insert(old(res).next_id(), final(res).table()[old(res).next_id()])
                &&& ret.data == Some(TBlobResource { id: old(res).next_id() })
                &&& final(res).next_id() == old(res).next_id() + 1
            },
            Err(e) => {
                &&& final(res).next_id() == old(res).next_id()
                &&& match e {
                    HandlerError::Archiver(ArchiverError::MissingArchiverHandle) => data.archiver
                        is None && final(res).table() == old(res).table(),
                    HandlerError::Archiver(ArchiverError::MissingArchiver { resource }) => {
                        &&& data.archiver == Some(resource)
                        &&& !(old(res).table().contains_key(resource.id) && old(res).table()[resource.id] is Archive)
                        &&& final(res).table() == old(res).table()
                    },
                    HandlerError::Zip(_) => {
                        &&& data.archiver matches Some(h)
                        &&& old(res).table().contains_key(h.id)
                        &&& old(res).table()[h.id] matches ResourceValue::Archive(a) && (final(res).table()[h.id] matches ResourceValue::Archive(a2) && same_zip(a, a2))
                            && final(res).table() == old(res).table().insert(
                            h.id,
                            final(res).table()[h.id],
                        )
                    },
                    _ => false,
                }
            },
        },
{
    let handle = match data.archiver {
        Some(h) => h,
        None => {
            return Err(HandlerError::Archiver(ArchiverError::MissingArchiverHandle));
        },
    };
    let taken = res.take(&handle);
    match taken {
        Some(ResourceValue::Archive(mut archive)) => {
            let ghost a0 = archive;
            let read = zip_read_file(&mut archive, data.path.as_str());
            res.restore(&handle, ResourceValue::Archive(archive));
            match read {
                Ok(buffer) => {
                    let resource = res.allocate_blob(buffer);
                    proof {
                        assert(res.table() =~= old(res).table().insert(
                            handle.id,
                            res.table()[handle.id],
                        ).insert(old(res).next_id(), res.table()[old(res).next_id()]));
                    }
                    Ok(IcLoadFileRet { data: Some(resource) })
                },
                Err(e) => {
                    proof {
                        assert(res.table() =~= old(res).table().insert(
                            handle.id,
                            res.table()[handle.id],
                        ));
                    }
                    Err(HandlerError::Zip(e))
                },
            }
        },
        Some(other) => {
            res.restore(&handle, other);
            proof {
                assert(res.table() =~= old(res).table());
            }
            Err(HandlerError::Archiver(ArchiverError::MissingArchiver { resource: handle }))
        },
        None => {
            proof {
                assert(res.table() =~= old(res).table());
            }
            Err(HandlerError::Archiver(ArchiverError::MissingArchiver { resource: handle }))
        },
    }
}

/// What dispatching `open_zip` on raw bytes does: the table before and
/// after, the raw argument, and the raw outcome.
pub open spec fn open_zip_post(
    t0: Map<u64, ResourceValue>,
    n0: u64,
    t1: Map<u64, ResourceValue>,
    n1: u64,
    arg: Seq<u8>,
    r: Result<Seq<u8>, HandlerError>,
) -> bool {
    match spec_decode_bytes_msg(arg) {
        None => r == Result::<Seq<u8>, HandlerError>::Err(HandlerError::Decode) && t1 == t0 && n1
            == n0,
        Some(bytes) => if zip_parses(bytes) {
            r matches Ok(out) && {
                &&& t1[n0] matches ResourceValue::Archive(a) && zip_wf(a)
                &&& t1 == t0.insert(n0, t1[n0])
                &&& n1 == n0 + 1
                &&& out == enc_opt_handle_msg(Some(n0))
            }
        } else {
            r matches Err(e) && e is Zip && t1 == t0 && n1 == n0
        },
    }
}

/// What dispatching `query_dir` on raw bytes does.
pub open spec fn query_dir_post(
    t0: Map<u64, ResourceValue>,
    n0: u64,
    t1: Map<u64, ResourceValue>,
    n1: u64,
    arg: Seq<u8>,
    r: Result<Seq<u8>, HandlerError>,
) -> bool {
    &&& t1 == t0
    &&& n1 == n0
    &&& match spec_decode_opt_handle_msg(arg) {
        None => r == Result::<Seq<u8>, HandlerError>::Err(HandlerError::Decode),
        Some(o) => match o {
            None => r == Result::<Seq<u8>, HandlerError>::Err(
                HandlerError::Archiver(ArchiverError::MissingArchiverHandle),
            ),
            Some(id) => if t0.contains_key(id) && t0[id] is Archive {
                r matches Ok(out) && out == enc_query_dir_ret(zip_entry_names(t0[id]->Archive_0))
            } else {
                r == Result::<Seq<u8>, HandlerError>::Err(
                    HandlerError::Archiver(
                        ArchiverError::MissingArchiver { resource: TResource { id } },
                    ),
                )
            },
        },
    }
}

/// What dispatching `load_file` on raw bytes does.
pub open spec fn load_file_post(
    t0: Map<u64, ResourceValue>,
    n0: u64,
    t1: Map<u64, ResourceValue>,
    n1: u64,
    arg: Seq<u8>,
    r: Result<Seq<u8>, HandlerError>,
) -> bool {
    match spec_decode_load_file_arg(arg) {
        None => r == Result::<Seq<u8>, HandlerError>::Err(HandlerError::Decode) && t1 == t0 && n1
            == n0,
        Some(m) => match m.archiver {
            None => r == Result::<Seq<u8>, HandlerError>::Err(
                HandlerError::Archiver(ArchiverError::MissingArchiverHandle),
            ) && t1 == t0 && n1 == n0,
            Some(id) => if t0.contains_key(id) && t0[id] is Archive {
                let a = t0[id]->Archive_0;
                let raw = encode_utf8(m.path);
                if zip_entry_data(a).dom().contains(raw) && zip_entry_readable(a, raw) {
                    r matches Ok(out) && {
                        &&& t1[id] matches ResourceValue::Archive(a2) && same_zip(a, a2)
                        &&& t1[n0] matches ResourceValue::Blob(b) && b@ == zip_entry_data(a)[raw]
                        &&& t1 == t0.insert(id, t1[id]).insert(n0, t1[n0])
                        &&& n1 == n0 + 1
                        &&& out == enc_opt_handle_msg(Some(n0))
                    }
                } else {
                    r matches Err(e) && {
                        &&& e is Zip
                        &&& t1[id] matches ResourceValue::Archive(a2) && same_zip(a, a2)
                        &&& t1 == t0.insert(id, t1[id])
                        &&& n1 == n0
                    }
                }
            } else {
                r == Result::<Seq<u8>, HandlerError>::Err(
                    HandlerError::Archiver(
                        ArchiverError::MissingArchiver { resource: TResource { id } },
                    ),
                ) && t1 == t0 && n1 == n0
            },
        },
    }
}

/// Registers the archive command set.
pub fn setup_command(mgr: &mut CommandManager)
    ensures
        final(mgr).commands() == old(mgr).commands().insert(
            ("hol.archiver"@, "open_zip"@),
            CommandHandler::OpenZip,
        ).insert(("hol.archiver"@, "query_dir"@), CommandHandler::QueryDir).insert(
            ("hol.archiver"@, "load_file"@),
            CommandHandler::LoadFile,
        ),
{
    mgr.add("hol.archiver", "open_zip", CommandHandler::OpenZip);
    mgr.add("hol.archiver", "query_dir", CommandHandler::QueryDir);
    mgr.add("hol.archiver", "load_file", CommandHandler::LoadFile);
}

} // verus!
