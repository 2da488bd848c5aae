//! The `zip` crate, as far as the container logic calls it. Nothing in this
//! file is proved: each contract states what the crate's source shows, and
//! the verified code in `io_helper` rests on it.

use std::io::Cursor;
use std::io::Read;
use std::io::Write;
use vstd::prelude::*;
use zip::write::FileOptions;
use zip::CompressionMethod;
use zip::ZipArchive;
use zip::ZipWriter;

verus! {

#[verifier::external_type_specification]
#[verifier::external_body]
#[verifier::reject_recursive_types(T)]
pub struct ExCursor<T>(Cursor<T>);

#[verifier::external_type_specification]
#[verifier::external_body]
#[verifier::reject_recursive_types(R)]
pub struct ExZipArchive<R>(ZipArchive<R>);

/// A `zip::ZipWriter` that writes into a buffer in memory. The writer's own
/// type is bounded by `std::io::Write` and `std::io::Seek`, which the verifier
/// does not know, so it is held here behind a field that the verifier does
/// not read.
#[verifier::external_body]
pub struct StoreWriter {
    inner: ZipWriter<Cursor<Vec<u8>>>,
}

/// The longest entry that the writer takes, in bytes.
pub const MAX_ENTRY_LEN: u64 = 0xFFFF_FFFF;

/// The entries that a writer has taken so far, in the order in which they
/// were started: each a name and the bytes written to it.
pub uninterp spec fn writer_entries(w: StoreWriter) -> Seq<(Seq<char>, Seq<u8>)>;

/// Whether the writer has closed itself, as it does when an entry grows past
/// `MAX_ENTRY_LEN`. A closed writer starts no entry and cannot be finished.
pub uninterp spec fn writer_closed(w: StoreWriter) -> bool;

/// The bytes of the container that `ZipWriter::finish` leaves in the buffer
/// for a writer that holds these entries, each started with the default
/// options and the stored method. The bytes rest on the entries alone
/// because the crate is built without its `time` feature: the default
/// options then carry a fixed date, where they would otherwise read the
/// clock.
pub uninterp spec fn stored_container(entries: Seq<(Seq<char>, Seq<u8>)>) -> Seq<u8>;

/// What an opened archive holds: for each entry name the entry's bytes, or
/// `None` where the entry is listed but is not handed out or cannot be read
/// back.
pub uninterp spec fn archive_contents(a: ZipArchive<Cursor<Vec<u8>>>) -> Map<
    Seq<char>,
    Option<Seq<u8>>,
>;

/// The names of an opened archive whose entries `by_name_decrypt` hands out
/// under the empty password. Only for these may `by_name` be called: on an
/// entry that carries an encryption field without being marked encrypted it
/// unwraps a failure.
pub uninterp spec fn archive_handed_out(a: ZipArchive<Cursor<Vec<u8>>>) -> Set<Seq<char>>;

/// What `ZipArchive::new` makes of a byte string: the contents of the archive
/// it opens, or `None` where it refuses the bytes.
pub uninterp spec fn parsed_container(bytes: Seq<u8>) -> Option<Map<Seq<char>, Option<Seq<u8>>>>;

/// `ZipWriter::new` over an empty buffer in memory. The new writer has no
/// entries and is not closed.
#[verifier::external_body]
pub(crate) fn new_writer() -> (w: StoreWriter)
    ensures
        writer_entries(w) == Seq::<(Seq<char>, Seq<u8>)>::empty(),
        !writer_closed(w),
{
    StoreWriter { inner: ZipWriter::new(Cursor::new(Vec::new())) }
}

/// `ZipWriter::start_file` with the default options and the stored method.
/// The writer works on a buffer in memory, where no write fails, so the call
/// fails only on a closed writer. Where it succeeds, the writer has one more
/// entry, of this name and still empty.
#[verifier::external_body]
pub(crate) fn start_stored_file(w: &mut StoreWriter, name: &str) -> (started: bool)
    ensures
        started == !writer_closed(*old(w)),
        writer_closed(*final(w)) == writer_closed(*old(w)),
        started ==> writer_entries(*final(w)) == writer_entries(*old(w)).push(
            (name@, Seq::<u8>::empty()),
        ),
{
    let options = FileOptions::default().compression_method(CompressionMethod::Stored);
    w.inner.start_file(name, options).is_ok()
}

/// `Write::write_all` on the writer. For no bytes at all it succeeds and
/// changes nothing. For other bytes it succeeds where the writer is not
/// closed, an entry has been started and the entry stays within
/// `MAX_ENTRY_LEN`; the bytes are then appended to the last entry. A call
/// that succeeds does not close the writer.
#[verifier::external_body]
pub(crate) fn write_file_data(w: &mut StoreWriter, data: &[u8]) -> (written: bool)
    ensures
        written == (data@.len() == 0 || (!writer_closed(*old(w)) && writer_entries(*old(w)).len()
            > 0 && writer_entries(*old(w)).last().1.len() + data@.len() <= MAX_ENTRY_LEN)),
        written ==> writer_closed(*final(w)) == writer_closed(*old(w)),
        written && writer_entries(*old(w)).len() > 0 ==> writer_entries(*final(w))
            == writer_entries(*old(w)).drop_last().push(
            (writer_entries(*old(w)).last().0, writer_entries(*old(w)).last().1 + data@),
        ),
        written && writer_entries(*old(w)).len() == 0 ==> writer_entries(*final(w))
            == writer_entries(*old(w)),
{
    w.inner.write_all(data).is_ok()
}

/// `ZipWriter::finish`, and the buffer taken out of the cursor it returns.
/// It fails only on a closed writer; otherwise the bytes are the container
/// of the writer's entries.
#[verifier::external_body]
pub(crate) fn finish_writer(w: StoreWriter) -> (r: Option<Vec<u8>>)
    ensures
        r is Some <==> !writer_closed(w),
        r matches Some(bytes) ==> bytes@ == stored_container(writer_entries(w)),
{
    let mut w = w;
    w.inner.finish().ok().map(|cursor| cursor.into_inner())
}

/// `ZipArchive::new` over the bytes in memory. It reads the central
/// directory; the archive it returns holds what `parsed_container` names.
#[verifier::external_body]
pub(crate) fn open_archive(container: Vec<u8>) -> (r: Option<ZipArchive<Cursor<Vec<u8>>>>)
    ensures
        match r {
            Some(a) => parsed_container(container@) == Some(archive_contents(a)),
            None => parsed_container(container@) is None,
        },
{
    ZipArchive::new(Cursor::new(container)).ok()
}

/// `ZipArchive::file_names`, each name copied into a `String`. The crate walks
/// a hash map, so the order is not stated: every name handed out is an entry
/// name of the archive, and every entry name of the archive is handed out.
#[verifier::external_body]
pub(crate) fn archive_names(a: &ZipArchive<Cursor<Vec<u8>>>) -> (names: Vec<String>)
    ensures
        forall|i: int|
            0 <= i < names@.len() ==> archive_contents(*a).dom().contains(#[trigger] names@[i]@),
        forall|n: Seq<char>| #[trigger]
            archive_contents(*a).dom().contains(n) ==> exists|i: int|
                0 <= i < names@.len() && #[trigger] names@[i]@ == n,
{
    a.file_names().map(String::from).collect()
}

/// `ZipArchive::by_name_decrypt` with the empty password, asked only whether
/// it hands the entry out. An entry that it does not hand out has no bytes
/// in what the archive holds. The archive holds afterwards what it held.
#[verifier::external_body]
pub(crate) fn entry_is_handed_out(a: &mut ZipArchive<Cursor<Vec<u8>>>, name: &str) -> (handed_out:
    bool)
    ensures
        handed_out == archive_handed_out(*old(a)).contains(name@),
        !handed_out && archive_contents(*old(a)).dom().contains(name@) ==> archive_contents(
            *old(a),
        )[name@] is None,
        archive_contents(*final(a)) == archive_contents(*old(a)),
        archive_handed_out(*final(a)) == archive_handed_out(*old(a)),
{
    matches!(a.by_name_decrypt(name, &[]), Ok(Ok(_)))
}

/// `ZipArchive::by_name`, and the entry read to its end. It refuses an entry
/// that is marked encrypted. The bytes come back where the name is listed
/// and the entry can be read; the archive holds afterwards what it held.
/// `by_name` panics on an entry that `by_name_decrypt` does not hand out for
/// want of a password, which is why the call is for names that are handed
/// out.
#[verifier::external_body]
pub(crate) fn read_archive_entry(a: &mut ZipArchive<Cursor<Vec<u8>>>, name: &str) -> (r: Option<
    Vec<u8>,
>)
    requires
        archive_handed_out(*old(a)).contains(name@),
    ensures
        archive_contents(*final(a)) == archive_contents(*old(a)),
        archive_handed_out(*final(a)) == archive_handed_out(*old(a)),
        match r {
            Some(data) => archive_contents(*old(a)).dom().contains(name@) && archive_contents(
                *old(a),
            )[name@] == Some(data@),
            None => !archive_contents(*old(a)).dom().contains(name@) || archive_contents(
                *old(a),
            )[name@] is None,
        },
{
    let mut file = a.by_name(name).ok()?;
    let mut data = Vec::new();
    file.read_to_end(&mut data).ok()?;
    Some(data)
}

} // verus!
