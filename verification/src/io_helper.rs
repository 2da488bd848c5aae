//! The container: a set of named entries packed into one byte string, and
//! the lookup of one entry in such a byte string. Reading the sources from
//! disk, writing the container to disk and removing the sources belong to
//! the caller; this module works on bytes in memory. The order in which the
//! caller is to do these things is laid down in `archive_job`.

use crate::error::ArchiveError;
use crate::text::base_name;
use crate::text::path_base_name;
use crate::zip_store::archive_contents;
use crate::zip_store::archive_names;
use crate::zip_store::entry_is_handed_out;
use crate::zip_store::finish_writer;
use crate::zip_store::new_writer;
use crate::zip_store::open_archive;
use crate::zip_store::parsed_container;
use crate::zip_store::read_archive_entry;
use crate::zip_store::start_stored_file;
use crate::zip_store::stored_container;
use crate::zip_store::write_file_data;
use crate::zip_store::writer_closed;
use crate::zip_store::writer_entries;
use crate::zip_store::MAX_ENTRY_LEN;
use vstd::prelude::*;

verus! {

/// A file to be packed: where it lies, and what it holds.
pub struct SourceFile {
    pub path: String,
    pub contents: Vec<u8>,
}

/// One entry of a container: its name and its bytes.
pub struct ArchiveEntry<'a> {
    pub name: String,
    pub bytes: &'a [u8],
}

impl<'a> View for ArchiveEntry<'a> {
    type V = (Seq<char>, Seq<u8>);

    open spec fn view(&self) -> (Seq<char>, Seq<u8>) {
        (self.name@, self.bytes@)
    }
}

/// The entries as names and bytes, in their order.
pub open spec fn entry_views(entries: Seq<ArchiveEntry>) -> Seq<(Seq<char>, Seq<u8>)> {
    Seq::new(entries.len(), |i: int| entries[i]@)
}

/// The names as character sequences, in their order.
pub open spec fn name_views(names: Seq<String>) -> Seq<Seq<char>> {
    Seq::new(names.len(), |i: int| names[i]@)
}

/// The names of the entries, in their order.
pub open spec fn entry_names(entries: Seq<(Seq<char>, Seq<u8>)>) -> Seq<Seq<char>> {
    Seq::new(entries.len(), |i: int| entries[i].0)
}

/// No name occurs twice.
pub open spec fn names_distinct(names: Seq<Seq<char>>) -> bool {
    forall|i: int, j: int| 0 <= i < j < names.len() ==> names[i] != names[j]
}

/// The contents of the sources, in their order.
pub open spec fn contents_of(sources: Seq<SourceFile>) -> Seq<Seq<u8>> {
    Seq::new(sources.len(), |i: int| sources[i].contents@)
}

/// The contents as entries under the given names: entry `i` has name `i`
/// and contents `i`.
pub open spec fn named_contents(names: Seq<Seq<char>>, contents: Seq<Seq<u8>>) -> Seq<
    (Seq<char>, Seq<u8>),
> {
    Seq::new(contents.len(), |i: int| (names[i], contents[i]))
}

/// The sources as entries under the given names: entry `i` has name `i` and
/// the contents of source `i`.
pub open spec fn named_sources(names: Seq<Seq<char>>, sources: Seq<SourceFile>) -> Seq<
    (Seq<char>, Seq<u8>),
> {
    named_contents(names, contents_of(sources))
}

/// Whether every entry is short enough for the writer.
pub open spec fn entries_fit(entries: Seq<(Seq<char>, Seq<u8>)>) -> bool {
    forall|i: int| 0 <= i < entries.len() ==> (#[trigger] entries[i]).1.len() <= MAX_ENTRY_LEN
}

/// What packing the entries gives: their container, or `None` where an
/// entry is too long for the writer.
pub open spec fn container_of(entries: Seq<(Seq<char>, Seq<u8>)>) -> Option<Seq<u8>> {
    if entries_fit(entries) {
        Some(stored_container(entries))
    } else {
        None
    }
}

/// The base names of the sources' paths, in their order.
pub open spec fn base_names(sources: Seq<SourceFile>) -> Seq<Option<Seq<char>>> {
    Seq::new(sources.len(), |i: int| path_base_name(sources[i].path@))
}

/// A base name as characters.
pub open spec fn base_view(base: Option<String>) -> Option<Seq<char>> {
    match base {
        Some(name) => Some(name@),
        None => None,
    }
}

/// The names under which the sources enter a container, given for each
/// source the base name of its path (`None` where the path has none). The
/// sources are taken in order, each as `claim_name` takes it, and the first
/// one that is refused decides.
pub open spec fn claimed_names(bases: Seq<Option<Seq<char>>>) -> Result<
    Seq<Seq<char>>,
    ArchiveError,
>
    decreases bases.len(),
{
    if bases.len() == 0 {
        Ok(Seq::empty())
    } else {
        match claimed_names(bases.drop_last()) {
            Err(e) => Err(e),
            Ok(taken) => match bases.last() {
                None => Err(ArchiveError::Io),
                Some(name) => if taken.contains(name) {
                    Err(ArchiveError::DuplicateEntryName)
                } else {
                    Ok(taken.push(name))
                },
            },
        }
    }
}

/// What packing sources of these base names and contents gives: the
/// container of the contents under the names claimed, the failure of the
/// first source that gets no name, or `Io` where a source is too long for
/// the writer.
pub open spec fn archive_outcome(bases: Seq<Option<Seq<char>>>, contents: Seq<Seq<u8>>) -> Result<
    Seq<u8>,
    ArchiveError,
> {
    match claimed_names(bases) {
        Err(e) => Err(e),
        Ok(names) => match container_of(named_contents(names, contents)) {
            Some(bytes) => Ok(bytes),
            None => Err(ArchiveError::Io),
        },
    }
}

/// Whether a result is this outcome.
pub open spec fn is_outcome(r: Result<Vec<u8>, ArchiveError>, outcome: Result<Seq<u8>, ArchiveError>) -> bool {
    match r {
        Ok(bytes) => outcome == Ok::<Seq<u8>, ArchiveError>(bytes@),
        Err(e) => outcome == Err::<Seq<u8>, ArchiveError>(e),
    }
}

/// What looking a name up gives, in what `parsed_container` makes of a byte
/// string: the entry's bytes; `Format` where the bytes are no container or
/// the entry cannot be read back; `EntryNotFound` where no entry has exactly
/// this name.
pub open spec fn entry_lookup(
    parsed: Option<Map<Seq<char>, Option<Seq<u8>>>>,
    name: Seq<char>,
) -> Result<Seq<u8>, ArchiveError> {
    match parsed {
        None => Err(ArchiveError::Format),
        Some(contents) => if !contents.dom().contains(name) {
            Err(ArchiveError::EntryNotFound)
        } else {
            match contents[name] {
                Some(bytes) => Ok(bytes),
                None => Err(ArchiveError::Format),
            }
        },
    }
}

/// Whether the list holds exactly this name. The comparison is by
/// characters, so it tells upper case from lower case.
pub fn contains_name(names: &Vec<String>, wanted: &String) -> (found: bool)
    ensures
        found == name_views(names@).contains(wanted@),
{
    let mut i: usize = 0;
    while i < names.len()
        invariant
            i <= names@.len(),
            forall|k: int| 0 <= k < i ==> name_views(names@)[k] != wanted@,
        decreases names@.len() - i,
    {
        if names[i] == *wanted {
            assert(name_views(names@)[i as int] == wanted@);
            return true;
        }
        i += 1;
    }
    false
}

/// The name under which a source enters the container, given the names
/// already taken and the base name of the source's path (`None` where the
/// path has none). A source without a base name cannot be read as a file
/// and is refused with `Io`; a name that is already taken is refused with
/// `DuplicateEntryName`; any other name is accepted as it is.
pub fn claim_name(taken: &Vec<String>, base: Option<String>) -> (r: Result<String, ArchiveError>)
    ensures
        match base {
            None => r == Err::<String, ArchiveError>(ArchiveError::Io),
            Some(name) => if name_views(taken@).contains(name@) {
                r == Err::<String, ArchiveError>(ArchiveError::DuplicateEntryName)
            } else {
                r == Ok::<String, ArchiveError>(name)
            },
        },
{
    match base {
        None => Err(ArchiveError::Io),
        Some(name) => {
            if contains_name(taken, &name) {
                Err(ArchiveError::DuplicateEntryName)
            } else {
                Ok(name)
            }
        },
    }
}

/// Writes the entries, in their order and uncompressed, into a container:
/// each entry is started under its name and given its bytes, and the writer
/// is finished after the last. `None` where an entry is too long for the
/// writer.
fn write_entries(entries: &Vec<ArchiveEntry>) -> (r: Option<Vec<u8>>)
    ensures
        match r {
            Some(bytes) => container_of(entry_views(entries@)) == Some(bytes@),
            None => container_of(entry_views(entries@)) is None,
        },
{
    let ghost all = entry_views(entries@);
    let mut writer = new_writer();
    let mut i: usize = 0;
    while i < entries.len()
        invariant
            i <= entries@.len(),
            all == entry_views(entries@),
            !writer_closed(writer),
            writer_entries(writer) == all.take(i as int),
            entries_fit(all.take(i as int)),
        decreases entries@.len() - i,
    {
        let ghost before = all.take(i as int);
        let ghost started = before.push((all[i as int].0, Seq::<u8>::empty()));
        if !start_stored_file(&mut writer, entries[i].name.as_str()) {
            return None;
        }
        if !write_file_data(&mut writer, entries[i].bytes) {
            assert(all[i as int].1.len() > MAX_ENTRY_LEN);
            return None;
        }
        proof {
            assert(started.drop_last() == before);
            assert(Seq::<u8>::empty() + all[i as int].1 == all[i as int].1);
            assert(writer_entries(writer) == all.take(i + 1));
            assert forall|k: int| 0 <= k < all.take(i + 1).len() implies (#[trigger] all.take(
                i + 1,
            )[k]).1.len() <= MAX_ENTRY_LEN by {
                if k < i {
                    assert(all.take(i + 1)[k] == before[k]);
                }
            }
        }
        i += 1;
    }
    assert(all.take(i as int) == all);
    finish_writer(writer)
}

/// Packs the entries, in their order and uncompressed, into one container.
///
/// Fails with `DuplicateEntryName`, before anything is written, exactly when
/// two entries have the same name. Otherwise the call succeeds with the
/// container of these entries, unless an entry is longer than
/// `MAX_ENTRY_LEN`: then it fails with `Io`.
pub fn store_entries(entries: &Vec<ArchiveEntry>) -> (r: Result<Vec<u8>, ArchiveError>)
    ensures
        !names_distinct(entry_names(entry_views(entries@))) ==> r == Err::<Vec<u8>, ArchiveError>(
            ArchiveError::DuplicateEntryName,
        ),
        names_distinct(entry_names(entry_views(entries@))) ==> match r {
            Ok(bytes) => container_of(entry_views(entries@)) == Some(bytes@),
            Err(e) => e == ArchiveError::Io && container_of(entry_views(entries@)) is None,
        },
{
    let mut names: Vec<String> = Vec::new();
    let mut i: usize = 0;
    while i < entries.len()
        invariant
            i <= entries@.len(),
            name_views(names@) == entry_names(entry_views(entries@)).take(i as int),
            names_distinct(name_views(names@)),
        decreases entries@.len() - i,
    {
        if contains_name(&names, &entries[i].name) {
            proof {
                let all = entry_names(entry_views(entries@));
                let k = choose|k: int|
                    0 <= k < name_views(names@).len() && name_views(names@)[k] == entries@[i as int].name@;
                assert(all[k] == all[i as int]);
            }
            return Err(ArchiveError::DuplicateEntryName);
        }
        names.push(entries[i].name.clone());
        assert(name_views(names@) == entry_names(entry_views(entries@)).take(i + 1));
        i += 1;
    }
    assert(entry_names(entry_views(entries@)).take(i as int) == entry_names(
        entry_views(entries@),
    ));
    match write_entries(entries) {
        Some(bytes) => Ok(bytes),
        None => Err(ArchiveError::Io),
    }
}

/// Packs the sources under the given names, in their order and
/// uncompressed, into a container: source `i` becomes the entry of name `i`.
/// `None` where a source is too long for the writer.
pub(crate) fn pack(names: &Vec<String>, sources: &Vec<SourceFile>) -> (r: Option<Vec<u8>>)
    requires
        names@.len() == sources@.len(),
    ensures
        match r {
            Some(bytes) => container_of(named_sources(name_views(names@), sources@)) == Some(
                bytes@,
            ),
            None => container_of(named_sources(name_views(names@), sources@)) is None,
        },
{
    let mut entries: Vec<ArchiveEntry> = Vec::new();
    let mut i: usize = 0;
    while i < sources.len()
        invariant
            i <= sources@.len(),
            names@.len() == sources@.len(),
            entry_views(entries@) == named_sources(name_views(names@), sources@).take(i as int),
        decreases sources@.len() - i,
    {
        let ghost packed = entry_views(entries@);
        entries.push(ArchiveEntry { name: names[i].clone(), bytes: sources[i].contents.as_slice() });
        assert(entry_views(entries@) == packed.push((names@[i as int]@, sources@[i as int].contents@)));
        assert(entry_views(entries@) == named_sources(name_views(names@), sources@).take(i + 1));
        i += 1;
    }
    assert(named_sources(name_views(names@), sources@).take(i as int) == named_sources(
        name_views(names@),
        sources@,
    ));
    write_entries(&entries)
}

/// Once a source is refused, the sources after it change nothing.
proof fn lemma_first_refusal_decides(bases: Seq<Option<Seq<char>>>, upto: int)
    requires
        0 <= upto <= bases.len(),
        claimed_names(bases.take(upto)) is Err,
    ensures
        claimed_names(bases) == claimed_names(bases.take(upto)),
    decreases bases.len(),
{
    if upto == bases.len() {
        assert(bases.take(upto) == bases);
    } else {
        assert(bases.drop_last().take(upto) == bases.take(upto));
        lemma_first_refusal_decides(bases.drop_last(), upto);
    }
}

/// The names claimed are as many as the sources, and no two are the same.
pub proof fn lemma_claimed_names_are_distinct(bases: Seq<Option<Seq<char>>>)
    requires
        claimed_names(bases) is Ok,
    ensures
        claimed_names(bases)->Ok_0.len() == bases.len(),
        names_distinct(claimed_names(bases)->Ok_0),
    decreases bases.len(),
{
    if bases.len() > 0 {
        lemma_claimed_names_are_distinct(bases.drop_last());
        let taken = claimed_names(bases.drop_last())->Ok_0;
        let names = claimed_names(bases)->Ok_0;
        assert forall|i: int, j: int| 0 <= i < j < names.len() implies names[i] != names[j] by {
            if j == taken.len() {
                assert(taken[i] == names[i]);
                assert(taken.contains(taken[i]));
            } else {
                assert(taken[i] == names[i] && taken[j] == names[j]);
            }
        }
    }
}

/// Packing fails on a duplicate name only where there are at least two
/// sources.
pub proof fn lemma_duplicate_needs_two_sources(
    bases: Seq<Option<Seq<char>>>,
    contents: Seq<Seq<u8>>,
)
    requires
        archive_outcome(bases, contents) == Err::<Seq<u8>, ArchiveError>(
            ArchiveError::DuplicateEntryName,
        ),
    ensures
        bases.len() >= 2,
    decreases bases.len(),
{
    if bases.len() > 0 {
        let before = bases.drop_last();
        if claimed_names(before) is Err {
            lemma_duplicate_needs_two_sources(before, contents);
        } else {
            lemma_claimed_names_are_distinct(before);
            let taken = claimed_names(before)->Ok_0;
            assert(taken.contains(bases.last()->Some_0));
        }
    }
}

/// Packs the sources, in their order and uncompressed, into one container.
/// Each entry is named by the base name of its source's path.
///
/// The sources are taken in order. The first one whose path has no base name
/// ends the call with `Io`, the first one whose base name an earlier source
/// already has ends it with `DuplicateEntryName`. Where every source gets a
/// name, the call succeeds with the container of the sources under these
/// names, unless a source is longer than `MAX_ENTRY_LEN`: then it fails with
/// `Io`. For no sources it succeeds with the container of no entries. The
/// sources themselves are not touched.
pub fn generate_archive(sources: &Vec<SourceFile>) -> (r: Result<Vec<u8>, ArchiveError>)
    ensures
        is_outcome(r, archive_outcome(base_names(sources@), contents_of(sources@))),
        sources@.len() == 0 ==> (r matches Ok(bytes) && bytes@ == stored_container(
            Seq::<(Seq<char>, Seq<u8>)>::empty(),
        )),
{
    let ghost bases = base_names(sources@);
    let mut names: Vec<String> = Vec::new();
    assert(name_views(names@) == Seq::<Seq<char>>::empty());
    assert(bases.take(0) == Seq::<Option<Seq<char>>>::empty());
    let mut i: usize = 0;
    while i < sources.len()
        invariant
            i <= sources@.len(),
            names@.len() == i,
            bases == base_names(sources@),
            claimed_names(bases.take(i as int)) == Ok::<Seq<Seq<char>>, ArchiveError>(
                name_views(names@),
            ),
        decreases sources@.len() - i,
    {
        let base = base_name(sources[i].path.as_str());
        let ghost taken = name_views(names@);
        proof {
            assert(bases.take(i + 1).drop_last() == bases.take(i as int));
            assert(bases.take(i + 1).last() == base_view(base));
        }
        let name = match claim_name(&names, base) {
            Ok(name) => name,
            Err(e) => {
                proof {
                    lemma_first_refusal_decides(bases, i + 1);
                }
                return Err(e);
            },
        };
        names.push(name);
        assert(name_views(names@) == taken.push(name@));
        i += 1;
    }
    assert(bases.take(i as int) == bases);
    let r = match pack(&names, sources) {
        Some(bytes) => Ok(bytes),
        None => Err(ArchiveError::Io),
    };
    proof {
        if sources@.len() == 0 {
            assert(named_sources(name_views(names@), sources@) == Seq::<
                (Seq<char>, Seq<u8>),
            >::empty());
        }
    }
    r
}

/// Looks an entry up by its exact name in a container and returns its bytes.
///
/// Fails with `Format` where the bytes are not a well-formed container, with
/// `EntryNotFound` where no entry has exactly this name, and with `Format`
/// where the entry is listed but cannot be read back: where it is encrypted
/// or compressed, or its bytes fail their checksum.
pub fn read_from_archive(container: Vec<u8>, entry_name: &str) -> (r: Result<
    Vec<u8>,
    ArchiveError,
>)
    ensures
        match r {
            Ok(bytes) => entry_lookup(parsed_container(container@), entry_name@) == Ok::<
                Seq<u8>,
                ArchiveError,
            >(bytes@),
            Err(e) => entry_lookup(parsed_container(container@), entry_name@) == Err::<
                Seq<u8>,
                ArchiveError,
            >(e),
        },
{
    let mut archive = match open_archive(container) {
        Some(archive) => archive,
        None => {
            return Err(ArchiveError::Format);
        },
    };
    let names = archive_names(&archive);
    let wanted = entry_name.to_owned();
    let ghost contents = archive_contents(archive);
    if !contains_name(&names, &wanted) {
        assert(!contents.dom().contains(entry_name@)) by {
            if contents.dom().contains(entry_name@) {
                let k = choose|k: int| 0 <= k < names@.len() && names@[k]@ == entry_name@;
                assert(name_views(names@)[k] == wanted@);
            }
        }
        return Err(ArchiveError::EntryNotFound);
    }
    assert(contents.dom().contains(entry_name@)) by {
        let k = choose|k: int|
            0 <= k < name_views(names@).len() && name_views(names@)[k] == wanted@;
        assert(contents.dom().contains(names@[k]@));
    }
    if !entry_is_handed_out(&mut archive, entry_name) {
        return Err(ArchiveError::Format);
    }
    match read_archive_entry(&mut archive, entry_name) {
        Some(bytes) => Ok(bytes),
        None => Err(ArchiveError::Format),
    }
}

/// How many of the flags are set.
pub open spec fn count_set(flags: Seq<bool>) -> nat
    decreases flags.len(),
{
    if flags.len() == 0 {
        0
    } else {
        count_set(flags.drop_last()) + if flags.last() {
            1nat
        } else {
            0nat
        }
    }
}

/// A beginning of a list of flags has no more flags set than the list.
proof fn lemma_count_set_grows(flags: Seq<bool>, upto: int)
    requires
        0 <= upto <= flags.len(),
    ensures
        count_set(flags.take(upto)) <= count_set(flags),
    decreases flags.len(),
{
    if upto == flags.len() {
        assert(flags.take(upto) == flags);
    } else {
        lemma_count_set_grows(flags.drop_last(), upto);
        assert(flags.drop_last().take(upto) == flags.take(upto));
    }
}

/// The number of regular files in a directory, given for each entry of the
/// directory whether it is a regular file.
pub fn file_count_in_directory(is_file: &Vec<bool>) -> (count: i32)
    requires
        count_set(is_file@) <= i32::MAX,
    ensures
        count == count_set(is_file@),
{
    let mut count: i32 = 0;
    let mut i: usize = 0;
    while i < is_file.len()
        invariant
            i <= is_file@.len(),
            count == count_set(is_file@.take(i as int)),
            count_set(is_file@) <= i32::MAX,
        decreases is_file@.len() - i,
    {
        proof {
            lemma_count_set_grows(is_file@, i + 1);
            assert(is_file@.take(i + 1).drop_last() == is_file@.take(i as int));
        }
        if is_file[i] {
            count += 1;
        }
        i += 1;
    }
    assert(is_file@.take(i as int) == is_file@);
    count
}

} // verus!
