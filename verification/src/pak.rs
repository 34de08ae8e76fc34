//! Unpacking a PAK archive: the header and the file list are read, then each
//! entry's payload is found, read, decompressed where it is compressed, and
//! given the path it is written to.

use crate::error::{ErrorKind, PakError, Stage};
use crate::format::{
    entry_models, failure, file_list_at, header_at, read_file_list, read_version, signature,
    version_at, EntryModel, FileEntry, HeaderModel, PackHeader,
};
use crate::le::ByteReader;
use crate::lz4::{decompress_exact, decompressed};
use crate::path::{directory_of, leaf_of, split_name};
use vstd::prelude::*;
use vstd::slice::slice_to_vec;

verus! {

/// A file unpacked from an archive, with its place below the extraction root.
#[derive(Clone, Debug, PartialEq, Eq)]
pub struct ExtractedFile {
    /// The directory that the file lies in, relative to the root; empty for
    /// the root itself.
    pub directory: String,
    /// The name of the file in that directory.
    pub file_name: String,
    /// The bytes of the file.
    pub contents: Vec<u8>,
}

/// What an `ExtractedFile` holds.
pub struct FileModel {
    pub directory: Seq<char>,
    pub file_name: Seq<char>,
    pub contents: Seq<u8>,
}

impl View for ExtractedFile {
    type V = FileModel;

    open spec fn view(&self) -> FileModel {
        FileModel {
            directory: self.directory@,
            file_name: self.file_name@,
            contents: self.contents@,
        }
    }
}

/// The result of unpacking the entries of an archive.
#[derive(Clone, Debug, PartialEq, Eq)]
pub struct Extraction {
    /// One outcome for each entry that was gone through, in the order of the
    /// file list: the file, or the failure for which the entry was given up.
    pub outcomes: Vec<Result<ExtractedFile, PakError>>,
    /// The failure that ended the run before the entry behind the last
    /// outcome, if there was one.
    pub fatal: Option<PakError>,
}

/// What an `Extraction` holds.
pub struct ExtractionModel {
    pub outcomes: Seq<Result<FileModel, PakError>>,
    pub fatal: Option<PakError>,
}

/// What an outcome holds.
pub open spec fn outcome_model(outcome: Result<ExtractedFile, PakError>) -> Result<
    FileModel,
    PakError,
> {
    match outcome {
        Ok(file) => Ok(file@),
        Err(e) => Err(e),
    }
}

/// What each of `outcomes` holds.
pub open spec fn outcome_models(outcomes: Seq<Result<ExtractedFile, PakError>>) -> Seq<
    Result<FileModel, PakError>,
> {
    Seq::new(outcomes.len(), |i: int| outcome_model(outcomes[i]))
}

impl View for Extraction {
    type V = ExtractionModel;

    open spec fn view(&self) -> ExtractionModel {
        ExtractionModel { outcomes: outcome_models(self.outcomes@), fatal: self.fatal }
    }
}

/// The header and the file list of the archive `a`.
pub open spec fn index_of(a: Seq<u8>) -> Result<(HeaderModel, Seq<EntryModel>), PakError> {
    match version_at(a, 0) {
        Err(e) => Err(e),
        Ok(version) => match header_at(a, 8, version) {
            Err(e) => Err(e),
            Ok(header) => match file_list_at(a, header.file_list_offset) {
                Err(e) => Err(e),
                Ok(entries) => Ok((header, entries)),
            },
        },
    }
}

/// The bytes that `entry` unpacks to: `size_on_disk` bytes at its offset,
/// taken as they are where `uncompressed_size` is 0 and else decompressed to
/// exactly `uncompressed_size` bytes.
pub open spec fn payload_of(a: Seq<u8>, entry: EntryModel) -> Result<Seq<u8>, ErrorKind> {
    if a.len() - entry.offset() < entry.size_on_disk {
        Err(ErrorKind::Truncation)
    } else if entry.uncompressed_size == 0 {
        Ok(a.subrange(entry.offset(), entry.offset() + entry.size_on_disk))
    } else {
        match decompressed(
            a.subrange(entry.offset(), entry.offset() + entry.size_on_disk),
            entry.uncompressed_size as nat,
        ) {
            Some(contents) => Ok(contents),
            None => Err(ErrorKind::Decompression),
        }
    }
}

/// The file that the entry with index `index` unpacks to.
pub open spec fn unpacked_entry(a: Seq<u8>, entry: EntryModel, index: usize) -> Result<
    FileModel,
    PakError,
> {
    match payload_of(a, entry) {
        Ok(contents) => Ok(
            FileModel {
                directory: directory_of(entry.name),
                file_name: leaf_of(entry.name),
                contents,
            },
        ),
        Err(kind) => Err(failure(kind, Stage::Entry(index))),
    }
}

/// The result of going through the first `n` of `entries` in their order. An
/// entry whose payload does not decompress is given up and the run goes on;
/// any other failure ends the run at that entry.
pub open spec fn extraction_of(a: Seq<u8>, entries: Seq<EntryModel>, n: nat) -> ExtractionModel
    decreases n,
{
    if n == 0 {
        ExtractionModel { outcomes: Seq::empty(), fatal: None }
    } else {
        let before = extraction_of(a, entries, (n - 1) as nat);
        let outcome = unpacked_entry(a, entries[n - 1], (n - 1) as usize);
        if before.fatal is Some {
            before
        } else if outcome is Err && outcome->Err_0.fatal() {
            ExtractionModel { outcomes: before.outcomes, fatal: Some(outcome->Err_0) }
        } else {
            ExtractionModel { outcomes: before.outcomes.push(outcome), fatal: None }
        }
    }
}

/// The result of unpacking the archive `a`. A failure before the first entry
/// is the result of the whole run.
pub open spec fn unpacked(a: Seq<u8>) -> Result<ExtractionModel, PakError> {
    match index_of(a) {
        Err(e) => Err(e),
        Ok(index) => Ok(extraction_of(a, index.1, index.1.len())),
    }
}

/// Once a run has ended, the entries behind that point change nothing.
pub proof fn lemma_extraction_ended(a: Seq<u8>, entries: Seq<EntryModel>, ended: nat, n: nat)
    requires
        extraction_of(a, entries, ended).fatal is Some,
        ended <= n,
    ensures
        extraction_of(a, entries, n) == extraction_of(a, entries, ended),
    decreases n,
{
    if ended < n {
        lemma_extraction_ended(a, entries, ended, (n - 1) as nat);
    }
}

/// An entry's payload has the length that the entry declares: that of the
/// stored bytes where they are taken as they are, else the uncompressed size.
pub proof fn lemma_payload_len(a: Seq<u8>, entry: EntryModel)
    ensures
        payload_of(a, entry) matches Ok(contents) ==> contents.len() == entry.unpacked_len(),
{
}

/// A run that no failure ended has one outcome for each entry, in the order
/// of the file list, and each file among them has the length that its entry
/// declares.
pub proof fn lemma_one_outcome_per_entry(a: Seq<u8>, entries: Seq<EntryModel>, n: nat)
    requires
        n <= entries.len(),
        extraction_of(a, entries, n).fatal is None,
    ensures
        extraction_of(a, entries, n).outcomes.len() == n,
        forall|i: int|
            0 <= i < n ==> #[trigger] extraction_of(a, entries, n).outcomes[i] == unpacked_entry(
                a,
                entries[i],
                i as usize,
            ),
        forall|i: int|
            0 <= i < n ==> (#[trigger] extraction_of(a, entries, n).outcomes[i] matches Ok(file)
                ==> file.contents.len() == entries[i].unpacked_len()),
    decreases n,
{
    if n > 0 {
        lemma_one_outcome_per_entry(a, entries, (n - 1) as nat);
        lemma_payload_len(a, entries[n - 1]);
    }
}

/// Unpacking an archive whose entries can all be unpacked gives one file for
/// each entry of its file list, of the length that the entry declares.
pub proof fn lemma_one_file_per_entry(a: Seq<u8>)
    requires
        unpacked(a) is Ok,
        unpacked(a)->Ok_0.fatal is None,
        forall|i: int|
            0 <= i < unpacked(a)->Ok_0.outcomes.len() ==> #[trigger] unpacked(
                a,
            )->Ok_0.outcomes[i] is Ok,
    ensures
        index_of(a) is Ok,
        unpacked(a)->Ok_0.outcomes.len() == index_of(a)->Ok_0.1.len(),
        forall|i: int|
            0 <= i < index_of(a)->Ok_0.1.len() ==> (#[trigger] unpacked(a)->Ok_0.outcomes[i])
                is Ok && unpacked(a)->Ok_0.outcomes[i]->Ok_0.contents.len() == index_of(
                a,
            )->Ok_0.1[i].unpacked_len(),
{
    let entries = index_of(a)->Ok_0.1;
    lemma_one_outcome_per_entry(a, entries, entries.len());
}

/// An archive that starts with four bytes other than the signature is
/// refused for them, whatever follows.
pub proof fn lemma_wrong_signature(a: Seq<u8>)
    requires
        a.len() >= 4,
        a.subrange(0, 4) != signature(),
    ensures
        index_of(a) == Err::<(HeaderModel, Seq<EntryModel>), PakError>(
            failure(ErrorKind::Format, Stage::Signature),
        ),
        unpacked(a) == Err::<ExtractionModel, PakError>(
            failure(ErrorKind::Format, Stage::Signature),
        ),
{
}

/// Unpacking an archive whose file list is empty succeeds and gives no file.
pub proof fn lemma_no_entries(a: Seq<u8>)
    requires
        index_of(a) is Ok,
        index_of(a)->Ok_0.1.len() == 0,
    ensures
        unpacked(a) == Ok::<ExtractionModel, PakError>(
            ExtractionModel { outcomes: Seq::empty(), fatal: None },
        ),
{
}

/// Reads an archive up to its entries: the signature and version, the header,
/// and the file list that the header points to.
pub fn read_index(archive: &[u8]) -> (r: Result<(PackHeader, Vec<FileEntry>), PakError>)
    ensures
        match r {
            Ok((header, entries)) => index_of(archive@) == Ok::<
                (HeaderModel, Seq<EntryModel>),
                PakError,
            >((header@, entry_models(entries@))),
            Err(e) => index_of(archive@) == Err::<(HeaderModel, Seq<EntryModel>), PakError>(e),
        },
{
    let mut rdr = ByteReader::new(archive);
    let version = match read_version(&mut rdr) {
        Ok(version) => version,
        Err(e) => {
            return Err(e);
        },
    };
    let header = match PackHeader::from_reader(&mut rdr, version) {
        Ok(header) => header,
        Err(e) => {
            return Err(e);
        },
    };
    match read_file_list(&mut rdr, header.file_list_offset) {
        Ok(entries) => Ok((header, entries)),
        Err(e) => Err(e),
    }
}

/// Unpacks one entry of `archive`; `index` is its place in the file list.
pub fn extract_entry(archive: &[u8], entry: &FileEntry, index: usize) -> (r: Result<
    ExtractedFile,
    PakError,
>)
    ensures
        match r {
            Ok(file) => unpacked_entry(archive@, entry@, index) == Ok::<FileModel, PakError>(
                file@,
            ),
            Err(e) => unpacked_entry(archive@, entry@, index) == Err::<FileModel, PakError>(e),
        },
        r matches Ok(file) ==> file.contents@.len() == entry@.unpacked_len(),
{
    let mut rdr = ByteReader::new(archive);
    if !rdr.seek(entry.offset()) {
        return Err(PakError { kind: ErrorKind::Truncation, stage: Stage::Entry(index) });
    }
    let stored = match rdr.read_exact(entry.size_on_disk as usize) {
        Some(stored) => stored,
        None => {
            return Err(PakError { kind: ErrorKind::Truncation, stage: Stage::Entry(index) });
        },
    };
    let contents = if entry.uncompressed_size == 0 {
        slice_to_vec(stored)
    } else {
        match decompress_exact(stored, entry.uncompressed_size as usize) {
            Some(contents) => contents,
            None => {
                return Err(
                    PakError { kind: ErrorKind::Decompression, stage: Stage::Entry(index) },
                );
            },
        }
    };
    let (directory, file_name) = split_name(entry.name.as_str());
    Ok(ExtractedFile { directory, file_name, contents })
}

/// Unpacks `entries` from `archive` in their order, until they are all gone
/// through or a failure ends the run.
pub fn extract_all(archive: &[u8], entries: &Vec<FileEntry>) -> (r: Extraction)
    ensures
        r@ == extraction_of(archive@, entry_models(entries@), entries@.len()),
{
    let mut outcomes: Vec<Result<ExtractedFile, PakError>> = Vec::new();
    let mut i: usize = 0;
    assert(outcome_models(outcomes@) =~= Seq::empty());
    while i < entries.len()
        invariant
            i <= entries@.len(),
            extraction_of(archive@, entry_models(entries@), i as nat) == (ExtractionModel {
                outcomes: outcome_models(outcomes@),
                fatal: None,
            }),
        decreases entries@.len() - i,
    {
        let ghost before = outcomes@;
        let outcome = extract_entry(archive, &entries[i], i);
        assert(entry_models(entries@)[i as int] == entries@[i as int]@);
        match outcome {
            Err(e) if e.is_fatal() => {
                proof {
                    lemma_extraction_ended(
                        archive@,
                        entry_models(entries@),
                        (i + 1) as nat,
                        entries@.len(),
                    );
                }
                return Extraction { outcomes, fatal: Some(e) };
            },
            _ => {
                outcomes.push(outcome);
                assert(outcome_models(outcomes@) =~= outcome_models(before).push(
                    outcome_model(outcome),
                ));
            },
        }
        i = i + 1;
    }
    Extraction { outcomes, fatal: None }
}

/// Unpacks the archive held in `archive`: reads its header and file list and
/// goes through the entries. `Err` is a failure before the first entry.
pub fn unpack_pak_file(archive: &[u8]) -> (r: Result<Extraction, PakError>)
    ensures
        match r {
            Ok(extraction) => unpacked(archive@) == Ok::<ExtractionModel, PakError>(extraction@),
            Err(e) => unpacked(archive@) == Err::<ExtractionModel, PakError>(e),
        },
{
    match read_index(archive) {
        Ok((_, entries)) => Ok(extract_all(archive, &entries)),
        Err(e) => Err(e),
    }
}

} // verus!
