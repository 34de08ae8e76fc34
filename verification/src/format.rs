//! The layout of a PAK archive: the signature and version, the header, and
//! the records of the file list.

use crate::error::{ErrorKind, PakError, Stage};
use crate::le::{le_i32, le_u16, le_u32, le_u64, ByteReader};
use crate::lz4::{decompress_exact, decompressed};
use crate::name::{decode_name, name_of};
use vstd::prelude::*;
use vstd::slice::slice_to_vec;

verus! {

/// The number of header bytes that follow the format version.
pub const HEADER_SIZE: usize = 32;

/// The width of a record's name field.
pub const NAME_SIZE: usize = 256;

/// The width of one record of the file list: the name and 16 bytes of numbers.
pub const RECORD_SIZE: usize = 272;

/// The four bytes that every archive starts with.
pub open spec fn signature() -> Seq<u8> {
    seq![0x4Cu8, 0x53u8, 0x50u8, 0x4Bu8]
}

/// The failure of kind `kind` at `stage`.
pub open spec fn failure(kind: ErrorKind, stage: Stage) -> PakError {
    PakError { kind, stage }
}

/// The container header, once per archive.
#[derive(Clone, Debug, PartialEq, Eq)]
pub struct PackHeader {
    /// The format version.
    pub version: u32,
    /// Where in the archive the compressed file list begins.
    pub file_list_offset: u64,
    /// The size that the header gives for the file list.
    pub file_list_size: u32,
    pub flags: u8,
    pub priority: u8,
    /// Sixteen bytes of hash, kept as they are.
    pub content_hash: Vec<u8>,
    /// The number of volumes that the archive is spread over.
    pub num_parts: u16,
}

/// What a `PackHeader` holds.
pub struct HeaderModel {
    pub version: u32,
    pub file_list_offset: u64,
    pub file_list_size: u32,
    pub flags: u8,
    pub priority: u8,
    pub content_hash: Seq<u8>,
    pub num_parts: u16,
}

impl View for PackHeader {
    type V = HeaderModel;

    open spec fn view(&self) -> HeaderModel {
        HeaderModel {
            version: self.version,
            file_list_offset: self.file_list_offset,
            file_list_size: self.file_list_size,
            flags: self.flags,
            priority: self.priority,
            content_hash: self.content_hash@,
            num_parts: self.num_parts,
        }
    }
}

/// One record of the file list: a packed file's name and where its bytes lie.
#[derive(Clone, Debug, PartialEq, Eq)]
pub struct FileEntry {
    /// The file's path inside the archive, with `/` between its components.
    pub name: String,
    /// The low 32 bits of the payload's offset in the archive.
    pub offset_lo: u32,
    /// The high 16 bits of the payload's offset in the archive.
    pub offset_hi: u16,
    /// The volume that holds the payload.
    pub part_index: u8,
    pub flags: u8,
    /// The number of bytes that the payload takes in the archive.
    pub size_on_disk: u32,
    /// The payload's size once decompressed; 0 where it is stored as it is.
    pub uncompressed_size: u32,
}

/// What a `FileEntry` holds.
pub struct EntryModel {
    pub name: Seq<char>,
    pub offset_lo: u32,
    pub offset_hi: u16,
    pub part_index: u8,
    pub flags: u8,
    pub size_on_disk: u32,
    pub uncompressed_size: u32,
}

impl EntryModel {
    /// The payload's offset in the archive: 48 bits, of which `offset_lo` gives
    /// the low 32 and `offset_hi` the rest.
    pub open spec fn offset(self) -> int {
        self.offset_lo + self.offset_hi * 0x1_0000_0000
    }

    /// The number of bytes that the entry unpacks to.
    pub open spec fn unpacked_len(self) -> int {
        if self.uncompressed_size == 0 {
            self.size_on_disk as int
        } else {
            self.uncompressed_size as int
        }
    }
}

impl View for FileEntry {
    type V = EntryModel;

    open spec fn view(&self) -> EntryModel {
        EntryModel {
            name: self.name@,
            offset_lo: self.offset_lo,
            offset_hi: self.offset_hi,
            part_index: self.part_index,
            flags: self.flags,
            size_on_disk: self.size_on_disk,
            uncompressed_size: self.uncompressed_size,
        }
    }
}

/// The format version of the archive that starts at `at`: it follows the
/// signature, which is tested before anything behind it is looked at.
pub open spec fn version_at(a: Seq<u8>, at: int) -> Result<u32, PakError> {
    if a.len() - at < 4 {
        Err(failure(ErrorKind::Truncation, Stage::Signature))
    } else if a.subrange(at, at + 4) != signature() {
        Err(failure(ErrorKind::Format, Stage::Signature))
    } else if a.len() - at < 8 {
        Err(failure(ErrorKind::Truncation, Stage::Signature))
    } else {
        Ok(le_u32(a, at + 4) as u32)
    }
}

/// The header whose fields start at `at`, behind the version.
pub open spec fn header_at(a: Seq<u8>, at: int, version: u32) -> Result<HeaderModel, PakError> {
    if a.len() - at < HEADER_SIZE {
        Err(failure(ErrorKind::Truncation, Stage::Header))
    } else {
        Ok(
            HeaderModel {
                version,
                file_list_offset: le_u64(a, at) as u64,
                file_list_size: le_u32(a, at + 8) as u32,
                flags: a[at + 12],
                priority: a[at + 13],
                content_hash: a.subrange(at + 14, at + 30),
                num_parts: le_u16(a, at + 30) as u16,
            },
        )
    }
}

/// The file-list record that starts at `at`.
pub open spec fn entry_at(a: Seq<u8>, at: int) -> Result<EntryModel, PakError> {
    if a.len() - at < RECORD_SIZE {
        Err(failure(ErrorKind::Truncation, Stage::FileList))
    } else {
        match name_of(a.subrange(at, at + NAME_SIZE)) {
            None => Err(failure(ErrorKind::Format, Stage::FileList)),
            Some(name) => Ok(
                EntryModel {
                    name,
                    offset_lo: le_u32(a, at + 256) as u32,
                    offset_hi: le_u16(a, at + 260) as u16,
                    part_index: a[at + 262],
                    flags: a[at + 263],
                    size_on_disk: le_u32(a, at + 264) as u32,
                    uncompressed_size: le_u32(a, at + 268) as u32,
                },
            ),
        }
    }
}

/// Reads the signature and, where it is the right one, the format version.
/// A wrong signature is refused with nothing behind it read.
pub fn read_version(rdr: &mut ByteReader) -> (r: Result<u32, PakError>)
    requires
        old(rdr).wf(),
    ensures
        final(rdr).wf(),
        final(rdr).bytes() == old(rdr).bytes(),
        r == version_at(old(rdr).bytes(), old(rdr).offset()),
        r is Ok ==> final(rdr).offset() == old(rdr).offset() + 8,
        r is Err ==> final(rdr).offset() <= old(rdr).offset() + 4,
{
    let magic = match rdr.read_exact(4) {
        Some(magic) => magic,
        None => {
            return Err(PakError { kind: ErrorKind::Truncation, stage: Stage::Signature });
        },
    };
    assert(magic@.len() == 4);
    if magic[0] != 0x4C || magic[1] != 0x53 || magic[2] != 0x50 || magic[3] != 0x4B {
        return Err(PakError { kind: ErrorKind::Format, stage: Stage::Signature });
    }
    assert(magic@ =~= signature());
    match rdr.read_u32() {
        Some(version) => Ok(version),
        None => Err(PakError { kind: ErrorKind::Truncation, stage: Stage::Signature }),
    }
}

impl PackHeader {
    /// Reads the header's fields, which follow the version `version`.
    pub fn from_reader(rdr: &mut ByteReader, version: u32) -> (r: Result<PackHeader, PakError>)
        requires
            old(rdr).wf(),
        ensures
            final(rdr).wf(),
            final(rdr).bytes() == old(rdr).bytes(),
            match r {
                Ok(header) => header_at(old(rdr).bytes(), old(rdr).offset(), version) == Ok::<
                    HeaderModel,
                    PakError,
                >(header@) && final(rdr).offset() == old(rdr).offset() + HEADER_SIZE,
                Err(e) => header_at(old(rdr).bytes(), old(rdr).offset(), version) == Err::<
                    HeaderModel,
                    PakError,
                >(e) && final(rdr).offset() == old(rdr).offset(),
            },
    {
        if rdr.remaining() < HEADER_SIZE {
            return Err(PakError { kind: ErrorKind::Truncation, stage: Stage::Header });
        }
        let file_list_offset = rdr.read_u64().unwrap();
        let file_list_size = rdr.read_u32().unwrap();
        let flags = rdr.read_u8().unwrap();
        let priority = rdr.read_u8().unwrap();
        let content_hash = slice_to_vec(rdr.read_exact(16).unwrap());
        let num_parts = rdr.read_u16().unwrap();
        Ok(
            PackHeader {
                version,
                file_list_offset,
                file_list_size,
                flags,
                priority,
                content_hash,
                num_parts,
            },
        )
    }
}

impl FileEntry {
    /// Reads one record of the file list.
    pub fn from_reader(rdr: &mut ByteReader) -> (r: Result<FileEntry, PakError>)
        requires
            old(rdr).wf(),
        ensures
            final(rdr).wf(),
            final(rdr).bytes() == old(rdr).bytes(),
            match r {
                Ok(entry) => entry_at(old(rdr).bytes(), old(rdr).offset()) == Ok::<
                    EntryModel,
                    PakError,
                >(entry@),
                Err(e) => entry_at(old(rdr).bytes(), old(rdr).offset()) == Err::<
                    EntryModel,
                    PakError,
                >(e),
            },
            r is Err && r->Err_0.kind == ErrorKind::Truncation ==> final(rdr).offset() == old(
                rdr,
            ).offset(),
            !(r is Err && r->Err_0.kind == ErrorKind::Truncation) ==> final(rdr).offset() == old(
                rdr,
            ).offset() + RECORD_SIZE,
    {
        if rdr.remaining() < RECORD_SIZE {
            return Err(PakError { kind: ErrorKind::Truncation, stage: Stage::FileList });
        }
        let field = rdr.read_exact(NAME_SIZE).unwrap();
        let offset_lo = rdr.read_u32().unwrap();
        let offset_hi = rdr.read_u16().unwrap();
        let part_index = rdr.read_u8().unwrap();
        let flags = rdr.read_u8().unwrap();
        let size_on_disk = rdr.read_u32().unwrap();
        let uncompressed_size = rdr.read_u32().unwrap();
        match decode_name(field) {
            Some(name) => Ok(
                FileEntry {
                    name,
                    offset_lo,
                    offset_hi,
                    part_index,
                    flags,
                    size_on_disk,
                    uncompressed_size,
                },
            ),
            None => Err(PakError { kind: ErrorKind::Format, stage: Stage::FileList }),
        }
    }

    /// The payload's offset in the archive, put together from its two fields.
    pub fn offset(&self) -> (r: u64)
        ensures
            r == self@.offset(),
    {
        combine_offset(self.offset_lo, self.offset_hi)
    }
}

/// Puts a 48-bit offset together from its low 32 bits and its high 16 bits:
/// the high part is shifted past the low part and the two are or-ed.
pub fn combine_offset(offset_lo: u32, offset_hi: u16) -> (offset: u64)
    ensures
        offset == offset_lo + offset_hi * 0x1_0000_0000,
        offset < 0x1_0000_0000_0000,
{
    assert(((offset_lo as u64) | ((offset_hi as u64) << 32)) == offset_lo + offset_hi
        * 0x1_0000_0000) by (bit_vector);
    (offset_lo as u64) | ((offset_hi as u64) << 32)
}

/// What each of `entries` holds.
pub open spec fn entry_models(entries: Seq<FileEntry>) -> Seq<EntryModel> {
    Seq::new(entries.len(), |i: int| entries[i]@)
}

/// The first `count` records of `list`, which lie one after another from its
/// start. The first record that cannot be decoded gives its failure.
pub open spec fn records(list: Seq<u8>, count: nat) -> Result<Seq<EntryModel>, PakError>
    decreases count,
{
    if count == 0 {
        Ok(Seq::empty())
    } else {
        match records(list, (count - 1) as nat) {
            Err(e) => Err(e),
            Ok(front) => match entry_at(list, (count - 1) * RECORD_SIZE) {
                Err(e) => Err(e),
                Ok(entry) => Ok(front.push(entry)),
            },
        }
    }
}

/// The file list that lies at `offset`: a count of entries and a count of
/// compressed bytes, both signed and neither negative, then the bytes, which
/// decompress to exactly the records counted.
pub open spec fn file_list_at(a: Seq<u8>, offset: u64) -> Result<Seq<EntryModel>, PakError> {
    if a.len() - offset < 8 {
        Err(failure(ErrorKind::Truncation, Stage::FileList))
    } else if le_i32(a, offset as int) < 0 || le_i32(a, offset + 4) < 0 {
        Err(failure(ErrorKind::Format, Stage::FileList))
    } else if a.len() - offset - 8 < le_i32(a, offset + 4) {
        Err(failure(ErrorKind::Truncation, Stage::FileList))
    } else {
        match decompressed(
            a.subrange(offset + 8, offset + 8 + le_i32(a, offset + 4)),
            (le_i32(a, offset as int) * RECORD_SIZE) as nat,
        ) {
            None => Err(failure(ErrorKind::Decompression, Stage::FileList)),
            Some(list) => records(list, le_i32(a, offset as int) as nat),
        }
    }
}

/// A failure among the first records is the failure of every longer list.
pub proof fn lemma_records_failure(list: Seq<u8>, failed: nat, count: nat)
    requires
        records(list, failed) is Err,
        failed <= count,
    ensures
        records(list, count) == records(list, failed),
    decreases count,
{
    if failed < count {
        lemma_records_failure(list, failed, (count - 1) as nat);
    }
}

/// Where all of the first `count` records can be decoded, there are `count`
/// entries, and each is the record at its place.
pub proof fn lemma_records_each(list: Seq<u8>, count: nat)
    requires
        records(list, count) is Ok,
    ensures
        records(list, count)->Ok_0.len() == count,
        forall|i: int|
            0 <= i < count ==> entry_at(list, i * RECORD_SIZE) == Ok::<EntryModel, PakError>(
                #[trigger] records(list, count)->Ok_0[i],
            ),
    decreases count,
{
    if count > 0 {
        lemma_records_each(list, (count - 1) as nat);
    }
}

/// A file list that can be read has as many entries as its count says.
pub proof fn lemma_file_list_len(a: Seq<u8>, offset: u64)
    requires
        file_list_at(a, offset) is Ok,
    ensures
        file_list_at(a, offset)->Ok_0.len() == le_i32(a, offset as int),
{
    let count = le_i32(a, offset as int);
    let size = le_i32(a, offset + 4);
    let list = decompressed(a.subrange(offset + 8, offset + 8 + size), (count * RECORD_SIZE) as nat);
    lemma_records_each(list->Some_0, count as nat);
}

/// Decodes the first `count` records of `list`, in their order.
pub fn decode_records(list: &[u8], count: usize) -> (r: Result<Vec<FileEntry>, PakError>)
    ensures
        match r {
            Ok(entries) => records(list@, count as nat) == Ok::<Seq<EntryModel>, PakError>(
                entry_models(entries@),
            ),
            Err(e) => records(list@, count as nat) == Err::<Seq<EntryModel>, PakError>(e),
        },
{
    let mut rdr = ByteReader::new(list);
    let mut entries: Vec<FileEntry> = Vec::new();
    let mut i: usize = 0;
    assert(entry_models(entries@) =~= Seq::empty());
    while i < count
        invariant
            i <= count,
            rdr.wf(),
            rdr.bytes() == list@,
            rdr.offset() == i * RECORD_SIZE,
            records(list@, i as nat) == Ok::<Seq<EntryModel>, PakError>(entry_models(entries@)),
        decreases count - i,
    {
        let ghost before = entries@;
        match FileEntry::from_reader(&mut rdr) {
            Ok(entry) => {
                entries.push(entry);
                assert(entry_models(entries@) =~= entry_models(before).push(entry@));
            },
            Err(e) => {
                proof {
                    lemma_records_failure(list@, (i + 1) as nat, count as nat);
                }
                return Err(e);
            },
        }
        i = i + 1;
    }
    Ok(entries)
}

/// Reads the file list that lies at `offset` in the reader's bytes.
pub fn read_file_list(rdr: &mut ByteReader, offset: u64) -> (r: Result<Vec<FileEntry>, PakError>)
    requires
        old(rdr).wf(),
    ensures
        final(rdr).wf(),
        final(rdr).bytes() == old(rdr).bytes(),
        match r {
            Ok(entries) => file_list_at(old(rdr).bytes(), offset) == Ok::<
                Seq<EntryModel>,
                PakError,
            >(entry_models(entries@)),
            Err(e) => file_list_at(old(rdr).bytes(), offset) == Err::<Seq<EntryModel>, PakError>(
                e,
            ),
        },
        r is Ok ==> final(rdr).offset() == offset + 8 + le_i32(old(rdr).bytes(), offset + 4),
{
    if !rdr.seek(offset) || rdr.remaining() < 8 {
        return Err(PakError { kind: ErrorKind::Truncation, stage: Stage::FileList });
    }
    let count = rdr.read_i32().unwrap();
    let compressed_size = rdr.read_i32().unwrap();
    if count < 0 || compressed_size < 0 {
        return Err(PakError { kind: ErrorKind::Format, stage: Stage::FileList });
    }
    let compressed = match rdr.read_exact(compressed_size as usize) {
        Some(compressed) => compressed,
        None => {
            return Err(PakError { kind: ErrorKind::Truncation, stage: Stage::FileList });
        },
    };
    let size: u64 = count as u64 * RECORD_SIZE as u64;
    if size > usize::MAX as u64 {
        return Err(PakError { kind: ErrorKind::Decompression, stage: Stage::FileList });
    }
    match decompress_exact(compressed, size as usize) {
        Some(list) => decode_records(list.as_slice(), count as usize),
        None => Err(PakError { kind: ErrorKind::Decompression, stage: Stage::FileList }),
    }
}

} // verus!
