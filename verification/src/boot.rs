//! What the loader hands over: a list of tagged records somewhere in its
//! memory, and among them the map of physical memory.
//!
//! The records are the loader's. They are read in place, never written,
//! and nothing read from them is trusted to stay inside the memory that
//! was handed over: every access is checked against its bounds.

use vstd::prelude::*;
use vstd::set_lib::{lemma_int_range, lemma_len_subset, lemma_map_size, set_int_range};
use vstd::relations::injective_on;
use vstd::slice::slice_subrange;
use crate::wire::{
    le32, le64, lemma_word32_of_image, lemma_word64_of_image, read_u32, read_u64, word32, word64,
    write_u32, write_u64,
};

verus! {

/// A window onto the memory the loader filled in.
#[derive(Clone, Copy, Debug)]
pub struct LoaderMemory<'a> {
    /// Address of `bytes[0]`.
    pub base: u64,
    pub bytes: &'a [u8],
}

impl<'a> LoaderMemory<'a> {
    /// The `len` bytes from address `addr` on lie inside the window.
    pub open spec fn covers(&self, addr: u64, len: int) -> bool {
        self.base <= addr && (addr - self.base) + len <= self.bytes@.len()
    }

    /// Index into `bytes` of the byte at address `addr`.
    pub open spec fn offset(&self, addr: u64) -> int {
        addr - self.base
    }

    /// Index into `bytes` of the byte at `addr`, where `len` bytes from
    /// there on lie inside the window.
    pub fn locate(&self, addr: u64, len: usize) -> (at: Option<usize>)
        ensures
            match at {
                Some(i) => self.covers(addr, len as int) && i == self.offset(addr) && i + len
                    <= usize::MAX,
                None => !self.covers(addr, len as int),
            },
    {
        if addr < self.base {
            return None;
        }
        let off: u64 = addr - self.base;
        let size: usize = self.bytes.len();
        if len > size || off > (size - len) as u64 {
            return None;
        }
        Some(off as usize)
    }
}

/// Size of the stack the kernel starts on.
pub const STACK_SIZE: usize = 0x1000 * 8;

/// What the kernel asks of the loader. The loader finds this record in
/// a section of its own in the kernel's image and reads it before it hands
/// over.
#[derive(Clone, Copy, Debug, PartialEq, Eq, Structural)]
pub struct Header {
    /// Address at which the kernel is entered.
    pub entry_point: u64,
    /// Initial stack pointer: the address just past the stack.
    pub stack: u64,
    pub flags: u64,
    /// Address of the first of the records that ask for optional
    /// features; 0 where there is none.
    pub tags: u64,
}

impl Header {
    /// Bit 1: hand over pointers into the higher half.
    pub const HIGHER_HALF: u64 = 0x02;

    /// Bit 2: map the kernel with the permissions its image asks for.
    pub const PROTECTED_RANGES: u64 = 0x04;

    /// Bit 3: map the kernel wherever physical memory is free.
    pub const VIRTUAL_MAPPINGS: u64 = 0x08;

    /// Bit 4: switches a deprecated feature off, and has to be set.
    pub const NO_LEGACY: u64 = 0x10;

    /// The flags the kernel sets: bits 1, 3 and 4.
    pub const FLAGS: u64 = 0x1A;

    /// Bytes the record takes.
    pub const SIZE: usize = 32;

    /// The record as the loader reads it.
    pub open spec fn image(self) -> Seq<u8> {
        le64(self.entry_point) + le64(self.stack) + le64(self.flags) + le64(self.tags)
    }

    /// The record for a kernel that is entered at `entry_point` on the
    /// stack that ends at `stack`.
    pub fn new(entry_point: u64, stack: u64, tags: u64) -> (header: Header)
        ensures
            header == (Header { entry_point, stack, flags: Header::FLAGS, tags }),
            header.flags & Header::NO_LEGACY != 0,
            header.flags & Header::HIGHER_HALF != 0,
            header.flags & Header::VIRTUAL_MAPPINGS != 0,
            header.flags & Header::PROTECTED_RANGES == 0,
    {
        proof {
            lemma_header_flags();
        }
        Header { entry_point, stack, flags: Header::FLAGS, tags }
    }

    /// The record as bytes, for the kernel's image.
    pub fn to_bytes(&self) -> (out: [u8; 32])
        ensures
            out@ == self.image(),
    {
        let mut out: [u8; 32] = [0u8; 32];
        write_u64(&mut out, 0, self.entry_point);
        write_u64(&mut out, 8, self.stack);
        write_u64(&mut out, 16, self.flags);
        write_u64(&mut out, 24, self.tags);
        assert(out@ =~= self.image());
        out
    }
}

proof fn lemma_header_flags()
    by (bit_vector)
    ensures
        Header::FLAGS == (1u64 << 1) | (1u64 << 3) | (1u64 << 4),
        Header::FLAGS & Header::NO_LEGACY != 0,
        Header::FLAGS & Header::HIGHER_HALF != 0,
        Header::FLAGS & Header::VIRTUAL_MAPPINGS != 0,
        Header::FLAGS & Header::PROTECTED_RANGES == 0,
{
}

/// The record by which the kernel asks the loader for a terminal.
#[derive(Clone, Copy, Debug, PartialEq, Eq, Structural)]
pub struct TerminalHeaderTag {
    pub identifier: u64,
    pub next: u64,
    pub flags: u64,
}

impl TerminalHeaderTag {
    /// Identifier of the request for a terminal.
    pub const IDENTIFIER: u64 = 0xa85d499b1823be72;

    /// Bytes the record takes.
    pub const SIZE: usize = 24;

    /// The record as the loader reads it.
    pub open spec fn image(self) -> Seq<u8> {
        le64(self.identifier) + le64(self.next) + le64(self.flags)
    }

    /// A request with no flags set, which ends the list.
    pub fn new() -> (tag: TerminalHeaderTag)
        ensures
            tag == (TerminalHeaderTag { identifier: Self::IDENTIFIER, next: 0, flags: 0 }),
    {
        TerminalHeaderTag { identifier: Self::IDENTIFIER, next: 0, flags: 0 }
    }

    /// The record as bytes, for the kernel's image.
    pub fn to_bytes(&self) -> (out: [u8; 24])
        ensures
            out@ == self.image(),
    {
        let mut out: [u8; 24] = [0u8; 24];
        write_u64(&mut out, 0, self.identifier);
        write_u64(&mut out, 8, self.next);
        write_u64(&mut out, 16, self.flags);
        assert(out@ =~= self.image());
        out
    }
}

/// The header of a record: what kind of record it is and where the next
/// one lies. What follows the header depends on the kind.
#[derive(Clone, Copy, Debug, PartialEq, Eq, Structural)]
pub struct Tag {
    /// Where the record lies.
    pub address: u64,
    pub identifier: u64,
    /// Address of the next record; 0 ends the list.
    pub next: u64,
}

impl Tag {
    /// Identifier of the record that holds the memory map.
    pub const MEMORY_MAP: u64 = 0x2187f79e8612de07;

    /// Bytes a header takes.
    pub const HEADER_SIZE: usize = 16;
}

/// The structure the loader passes to the kernel's entry point.
#[derive(Clone, Copy, Debug)]
pub struct StivaleStruct<'a> {
    pub bootloader_brand: [u8; 64],
    pub bootloader_version: [u8; 64],
    /// Address of the first record; 0 where there is none.
    pub tags: u64,
    /// The memory the records lie in.
    pub memory: LoaderMemory<'a>,
}

impl<'a> StivaleStruct<'a> {
    /// The header at `addr`, if `addr` is not null and a whole header lies
    /// inside the window there.
    pub open spec fn tag_at(&self, addr: u64) -> Option<Tag> {
        if addr != 0 && self.memory.covers(addr, 16) {
            Some(
                Tag {
                    address: addr,
                    identifier: word64(self.memory.bytes@, self.memory.offset(addr)),
                    next: word64(self.memory.bytes@, self.memory.offset(addr) + 8),
                },
            )
        } else {
            None
        }
    }

    /// The `n`-th record of the list, counted from 0 at the head; `None`
    /// once the list has ended.
    pub open spec fn nth(&self, n: nat) -> Option<Tag>
        decreases n,
    {
        if n == 0 {
            self.tag_at(self.tags)
        } else {
            match self.nth((n - 1) as nat) {
                Some(tag) => self.tag_at(tag.next),
                None => None,
            }
        }
    }

    /// Address of the `n`-th record, as the list gives it: the head for
    /// `n == 0`, else what the record before names as its successor. It is
    /// 0 once the list has ended.
    pub open spec fn nth_addr(&self, n: nat) -> u64 {
        if n == 0 {
            self.tags
        } else {
            match self.nth((n - 1) as nat) {
                Some(tag) => tag.next,
                None => 0,
            }
        }
    }

    /// The record at position `n` has `identifier`, and no record before
    /// it has.
    pub open spec fn is_first(&self, identifier: u64, n: nat) -> bool {
        &&& self.nth(n) is Some
        &&& self.nth(n)->0.identifier == identifier
        &&& forall|j: nat|
            j < n && (#[trigger] self.nth(j)) is Some ==> self.nth(j)->0.identifier != identifier
    }

    /// The first record of the list with `identifier`, in the order of the
    /// list; `None` where no record of the list has it.
    pub open spec fn find(&self, identifier: u64) -> Option<Tag> {
        if exists|n: nat| self.is_first(identifier, n) {
            self.nth(choose|n: nat| self.is_first(identifier, n))
        } else {
            None
        }
    }

    /// How many records a search looks at before it gives up. A list with
    /// more records than the window has bytes has come back to a record it
    /// has been at before, so nothing is missed.
    pub open spec fn search_limit(&self) -> nat {
        self.memory.bytes@.len()
    }

    /// The list has `k` records and more, and none of the first `k` has
    /// `identifier`.
    spec fn passes(&self, identifier: u64, k: nat) -> bool {
        forall|j: nat|
            j < k ==> (#[trigger] self.nth(j)) is Some && self.nth(j)->0.identifier != identifier
    }

    /// What a search finds that starts at `addr` and looks at no more than
    /// `limit` records.
    spec fn scan(&self, addr: u64, identifier: u64, limit: nat) -> Option<Tag>
        decreases limit,
    {
        if limit == 0 {
            None
        } else {
            match self.tag_at(addr) {
                None => None,
                Some(tag) => if tag.identifier == identifier {
                    Some(tag)
                } else {
                    self.scan(tag.next, identifier, (limit - 1) as nat)
                },
            }
        }
    }

    /// Reads the header at `addr`.
    pub fn read_tag(&self, addr: u64) -> (tag: Option<Tag>)
        ensures
            tag == self.tag_at(addr),
    {
        if addr == 0 {
            return None;
        }
        match self.memory.locate(addr, Tag::HEADER_SIZE) {
            None => None,
            Some(at) => Some(
                Tag {
                    address: addr,
                    identifier: read_u64(self.memory.bytes, at),
                    next: read_u64(self.memory.bytes, at + 8),
                },
            ),
        }
    }

    /// The memory map: the entries of the first memory-map record of the
    /// list.
    pub fn memory_map(&self) -> (r: Result<MemoryMap<'a>, BootError>)
        ensures
            match self.find(Tag::MEMORY_MAP) {
                None => r == Err::<MemoryMap<'a>, _>(BootError::MissingRequiredTag),
                Some(tag) => match r {
                    Ok(map) => memory_map_at(self.memory, tag.address) == Ok::<_, BootError>(map@),
                    Err(e) => memory_map_at(self.memory, tag.address) == Err::<
                        Seq<MemmapEntry>,
                        _,
                    >(e),
                },
            },
    {
        match self.get_tag(Tag::MEMORY_MAP) {
            None => Err(BootError::MissingRequiredTag),
            Some(tag) => MemoryMap::from_tag(&self.memory, tag.address),
        }
    }

    /// Looks for the first record with `identifier`, from the head of the
    /// list on.
    pub fn get_tag(&self, identifier: u64) -> (found: Option<Tag>)
        ensures
            found == self.find(identifier),
    {
        let mut current: u64 = self.tags;
        let mut left: usize = self.memory.bytes.len();
        proof {
            lemma_scan_is_find(*self, identifier);
        }
        while left > 0
            invariant
                self.find(identifier) == self.scan(current, identifier, left as nat),
            decreases left,
        {
            match self.read_tag(current) {
                None => {
                    return None;
                },
                Some(tag) => {
                    if tag.identifier == identifier {
                        return Some(tag);
                    }
                    current = tag.next;
                    left -= 1;
                },
            }
        }
        None
    }
}

/// What a stretch of physical memory is, or is used for.
#[derive(Clone, Copy, Debug, PartialEq, Eq, Structural)]
pub enum MemmapType {
    Usable,
    Reserved,
    AcpiReclaimable,
    AcpiNvs,
    BadMemory,
    BootloaderReclaimable,
    KernelAndModules,
    Framebuffer,
}

impl MemmapType {
    /// The number the loader writes for this kind.
    pub open spec fn spec_code(self) -> u32 {
        match self {
            MemmapType::Usable => 1,
            MemmapType::Reserved => 2,
            MemmapType::AcpiReclaimable => 3,
            MemmapType::AcpiNvs => 4,
            MemmapType::BadMemory => 5,
            MemmapType::BootloaderReclaimable => 0x1000,
            MemmapType::KernelAndModules => 0x1001,
            MemmapType::Framebuffer => 0x1002,
        }
    }

    /// The kind that `code` stands for, if it stands for one.
    pub open spec fn spec_from_code(code: u32) -> Option<MemmapType> {
        if code == 1 {
            Some(MemmapType::Usable)
        } else if code == 2 {
            Some(MemmapType::Reserved)
        } else if code == 3 {
            Some(MemmapType::AcpiReclaimable)
        } else if code == 4 {
            Some(MemmapType::AcpiNvs)
        } else if code == 5 {
            Some(MemmapType::BadMemory)
        } else if code == 0x1000 {
            Some(MemmapType::BootloaderReclaimable)
        } else if code == 0x1001 {
            Some(MemmapType::KernelAndModules)
        } else if code == 0x1002 {
            Some(MemmapType::Framebuffer)
        } else {
            None
        }
    }

    /// The number the loader writes for this kind.
    #[verifier::when_used_as_spec(spec_code)]
    pub fn code(self) -> (code: u32)
        ensures
            code == self.spec_code(),
    {
        match self {
            MemmapType::Usable => 1,
            MemmapType::Reserved => 2,
            MemmapType::AcpiReclaimable => 3,
            MemmapType::AcpiNvs => 4,
            MemmapType::BadMemory => 5,
            MemmapType::BootloaderReclaimable => 0x1000,
            MemmapType::KernelAndModules => 0x1001,
            MemmapType::Framebuffer => 0x1002,
        }
    }

    /// The kind that `code` stands for, if it stands for one.
    pub fn from_code(code: u32) -> (kind: Option<MemmapType>)
        ensures
            kind == Self::spec_from_code(code),
    {
        if code == 1 {
            Some(MemmapType::Usable)
        } else if code == 2 {
            Some(MemmapType::Reserved)
        } else if code == 3 {
            Some(MemmapType::AcpiReclaimable)
        } else if code == 4 {
            Some(MemmapType::AcpiNvs)
        } else if code == 5 {
            Some(MemmapType::BadMemory)
        } else if code == 0x1000 {
            Some(MemmapType::BootloaderReclaimable)
        } else if code == 0x1001 {
            Some(MemmapType::KernelAndModules)
        } else if code == 0x1002 {
            Some(MemmapType::Framebuffer)
        } else {
            None
        }
    }
}

/// A kind is found again from its number, and a number that stands for a
/// kind is that kind's number.
pub proof fn lemma_type_codes(kind: MemmapType, code: u32)
    ensures
        MemmapType::spec_from_code(kind.spec_code()) == Some(kind),
        MemmapType::spec_from_code(code) == Some(kind) ==> kind.spec_code() == code,
{
}

/// One stretch of physical memory, as the memory map describes it.
#[derive(Clone, Copy, Debug, PartialEq, Eq, Structural)]
pub struct MemmapEntry {
    /// Physical address of the first byte.
    pub base: u64,
    /// Length in bytes.
    pub length: u64,
    pub mm_type: MemmapType,
    pub unused: u32,
}

impl MemmapEntry {
    /// Bytes an entry takes in the memory map.
    pub const SIZE: usize = 24;

    /// The entry whose image starts at `bytes[at]`; `None` where the
    /// number in its type field stands for no kind of memory.
    pub open spec fn decode(bytes: Seq<u8>, at: int) -> Option<MemmapEntry> {
        match MemmapType::spec_from_code(word32(bytes, at + 16)) {
            Some(kind) => Some(
                MemmapEntry {
                    base: word64(bytes, at),
                    length: word64(bytes, at + 8),
                    mm_type: kind,
                    unused: word32(bytes, at + 20),
                },
            ),
            None => None,
        }
    }

    /// The entry as the loader writes it.
    pub open spec fn image(self) -> Seq<u8> {
        le64(self.base) + le64(self.length) + le32(self.mm_type.spec_code()) + le32(self.unused)
    }

    /// Reads the entry stored at `bytes[at..at + 24]`.
    pub fn read(bytes: &[u8], at: usize) -> (entry: Option<MemmapEntry>)
        requires
            at + 24 <= bytes.len(),
        ensures
            entry == Self::decode(bytes@, at as int),
    {
        match MemmapType::from_code(read_u32(bytes, at + 16)) {
            Some(kind) => Some(
                MemmapEntry {
                    base: read_u64(bytes, at),
                    length: read_u64(bytes, at + 8),
                    mm_type: kind,
                    unused: read_u32(bytes, at + 20),
                },
            ),
            None => None,
        }
    }

    /// The entry as the loader writes it.
    pub fn to_bytes(&self) -> (out: [u8; 24])
        ensures
            out@ == self.image(),
    {
        let mut out: [u8; 24] = [0u8; 24];
        write_u64(&mut out, 0, self.base);
        write_u64(&mut out, 8, self.length);
        write_u32(&mut out, 16, self.mm_type.code());
        write_u32(&mut out, 20, self.unused);
        assert(out@ =~= self.image());
        out
    }
}

/// Reading an entry back from its image gives the entry.
pub proof fn lemma_entry_round_trip(entry: MemmapEntry)
    ensures
        MemmapEntry::decode(entry.image(), 0) == Some(entry),
{
    let s = entry.image();
    assert(s.subrange(0, 8) =~= le64(entry.base));
    assert(s.subrange(8, 16) =~= le64(entry.length));
    assert(s.subrange(16, 20) =~= le32(entry.mm_type.spec_code()));
    assert(s.subrange(20, 24) =~= le32(entry.unused));
    lemma_word64_of_image(s, 0, entry.base);
    lemma_word64_of_image(s, 8, entry.length);
    lemma_word32_of_image(s, 16, entry.mm_type.spec_code());
    lemma_word32_of_image(s, 20, entry.unused);
    lemma_type_codes(entry.mm_type, 0);
}

/// Why the hand-off data could not be used.
#[derive(Clone, Copy, Debug, PartialEq, Eq, Structural)]
pub enum BootError {
    /// A record the kernel cannot do without is not in the list.
    MissingRequiredTag,
    /// The memory map says it has more entries than lie inside the
    /// window, or its count lies outside it.
    TruncatedMemoryMap,
    /// An entry of the memory map has a type that stands for no kind of
    /// memory.
    MalformedEntry,
}

/// The `i`-th entry of the memory-map record at `tag_address`; `None`
/// where its type stands for no kind of memory.
///
/// The record is a header of 16 bytes, then the number of entries in
/// eight bytes, then the entries, 24 bytes each.
pub open spec fn memory_map_entry(memory: LoaderMemory, tag_address: u64, i: int) -> Option<
    MemmapEntry,
> {
    MemmapEntry::decode(memory.bytes@, memory.offset(tag_address) + 24 + 24 * i)
}

/// The number of entries that the memory-map record at `tag_address` says
/// it has.
pub open spec fn memory_map_count(memory: LoaderMemory, tag_address: u64) -> u64 {
    word64(memory.bytes@, memory.offset(tag_address) + 16)
}

/// What is to be read from the memory-map record at `tag_address`: its
/// entries, in the order in which they lie there, or what is wrong with
/// it.
pub open spec fn memory_map_at(memory: LoaderMemory, tag_address: u64) -> Result<
    Seq<MemmapEntry>,
    BootError,
> {
    let count = memory_map_count(memory, tag_address);
    if !memory.covers(tag_address, 24) {
        Err(BootError::TruncatedMemoryMap)
    } else if !memory.covers(tag_address, 24 + 24 * count) {
        Err(BootError::TruncatedMemoryMap)
    } else if exists|i: int|
        0 <= i < count && (#[trigger] memory_map_entry(memory, tag_address, i)) is None {
        Err(BootError::MalformedEntry)
    } else {
        Ok(Seq::new(count as nat, |i: int| memory_map_entry(memory, tag_address, i)->0))
    }
}

/// The entries of a memory map, read where the loader left them.
#[derive(Clone, Copy, Debug)]
pub struct MemoryMap<'a> {
    bytes: &'a [u8],
}

impl<'a> View for MemoryMap<'a> {
    type V = Seq<MemmapEntry>;

    /// The entries in the order in which they lie in memory.
    closed spec fn view(&self) -> Seq<MemmapEntry> {
        Seq::new(
            (self.bytes@.len() / 24) as nat,
            |i: int| MemmapEntry::decode(self.bytes@, 24 * i)->0,
        )
    }
}

impl<'a> MemoryMap<'a> {
    #[verifier::type_invariant]
    spec fn inv(self) -> bool {
        &&& self.bytes@.len() % 24 == 0
        &&& forall|i: int|
            0 <= i < self.bytes@.len() / 24 ==> (#[trigger] MemmapEntry::decode(
                self.bytes@,
                24 * i,
            )) is Some
    }

    /// Reads the memory-map record at `tag_address`, checking that all of
    /// it lies inside `memory` and that every entry has a known type.
    pub fn from_tag(memory: &LoaderMemory<'a>, tag_address: u64) -> (r: Result<
        MemoryMap<'a>,
        BootError,
    >)
        ensures
            match r {
                Ok(map) => memory_map_at(*memory, tag_address) == Ok::<_, BootError>(map@),
                Err(e) => memory_map_at(*memory, tag_address) == Err::<Seq<MemmapEntry>, _>(e),
            },
    {
        let at = match memory.locate(tag_address, 24) {
            None => {
                return Err(BootError::TruncatedMemoryMap);
            },
            Some(at) => at,
        };
        let count: u64 = read_u64(memory.bytes, at + 16);
        let room: usize = memory.bytes.len() - at - 24;
        if count > (room / 24) as u64 {
            return Err(BootError::TruncatedMemoryMap);
        }
        let n: usize = count as usize;
        let entries: &'a [u8] = slice_subrange(memory.bytes, at + 24, at + 24 + 24 * n);
        let mut i: usize = 0;
        while i < n
            invariant
                i <= n,
                n == count,
                memory.base <= tag_address,
                at == memory.offset(tag_address),
                count == word64(memory.bytes@, at + 16),
                entries@.len() == 24 * n,
                entries@ == memory.bytes@.subrange(at + 24, at + 24 + 24 * n),
                at + 24 + 24 * n <= memory.bytes.len(),
                forall|j: int|
                    0 <= j < i ==> (#[trigger] memory_map_entry(*memory, tag_address, j)) is Some,
            decreases n - i,
        {
            let entry = MemmapEntry::read(entries, 24 * i);
            proof {
                lemma_decode_in_window(memory.bytes@, at + 24, at + 24 + 24 * n, 24 * i);
            }
            if entry.is_none() {
                assert(memory_map_entry(*memory, tag_address, i as int) is None);
                return Err(BootError::MalformedEntry);
            }
            i += 1;
        }
        proof {
            assert forall|j: int| 0 <= j < n implies (#[trigger] MemmapEntry::decode(
                entries@,
                24 * j,
            )) == memory_map_entry(*memory, tag_address, j) by {
                lemma_decode_in_window(memory.bytes@, at + 24, at + 24 + 24 * n, 24 * j);
            }
        }
        let map = MemoryMap { bytes: entries };
        assert(map@ =~= memory_map_at(*memory, tag_address)->Ok_0);
        Ok(map)
    }

    /// Number of entries.
    pub fn len(&self) -> (n: usize)
        ensures
            n == self@.len(),
    {
        self.bytes.len() / 24
    }

    /// The `i`-th entry.
    pub fn get(&self, i: usize) -> (entry: Option<MemmapEntry>)
        ensures
            entry == (if i < self@.len() {
                Some(self@[i as int])
            } else {
                None
            }),
    {
        proof {
            use_type_invariant(self);
        }
        if i < self.bytes.len() / 24 {
            MemmapEntry::read(self.bytes, 24 * i)
        } else {
            None
        }
    }

    /// All entries, in order.
    pub fn to_vec(&self) -> (entries: Vec<MemmapEntry>)
        ensures
            entries@ == self@,
    {
        let n = self.len();
        let mut entries: Vec<MemmapEntry> = Vec::new();
        let mut i: usize = 0;
        while i < n
            invariant
                i <= n,
                n == self@.len(),
                entries@ == self@.take(i as int),
            decreases n - i,
        {
            match self.get(i) {
                Some(entry) => {
                    entries.push(entry);
                },
                None => {},
            }
            i += 1;
            assert(entries@ =~= self@.take(i as int));
        }
        assert(self@.take(n as int) =~= self@);
        entries
    }
}

proof fn lemma_decode_in_window(bytes: Seq<u8>, from: int, to: int, k: int)
    requires
        0 <= from <= to <= bytes.len(),
        0 <= k,
        from + k + 24 <= to,
    ensures
        MemmapEntry::decode(bytes.subrange(from, to), k) == MemmapEntry::decode(bytes, from + k),
{
    let w = bytes.subrange(from, to);
    assert forall|j: int| k <= j < k + 24 implies #[trigger] w[j] == bytes[from + j] by {}
}

proof fn lemma_nth_is_tag_at(s: StivaleStruct, n: nat)
    ensures
        s.nth(n) == s.tag_at(s.nth_addr(n)),
{
}

/// A list that has an `n`-th record has all the records before it.
pub proof fn lemma_nth_prefix(s: StivaleStruct, n: nat)
    requires
        s.nth(n) is Some,
    ensures
        forall|j: nat| j <= n ==> (#[trigger] s.nth(j)) is Some,
    decreases n,
{
    if n > 0 {
        lemma_nth_prefix(s, (n - 1) as nat);
    }
}

/// Only one position is the first with an identifier.
pub proof fn lemma_first_is_unique(s: StivaleStruct, identifier: u64, m: nat, n: nat)
    requires
        s.is_first(identifier, m),
        s.is_first(identifier, n),
    ensures
        m == n,
{
}

proof fn lemma_scan_shift(s: StivaleStruct, identifier: u64, k: nat, limit: nat)
    requires
        s.passes(identifier, k),
    ensures
        s.scan(s.tags, identifier, k + limit) == s.scan(s.nth_addr(k), identifier, limit),
    decreases k,
{
    if k > 0 {
        let k1 = (k - 1) as nat;
        assert(s.passes(identifier, k1));
        lemma_scan_shift(s, identifier, k1, limit + 1);
        lemma_nth_is_tag_at(s, k1);
        assert(s.nth(k1) is Some && s.nth(k1)->0.identifier != identifier);
    }
}

proof fn lemma_scan_position(s: StivaleStruct, identifier: u64, k: nat, limit: nat) -> (i: nat)
    requires
        s.passes(identifier, k),
        s.scan(s.nth_addr(k), identifier, limit) is Some,
    ensures
        k <= i < k + limit,
        s.is_first(identifier, i),
        s.nth(i) == s.scan(s.nth_addr(k), identifier, limit),
    decreases limit,
{
    lemma_nth_is_tag_at(s, k);
    let tag = s.nth(k)->0;
    if tag.identifier == identifier {
        k
    } else {
        assert forall|j: nat| j < k + 1 implies (#[trigger] s.nth(j)) is Some && s.nth(
            j,
        )->0.identifier != identifier by {
            if j < k {
                assert(s.passes(identifier, k));
            }
        }
        lemma_scan_position(s, identifier, k + 1, (limit - 1) as nat)
    }
}

/// A list with more records than the window has bytes is at one record
/// twice: two positions up to the search limit hold the same address.
proof fn lemma_collision(s: StivaleStruct) -> (pair: (nat, nat))
    requires
        s.nth(s.search_limit()) is Some,
    ensures
        pair.0 < pair.1 <= s.search_limit(),
        s.nth_addr(pair.0) == s.nth_addr(pair.1),
{
    let limit = s.search_limit() as int;
    let base = s.memory.base as int;
    lemma_nth_prefix(s, limit as nat);
    let f = |k: int| s.nth_addr(k as nat) as int;
    let positions = set_int_range(0, limit + 1);
    let addresses = positions.map(f);
    let window = set_int_range(base, base + limit);
    lemma_int_range(0, limit + 1);
    lemma_int_range(base, base + limit);
    if injective_on(f, positions) {
        lemma_map_size(positions, addresses, f);
        assert forall|a: int| addresses.contains(a) implies window.contains(a) by {
            let k = choose|k: int| positions.contains(k) && a == f(k);
            lemma_nth_is_tag_at(s, k as nat);
            assert(s.nth(k as nat) is Some);
        }
        lemma_len_subset(addresses, window);
        assert(false);
    }
    let (a, b) = choose|a: int, b: int|
        positions.contains(a) && positions.contains(b) && #[trigger] f(a) == #[trigger] f(b) && a
            != b;
    if a < b {
        (a as nat, b as nat)
    } else {
        (b as nat, a as nat)
    }
}

proof fn lemma_periodic(s: StivaleStruct, i: nat, j: nat, m: nat)
    requires
        s.nth_addr(i) == s.nth_addr(j),
    ensures
        s.nth_addr(i + m) == s.nth_addr(j + m),
        s.nth(i + m) == s.nth(j + m),
    decreases m,
{
    if m > 0 {
        lemma_periodic(s, i, j, (m - 1) as nat);
    }
    lemma_nth_is_tag_at(s, i + m);
    lemma_nth_is_tag_at(s, j + m);
}

/// Every record of the list is among its first `search_limit()` records.
pub proof fn lemma_within_limit(s: StivaleStruct, n: nat) -> (k: nat)
    requires
        s.nth(n) is Some,
    ensures
        k < s.search_limit(),
        k <= n,
        s.nth(k) == s.nth(n),
    decreases n,
{
    if n < s.search_limit() {
        n
    } else {
        lemma_nth_prefix(s, n);
        let (i, j) = lemma_collision(s);
        lemma_periodic(s, i, j, (n - j) as nat);
        lemma_within_limit(s, (i + n - j) as nat)
    }
}

proof fn lemma_first_index(s: StivaleStruct, identifier: u64, n: nat) -> (i: nat)
    requires
        s.nth(n) is Some,
        s.nth(n)->0.identifier == identifier,
    ensures
        i <= n,
        s.is_first(identifier, i),
    decreases n,
{
    if exists|j: nat|
        j < n && (#[trigger] s.nth(j)) is Some && s.nth(j)->0.identifier == identifier {
        let j = choose|j: nat|
            j < n && (#[trigger] s.nth(j)) is Some && s.nth(j)->0.identifier == identifier;
        lemma_first_index(s, identifier, j)
    } else {
        n
    }
}

/// A search that looks at `search_limit()` records finds what `find` says.
proof fn lemma_scan_is_find(s: StivaleStruct, identifier: u64)
    ensures
        s.scan(s.tags, identifier, s.search_limit()) == s.find(identifier),
{
    let scanned = s.scan(s.tags, identifier, s.search_limit());
    if scanned is Some {
        let i = lemma_scan_position(s, identifier, 0, s.search_limit());
        let n = choose|n: nat| s.is_first(identifier, n);
        lemma_first_is_unique(s, identifier, i, n);
    } else if exists|n: nat| s.is_first(identifier, n) {
        let n = choose|n: nat| s.is_first(identifier, n);
        let k = lemma_within_limit(s, n);
        let i = lemma_first_index(s, identifier, k);
        lemma_nth_prefix(s, i);
        assert(s.passes(identifier, i));
        lemma_scan_shift(s, identifier, i, (s.search_limit() - i) as nat);
        lemma_nth_is_tag_at(s, i);
    }
}

/// The search finds no record where no record of the list has the
/// identifier.
pub proof fn lemma_absent_not_found(s: StivaleStruct, identifier: u64)
    requires
        forall|n: nat| (#[trigger] s.nth(n)) is Some ==> s.nth(n)->0.identifier != identifier,
    ensures
        s.find(identifier) is None,
{
}

/// Where several records have the identifier, the search finds the one
/// nearest the head: the record at position `i`, if no record before it
/// has the identifier.
pub proof fn lemma_first_match_found(s: StivaleStruct, identifier: u64, i: nat)
    requires
        s.nth(i) is Some,
        s.nth(i)->0.identifier == identifier,
        forall|j: nat|
            j < i && (#[trigger] s.nth(j)) is Some ==> s.nth(j)->0.identifier != identifier,
    ensures
        s.find(identifier) == s.nth(i),
{
    assert(s.is_first(identifier, i));
    let n = choose|n: nat| s.is_first(identifier, n);
    lemma_first_is_unique(s, identifier, i, n);
}

/// The search misses no record, however long the list is and whether it
/// ends or runs in a circle: where the record at any position has the
/// identifier, the search finds a record with the identifier, at that
/// position or before it.
pub proof fn lemma_present_found(s: StivaleStruct, identifier: u64, n: nat) -> (i: nat)
    requires
        s.nth(n) is Some,
        s.nth(n)->0.identifier == identifier,
    ensures
        i <= n,
        i < s.search_limit(),
        s.find(identifier) == s.nth(i),
        s.is_first(identifier, i),
{
    let i = lemma_first_index(s, identifier, n);
    lemma_first_match_found(s, identifier, i);
    let k = lemma_within_limit(s, i);
    if k < i {
        assert(s.nth(k)->0.identifier == identifier);
    }
    i
}

/// The search finds nothing exactly where no record of the list has the
/// identifier.
pub proof fn lemma_not_found_iff_absent(s: StivaleStruct, identifier: u64)
    ensures
        s.find(identifier) is None <==> (forall|n: nat|
            (#[trigger] s.nth(n)) is Some ==> s.nth(n)->0.identifier != identifier),
{
    if forall|n: nat| (#[trigger] s.nth(n)) is Some ==> s.nth(n)->0.identifier != identifier {
        lemma_absent_not_found(s, identifier);
    } else {
        let n = choose|n: nat|
            (#[trigger] s.nth(n)) is Some && s.nth(n)->0.identifier == identifier;
        lemma_present_found(s, identifier, n);
    }
}

} // verus!
