//! Validation of the ELF header and extraction of the `PT_LOAD` and
//! `PT_INTERP` program headers.
use vstd::prelude::*;
use vstd::utf8::{decode_utf8, valid_utf8};

use crate::bytes::{le16_at, le32_at, le64_at, read_u16, read_u32, read_u64};
use crate::load_elf::{prot_of, ElfSegment};

verus! {

/// Program-header type of a loadable segment.
pub const PT_LOAD: u32 = 1;

/// Program-header type of the interpreter path.
pub const PT_INTERP: u32 = 3;

/// Size of a 64-bit ELF header.
pub const SIZE_OF_ELF_HDR: usize = 64;

/// Size of a program-header entry, the only one accepted.
pub const SIZE_OF_PROGRAM_HDR: u16 = 56;

/// `e_ident[EI_CLASS]` of a 64-bit file.
pub const CLASS_64_BIT: u8 = 2;

/// `e_type` of a position-dependent executable.
pub const ELF_EXEC: u16 = 2;

/// `e_type` of a position-independent image.
pub const ELF_DYN: u16 = 3;

/// `e_ident[EI_OSABI]` of Linux.
pub const LINUX_ABI: u8 = 3;

/// `e_ident[EI_OSABI]` of System V.
pub const SYSTEMV_ABI: u8 = 0;

/// `e_machine` of x86.
pub const X86_MACHINE: u16 = 3;

/// `e_machine` of amd64.
pub const AMD64_MACHINE: u16 = 0x3e;

/// The bytes 0x7f 'E' 'L' 'F' read as a little-endian word.
pub const ELF_MAGIC: u32 = 0x464c457f;

/// Mask of the offset inside a 4 KiB page.
pub const PAGE_OFFSET_MASK: u64 = 0xfff;

/// Why a file is refused.
#[derive(Debug, Clone, Copy, PartialEq, Eq, Structural)]
pub enum ElfError {
    /// Shorter than an ELF header.
    TooShort,
    /// The first four bytes are not 0x7f 'E' 'L' 'F'.
    BadMagic,
    /// Not a 64-bit file.
    NotElf64,
    /// Neither `ET_EXEC` nor `ET_DYN`.
    UnsupportedType,
    /// Neither the System V nor the Linux ABI.
    UnsupportedAbi,
    /// Neither x86 nor amd64.
    UnsupportedMachine,
    /// A program-header entry size other than 56.
    BadPhentsize,
    /// The program-header table extends past the end of the file.
    HeadersOutOfBounds,
    /// The `PT_LOAD` entry with this index reaches outside the file.
    SegmentOutOfBounds(u16),
    /// The `PT_INTERP` entry with this index is not a NUL-terminated UTF-8
    /// path inside the file.
    BadInterp(u16),
}

/// An Elf64_Phdr as stored in the file.
#[derive(Debug, Clone, Copy, PartialEq, Eq, Structural)]
pub struct Elf64Phdr {
    pub ptype: u32,
    pub pflags: u32,
    pub offset: u64,
    pub vaddr: u64,
    pub paddr: u64,
    pub filesz: u64,
    pub memsz: u64,
    pub align: u64,
}

/// The program header stored at byte `off` of `b`.
pub open spec fn phdr_at(b: Seq<u8>, off: int) -> Elf64Phdr {
    Elf64Phdr {
        ptype: le32_at(b, off) as u32,
        pflags: le32_at(b, off + 4) as u32,
        offset: le64_at(b, off + 8) as u64,
        vaddr: le64_at(b, off + 16) as u64,
        paddr: le64_at(b, off + 24) as u64,
        filesz: le64_at(b, off + 32) as u64,
        memsz: le64_at(b, off + 40) as u64,
        align: le64_at(b, off + 48) as u64,
    }
}

impl Elf64Phdr {
    /// Decodes the program header stored at byte `off`.
    pub fn parse(buffer: &[u8], off: usize) -> (r: Self)
        requires
            off + 56 <= buffer.len(),
        ensures
            r == phdr_at(buffer@, off as int),
    {
        Elf64Phdr {
            ptype: read_u32(buffer, off),
            pflags: read_u32(buffer, off + 4),
            offset: read_u64(buffer, off + 8),
            vaddr: read_u64(buffer, off + 16),
            paddr: read_u64(buffer, off + 24),
            filesz: read_u64(buffer, off + 32),
            memsz: read_u64(buffer, off + 40),
            align: read_u64(buffer, off + 48),
        }
    }
}

/// The fields of an ELF header; the seven padding bytes of `e_ident` are
/// not kept.
#[derive(Debug, Clone, Copy, PartialEq, Eq, Structural)]
pub struct ElfHdr {
    pub magic: u32,
    pub class: u8,
    pub endian: u8,
    pub elf_version: u8,
    pub os_abi: u8,
    pub abi_version: u8,
    pub etype: u16,
    pub machine: u16,
    pub version2: u32,
    pub entry_point: u64,
    pub program_headers: u64,
    pub section_table_off: u64,
    pub flags: u32,
    pub header_size: u16,
    pub pheader_size: u16,
    pub pheader_num: u16,
    pub shent_size: u16,
    pub shnum: u16,
    pub shstrnidx: u16,
}

/// The ELF header stored at the start of `b`.
pub open spec fn hdr_at(b: Seq<u8>) -> ElfHdr {
    ElfHdr {
        magic: le32_at(b, 0) as u32,
        class: b[4],
        endian: b[5],
        elf_version: b[6],
        os_abi: b[7],
        abi_version: b[8],
        etype: le16_at(b, 16) as u16,
        machine: le16_at(b, 18) as u16,
        version2: le32_at(b, 20) as u32,
        entry_point: le64_at(b, 24) as u64,
        program_headers: le64_at(b, 32) as u64,
        section_table_off: le64_at(b, 40) as u64,
        flags: le32_at(b, 48) as u32,
        header_size: le16_at(b, 52) as u16,
        pheader_size: le16_at(b, 54) as u16,
        pheader_num: le16_at(b, 56) as u16,
        shent_size: le16_at(b, 58) as u16,
        shnum: le16_at(b, 60) as u16,
        shstrnidx: le16_at(b, 62) as u16,
    }
}

/// The first header check that `h` fails, in the order magic, class, type,
/// ABI, machine, entry size.
pub open spec fn hdr_error(h: ElfHdr) -> Option<ElfError> {
    if h.magic != ELF_MAGIC {
        Some(ElfError::BadMagic)
    } else if h.class != CLASS_64_BIT {
        Some(ElfError::NotElf64)
    } else if !(h.etype == ELF_EXEC || h.etype == ELF_DYN) {
        Some(ElfError::UnsupportedType)
    } else if !(h.os_abi == LINUX_ABI || h.os_abi == SYSTEMV_ABI) {
        Some(ElfError::UnsupportedAbi)
    } else if !(h.machine == X86_MACHINE || h.machine == AMD64_MACHINE) {
        Some(ElfError::UnsupportedMachine)
    } else if h.pheader_size != SIZE_OF_PROGRAM_HDR {
        Some(ElfError::BadPhentsize)
    } else {
        None
    }
}

/// One past the last byte of the program-header table.
pub open spec fn table_end(h: ElfHdr) -> int {
    h.program_headers + 56 * h.pheader_num
}

/// Entry `i` of the program-header table.
pub open spec fn phdr_of(h: ElfHdr, b: Seq<u8>, i: int) -> Elf64Phdr {
    phdr_at(b, h.program_headers + 56 * i)
}

/// The offset of `vaddr` inside its page.
pub open spec fn page_off(vaddr: u64) -> int {
    (vaddr & PAGE_OFFSET_MASK) as int
}

/// A `PT_LOAD` entry whose page-padded file slice lies inside the file.
pub open spec fn load_in_bounds(b: Seq<u8>, p: Elf64Phdr) -> bool {
    page_off(p.vaddr) <= p.offset && p.offset + p.filesz <= b.len()
}

/// The file bytes of a `PT_LOAD` entry, preceded by the in-page offset of
/// its address.
pub open spec fn load_bytes(b: Seq<u8>, p: Elf64Phdr) -> Seq<u8> {
    b.subrange(p.offset - page_off(p.vaddr), p.offset + p.filesz)
}

/// The path bytes of a `PT_INTERP` entry, without the closing NUL.
pub open spec fn interp_bytes(b: Seq<u8>, p: Elf64Phdr) -> Seq<u8> {
    b.subrange(p.offset as int, p.offset + p.filesz - 1)
}

/// A `PT_INTERP` entry that holds a NUL-terminated UTF-8 path inside the file.
pub open spec fn interp_ok(b: Seq<u8>, p: Elf64Phdr) -> bool {
    &&& p.filesz >= 1
    &&& p.offset + p.filesz <= b.len()
    &&& b[p.offset + p.filesz - 1] == 0
    &&& valid_utf8(interp_bytes(b, p))
}

/// What is wrong with entry `i`, if anything.
pub open spec fn entry_error(b: Seq<u8>, p: Elf64Phdr, i: int) -> Option<ElfError> {
    if p.ptype == PT_LOAD && !load_in_bounds(b, p) {
        Some(ElfError::SegmentOutOfBounds(i as u16))
    } else if p.ptype == PT_INTERP && !interp_ok(b, p) {
        Some(ElfError::BadInterp(i as u16))
    } else {
        None
    }
}

/// The error of the first faulty entry among the first `n`.
pub open spec fn first_entry_error(h: ElfHdr, b: Seq<u8>, n: int) -> Option<ElfError>
    decreases n,
{
    if n <= 0 {
        None
    } else {
        match first_entry_error(h, b, n - 1) {
            Some(e) => Some(e),
            None => entry_error(b, phdr_of(h, b, n - 1), n - 1),
        }
    }
}

/// The `PT_LOAD` entries among the first `n`, in file order.
pub open spec fn load_headers(h: ElfHdr, b: Seq<u8>, n: int) -> Seq<Elf64Phdr>
    decreases n,
{
    if n <= 0 {
        seq![]
    } else if phdr_of(h, b, n - 1).ptype == PT_LOAD {
        load_headers(h, b, n - 1).push(phdr_of(h, b, n - 1))
    } else {
        load_headers(h, b, n - 1)
    }
}

/// The last `PT_INTERP` entry among the first `n`.
pub open spec fn interp_header(h: ElfHdr, b: Seq<u8>, n: int) -> Option<Elf64Phdr>
    decreases n,
{
    if n <= 0 {
        None
    } else if phdr_of(h, b, n - 1).ptype == PT_INTERP {
        Some(phdr_of(h, b, n - 1))
    } else {
        interp_header(h, b, n - 1)
    }
}

/// `s` is the segment that entry `p` of file `b` describes.
pub open spec fn segment_matches(s: ElfSegment, p: Elf64Phdr, b: Seq<u8>) -> bool {
    &&& s.virt_addr == p.vaddr
    &&& s.memsize == p.memsz
    &&& s.offset == p.offset
    &&& s.filesize == p.filesz
    &&& s.alignment == p.align
    &&& s.prot == prot_of(p.pflags)
    &&& s.data@ == load_bytes(b, p)
}

/// The segments are those of the entries `ps`, one for one and in order.
pub open spec fn segments_match(segs: Seq<ElfSegment>, ps: Seq<Elf64Phdr>, b: Seq<u8>) -> bool {
    &&& segs.len() == ps.len()
    &&& forall|k: int| 0 <= k < segs.len() ==> segment_matches(#[trigger] segs[k], ps[k], b)
}

/// The interpreter path is the one that entry `p` names, if there is one.
pub open spec fn interp_matches(r: Option<String>, p: Option<Elf64Phdr>, b: Seq<u8>) -> bool {
    match p {
        None => r is None,
        Some(p) => r is Some && r->0@ == decode_utf8(interp_bytes(b, p)),
    }
}

/// Relies on `String::from_utf8`: it succeeds exactly on valid UTF-8 and then
/// holds the decoded text.
#[verifier::external_body]
fn string_from_utf8(v: Vec<u8>) -> (r: Option<String>)
    ensures
        r is Some <==> valid_utf8(v@),
        r matches Some(s) ==> s@ == decode_utf8(v@),
{
    String::from_utf8(v).ok()
}

/// Copies `buffer[start..end]`.
fn copy_range(buffer: &[u8], start: usize, end: usize) -> (r: Vec<u8>)
    requires
        start <= end <= buffer@.len(),
    ensures
        r@ == buffer@.subrange(start as int, end as int),
{
    let mut v: Vec<u8> = Vec::with_capacity(end - start);
    let mut k: usize = start;
    while k < end
        invariant
            start <= k <= end <= buffer@.len(),
            v@ == buffer@.subrange(start as int, k as int),
        decreases end - k,
    {
        v.push(buffer[k]);
        k += 1;
        assert(v@ =~= buffer@.subrange(start as int, k as int));
    }
    v
}

impl ElfHdr {
    /// Decodes the header at the start of the file.
    pub fn parse(buffer: &[u8]) -> (r: Self)
        requires
            SIZE_OF_ELF_HDR <= buffer@.len(),
        ensures
            r == hdr_at(buffer@),
    {
        ElfHdr {
            magic: read_u32(buffer, 0),
            class: buffer[4],
            endian: buffer[5],
            elf_version: buffer[6],
            os_abi: buffer[7],
            abi_version: buffer[8],
            etype: read_u16(buffer, 16),
            machine: read_u16(buffer, 18),
            version2: read_u32(buffer, 20),
            entry_point: read_u64(buffer, 24),
            program_headers: read_u64(buffer, 32),
            section_table_off: read_u64(buffer, 40),
            flags: read_u32(buffer, 48),
            header_size: read_u16(buffer, 52),
            pheader_size: read_u16(buffer, 54),
            pheader_num: read_u16(buffer, 56),
            shent_size: read_u16(buffer, 58),
            shnum: read_u16(buffer, 60),
            shstrnidx: read_u16(buffer, 62),
        }
    }

    /// Checks that this is a 64-bit x86 executable or position-independent
    /// image for System V or Linux with standard program-header entries.
    pub fn verify(&self) -> (r: Result<(), ElfError>)
        ensures
            r == (match hdr_error(*self) {
                Some(e) => Err(e),
                None => Ok(()),
            }),
    {
        if self.magic != ELF_MAGIC {
            return Err(ElfError::BadMagic);
        }
        if self.class != CLASS_64_BIT {
            return Err(ElfError::NotElf64);
        }
        if !(self.etype == ELF_EXEC || self.etype == ELF_DYN) {
            return Err(ElfError::UnsupportedType);
        }
        if !(self.os_abi == LINUX_ABI || self.os_abi == SYSTEMV_ABI) {
            return Err(ElfError::UnsupportedAbi);
        }
        if !(self.machine == X86_MACHINE || self.machine == AMD64_MACHINE) {
            return Err(ElfError::UnsupportedMachine);
        }
        if self.pheader_size != SIZE_OF_PROGRAM_HDR {
            return Err(ElfError::BadPhentsize);
        }
        Ok(())
    }
}

/// What `parse_segments` owes once the program-header table is known to lie
/// inside the file.
pub open spec fn segments_outcome(
    h: ElfHdr,
    b: Seq<u8>,
    r: Result<(Option<String>, Vec<ElfSegment>), ElfError>,
) -> bool {
    match first_entry_error(h, b, h.pheader_num as int) {
        Some(e) => r == Err::<(Option<String>, Vec<ElfSegment>), ElfError>(e),
        None => match r {
            Ok((interp, segs)) => {
                &&& interp_matches(interp, interp_header(h, b, h.pheader_num as int), b)
                &&& segments_match(segs@, load_headers(h, b, h.pheader_num as int), b)
            },
            Err(_) => false,
        },
    }
}

/// Once an entry is faulty, the first error stays the same for longer
/// prefixes of the table.
proof fn lemma_first_error_stable(h: ElfHdr, b: Seq<u8>, k: int, n: int)
    requires
        0 <= k <= n,
        first_entry_error(h, b, k) is Some,
    ensures
        first_entry_error(h, b, n) == first_entry_error(h, b, k),
    decreases n - k,
{
    if n > k {
        lemma_first_error_stable(h, b, k, n - 1);
    }
}

impl ElfHdr {
    /// Walks the program-header table and returns the interpreter path, if
    /// any, and the `PT_LOAD` segments in file order.
    pub fn parse_segments(&self, buffer: &[u8]) -> (r: Result<
        (Option<String>, Vec<ElfSegment>),
        ElfError,
    >)
        ensures
            table_end(*self) > buffer@.len() ==> r == Err::<
                (Option<String>, Vec<ElfSegment>),
                ElfError,
            >(ElfError::HeadersOutOfBounds),
            table_end(*self) <= buffer@.len() ==> segments_outcome(*self, buffer@, r),
    {
        let len = buffer.len() as u64;
        let num = self.pheader_num as u64;
        if self.program_headers > len || num * 56 > len - self.program_headers {
            return Err(ElfError::HeadersOutOfBounds);
        }
        let ghost b = buffer@;
        let ghost n = self.pheader_num as int;
        let mut elf_interp: Option<String> = None;
        let mut res: Vec<ElfSegment> = Vec::new();
        let mut i: u16 = 0;
        let mut cur: usize = self.program_headers as usize;
        while i < self.pheader_num
            invariant
                b == buffer@,
                n == self.pheader_num,
                len == b.len(),
                b.len() <= usize::MAX,
                i <= n,
                table_end(*self) <= b.len(),
                cur == self.program_headers + 56 * i,
                first_entry_error(*self, b, i as int) is None,
                segments_match(res@, load_headers(*self, b, i as int), b),
                interp_matches(elf_interp, interp_header(*self, b, i as int), b),
            decreases n - i,
        {
            let ph = Elf64Phdr::parse(buffer, cur);
            assert(ph == phdr_of(*self, b, i as int));
            if ph.ptype == PT_LOAD {
                let page_off = ph.vaddr & PAGE_OFFSET_MASK;
                if ph.offset < page_off || ph.filesz > len || ph.offset > len - ph.filesz {
                    proof {
                        lemma_first_error_stable(*self, b, i + 1, n);
                    }
                    return Err(ElfError::SegmentOutOfBounds(i));
                }
                let seg_start = (ph.offset - page_off) as usize;
                let seg_end = (ph.offset + ph.filesz) as usize;
                let data = copy_range(buffer, seg_start, seg_end);
                let seg = ElfSegment::new(&ph, data);
                let ghost old_res = res@;
                res.push(seg);
                assert(res@ == old_res.push(seg));
                assert(segments_match(res@, load_headers(*self, b, i + 1), b)) by {
                    assert(load_headers(*self, b, i + 1) == load_headers(*self, b, i as int).push(ph));
                    assert forall|k: int| 0 <= k < res@.len() implies segment_matches(
                        #[trigger] res@[k],
                        load_headers(*self, b, i + 1)[k],
                        b,
                    ) by {
                        if k < old_res.len() {
                            assert(res@[k] == old_res[k]);
                        }
                    }
                }
            } else if ph.ptype == PT_INTERP {
                if ph.filesz == 0 || ph.filesz > len || ph.offset > len - ph.filesz {
                    proof {
                        lemma_first_error_stable(*self, b, i + 1, n);
                    }
                    return Err(ElfError::BadInterp(i));
                }
                let start = ph.offset as usize;
                let end = (ph.offset + ph.filesz) as usize;
                if buffer[end - 1] != 0 {
                    proof {
                        lemma_first_error_stable(*self, b, i + 1, n);
                    }
                    return Err(ElfError::BadInterp(i));
                }
                let path = copy_range(buffer, start, end - 1);
                match string_from_utf8(path) {
                    Some(s) => {
                        elf_interp = Some(s);
                    },
                    None => {
                        proof {
                            lemma_first_error_stable(*self, b, i + 1, n);
                        }
                        return Err(ElfError::BadInterp(i));
                    },
                }
            }
            i += 1;
            cur += 56;
        }
        Ok((elf_interp, res))
    }
}

/// The kind of image: position-dependent or position-independent.
#[derive(Debug, Clone, Copy, PartialEq, Eq, Structural)]
pub enum ElfType {
    ElfExec,
    ElfDyn,
}

/// The kind that an accepted `e_type` names.
pub open spec fn elf_type_of(etype: u16) -> ElfType {
    if etype == ELF_EXEC {
        ElfType::ElfExec
    } else {
        ElfType::ElfDyn
    }
}

impl ElfType {
    /// The kind of an `e_type` of `ET_EXEC` or `ET_DYN`.
    pub fn from(etype: u16) -> (r: Self)
        requires
            etype == ELF_EXEC || etype == ELF_DYN,
        ensures
            r == elf_type_of(etype),
    {
        if etype == ELF_EXEC {
            ElfType::ElfExec
        } else {
            ElfType::ElfDyn
        }
    }
}

/// Everything the mapper and the stack builder need of a parsed file.
pub struct LoadInfo {
    pub entry_point: u64,
    pub pheader_off: u64,
    pub pheader_num: u64,
    pub segments: Vec<ElfSegment>,
    pub elf_interp: Option<String>,
    pub etype: ElfType,
}

/// Why the file `b` is refused, if it is: the first failing check, in the
/// order size, header fields, table bounds, then the entries in file order.
pub open spec fn parse_error(b: Seq<u8>) -> Option<ElfError> {
    if b.len() < SIZE_OF_ELF_HDR {
        Some(ElfError::TooShort)
    } else if hdr_error(hdr_at(b)) is Some {
        hdr_error(hdr_at(b))
    } else if table_end(hdr_at(b)) > b.len() {
        Some(ElfError::HeadersOutOfBounds)
    } else {
        first_entry_error(hdr_at(b), b, hdr_at(b).pheader_num as int)
    }
}

/// `li` holds what the accepted file `b` describes.
pub open spec fn load_info_matches(li: LoadInfo, b: Seq<u8>) -> bool {
    let h = hdr_at(b);
    &&& li.entry_point == h.entry_point
    &&& li.pheader_off == h.program_headers
    &&& li.pheader_num == h.pheader_num
    &&& li.etype == elf_type_of(h.etype)
    &&& segments_match(li.segments@, load_headers(h, b, h.pheader_num as int), b)
    &&& interp_matches(li.elf_interp, interp_header(h, b, h.pheader_num as int), b)
}

/// Validates the contents of an ELF file and extracts what loading it needs.
pub fn parse_elf(buffer: &[u8]) -> (r: Result<LoadInfo, ElfError>)
    ensures
        parse_error(buffer@) matches Some(e) ==> r == Err::<LoadInfo, ElfError>(e),
        parse_error(buffer@) is None ==> (r matches Ok(li) && load_info_matches(li, buffer@)),
{
    if buffer.len() < SIZE_OF_ELF_HDR {
        return Err(ElfError::TooShort);
    }
    let hdr = ElfHdr::parse(buffer);
    match hdr.verify() {
        Ok(()) => {},
        Err(e) => {
            return Err(e);
        },
    }
    match hdr.parse_segments(buffer) {
        Ok((elf_interp, segments)) => Ok(
            LoadInfo {
                entry_point: hdr.entry_point,
                pheader_off: hdr.program_headers,
                pheader_num: hdr.pheader_num as u64,
                segments,
                elf_interp,
                etype: ElfType::from(hdr.etype),
            },
        ),
        Err(e) => Err(e),
    }
}

/// Faults found in the entries are only ever entry faults.
proof fn lemma_entry_error_kind(h: ElfHdr, b: Seq<u8>, n: int)
    ensures
        first_entry_error(h, b, n) matches Some(e) ==> (e is SegmentOutOfBounds
            || e is BadInterp),
    decreases n,
{
    if n > 0 {
        lemma_entry_error_kind(h, b, n - 1);
    }
}

/// Validation completeness for the magic: a file of at least a header's
/// length is refused as `BadMagic` exactly when its first four bytes are not
/// 0x7f 'E' 'L' 'F'.
pub proof fn lemma_magic_bytes(b: Seq<u8>)
    requires
        b.len() >= SIZE_OF_ELF_HDR,
    ensures
        parse_error(b) == Some(ElfError::BadMagic) <==> !(b[0] == 0x7f && b[1] == 0x45 && b[2]
            == 0x4c && b[3] == 0x46),
{
    lemma_entry_error_kind(hdr_at(b), b, hdr_at(b).pheader_num as int);
    let (b0, b1, b2, b3) = (b[0], b[1], b[2], b[3]);
    assert(0 <= le32_at(b, 0) < 0x1_0000_0000);
    assert(le32_at(b, 0) == b0 as int + 256 * b1 as int + 65536 * (b2 as int + 256 * b3 as int));
    if le32_at(b, 0) == ELF_MAGIC as int {
        assert(b0 == 0x7f && b1 == 0x45 && b2 == 0x4c && b3 == 0x46) by (nonlinear_arith)
            requires
                b0 as int + 256 * b1 as int + 65536 * (b2 as int + 256 * b3 as int) == 0x464c457f,
        ;
    }
}

/// Validation completeness for the entry size: a file whose header passes
/// every earlier check is refused as `BadPhentsize` exactly when its
/// program-header entry size is not 56.
pub proof fn lemma_phentsize_checked(b: Seq<u8>)
    requires
        b.len() >= SIZE_OF_ELF_HDR,
        hdr_error(hdr_at(b)) is None || hdr_error(hdr_at(b)) == Some(ElfError::BadPhentsize),
    ensures
        parse_error(b) == Some(ElfError::BadPhentsize) <==> hdr_at(b).pheader_size != 56,
{
    lemma_entry_error_kind(hdr_at(b), b, hdr_at(b).pheader_num as int);
}

} // verus!
