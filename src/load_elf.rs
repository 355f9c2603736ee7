//! Loadable segments and the plan that places them in memory.
use vstd::prelude::*;

use crate::parse_elf::{load_in_bounds, page_off, segment_matches, Elf64Phdr, ElfType, LoadInfo};

verus! {

/// Program-header flag: executable.
pub const PF_X: u32 = 1;

/// Program-header flag: writable.
pub const PF_W: u32 = 2;

/// Program-header flag: readable.
pub const PF_R: u32 = 4;

/// Page protection of a mapped segment.
#[derive(Debug, Clone, Copy, PartialEq, Eq, Structural)]
pub struct Prot {
    pub readable: bool,
    pub writable: bool,
    pub executable: bool,
}

/// The protection that program-header flags ask for, and nothing more.
pub open spec fn prot_of(flags: u32) -> Prot {
    Prot {
        readable: flags & PF_R != 0,
        writable: flags & PF_W != 0,
        executable: flags & PF_X != 0,
    }
}

/// A `PT_LOAD` segment with the file bytes that it places in memory.
#[derive(Debug, Clone)]
pub struct ElfSegment {
    pub virt_addr: u64,
    pub memsize: u64,
    pub offset: u64,
    pub filesize: u64,
    pub alignment: u64,
    /// The file bytes, preceded by the in-page offset of `virt_addr`.
    pub data: Vec<u8>,
    pub prot: Prot,
}

impl ElfSegment {
    /// Takes a raw program header and the bytes it loads.
    pub fn new(hdr: &Elf64Phdr, data: Vec<u8>) -> (r: Self)
        ensures
            r.virt_addr == hdr.vaddr,
            r.memsize == hdr.memsz,
            r.offset == hdr.offset,
            r.filesize == hdr.filesz,
            r.alignment == hdr.align,
            r.data@ == data@,
            r.prot == prot_of(hdr.pflags),
    {
        ElfSegment {
            virt_addr: hdr.vaddr,
            memsize: hdr.memsz,
            filesize: hdr.filesz,
            alignment: hdr.align,
            data,
            offset: hdr.offset,
            prot: Self::get_prot_flags_from_progam_flags(hdr.pflags),
        }
    }

    /// Decodes `PF_X`, `PF_W` and `PF_R` into a protection.
    pub fn get_prot_flags_from_progam_flags(program_flags: u32) -> (r: Prot)
        ensures
            r == prot_of(program_flags),
    {
        let mut prot = Prot { readable: false, writable: false, executable: false };
        if (program_flags & PF_X) != 0 {
            prot.executable = true;
        }
        if (program_flags & PF_W) != 0 {
            prot.writable = true;
        }
        if (program_flags & PF_R) != 0 {
            prot.readable = true;
        }
        prot
    }
}

/// Granularity of page protections.
pub const ELF_MIN_ALIGNMENT: u64 = 0x1000;

/// `x` rounded down to a page boundary.
pub open spec fn page_floor(x: int) -> int {
    x - x % 4096
}

/// `x` rounded up to a page boundary.
pub open spec fn page_ceil(x: int) -> int {
    page_floor(x + 4095)
}

/// The first address of the reservation, rounded down to 16 bytes, up to
/// the end of the last segment's memory image.
pub open spec fn total_span(segs: Seq<ElfSegment>) -> int {
    segs.last().virt_addr + segs.last().memsize - (segs[0].virt_addr - segs[0].virt_addr % 16)
}

/// The span can be computed: there is a segment, the last one ends inside
/// the address space and not below the first one's start.
pub open spec fn span_ok(segs: Seq<ElfSegment>) -> bool {
    &&& segs.len() > 0
    &&& segs.last().virt_addr + segs.last().memsize <= u64::MAX
    &&& total_span(segs) >= 0
}

/// Where and how the single reservation for an image is made.
#[derive(Debug, Clone, Copy, PartialEq, Eq, Structural)]
pub struct Reservation {
    /// The address asked for; 0 lets the kernel choose.
    pub addr: u64,
    /// Whether the kernel must honour `addr`.
    pub fixed: bool,
    pub size: u64,
}

/// Where a segment's bytes go and which protection its pages get.
#[derive(Debug, Clone, Copy, PartialEq, Eq, Structural)]
pub struct Placement {
    /// Page-aligned address to which the segment's data are copied.
    pub addr: u64,
    /// Length, a whole number of pages, of the range to protect.
    pub size: u64,
    pub prot: Prot,
}

/// Why an image cannot be placed.
#[derive(Debug, Clone, Copy, PartialEq, Eq, Structural)]
pub enum MapError {
    /// There is no `PT_LOAD` segment.
    NoSegments,
    /// The segments do not span a range of the address space.
    BadSpan,
    /// The first segment's file offset exceeds its address.
    BadFixedAddress,
    /// A segment's pages reach past the end of the address space.
    AddressOverflow,
}

/// The reservation that `li` asks for, once its span can be computed.
pub open spec fn reservation_of(li: LoadInfo) -> Reservation {
    let segs = li.segments@;
    Reservation {
        addr: match li.etype {
            ElfType::ElfExec => (segs[0].virt_addr - segs[0].offset) as u64,
            ElfType::ElfDyn => 0,
        },
        fixed: li.etype == ElfType::ElfExec,
        size: total_span(segs) as u64,
    }
}

/// The base added to segment addresses: none for a position-dependent
/// image, the reservation's address otherwise.
pub open spec fn load_base_of(etype: ElfType, load_addr: u64) -> u64 {
    match etype {
        ElfType::ElfExec => 0,
        ElfType::ElfDyn => load_addr,
    }
}

/// The segment's pages lie inside the address space.
pub open spec fn placement_fits(base: u64, s: ElfSegment) -> bool {
    let a = base + s.virt_addr;
    &&& a <= u64::MAX
    &&& s.filesize + a % 4096 + 4095 <= u64::MAX
}

/// The placement of segment `s` at load base `base`.
pub open spec fn placement_of(base: u64, s: ElfSegment) -> Placement {
    let a = base + s.virt_addr;
    Placement {
        addr: page_floor(a) as u64,
        size: page_ceil(s.filesize + a % 4096) as u64,
        prot: s.prot,
    }
}

/// Loads an image: the reservation, then one placement per segment.
pub struct ElfLoad {
    pub load_addr: u64,
}

impl ElfLoad {
    /// The size of the single reservation for `segments`.
    pub fn get_total_mapping_size(segments: &Vec<ElfSegment>) -> (r: u64)
        requires
            span_ok(segments@),
        ensures
            r == total_span(segments@),
    {
        let last_idx = segments.len() - 1;
        let first = segments[0].virt_addr;
        segments[last_idx].virt_addr + segments[last_idx].memsize - (first - first % 16)
    }

    /// Where to reserve memory for the image: at the first segment's
    /// address less its file offset for a position-dependent image, with
    /// fixed placement; anywhere for a position-independent one.
    pub fn reservation(load_info: &LoadInfo) -> (r: Result<Reservation, MapError>)
        ensures
            load_info.segments@.len() == 0 ==> r == Err::<Reservation, MapError>(
                MapError::NoSegments,
            ),
            load_info.segments@.len() > 0 && !span_ok(load_info.segments@) ==> r == Err::<
                Reservation,
                MapError,
            >(MapError::BadSpan),
            span_ok(load_info.segments@) && load_info.etype == ElfType::ElfExec
                && load_info.segments@[0].offset > load_info.segments@[0].virt_addr ==> r
                == Err::<Reservation, MapError>(MapError::BadFixedAddress),
            span_ok(load_info.segments@) && !(load_info.etype == ElfType::ElfExec
                && load_info.segments@[0].offset > load_info.segments@[0].virt_addr) ==> r
                == Ok::<Reservation, MapError>(reservation_of(*load_info)),
    {
        let segments = &load_info.segments;
        if segments.len() == 0 {
            return Err(MapError::NoSegments);
        }
        let last_idx = segments.len() - 1;
        let first = segments[0].virt_addr;
        if segments[last_idx].memsize > u64::MAX - segments[last_idx].virt_addr
            || segments[last_idx].virt_addr + segments[last_idx].memsize < first - first % 16 {
            return Err(MapError::BadSpan);
        }
        let size = Self::get_total_mapping_size(segments);
        match load_info.etype {
            ElfType::ElfExec => {
                if segments[0].offset > segments[0].virt_addr {
                    return Err(MapError::BadFixedAddress);
                }
                Ok(Reservation { addr: segments[0].virt_addr - segments[0].offset, fixed: true, size })
            },
            ElfType::ElfDyn => Ok(Reservation { addr: 0, fixed: false, size }),
        }
    }

    /// The placement of every segment once the reservation is at
    /// `load_addr`, in segment order.
    pub fn placements(load_info: &LoadInfo, load_addr: u64) -> (r: Result<
        Vec<Placement>,
        MapError,
    >)
        ensures
            r is Ok <==> forall|i: int|
                0 <= i < load_info.segments@.len() ==> placement_fits(
                    load_base_of(load_info.etype, load_addr),
                    #[trigger] load_info.segments@[i],
                ),
            r is Err ==> r == Err::<Vec<Placement>, MapError>(MapError::AddressOverflow),
            r matches Ok(ps) ==> ps@.len() == load_info.segments@.len() && forall|i: int|
                0 <= i < ps@.len() ==> #[trigger] ps@[i] == placement_of(
                    load_base_of(load_info.etype, load_addr),
                    load_info.segments@[i],
                ),
    {
        let segments = &load_info.segments;
        let base = match load_info.etype {
            ElfType::ElfExec => 0,
            ElfType::ElfDyn => load_addr,
        };
        let mut res: Vec<Placement> = Vec::new();
        let mut i: usize = 0;
        while i < segments.len()
            invariant
                base == load_base_of(load_info.etype, load_addr),
                segments@ == load_info.segments@,
                i <= segments@.len(),
                res@.len() == i,
                forall|j: int| 0 <= j < i ==> placement_fits(base, #[trigger] segments@[j]),
                forall|j: int|
                    0 <= j < i ==> #[trigger] res@[j] == placement_of(base, segments@[j]),
            decreases segments@.len() - i,
        {
            let seg = &segments[i];
            if seg.virt_addr > u64::MAX - base {
                assert(!placement_fits(base, segments@[i as int]));
                return Err(MapError::AddressOverflow);
            }
            let addr = base + seg.virt_addr;
            let in_page = addr % ELF_MIN_ALIGNMENT;
            if seg.filesize > u64::MAX - 4095 - in_page {
                assert(!placement_fits(base, segments@[i as int]));
                return Err(MapError::AddressOverflow);
            }
            let size = seg.filesize + in_page;
            let padded = size + (ELF_MIN_ALIGNMENT - 1);
            res.push(
                Placement {
                    addr: addr - in_page,
                    size: padded - padded % ELF_MIN_ALIGNMENT,
                    prot: seg.prot,
                },
            );
            i += 1;
        }
        Ok(res)
    }
}

/// Placement: at a page-aligned load base, copying a parsed segment's data to
/// its placement puts the segment's first file byte at `base + vaddr`, the
/// data after the in-page padding are exactly the segment's file bytes, and
/// the protected range covers all of the data.
pub proof fn lemma_placement_lands_data(base: u64, s: ElfSegment, p: Elf64Phdr, b: Seq<u8>)
    requires
        segment_matches(s, p, b),
        load_in_bounds(b, p),
        base % 4096 == 0,
        placement_fits(base, s),
    ensures
        placement_of(base, s).addr + page_off(p.vaddr) == base + p.vaddr,
        s.data@.len() == page_off(p.vaddr) + p.filesz,
        s.data@.subrange(page_off(p.vaddr), s.data@.len() as int) == b.subrange(
            p.offset as int,
            p.offset + p.filesz,
        ),
        placement_of(base, s).addr % 4096 == 0,
        placement_of(base, s).size % 4096 == 0,
        s.data@.len() <= placement_of(base, s).size,
{
    let v = p.vaddr;
    assert(v & 0xfff == v % 4096) by (bit_vector);
    assert((base + v) % 4096 == v % 4096) by {
        assert(base == 4096 * (base / 4096));
    }
    assert(s.data@.subrange(page_off(v), s.data@.len() as int) =~= b.subrange(
        p.offset as int,
        p.offset + p.filesz,
    ));
}

/// Protection: a parsed segment's pages get the decoding of its program
/// header's flags, with no permission that the flags do not grant.
pub proof fn lemma_protection_exact(base: u64, s: ElfSegment, p: Elf64Phdr, b: Seq<u8>)
    requires
        segment_matches(s, p, b),
    ensures
        placement_of(base, s).prot == prot_of(p.pflags),
        placement_of(base, s).prot.readable <==> p.pflags & PF_R != 0,
        placement_of(base, s).prot.writable <==> p.pflags & PF_W != 0,
        placement_of(base, s).prot.executable <==> p.pflags & PF_X != 0,
{
}

/// Single reservation: when the segments are in ascending address order and
/// do not overlap, the span from the first segment's 16-byte floored address
/// covers the memory image of every segment.
pub proof fn lemma_span_covers_segments(segs: Seq<ElfSegment>)
    requires
        span_ok(segs),
        forall|j: int, k: int|
            0 <= j < k < segs.len() ==> #[trigger] segs[j].virt_addr + segs[j].memsize
                <= #[trigger] segs[k].virt_addr,
    ensures
        forall|i: int|
            0 <= i < segs.len() ==> {
                let start = segs[0].virt_addr - segs[0].virt_addr % 16;
                &&& start <= #[trigger] segs[i].virt_addr
                &&& segs[i].virt_addr + segs[i].memsize <= start + total_span(segs)
            },
{
    let n = segs.len() - 1;
    assert forall|i: int| 0 <= i < segs.len() implies {
        let start = segs[0].virt_addr - segs[0].virt_addr % 16;
        &&& start <= #[trigger] segs[i].virt_addr
        &&& segs[i].virt_addr + segs[i].memsize <= start + total_span(segs)
    } by {
        if 0 < i {
            assert(segs[0].virt_addr + segs[0].memsize <= segs[i].virt_addr);
        }
        if i < n {
            assert(segs[i].virt_addr + segs[i].memsize <= segs[n].virt_addr);
        }
    }
}

} // verus!
