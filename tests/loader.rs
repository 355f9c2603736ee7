use loader::bytes::{read_u16, read_u32, read_u64};
use loader::load_elf::{ElfLoad, ElfSegment, MapError, Placement, Prot, Reservation};
use loader::parse_elf::{parse_elf, Elf64Phdr, ElfError, ElfHdr, ElfType, LoadInfo};
use loader::stack_setup::{
    lay_out_stack, setup_stack, write_aux_val, write_pointer, InheritedAux, StackError, StackImage, AT_BASE, AT_ENTRY,
    AT_EXECFN, AT_NULL, AT_PHDR, AT_PHENT, AT_PHNUM, AT_RANDOM, STACK_SIZE,
};

struct Ph {
    ptype: u32,
    flags: u32,
    offset: u64,
    vaddr: u64,
    filesz: u64,
    memsz: u64,
}

fn put16(b: &mut Vec<u8>, off: usize, v: u16) {
    b[off..off + 2].copy_from_slice(&v.to_le_bytes());
}

fn put32(b: &mut Vec<u8>, off: usize, v: u32) {
    b[off..off + 4].copy_from_slice(&v.to_le_bytes());
}

fn put64(b: &mut Vec<u8>, off: usize, v: u64) {
    b[off..off + 8].copy_from_slice(&v.to_le_bytes());
}

/// An ELF file of `len` bytes whose byte `i` is `i % 251` outside the
/// headers, with the program headers right after the ELF header.
fn elf(etype: u16, entry: u64, phs: &[Ph], len: usize) -> Vec<u8> {
    let mut b: Vec<u8> = (0..len).map(|i| (i % 251) as u8).collect();
    b[0..4].copy_from_slice(&[0x7f, b'E', b'L', b'F']);
    b[4] = 2;
    b[5] = 1;
    b[6] = 1;
    b[7] = 0;
    b[8] = 0;
    for i in 9..16 {
        b[i] = 0;
    }
    put16(&mut b, 16, etype);
    put16(&mut b, 18, 0x3e);
    put32(&mut b, 20, 1);
    put64(&mut b, 24, entry);
    put64(&mut b, 32, 64);
    put64(&mut b, 40, 0);
    put32(&mut b, 48, 0);
    put16(&mut b, 52, 64);
    put16(&mut b, 54, 56);
    put16(&mut b, 56, phs.len() as u16);
    put16(&mut b, 58, 64);
    put16(&mut b, 60, 0);
    put16(&mut b, 62, 0);
    for (i, p) in phs.iter().enumerate() {
        let o = 64 + 56 * i;
        put32(&mut b, o, p.ptype);
        put32(&mut b, o + 4, p.flags);
        put64(&mut b, o + 8, p.offset);
        put64(&mut b, o + 16, p.vaddr);
        put64(&mut b, o + 24, p.vaddr);
        put64(&mut b, o + 32, p.filesz);
        put64(&mut b, o + 40, p.memsz);
        put64(&mut b, o + 48, 0x1000);
    }
    b
}

fn static_hello_file() -> Vec<u8> {
    elf(
        2,
        0x401000,
        &[
            Ph { ptype: 1, flags: 5, offset: 0, vaddr: 0x400000, filesz: 0x200, memsz: 0x200 },
            Ph { ptype: 1, flags: 6, offset: 0x200, vaddr: 0x600000, filesz: 0x80, memsz: 0x1000 },
        ],
        0x300,
    )
}

const INTERP: &[u8] = b"/lib64/ld-linux-x86-64.so.2\0";

fn dynamic_hello_file() -> Vec<u8> {
    let mut b = elf(
        3,
        0x1040,
        &[
            Ph { ptype: 6, flags: 4, offset: 64, vaddr: 64, filesz: 168, memsz: 168 },
            Ph { ptype: 3, flags: 4, offset: 0x200, vaddr: 0x200, filesz: INTERP.len() as u64, memsz: INTERP.len() as u64 },
            Ph { ptype: 1, flags: 4, offset: 0, vaddr: 0, filesz: 0x300, memsz: 0x300 },
            Ph { ptype: 1, flags: 5, offset: 0x1000, vaddr: 0x1000, filesz: 0x100, memsz: 0x100 },
        ],
        0x1100,
    );
    b[0x200..0x200 + INTERP.len()].copy_from_slice(INTERP);
    b
}

fn aux() -> InheritedAux {
    InheritedAux {
        sysinfo_ehdr: 0x7fff_f7fc_1000,
        hwcap: 0x1234,
        pagesz: 4096,
        clktck: 100,
        hwcap2: 2,
        uid: 1000,
        euid: 1000,
        gid: 1000,
        egid: 1000,
        secure: 0,
    }
}

fn bytes_list(items: &[&str]) -> Vec<Vec<u8>> {
    items.iter().map(|s| s.as_bytes().to_vec()).collect()
}

fn env_list(items: &[(&str, &str)]) -> Vec<(Vec<u8>, Vec<u8>)> {
    items.iter().map(|(k, v)| (k.as_bytes().to_vec(), v.as_bytes().to_vec())).collect()
}

/// The NUL-terminated string that the image places at `addr`.
fn string_at(img: &StackImage, addr: u64) -> Vec<u8> {
    for blob in img.strings.iter() {
        if blob.addr <= addr && addr < blob.addr + blob.bytes.len() as u64 {
            let start = (addr - blob.addr) as usize;
            let end = blob.bytes[start..].iter().position(|&c| c == 0).unwrap();
            return blob.bytes[start..start + end].to_vec();
        }
    }
    panic!("no string at {:#x}", addr);
}

/// The value of auxiliary entry `id`, read from the tables as a program
/// would: skip argc and both pointer tables.
fn aux_value(img: &StackImage, id: u64) -> u64 {
    let w = &img.words;
    let argc = w[0] as usize;
    let mut i = 1 + argc + 1;
    while w[i] != 0 {
        i += 1;
    }
    i += 1;
    while i + 1 < w.len() {
        if w[i] == id {
            return w[i + 1];
        }
        i += 2;
    }
    panic!("no auxiliary entry {}", id);
}

fn parsed(b: &[u8]) -> LoadInfo {
    match parse_elf(b) {
        Ok(li) => li,
        Err(e) => panic!("refused: {:?}", e),
    }
}

#[test]
fn static_hello_is_placed_at_fixed_addresses() {
    let file = static_hello_file();
    let li = parsed(&file);
    assert_eq!(li.etype, ElfType::ElfExec);
    assert_eq!(li.entry_point, 0x401000);
    assert_eq!(li.pheader_off, 64);
    assert_eq!(li.pheader_num, 2);
    assert!(li.elf_interp.is_none());
    assert_eq!(li.segments.len(), 2);
    assert_eq!(li.segments[0].virt_addr, 0x400000);
    assert_eq!(li.segments[0].data, file[0..0x200].to_vec());
    assert_eq!(li.segments[1].virt_addr, 0x600000);
    assert_eq!(li.segments[1].memsize, 0x1000);
    assert_eq!(li.segments[1].data, file[0x200..0x280].to_vec());
    let r = ElfLoad::reservation(&li).unwrap();
    assert_eq!(r, Reservation { addr: 0x400000, fixed: true, size: 0x201000 });
    let ps = ElfLoad::placements(&li, 0x400000).unwrap();
    assert_eq!(
        ps,
        vec![
            Placement { addr: 0x400000, size: 0x1000, prot: Prot { readable: true, writable: false, executable: true } },
            Placement { addr: 0x600000, size: 0x1000, prot: Prot { readable: true, writable: true, executable: false } },
        ]
    );
    let args = bytes_list(&["./loader", "./hello"]);
    let img = lay_out_stack(&li, 0x400000, 0, 0x7000_0000_0000, &vec![], &args, &aux(), &[7u8; 16]).unwrap();
    assert_eq!(aux_value(&img, AT_ENTRY), 0x401000);
    assert_eq!(aux_value(&img, AT_BASE), 0);
    assert_eq!(aux_value(&img, AT_PHDR), 0x400040);
    assert_eq!(aux_value(&img, AT_PHNUM), 2);
    assert_eq!(aux_value(&img, AT_PHENT), 56);
}

#[test]
fn dynamic_hello_uses_its_interpreter() {
    let file = dynamic_hello_file();
    let li = parsed(&file);
    assert_eq!(li.etype, ElfType::ElfDyn);
    assert_eq!(li.elf_interp.as_deref(), Some("/lib64/ld-linux-x86-64.so.2"));
    assert_eq!(li.segments.len(), 2);
    let r = ElfLoad::reservation(&li).unwrap();
    assert_eq!(r, Reservation { addr: 0, fixed: false, size: 0x1100 });
    let base = 0x7fff_e000_0000u64;
    let ps = ElfLoad::placements(&li, base).unwrap();
    assert_eq!(ps[0].addr, base);
    assert_eq!(ps[1].addr, base + 0x1000);
    assert_eq!(ps[1].size, 0x1000);
    let interp_base = 0x7fff_f000_0000u64;
    let args = bytes_list(&["./loader", "./hello"]);
    let img = lay_out_stack(&li, base, interp_base, 0x7000_0000_0000, &vec![], &args, &aux(), &[7u8; 16]).unwrap();
    assert_eq!(aux_value(&img, AT_BASE), interp_base);
    assert_eq!(aux_value(&img, AT_ENTRY), base + 0x1040);
    assert_eq!(aux_value(&img, AT_PHDR), base + 64);
}

#[test]
fn argv_forwarding() {
    let li = parsed(&static_hello_file());
    let args = bytes_list(&["./victim", "./victim", "a", "b", "c"]);
    let img = lay_out_stack(&li, 0, 0, 0x7000_0000_0000, &vec![], &args, &aux(), &[1u8; 16]).unwrap();
    assert_eq!(img.words[0], 4);
    let seen: Vec<Vec<u8>> = (1..5).map(|k| string_at(&img, img.words[k])).collect();
    assert_eq!(seen, bytes_list(&["./victim", "a", "b", "c"]));
    assert_eq!(img.words[5], 0);
    assert_eq!(aux_value(&img, AT_EXECFN), img.words[1]);
}

#[test]
fn loader_argv0_becomes_victim_argv0() {
    let li = parsed(&static_hello_file());
    let args = bytes_list(&["/usr/bin/loader", "./victim", "x"]);
    let img = lay_out_stack(&li, 0, 0, 0x7000_0000_0000, &vec![], &args, &aux(), &[1u8; 16]).unwrap();
    assert_eq!(img.words[0], 2);
    assert_eq!(string_at(&img, img.words[1]), b"/usr/bin/loader".to_vec());
    assert_eq!(string_at(&img, img.words[2]), b"x".to_vec());
}

#[test]
fn env_forwarding() {
    let li = parsed(&static_hello_file());
    let args = bytes_list(&["./loader", "./victim"]);
    let env = env_list(&[("PATH", "/usr/local/bin:/usr/bin:/bin"), ("HOME", "/root")]);
    let img = lay_out_stack(&li, 0, 0, 0x7000_0000_0000, &env, &args, &aux(), &[1u8; 16]).unwrap();
    assert_eq!(img.words[2], 0);
    assert_eq!(string_at(&img, img.words[3]), b"PATH=/usr/local/bin:/usr/bin:/bin".to_vec());
    assert_eq!(string_at(&img, img.words[4]), b"HOME=/root".to_vec());
    assert_eq!(img.words[5], 0);
}

#[test]
fn bad_magic_rejected() {
    let mut file = static_hello_file();
    file[0..4].copy_from_slice(&[0, 0, 0, 0]);
    assert_eq!(parse_elf(&file).err(), Some(ElfError::BadMagic));
}

#[test]
fn phentsize_64_rejected() {
    let mut file = static_hello_file();
    put16(&mut file, 54, 64);
    assert_eq!(parse_elf(&file).err(), Some(ElfError::BadPhentsize));
}

#[test]
fn each_header_check_rejects() {
    assert_eq!(parse_elf(&static_hello_file()[..63]).err(), Some(ElfError::TooShort));
    let mut f = static_hello_file();
    f[4] = 1;
    assert_eq!(parse_elf(&f).err(), Some(ElfError::NotElf64));
    let mut f = static_hello_file();
    put16(&mut f, 16, 1);
    assert_eq!(parse_elf(&f).err(), Some(ElfError::UnsupportedType));
    let mut f = static_hello_file();
    f[7] = 9;
    assert_eq!(parse_elf(&f).err(), Some(ElfError::UnsupportedAbi));
    let mut f = static_hello_file();
    f[7] = 3;
    assert!(parse_elf(&f).is_ok());
    let mut f = static_hello_file();
    put16(&mut f, 18, 0x28);
    assert_eq!(parse_elf(&f).err(), Some(ElfError::UnsupportedMachine));
    let mut f = static_hello_file();
    put16(&mut f, 18, 3);
    assert!(parse_elf(&f).is_ok());
}

#[test]
fn table_and_segment_bounds() {
    let mut f = static_hello_file();
    put16(&mut f, 56, 14);
    assert_eq!(parse_elf(&f).err(), Some(ElfError::HeadersOutOfBounds));
    let mut f = static_hello_file();
    put64(&mut f, 32, 0x2f0);
    assert_eq!(parse_elf(&f).err(), Some(ElfError::HeadersOutOfBounds));
    // the second segment's file slice ends one byte past the file
    let mut f = static_hello_file();
    put64(&mut f, 64 + 56 + 32, 0x101);
    assert_eq!(parse_elf(&f).err(), Some(ElfError::SegmentOutOfBounds(1)));
    // ending exactly at the end of the file is accepted
    let mut f = static_hello_file();
    put64(&mut f, 64 + 56 + 32, 0x100);
    assert!(parse_elf(&f).is_ok());
    // an in-page offset larger than the file offset
    let mut f = static_hello_file();
    put64(&mut f, 64 + 16, 0x400800);
    assert_eq!(parse_elf(&f).err(), Some(ElfError::SegmentOutOfBounds(0)));
}

#[test]
fn segment_data_is_page_padded() {
    let file = elf(
        2,
        0x400100,
        &[Ph { ptype: 1, flags: 4, offset: 0x180, vaddr: 0x400180, filesz: 0x40, memsz: 0x80 }],
        0x300,
    );
    let li = parsed(&file);
    assert_eq!(li.segments[0].data, file[0..0x1c0].to_vec());
    let ps = ElfLoad::placements(&li, 0x400000).unwrap();
    assert_eq!(ps[0].addr, 0x400000);
    assert_eq!(ps[0].size, 0x1000);
}

#[test]
fn interp_checks() {
    let mut f = dynamic_hello_file();
    f[0x200 + INTERP.len() - 1] = b'x';
    assert_eq!(parse_elf(&f).err(), Some(ElfError::BadInterp(1)));
    let mut f = dynamic_hello_file();
    put64(&mut f, 64 + 56 + 32, 0);
    assert_eq!(parse_elf(&f).err(), Some(ElfError::BadInterp(1)));
    let mut f = dynamic_hello_file();
    f[0x201] = 0xff;
    assert_eq!(parse_elf(&f).err(), Some(ElfError::BadInterp(1)));
}

#[test]
fn protection_decoding() {
    let cases = [
        (0u32, Prot { readable: false, writable: false, executable: false }),
        (1, Prot { readable: false, writable: false, executable: true }),
        (2, Prot { readable: false, writable: true, executable: false }),
        (4, Prot { readable: true, writable: false, executable: false }),
        (7, Prot { readable: true, writable: true, executable: true }),
        (0xf8, Prot { readable: false, writable: false, executable: false }),
    ];
    for (flags, prot) in cases {
        assert_eq!(ElfSegment::get_prot_flags_from_progam_flags(flags), prot);
    }
}

#[test]
fn segment_new_copies_header() {
    let h = Elf64Phdr { ptype: 1, pflags: 6, offset: 0x10, vaddr: 0x2010, paddr: 0, filesz: 0x20, memsz: 0x40, align: 0x1000 };
    let s = ElfSegment::new(&h, vec![1, 2, 3]);
    assert_eq!((s.virt_addr, s.memsize, s.offset, s.filesize, s.alignment), (0x2010, 0x40, 0x10, 0x20, 0x1000));
    assert_eq!(s.data, vec![1, 2, 3]);
    assert_eq!(s.prot, Prot { readable: true, writable: true, executable: false });
}

#[test]
fn header_decoding() {
    let file = static_hello_file();
    let h = ElfHdr::parse(&file);
    assert_eq!(h.magic, 0x464c457f);
    assert_eq!(h.etype, 2);
    assert_eq!(h.machine, 0x3e);
    assert_eq!(h.entry_point, 0x401000);
    assert_eq!(h.pheader_size, 56);
    assert_eq!(h.pheader_num, 2);
    assert_eq!(h.verify(), Ok(()));
    let p = Elf64Phdr::parse(&file, 64 + 56);
    assert_eq!((p.ptype, p.pflags, p.offset, p.vaddr, p.filesz, p.memsz), (1, 6, 0x200, 0x600000, 0x80, 0x1000));
}

#[test]
fn elf_type_from() {
    assert_eq!(ElfType::from(2), ElfType::ElfExec);
    assert_eq!(ElfType::from(3), ElfType::ElfDyn);
}

#[test]
fn little_endian_reads() {
    let b = [1u8, 2, 3, 4, 5, 6, 7, 8, 9];
    assert_eq!(read_u16(&b, 1), 0x0302);
    assert_eq!(read_u32(&b, 0), 0x04030201);
    assert_eq!(read_u64(&b, 1), 0x0908070605040302);
}

#[test]
fn total_mapping_size_spans_segments() {
    let li = parsed(&static_hello_file());
    assert_eq!(ElfLoad::get_total_mapping_size(&li.segments), 0x201000);
    let file = elf(
        2,
        0,
        &[
            Ph { ptype: 1, flags: 4, offset: 0x1f, vaddr: 0x40001f, filesz: 1, memsz: 1 },
            Ph { ptype: 1, flags: 4, offset: 0x120, vaddr: 0x400120, filesz: 1, memsz: 0x10 },
        ],
        0x200,
    );
    let li = parsed(&file);
    assert_eq!(ElfLoad::get_total_mapping_size(&li.segments), 0x400130 - 0x400010);
}

#[test]
fn reservation_errors() {
    let file = elf(2, 0, &[Ph { ptype: 4, flags: 4, offset: 0, vaddr: 0, filesz: 0, memsz: 0 }], 0x100);
    let li = parsed(&file);
    assert_eq!(ElfLoad::reservation(&li), Err(MapError::NoSegments));
    let file = elf(
        2,
        0,
        &[
            Ph { ptype: 1, flags: 4, offset: 0, vaddr: 0x600000, filesz: 0x10, memsz: 0x10 },
            Ph { ptype: 1, flags: 4, offset: 0, vaddr: 0x400000, filesz: 0x10, memsz: 0x10 },
        ],
        0x100,
    );
    assert_eq!(ElfLoad::reservation(&parsed(&file)), Err(MapError::BadSpan));
    let file = elf(2, 0, &[Ph { ptype: 1, flags: 4, offset: 0x20, vaddr: 0x10, filesz: 0x10, memsz: 0x10 }], 0x100);
    assert_eq!(ElfLoad::reservation(&parsed(&file)), Err(MapError::BadFixedAddress));
}

#[test]
fn placement_overflow() {
    let li = parsed(&dynamic_hello_file());
    assert_eq!(ElfLoad::placements(&li, u64::MAX - 0x800).err(), Some(MapError::AddressOverflow));
}

#[test]
fn stack_layout_is_aligned_and_ordered() {
    let li = parsed(&static_hello_file());
    let args = bytes_list(&["./loader", "./victim", "one", "two"]);
    let env = env_list(&[("A", "1"), ("BB", "22"), ("CCC", "333")]);
    let base = 0x7000_0000_0003u64;
    let seed = [9u8; 16];
    let img = lay_out_stack(&li, 0, 0, base, &env, &args, &aux(), &seed).unwrap();
    assert_eq!(img.rsp % 16, 0);
    assert!(img.rsp >= base);
    let n = img.words.len() as u64;
    assert_eq!(n, 1 + 3 + 1 + 3 + 1 + 38);
    let seed_blob = img.strings.iter().find(|b| b.bytes == seed.to_vec()).unwrap();
    assert!(img.rsp + 8 * n <= seed_blob.addr);
    assert_eq!(aux_value(&img, AT_RANDOM), seed_blob.addr);
    let platform = img.strings.iter().find(|b| b.bytes == b"x86_64\0".to_vec()).unwrap();
    assert_eq!(platform.addr, seed_blob.addr + 16);
    assert_eq!(img.words[img.words.len() - 2], AT_NULL);
    assert_eq!(img.words[img.words.len() - 1], 0);
    let top = (base + STACK_SIZE) & !15;
    // environment strings are stacked down from the top in order
    assert_eq!(img.strings[0].addr, top - 4);
    assert_eq!(img.strings[1].addr, top - 4 - 6);
    assert_eq!(img.strings[2].addr, top - 4 - 6 - 8);
    // argv[0] lies lowest among the arguments
    assert!(img.words[1] < img.words[2] && img.words[2] < img.words[3]);
    assert_eq!(img.words[1] + 9, img.words[2]);
}

#[test]
fn stack_too_small() {
    let li = parsed(&static_hello_file());
    let args = bytes_list(&["./loader", "./victim"]);
    let big = "v".repeat(STACK_SIZE as usize);
    let env = env_list(&[("BIG", big.as_str())]);
    let r = lay_out_stack(&li, 0, 0, 0x7000_0000_0000, &env, &args, &aux(), &[0u8; 16]);
    assert_eq!(r.err(), Some(StackError::StackTooSmall));
    let r = setup_stack(&li, 0, 0, 0x7000_0000_0000, &env, &args, &aux());
    assert_eq!(r.err(), Some(StackError::StackTooSmall));
}

#[test]
fn setup_stack_draws_a_seed() {
    let li = parsed(&static_hello_file());
    let args = bytes_list(&["./loader", "./victim"]);
    let img = setup_stack(&li, 0, 0, 0x7000_0000_0000, &vec![], &args, &aux()).unwrap();
    let seed = img.strings.last().unwrap();
    assert_eq!(seed.bytes.len(), 16);
    assert_eq!(aux_value(&img, AT_RANDOM), seed.addr);
    let again = setup_stack(&li, 0, 0, 0x7000_0000_0000, &vec![], &args, &aux()).unwrap();
    assert_ne!(again.strings.last().unwrap().bytes, seed.bytes);
}

#[test]
fn table_writers_append() {
    let mut words: Vec<u64> = vec![5];
    write_pointer(&mut words, 0x1234);
    assert_eq!(words, vec![5, 0x1234]);
    write_aux_val(&mut words, AT_ENTRY, 0x401000);
    assert_eq!(words, vec![5, 0x1234, AT_ENTRY, 0x401000]);
}
