//! Layout of the initial process stack of the System V AMD64 ABI: the
//! strings, the argument and environment pointer tables and the auxiliary
//! vector.
use vstd::prelude::*;

use crate::parse_elf::{ElfType, LoadInfo};

verus! {

pub const AT_NULL: u64 = 0;
pub const AT_PHDR: u64 = 3;
pub const AT_PHENT: u64 = 4;
pub const AT_PHNUM: u64 = 5;
pub const AT_PAGESZ: u64 = 6;
pub const AT_BASE: u64 = 7;
pub const AT_FLAGS: u64 = 8;
pub const AT_ENTRY: u64 = 9;
pub const AT_UID: u64 = 11;
pub const AT_EUID: u64 = 12;
pub const AT_GID: u64 = 13;
pub const AT_EGID: u64 = 14;
pub const AT_HWCAP: u64 = 16;
pub const AT_CLKTCK: u64 = 17;
pub const AT_SECURE: u64 = 23;
pub const AT_RANDOM: u64 = 25;
pub const AT_HWCAP2: u64 = 26;
pub const AT_EXECFN: u64 = 31;
pub const AT_SYSINFO_EHDR: u64 = 33;

/// The size of a program-header entry, passed as `AT_PHENT`.
pub const PHENT_SIZE: u64 = 0x38;

/// Size of the stack region.
pub const STACK_SIZE: u64 = 0x40000;

/// Room for the auxiliary vector: nineteen pairs of 8-byte words.
pub const AUX_RESERVE: u64 = 0x130;

/// Number of words in the auxiliary vector.
pub const AUX_WORDS: usize = 38;

/// The auxiliary-vector values that the new program inherits from the
/// running one.
#[derive(Debug, Clone, Copy, PartialEq, Eq, Structural)]
pub struct InheritedAux {
    pub sysinfo_ehdr: u64,
    pub hwcap: u64,
    pub pagesz: u64,
    pub clktck: u64,
    pub hwcap2: u64,
    pub uid: u64,
    pub euid: u64,
    pub gid: u64,
    pub egid: u64,
    pub secure: u64,
}

/// Bytes to be placed at `addr`.
#[derive(Debug)]
pub struct Blob {
    pub addr: u64,
    pub bytes: Vec<u8>,
}

/// The initial stack: the words that start at `rsp`, and the strings above
/// them.
#[derive(Debug)]
pub struct StackImage {
    pub rsp: u64,
    pub words: Vec<u64>,
    pub strings: Vec<Blob>,
}

/// Why no stack was built.
#[derive(Debug, Clone, Copy, PartialEq, Eq, Structural)]
pub enum StackError {
    /// The strings and tables do not fit in the stack region.
    StackTooSmall,
    /// No random seed could be drawn.
    NoEntropy,
}

/// `x` rounded down to a multiple of 16.
pub open spec fn floor16(x: int) -> int {
    x - x % 16
}

/// `name=value` followed by a NUL.
pub open spec fn env_string(name: Seq<u8>, value: Seq<u8>) -> Seq<u8> {
    name + seq![61u8] + value + seq![0u8]
}

/// Total length of the first `n` environment strings.
pub open spec fn env_sum(env: Seq<(Vec<u8>, Vec<u8>)>, n: int) -> int
    decreases n,
{
    if n <= 0 {
        0
    } else {
        env_sum(env, n - 1) + env_string(env[n - 1].0@, env[n - 1].1@).len()
    }
}

/// The number of arguments handed on: all but the loaded program's path.
pub open spec fn argc_of(args: Seq<Vec<u8>>) -> int {
    args.len() - 1
}

/// Index in the loader's arguments of the new program's argument `k`.
pub open spec fn kept_index(k: int) -> int {
    if k == 0 {
        0
    } else {
        k + 1
    }
}

/// Argument `k` of the new program, followed by a NUL.
pub open spec fn arg_string(args: Seq<Vec<u8>>, k: int) -> Seq<u8> {
    args[kept_index(k)]@.push(0u8)
}

/// Total length of the first `n` argument strings of the new program.
pub open spec fn arg_sum(args: Seq<Vec<u8>>, n: int) -> int
    decreases n,
{
    if n <= 0 {
        0
    } else {
        arg_sum(args, n - 1) + arg_string(args, n - 1).len()
    }
}

/// The 16-byte aligned top of the stack region.
pub open spec fn stack_top(stack_base: u64) -> int {
    floor16(stack_base + STACK_SIZE)
}

/// Address of environment string `i`: they are stacked downward from the top.
pub open spec fn env_addr(top: int, env: Seq<(Vec<u8>, Vec<u8>)>, i: int) -> int {
    top - env_sum(env, i + 1)
}

/// The lowest address of the argument strings, which is that of argument 0.
pub open spec fn strings_end(top: int, env: Seq<(Vec<u8>, Vec<u8>)>, args: Seq<Vec<u8>>) -> int {
    top - env_sum(env, env.len() as int) - arg_sum(args, argc_of(args))
}

/// Address of argument string `k`.
pub open spec fn arg_addr(
    top: int,
    env: Seq<(Vec<u8>, Vec<u8>)>,
    args: Seq<Vec<u8>>,
    k: int,
) -> int {
    strings_end(top, env, args) + arg_sum(args, k)
}

/// Address of the platform string.
pub open spec fn platform_addr(
    top: int,
    env: Seq<(Vec<u8>, Vec<u8>)>,
    args: Seq<Vec<u8>>,
) -> int {
    floor16(strings_end(top, env, args)) - 7
}

/// Address of the 16-byte random seed.
pub open spec fn seed_addr(top: int, env: Seq<(Vec<u8>, Vec<u8>)>, args: Seq<Vec<u8>>) -> int {
    platform_addr(top, env, args) - 16
}

/// The final stack pointer, below the room for the tables.
pub open spec fn rsp_of(top: int, env: Seq<(Vec<u8>, Vec<u8>)>, args: Seq<Vec<u8>>) -> int {
    floor16(
        seed_addr(top, env, args) - AUX_RESERVE - 8 * (argc_of(args) + env.len() + 3),
    )
}

/// The platform string `x86_64`, NUL-terminated.
pub open spec fn platform_bytes() -> Seq<u8> {
    seq![120u8, 56u8, 54u8, 95u8, 54u8, 52u8, 0u8]
}

/// The value of `AT_ENTRY`.
pub open spec fn entry_value(li: LoadInfo, load_address: u64) -> u64 {
    match li.etype {
        ElfType::ElfExec => li.entry_point,
        ElfType::ElfDyn => load_address.wrapping_add(li.entry_point),
    }
}

/// The auxiliary vector, as pairs of words, ending with `AT_NULL`.
pub open spec fn aux_words(
    li: LoadInfo,
    load_address: u64,
    interp_base: u64,
    aux: InheritedAux,
    random: u64,
    execfn: u64,
) -> Seq<u64> {
    seq![
        AT_SYSINFO_EHDR, aux.sysinfo_ehdr,
        AT_HWCAP, aux.hwcap,
        AT_PAGESZ, aux.pagesz,
        AT_CLKTCK, aux.clktck,
        AT_HWCAP2, aux.hwcap2,
        AT_PHDR, load_address.wrapping_add(li.pheader_off),
        AT_PHENT, PHENT_SIZE,
        AT_PHNUM, li.pheader_num,
        AT_BASE, interp_base,
        AT_FLAGS, 0u64,
        AT_ENTRY, entry_value(li, load_address),
        AT_UID, aux.uid,
        AT_EUID, aux.euid,
        AT_GID, aux.gid,
        AT_EGID, aux.egid,
        AT_SECURE, aux.secure,
        AT_RANDOM, random,
        AT_EXECFN, execfn,
        AT_NULL, 0u64,
    ]
}

/// `img` is the stack that the inputs describe: `argc`, the argument
/// pointers and a null word, the environment pointers and a null word, then
/// the auxiliary vector, from `rsp` upward; and each string at its address.
pub open spec fn image_matches(
    img: StackImage,
    li: LoadInfo,
    load_address: u64,
    interp_base: u64,
    stack_base: u64,
    env: Seq<(Vec<u8>, Vec<u8>)>,
    args: Seq<Vec<u8>>,
    aux: InheritedAux,
    seed: Seq<u8>,
) -> bool {
    let top = stack_top(stack_base);
    let argc = argc_of(args);
    let envc = env.len() as int;
    let w = img.words@;
    let s = img.strings@;
    &&& img.rsp == rsp_of(top, env, args)
    &&& w.len() == argc + envc + 3 + AUX_WORDS
    &&& w[0] == argc
    &&& forall|j: int| 1 <= j < 1 + argc ==> #[trigger] w[j] == arg_addr(top, env, args, j - 1)
    &&& w[1 + argc] == 0
    &&& forall|j: int|
        2 + argc <= j < 2 + argc + envc ==> #[trigger] w[j] == env_addr(top, env, j - 2 - argc)
    &&& w[2 + argc + envc] == 0
    &&& w.subrange(3 + argc + envc, w.len() as int) == aux_words(
        li,
        load_address,
        interp_base,
        aux,
        seed_addr(top, env, args) as u64,
        arg_addr(top, env, args, 0) as u64,
    )
    &&& s.len() == envc + argc + 2
    &&& forall|j: int|
        0 <= j < envc ==> #[trigger] s[j].addr == env_addr(top, env, j) && s[j].bytes@
            == env_string(env[j].0@, env[j].1@)
    &&& forall|j: int|
        envc <= j < envc + argc ==> #[trigger] s[j].addr == arg_addr(top, env, args, j - envc)
            && s[j].bytes@ == arg_string(args, j - envc)
    &&& s[envc + argc].addr == platform_addr(top, env, args)
    &&& s[envc + argc].bytes@ == platform_bytes()
    &&& s[envc + argc + 1].addr == seed_addr(top, env, args)
    &&& s[envc + argc + 1].bytes@ == seed
}

proof fn lemma_env_sum_mono(env: Seq<(Vec<u8>, Vec<u8>)>, i: int, n: int)
    requires
        0 <= i <= n,
    ensures
        0 <= env_sum(env, i) <= env_sum(env, n),
    decreases n - i,
{
    if i < n {
        lemma_env_sum_mono(env, i, n - 1);
    } else {
        lemma_env_sum_nonneg(env, i);
    }
}

proof fn lemma_env_sum_nonneg(env: Seq<(Vec<u8>, Vec<u8>)>, n: int)
    ensures
        0 <= env_sum(env, n),
    decreases n,
{
    if n > 0 {
        lemma_env_sum_nonneg(env, n - 1);
    }
}

proof fn lemma_arg_sum_mono(args: Seq<Vec<u8>>, i: int, n: int)
    requires
        0 <= i <= n,
    ensures
        0 <= arg_sum(args, i) <= arg_sum(args, n),
    decreases n - i,
{
    if i < n {
        lemma_arg_sum_mono(args, i, n - 1);
    } else {
        lemma_arg_sum_nonneg(args, i);
    }
}

proof fn lemma_arg_sum_nonneg(args: Seq<Vec<u8>>, n: int)
    ensures
        0 <= arg_sum(args, n),
    decreases n,
{
    if n > 0 {
        lemma_arg_sum_nonneg(args, n - 1);
    }
}

/// Appends `s` to `v`.
fn push_all(v: &mut Vec<u8>, s: &Vec<u8>)
    ensures
        final(v)@ == old(v)@ + s@,
{
    let mut k: usize = 0;
    while k < s.len()
        invariant
            k <= s@.len(),
            v@ == old(v)@ + s@.subrange(0, k as int),
        decreases s@.len() - k,
    {
        v.push(s[k]);
        k += 1;
        assert(v@ =~= old(v)@ + s@.subrange(0, k as int));
    }
    assert(s@.subrange(0, s@.len() as int) =~= s@);
}

/// The bytes `name=value` and a NUL.
fn env_string_bytes(name: &Vec<u8>, value: &Vec<u8>) -> (r: Vec<u8>)
    ensures
        r@ == env_string(name@, value@),
{
    let mut r: Vec<u8> = Vec::new();
    push_all(&mut r, name);
    r.push(61u8);
    push_all(&mut r, value);
    r.push(0u8);
    assert(r@ =~= env_string(name@, value@));
    r
}

/// The bytes of `arg` and a NUL.
fn arg_string_bytes(arg: &Vec<u8>) -> (r: Vec<u8>)
    ensures
        r@ == arg@.push(0u8),
{
    let mut r: Vec<u8> = Vec::new();
    push_all(&mut r, arg);
    r.push(0u8);
    assert(r@ =~= arg@.push(0u8));
    r
}

/// The total length of the environment strings, if it is at most `limit`.
fn env_total(env: &Vec<(Vec<u8>, Vec<u8>)>, limit: u64) -> (r: Option<u64>)
    ensures
        env_sum(env@, env@.len() as int) <= limit ==> r == Some(
            env_sum(env@, env@.len() as int) as u64,
        ),
        env_sum(env@, env@.len() as int) > limit ==> r is None,
{
    let mut used: u64 = 0;
    let mut i: usize = 0;
    while i < env.len()
        invariant
            i <= env@.len(),
            used == env_sum(env@, i as int),
            used <= limit,
        decreases env@.len() - i,
    {
        let name_len = env[i].0.len() as u64;
        let value_len = env[i].1.len() as u64;
        if name_len > limit - used || value_len > limit - used - name_len || 2 > limit - used
            - name_len - value_len {
            proof {
                lemma_env_sum_mono(env@, i + 1, env@.len() as int);
            }
            return None;
        }
        used = used + name_len + value_len + 2;
        i += 1;
    }
    Some(used)
}

/// The total length of the argument strings handed on, if it is at most
/// `limit`.
fn arg_total(args: &Vec<Vec<u8>>, limit: u64) -> (r: Option<u64>)
    requires
        args@.len() >= 1,
    ensures
        arg_sum(args@, argc_of(args@)) <= limit ==> r == Some(
            arg_sum(args@, argc_of(args@)) as u64,
        ),
        arg_sum(args@, argc_of(args@)) > limit ==> r is None,
{
    let argc = args.len() - 1;
    let mut used: u64 = 0;
    let mut k: usize = 0;
    while k < argc
        invariant
            argc == argc_of(args@),
            k <= argc,
            used == arg_sum(args@, k as int),
            used <= limit,
        decreases argc - k,
    {
        let idx: usize = if k == 0 {
            0
        } else {
            k + 1
        };
        let len = args[idx].len() as u64;
        if len > limit - used || 1 > limit - used - len {
            proof {
                lemma_arg_sum_mono(args@, k + 1, argc as int);
            }
            return None;
        }
        used = used + len + 1;
        k += 1;
    }
    Some(used)
}

/// The addresses that frame the layout: the aligned top, the lowest string
/// address, the aligned address under the strings, and the stack pointer;
/// `None` when the layout does not fit above `stack_base`.
fn frame(stack_base: u64, env: &Vec<(Vec<u8>, Vec<u8>)>, args: &Vec<Vec<u8>>) -> (r: Option<
    (u64, u64, u64, u64),
>)
    requires
        args@.len() >= 2,
        stack_base + STACK_SIZE <= u64::MAX,
    ensures
        r is None <==> rsp_of(stack_top(stack_base), env@, args@) < stack_base,
        r matches Some((top, str_end, p16, rsp)) ==> {
            &&& top == stack_top(stack_base)
            &&& str_end == strings_end(top as int, env@, args@)
            &&& p16 == floor16(str_end as int)
            &&& rsp == rsp_of(top as int, env@, args@)
            &&& rsp >= stack_base
            &&& env_sum(env@, env@.len() as int) <= top
            &&& str_end + arg_sum(args@, argc_of(args@)) <= top
        },
{
    let ghost e = env@;
    let ghost a = args@;
    let end = stack_base + STACK_SIZE;
    let top = end - end % 16;
    let avail = top - stack_base;
    let argc = args.len() - 1;
    let envc = env.len();
    proof {
        lemma_env_sum_nonneg(e, e.len() as int);
        lemma_arg_sum_nonneg(a, argc as int);
    }
    let e_total = match env_total(env, avail) {
        Some(t) => t,
        None => {
            return None;
        },
    };
    let a_total = match arg_total(args, avail - e_total) {
        Some(t) => t,
        None => {
            return None;
        },
    };
    if argc as u64 > avail || envc as u64 > avail {
        return None;
    }
    let str_end = top - e_total - a_total;
    let below: u64 = 23 + AUX_RESERVE + 8 * (argc as u64 + envc as u64 + 3);
    let p16 = str_end - str_end % 16;
    if p16 < stack_base || p16 - stack_base < below {
        return None;
    }
    let low = p16 - below;
    let rsp = low - low % 16;
    if rsp < stack_base {
        return None;
    }
    Some((top, str_end, p16, rsp))
}

/// Stacks the environment strings downward from `top`, appending them to
/// `strings`, and returns their addresses.
fn push_env_strings(env: &Vec<(Vec<u8>, Vec<u8>)>, top: u64, strings: &mut Vec<Blob>) -> (r: Vec<
    u64,
>)
    requires
        old(strings)@.len() == 0,
        env_sum(env@, env@.len() as int) <= top,
    ensures
        final(strings)@.len() == env@.len(),
        r@.len() == env@.len(),
        forall|j: int|
            0 <= j < env@.len() ==> #[trigger] final(strings)@[j].addr == env_addr(
                top as int,
                env@,
                j,
            ) && final(strings)@[j].bytes@ == env_string(env@[j].0@, env@[j].1@),
        forall|j: int| 0 <= j < env@.len() ==> #[trigger] r@[j] == env_addr(top as int, env@, j),
{
    let ghost e = env@;
    let envc = env.len();
    let mut env_addrs: Vec<u64> = Vec::new();
    let mut sp: u64 = top;
    let mut i: usize = 0;
    while i < envc
        invariant
            e == env@,
            envc == e.len(),
            env_sum(e, envc as int) <= top,
            i <= envc,
            sp == top - env_sum(e, i as int),
            strings@.len() == i,
            env_addrs@.len() == i,
            forall|j: int|
                0 <= j < i ==> #[trigger] strings@[j].addr == env_addr(top as int, e, j)
                    && strings@[j].bytes@ == env_string(e[j].0@, e[j].1@),
            forall|j: int| 0 <= j < i ==> #[trigger] env_addrs@[j] == env_addr(top as int, e, j),
        decreases envc - i,
    {
        let bytes = env_string_bytes(&env[i].0, &env[i].1);
        proof {
            lemma_env_sum_mono(e, i + 1, envc as int);
        }
        sp = sp - bytes.len() as u64;
        env_addrs.push(sp);
        strings.push(Blob { addr: sp, bytes });
        i += 1;
    }
    env_addrs
}

/// Places the arguments handed on upward from `str_end`, appending them to
/// `strings`, and returns their addresses.
fn push_arg_strings(args: &Vec<Vec<u8>>, str_end: u64, strings: &mut Vec<Blob>) -> (r: Vec<u64>)
    requires
        args@.len() >= 2,
        str_end + arg_sum(args@, argc_of(args@)) <= u64::MAX,
    ensures
        final(strings)@.len() == old(strings)@.len() + argc_of(args@),
        r@.len() == argc_of(args@),
        forall|j: int|
            0 <= j < old(strings)@.len() ==> #[trigger] final(strings)@[j] == old(strings)@[j],
        forall|j: int|
            old(strings)@.len() <= j < old(strings)@.len() + argc_of(args@)
                ==> #[trigger] final(strings)@[j].addr == str_end + arg_sum(
                args@,
                j - old(strings)@.len(),
            ) && final(strings)@[j].bytes@ == arg_string(args@, j - old(strings)@.len()),
        forall|j: int|
            0 <= j < argc_of(args@) ==> #[trigger] r@[j] == str_end + arg_sum(args@, j),
{
    let ghost a = args@;
    let ghost base_len = strings@.len();
    let argc = args.len() - 1;
    let mut argv_addrs: Vec<u64> = Vec::new();
    let mut k: usize = 0;
    let mut sp: u64 = str_end;
    while k < argc
        invariant
            a == args@,
            a.len() >= 2,
            argc == argc_of(a),
            str_end + arg_sum(a, argc as int) <= u64::MAX,
            k <= argc,
            sp == str_end + arg_sum(a, k as int),
            strings@.len() == base_len + k,
            argv_addrs@.len() == k,
            forall|j: int| 0 <= j < base_len ==> #[trigger] strings@[j] == old(strings)@[j],
            forall|j: int|
                base_len <= j < base_len + k ==> #[trigger] strings@[j].addr == str_end
                    + arg_sum(a, j - base_len) && strings@[j].bytes@ == arg_string(
                    a,
                    j - base_len,
                ),
            forall|j: int| 0 <= j < k ==> #[trigger] argv_addrs@[j] == str_end + arg_sum(a, j),
        decreases argc - k,
    {
        let idx: usize = if k == 0 {
            0
        } else {
            k + 1
        };
        let bytes = arg_string_bytes(&args[idx]);
        proof {
            lemma_arg_sum_mono(a, k + 1, argc as int);
        }
        argv_addrs.push(sp);
        let at = sp;
        sp = sp + bytes.len() as u64;
        strings.push(Blob { addr: at, bytes });
        k += 1;
    }
    argv_addrs
}

/// Writes one word at the end of the table.
pub fn write_pointer(words: &mut Vec<u64>, value: u64)
    ensures
        final(words)@ == old(words)@.push(value),
{
    words.push(value);
}

/// Writes an auxiliary-vector entry, its id then its value, at the end of
/// the table.
pub fn write_aux_val(words: &mut Vec<u64>, aux_id: u64, aux_val: u64)
    ensures
        final(words)@ == old(words)@ + seq![aux_id, aux_val],
{
    write_pointer(words, aux_id);
    write_pointer(words, aux_val);
    assert(words@ =~= old(words)@ + seq![aux_id, aux_val]);
}

/// The auxiliary vector, with `random` as the seed's address and `execfn`
/// as that of the program name.
fn aux_vector(
    load_info: &LoadInfo,
    load_address: u64,
    interp_base: u64,
    aux: &InheritedAux,
    random: u64,
    execfn: u64,
) -> (r: Vec<u64>)
    ensures
        r@ == aux_words(*load_info, load_address, interp_base, *aux, random, execfn),
{
    let entry = match load_info.etype {
        ElfType::ElfExec => load_info.entry_point,
        ElfType::ElfDyn => load_address.wrapping_add(load_info.entry_point),
    };
    let mut r: Vec<u64> = Vec::new();
    write_aux_val(&mut r, AT_SYSINFO_EHDR, aux.sysinfo_ehdr);
    write_aux_val(&mut r, AT_HWCAP, aux.hwcap);
    write_aux_val(&mut r, AT_PAGESZ, aux.pagesz);
    write_aux_val(&mut r, AT_CLKTCK, aux.clktck);
    write_aux_val(&mut r, AT_HWCAP2, aux.hwcap2);
    write_aux_val(&mut r, AT_PHDR, load_address.wrapping_add(load_info.pheader_off));
    write_aux_val(&mut r, AT_PHENT, PHENT_SIZE);
    write_aux_val(&mut r, AT_PHNUM, load_info.pheader_num);
    write_aux_val(&mut r, AT_BASE, interp_base);
    write_aux_val(&mut r, AT_FLAGS, 0);
    write_aux_val(&mut r, AT_ENTRY, entry);
    write_aux_val(&mut r, AT_UID, aux.uid);
    write_aux_val(&mut r, AT_EUID, aux.euid);
    write_aux_val(&mut r, AT_GID, aux.gid);
    write_aux_val(&mut r, AT_EGID, aux.egid);
    write_aux_val(&mut r, AT_SECURE, aux.secure);
    write_aux_val(&mut r, AT_RANDOM, random);
    write_aux_val(&mut r, AT_EXECFN, execfn);
    write_aux_val(&mut r, AT_NULL, 0);
    assert(r@ =~= aux_words(*load_info, load_address, interp_base, *aux, random, execfn));
    r
}

/// The words from the stack pointer upward: `argc`, the argument pointers,
/// a null word, the environment pointers, a null word, the auxiliary vector.
fn table_words(argc: u64, argv: Vec<u64>, envp: Vec<u64>, auxv: Vec<u64>) -> (r: Vec<u64>)
    ensures
        r@ == seq![argc] + argv@ + seq![0u64] + envp@ + seq![0u64] + auxv@,
{
    let mut argv = argv;
    let mut envp = envp;
    let mut auxv = auxv;
    let ghost a = argv@;
    let ghost e = envp@;
    let ghost x = auxv@;
    let mut words: Vec<u64> = Vec::new();
    write_pointer(&mut words, argc);
    words.append(&mut argv);
    write_pointer(&mut words, 0);
    words.append(&mut envp);
    write_pointer(&mut words, 0);
    words.append(&mut auxv);
    assert(words@ =~= seq![argc] + a + seq![0u64] + e + seq![0u64] + x);
    words
}

/// The 16 seed bytes as a vector.
fn seed_vec(seed: &[u8; 16]) -> (r: Vec<u8>)
    ensures
        r@ == seed@,
{
    let mut r: Vec<u8> = Vec::new();
    let mut n: usize = 0;
    while n < 16
        invariant
            n <= 16,
            seed@.len() == 16,
            r@ == seed@.subrange(0, n as int),
        decreases 16 - n,
    {
        r.push(seed[n]);
        n += 1;
        assert(r@ =~= seed@.subrange(0, n as int));
    }
    assert(r@ =~= seed@);
    r
}

/// Lays out the initial stack of the new program in the region of
/// `STACK_SIZE` bytes at `stack_base`. The strings are stacked down from the
/// 16-byte aligned top: each environment entry as `name=value`, then the
/// loader's arguments but for index 1, the platform string and the seed.
/// Below them lie the room for the auxiliary vector and the pointer tables,
/// and the 16-byte aligned stack pointer.
pub fn lay_out_stack(
    load_info: &LoadInfo,
    load_address: u64,
    interp_base: u64,
    stack_base: u64,
    env: &Vec<(Vec<u8>, Vec<u8>)>,
    args: &Vec<Vec<u8>>,
    aux: &InheritedAux,
    seed: &[u8; 16],
) -> (r: Result<StackImage, StackError>)
    requires
        args@.len() >= 2,
        stack_base + STACK_SIZE <= u64::MAX,
    ensures
        rsp_of(stack_top(stack_base), env@, args@) < stack_base ==> r == Err::<
            StackImage,
            StackError,
        >(StackError::StackTooSmall),
        rsp_of(stack_top(stack_base), env@, args@) >= stack_base ==> (r matches Ok(img)
            && image_matches(
            img,
            *load_info,
            load_address,
            interp_base,
            stack_base,
            env@,
            args@,
            *aux,
            seed@,
        )),
{
    let ghost e = env@;
    let ghost a = args@;
    let (top, str_end, p16, rsp) = match frame(stack_base, env, args) {
        Some(f) => f,
        None => {
            return Err(StackError::StackTooSmall);
        },
    };
    let ghost top_s = top as int;
    let argc = args.len() - 1;
    let envc = env.len();
    let mut strings: Vec<Blob> = Vec::new();
    let env_addrs = push_env_strings(env, top, &mut strings);
    let ghost s1 = strings@;
    let argv_addrs = push_arg_strings(args, str_end, &mut strings);
    let ghost s2 = strings@;
    let platform = p16 - 7;
    let platform_str: Vec<u8> = vec![120u8, 56u8, 54u8, 95u8, 54u8, 52u8, 0u8];
    assert(platform_str@ =~= platform_bytes());
    strings.push(Blob { addr: platform, bytes: platform_str });
    let seed_at = platform - 16;
    strings.push(Blob { addr: seed_at, bytes: seed_vec(seed) });
    let execfn = argv_addrs[0];
    let auxv = aux_vector(load_info, load_address, interp_base, aux, seed_at, execfn);
    let ghost argv_s = argv_addrs@;
    let ghost env_s = env_addrs@;
    let ghost aux_s = auxv@;
    let words = table_words(argc as u64, argv_addrs, env_addrs, auxv);
    let ghost w = words@;
    let ghost st = strings@;
    assert(w.subrange(3 + argc + envc, w.len() as int) =~= aux_s);
    assert forall|j: int| 1 <= j < 1 + argc implies #[trigger] w[j] == arg_addr(
        top_s,
        e,
        a,
        j - 1,
    ) by {
        assert(w[j] == argv_s[j - 1]);
    }
    assert forall|j: int| 2 + argc <= j < 2 + argc + envc implies #[trigger] w[j] == env_addr(
        top_s,
        e,
        j - 2 - argc,
    ) by {
        assert(w[j] == env_s[j - 2 - argc]);
    }
    assert(st.len() == s2.len() + 2);
    assert forall|j: int| 0 <= j < envc implies #[trigger] st[j].addr == env_addr(top_s, e, j)
        && st[j].bytes@ == env_string(e[j].0@, e[j].1@) by {
        assert(st[j] == s2[j]);
        assert(s2[j] == s1[j]);
        assert(s1[j].addr == env_addr(top_s, e, j));
        assert(s1[j].bytes@ == env_string(e[j].0@, e[j].1@));
    }
    assert forall|j: int| envc <= j < envc + argc implies #[trigger] st[j].addr == arg_addr(
        top_s,
        e,
        a,
        j - envc,
    ) && st[j].bytes@ == arg_string(a, j - envc) by {
        assert(st[j] == s2[j]);
    }
    assert(st[envc + argc].bytes@ == platform_bytes());
    assert(st[envc + argc + 1].bytes@ == seed@);
    Ok(StackImage { rsp, words, strings })
}

/// Relies on `rand::rngs::OsRng` through `RngCore::try_fill_bytes`: sixteen
/// bytes from the operating system's generator, or `None` when it reports an
/// error. Nothing is known of the bytes.
#[verifier::external_body]
fn os_random_seed() -> (r: Option<[u8; 16]>) {
    let mut seed = [0u8; 16];
    match rand::RngCore::try_fill_bytes(&mut rand::rngs::OsRng, &mut seed) {
        Ok(()) => Some(seed),
        Err(_) => None,
    }
}

/// Builds the initial stack of the new program in the region of
/// `STACK_SIZE` bytes at `stack_base`, with a fresh random seed.
pub fn setup_stack(
    load_info: &LoadInfo,
    load_address: u64,
    interp_base: u64,
    stack_base: u64,
    env: &Vec<(Vec<u8>, Vec<u8>)>,
    args: &Vec<Vec<u8>>,
    aux: &InheritedAux,
) -> (r: Result<StackImage, StackError>)
    requires
        args@.len() >= 2,
        stack_base + STACK_SIZE <= u64::MAX,
    ensures
        rsp_of(stack_top(stack_base), env@, args@) < stack_base ==> r == Err::<
            StackImage,
            StackError,
        >(StackError::StackTooSmall),
        rsp_of(stack_top(stack_base), env@, args@) >= stack_base ==> (r is Ok || r == Err::<
            StackImage,
            StackError,
        >(StackError::NoEntropy)),
        r matches Ok(img) ==> {
            &&& img.strings@.len() == env@.len() + argc_of(args@) + 2
            &&& image_matches(
                img,
                *load_info,
                load_address,
                interp_base,
                stack_base,
                env@,
                args@,
                *aux,
                img.strings@[env@.len() + argc_of(args@) + 1].bytes@,
            )
        },
{
    if frame(stack_base, env, args).is_none() {
        return Err(StackError::StackTooSmall);
    }
    match os_random_seed() {
        Some(seed) => lay_out_stack(
            load_info,
            load_address,
            interp_base,
            stack_base,
            env,
            args,
            aux,
            &seed,
        ),
        None => Err(StackError::NoEntropy),
    }
}

/// Alignment: the stack pointer is a multiple of 16.
pub proof fn lemma_rsp_aligned(top: int, env: Seq<(Vec<u8>, Vec<u8>)>, args: Seq<Vec<u8>>)
    ensures
        rsp_of(top, env, args) % 16 == 0,
{
}

/// Stack ABI: the words from the stack pointer, `argc`, both pointer tables
/// with their null words and the whole auxiliary vector, end at or below
/// the seed; and the seed, the platform string and the strings above it are
/// stacked without overlap below the top.
pub proof fn lemma_tables_below_strings(
    top: int,
    env: Seq<(Vec<u8>, Vec<u8>)>,
    args: Seq<Vec<u8>>,
)
    requires
        args.len() >= 2,
    ensures
        rsp_of(top, env, args) + 8 * (argc_of(args) + env.len() + 3 + AUX_WORDS) <= seed_addr(
            top,
            env,
            args,
        ),
        seed_addr(top, env, args) + 16 == platform_addr(top, env, args),
        platform_addr(top, env, args) + 7 <= strings_end(top, env, args),
        forall|k: int|
            0 <= k < argc_of(args) ==> #[trigger] arg_addr(top, env, args, k) + arg_string(
                args,
                k,
            ).len() <= arg_addr(top, env, args, k + 1),
        arg_addr(top, env, args, argc_of(args)) == top - env_sum(env, env.len() as int),
        forall|i: int|
            0 <= i < env.len() ==> #[trigger] env_addr(top, env, i) + env_string(
                env[i].0@,
                env[i].1@,
            ).len() == top - env_sum(env, i),
{
}

/// Auxiliary vector: `AT_ENTRY` carries the entry point as it stands for a
/// position-dependent image and relocated by the load address for a
/// position-independent one; `AT_PHDR` carries the address of the program
/// headers; `AT_BASE` the interpreter's base; and the vector ends with
/// `AT_NULL`.
pub proof fn lemma_aux_entries(
    li: LoadInfo,
    load_address: u64,
    interp_base: u64,
    aux: InheritedAux,
    random: u64,
    execfn: u64,
)
    ensures
        ({
            let v = aux_words(li, load_address, interp_base, aux, random, execfn);
            &&& v.len() == AUX_WORDS
            &&& v[10] == AT_PHDR && v[11] == load_address.wrapping_add(li.pheader_off)
            &&& v[12] == AT_PHENT && v[13] == PHENT_SIZE
            &&& v[16] == AT_BASE && v[17] == interp_base
            &&& v[20] == AT_ENTRY
            &&& li.etype == ElfType::ElfExec ==> v[21] == li.entry_point
            &&& li.etype == ElfType::ElfDyn ==> v[21] == load_address.wrapping_add(
                li.entry_point,
            )
            &&& v[32] == AT_RANDOM && v[33] == random
            &&& v[34] == AT_EXECFN && v[35] == execfn
            &&& v[36] == AT_NULL && v[37] == 0
        }),
{
}

} // verus!
