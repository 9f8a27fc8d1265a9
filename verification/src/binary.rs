//! Little-endian field readers and magic-number checks over raw artifact bytes.
use vstd::prelude::*;

verus! {

/// `p` is a prefix of `b`.
pub open spec fn bytes_start(b: Seq<u8>, p: Seq<u8>) -> bool {
    p.len() <= b.len() && b.subrange(0, p.len() as int) =~= p
}

/// `p` occurs in `b` at index `i`.
pub open spec fn bytes_at(b: Seq<u8>, p: Seq<u8>, i: int) -> bool {
    0 <= i && i + p.len() <= b.len() && b.subrange(i, i + p.len()) =~= p
}

pub fn bytes_at_exec(b: &[u8], p: &[u8], i: usize) -> (r: bool)
    ensures
        r == bytes_at(b@, p@, i as int),
{
    if p.len() > b.len() || i > b.len() - p.len() {
        return false;
    }
    let mut k: usize = 0;
    while k < p.len()
        invariant
            i + p.len() <= b.len(),
            k <= p.len(),
            forall|j: int| 0 <= j < k ==> b@[i + j] == p@[j],
        decreases p.len() - k,
    {
        if b[i + k] != p[k] {
            assert(b@.subrange(i as int, i + p.len())[k as int] != p@[k as int]);
            return false;
        }
        k = k + 1;
    }
    assert(b@.subrange(i as int, i + p.len()) =~= p@);
    true
}

pub fn starts_with_bytes(b: &[u8], p: &[u8]) -> (r: bool)
    ensures
        r == bytes_start(b@, p@),
{
    bytes_at_exec(b, p, 0)
}

// ---------------------------------------------------------------------------
// Little-endian integers
// ---------------------------------------------------------------------------
pub open spec fn le16(b: Seq<u8>, o: int) -> int {
    b[o] as int + 256 * b[o + 1]
}

pub open spec fn le32(b: Seq<u8>, o: int) -> int {
    le16(b, o) + 65536 * le16(b, o + 2)
}

pub open spec fn le64(b: Seq<u8>, o: int) -> int {
    le32(b, o) + 4294967296 * le32(b, o + 4)
}

/// Two's-complement reading of the eight bytes at `o`.
pub open spec fn le64_signed(b: Seq<u8>, o: int) -> int {
    if le64(b, o) < 0x8000_0000_0000_0000 {
        le64(b, o)
    } else {
        le64(b, o) - 0x1_0000_0000_0000_0000
    }
}

/// `n` bytes are readable at `o`.
pub open spec fn fits(b: Seq<u8>, o: int, n: int) -> bool {
    0 <= o && o + n <= b.len()
}

/// The byte at `o`, when there is one.
pub open spec fn u8_at(b: Seq<u8>, o: int) -> Option<u8> {
    if 0 <= o < b.len() {
        Some(b[o])
    } else {
        None
    }
}

/// The little-endian `u16` at `o`, when it is readable.
pub open spec fn u16_at(b: Seq<u8>, o: int) -> Option<u16> {
    if fits(b, o, 2) {
        Some(le16(b, o) as u16)
    } else {
        None
    }
}

/// The little-endian `u32` at `o`, when it is readable.
pub open spec fn u32_at(b: Seq<u8>, o: int) -> Option<u32> {
    if fits(b, o, 4) {
        Some(le32(b, o) as u32)
    } else {
        None
    }
}

/// The little-endian `u64` at `o`, when it is readable.
pub open spec fn u64_at(b: Seq<u8>, o: int) -> Option<u64> {
    if fits(b, o, 8) {
        Some(le64(b, o) as u64)
    } else {
        None
    }
}

pub fn read_u8(bytes: &[u8], offset: usize) -> (r: Option<u8>)
    ensures
        match r {
            Some(v) => offset < bytes@.len() && v == bytes@[offset as int],
            None => offset >= bytes@.len(),
        },
{
    if offset < bytes.len() {
        Some(bytes[offset])
    } else {
        None
    }
}

pub fn read_u16_le(bytes: &[u8], offset: usize) -> (r: Option<u16>)
    ensures
        match r {
            Some(v) => fits(bytes@, offset as int, 2) && v == le16(bytes@, offset as int),
            None => !fits(bytes@, offset as int, 2),
        },
{
    if offset >= bytes.len() || bytes.len() - offset < 2 {
        return None;
    }
    Some(bytes[offset] as u16 + (bytes[offset + 1] as u16) * 256)
}

pub fn read_u32_le(bytes: &[u8], offset: usize) -> (r: Option<u32>)
    ensures
        match r {
            Some(v) => fits(bytes@, offset as int, 4) && v == le32(bytes@, offset as int),
            None => !fits(bytes@, offset as int, 4),
        },
{
    if offset >= bytes.len() || bytes.len() - offset < 4 {
        return None;
    }
    let lo = bytes[offset] as u32 + (bytes[offset + 1] as u32) * 256;
    let hi = bytes[offset + 2] as u32 + (bytes[offset + 3] as u32) * 256;
    Some(lo + hi * 65536)
}

pub fn read_u64_le(bytes: &[u8], offset: usize) -> (r: Option<u64>)
    ensures
        match r {
            Some(v) => fits(bytes@, offset as int, 8) && v == le64(bytes@, offset as int),
            None => !fits(bytes@, offset as int, 8),
        },
{
    if offset >= bytes.len() || bytes.len() - offset < 8 {
        return None;
    }
    let lo = read_u32_le(bytes, offset).unwrap() as u64;
    let hi = read_u32_le(bytes, offset + 4).unwrap() as u64;
    Some(lo + hi * 4294967296)
}

pub fn read_i64_le(bytes: &[u8], offset: usize) -> (r: Option<i64>)
    ensures
        match r {
            Some(v) => fits(bytes@, offset as int, 8) && v == le64_signed(bytes@, offset as int),
            None => !fits(bytes@, offset as int, 8),
        },
{
    match read_u64_le(bytes, offset) {
        Some(v) => {
            if v < 0x8000_0000_0000_0000 {
                Some(v as i64)
            } else {
                let below = (0xffff_ffff_ffff_ffffu64 - v) as i64;
                Some(-below - 1)
            }
        },
        None => None,
    }
}

/// Powers of 256.
pub open spec fn pow256(n: nat) -> nat
    decreases n,
{
    if n == 0 {
        1
    } else {
        256 * pow256((n - 1) as nat)
    }
}

/// The little-endian unsigned value of a byte sequence.
pub open spec fn le_value(s: Seq<u8>) -> nat
    decreases s.len(),
{
    if s.len() == 0 {
        0
    } else {
        s[0] as nat + 256 * le_value(s.drop_first())
    }
}

pub proof fn lemma_le_value_bound(s: Seq<u8>)
    ensures
        le_value(s) < pow256(s.len()),
    decreases s.len(),
{
    if s.len() > 0 {
        lemma_le_value_bound(s.drop_first());
        assert(le_value(s) < pow256(s.len())) by (nonlinear_arith)
            requires
                le_value(s) == s[0] as nat + 256 * le_value(s.drop_first()),
                le_value(s.drop_first()) < pow256(s.drop_first().len()),
                pow256(s.len()) == 256 * pow256(s.drop_first().len()),
                s[0] < 256,
        ;
    }
}

proof fn lemma_pow256_8()
    ensures
        pow256(8) == 0x1_0000_0000_0000_0000,
{
    reveal_with_fuel(pow256, 9);
}

proof fn lemma_pow256_mono(a: nat, b: nat)
    requires
        a <= b,
    ensures
        pow256(a) <= pow256(b),
    decreases b,
{
    if a < b {
        lemma_pow256_mono(a, (b - 1) as nat);
    }
}

/// The little-endian unsigned value of at most the first eight bytes.
pub open spec fn le_uint(s: Seq<u8>) -> nat {
    le_value(s.take(if s.len() < 8 { s.len() as int } else { 8 }))
}

pub fn read_le_uint(bytes: &[u8]) -> (r: u64)
    ensures
        r == le_uint(bytes@),
{
    let n: usize = if bytes.len() < 8 {
        bytes.len()
    } else {
        8
    };
    let ghost t = bytes@.take(n as int);
    let mut acc: u64 = 0;
    let mut i: usize = n;
    proof {
        lemma_pow256_8();
    }
    while i > 0
        invariant
            0 <= i <= n <= 8,
            n <= bytes.len(),
            t == bytes@.take(n as int),
            acc == le_value(t.subrange(i as int, n as int)),
            pow256(8) == 0x1_0000_0000_0000_0000,
        decreases i,
    {
        let ghost rest = t.subrange(i as int, n as int);
        let ghost next = t.subrange(i - 1, n as int);
        assert(next.drop_first() =~= rest);
        proof {
            lemma_le_value_bound(next);
            lemma_pow256_mono(next.len(), 8);
        }
        assert(le_value(next) == next[0] as nat + 256 * le_value(rest));
        assert(acc * 256 + bytes@[i - 1] < 0x1_0000_0000_0000_0000);
        acc = acc * 256 + bytes[i - 1] as u64;
        i = i - 1;
    }
    assert(t.subrange(0, n as int) =~= t);
    acc
}

/// Sign-extended little-endian value of a field of one to eight bytes.
pub open spec fn le_int(s: Seq<u8>) -> int {
    if s.len() == 0 {
        0
    } else if le_value(s) < pow256(s.len()) / 2 {
        le_value(s) as int
    } else {
        le_value(s) - pow256(s.len())
    }
}

pub fn read_le_int(bytes: &[u8]) -> (r: i64)
    requires
        bytes.len() <= 8,
    ensures
        r == le_int(bytes@),
{
    if bytes.len() == 0 {
        return 0;
    }
    let unsigned = read_le_uint(bytes);
    proof {
        assert(bytes@.take(bytes@.len() as int) =~= bytes@);
        lemma_le_value_bound(bytes@);
        lemma_pow256_mono(bytes@.len(), 8);
        lemma_pow256_8();
    }
    let mut full: u128 = 1;
    let mut k: usize = 0;
    while k < bytes.len()
        invariant
            k <= bytes.len() <= 8,
            full == pow256(k as nat),
            pow256(8) == 0x1_0000_0000_0000_0000,
        decreases bytes.len() - k,
    {
        proof {
            lemma_pow256_mono(k as nat, 7);
            reveal_with_fuel(pow256, 8);
        }
        assert(pow256(7) == 0x100_0000_0000_0000) by {
            reveal_with_fuel(pow256, 8);
        }
        full = full * 256;
        k = k + 1;
    }
    let half: u128 = full / 2;
    if (unsigned as u128) < half {
        unsigned as i64
    } else {
        let d: u128 = full - unsigned as u128;
        assert(d <= 0x8000_0000_0000_0000);
        if d == 0x8000_0000_0000_0000 {
            i64::MIN
        } else {
            -(d as i64)
        }
    }
}

// ---------------------------------------------------------------------------
// Magic numbers
// ---------------------------------------------------------------------------
pub open spec fn evtx_magic() -> Seq<u8> {
    seq![0x45u8, 0x6c, 0x66, 0x46, 0x69, 0x6c, 0x65]
}

pub open spec fn scca_magic() -> Seq<u8> {
    seq![0x53u8, 0x43, 0x43, 0x41]
}

pub open spec fn mam_magic() -> Seq<u8> {
    seq![0x4du8, 0x41, 0x4d, 0x04]
}

/// An EVTX file starts with `ElfFile`.
pub open spec fn evtx_binary(b: Seq<u8>) -> bool {
    bytes_start(b, evtx_magic())
}

/// A prefetch file is compressed (`MAM\x04`) or carries `SCCA` at offset 0 or 4.
pub open spec fn prefetch_binary(b: Seq<u8>) -> bool {
    bytes_start(b, mam_magic()) || bytes_at(b, scca_magic(), 4) || bytes_start(b, scca_magic())
}

pub fn looks_like_evtx_binary(bytes: &[u8]) -> (r: bool)
    ensures
        r == evtx_binary(bytes@),
{
    let magic = [0x45u8, 0x6c, 0x66, 0x46, 0x69, 0x6c, 0x65];
    assert(magic@ == evtx_magic());
    starts_with_bytes(bytes, &magic)
}

pub fn looks_like_prefetch_binary(bytes: &[u8]) -> (r: bool)
    ensures
        r == prefetch_binary(bytes@),
{
    let mam = [0x4du8, 0x41, 0x4d, 0x04];
    let scca = [0x53u8, 0x43, 0x43, 0x41];
    assert(mam@ == mam_magic());
    assert(scca@ == scca_magic());
    starts_with_bytes(bytes, &mam) || bytes_at_exec(bytes, &scca, 4) || starts_with_bytes(
        bytes,
        &scca,
    )
}

pub open spec fn ese_sig_a() -> Seq<u8> {
    seq![0xefu8, 0xcd, 0xab, 0x89]
}

pub open spec fn ese_sig_b() -> Seq<u8> {
    seq![0x89u8, 0xab, 0xcd, 0xef]
}

/// The first window, among the first 512, that holds the ESE signature in either byte order.
pub open spec fn ese_signature_from(b: Seq<u8>, i: int) -> Option<int>
    decreases 512 - i,
{
    if i < 0 || i >= 512 || i + 4 > b.len() {
        None
    } else if bytes_at(b, ese_sig_a(), i) || bytes_at(b, ese_sig_b(), i) {
        Some(i)
    } else {
        ese_signature_from(b, i + 1)
    }
}

pub fn find_ese_signature(bytes: &[u8]) -> (r: Option<usize>)
    ensures
        match r {
            Some(i) => ese_signature_from(bytes@, 0) == Some(i as int),
            None => ese_signature_from(bytes@, 0) is None,
        },
{
    let a = [0xefu8, 0xcd, 0xab, 0x89];
    let b = [0x89u8, 0xab, 0xcd, 0xef];
    assert(a@ == ese_sig_a());
    assert(b@ == ese_sig_b());
    let mut i: usize = 0;
    while i < 512 && i + 4 <= bytes.len()
        invariant
            i <= 512,
            a@ == ese_sig_a(),
            b@ == ese_sig_b(),
            ese_signature_from(bytes@, 0) == ese_signature_from(bytes@, i as int),
        decreases 512 - i,
    {
        if bytes_at_exec(bytes, &a, i) || bytes_at_exec(bytes, &b, i) {
            return Some(i);
        }
        i = i + 1;
    }
    None
}

/// The largest ESE page size that divides the file length.
pub open spec fn ese_page_size(len: int) -> Option<usize> {
    if len >= 32768 && len % 32768 == 0 {
        Some(32768)
    } else if len >= 16384 && len % 16384 == 0 {
        Some(16384)
    } else if len >= 8192 && len % 8192 == 0 {
        Some(8192)
    } else if len >= 4096 && len % 4096 == 0 {
        Some(4096)
    } else if len >= 2048 && len % 2048 == 0 {
        Some(2048)
    } else {
        None
    }
}

pub fn infer_ese_page_size(bytes: &[u8]) -> (r: Option<usize>)
    ensures
        r == ese_page_size(bytes@.len() as int),
{
    let n = bytes.len();
    if n >= 32768 && n % 32768 == 0 {
        Some(32768)
    } else if n >= 16384 && n % 16384 == 0 {
        Some(16384)
    } else if n >= 8192 && n % 8192 == 0 {
        Some(8192)
    } else if n >= 4096 && n % 4096 == 0 {
        Some(4096)
    } else if n >= 2048 && n % 2048 == 0 {
        Some(2048)
    } else {
        None
    }
}

/// How a prefetch file is wrapped.
pub open spec fn prefetch_container(b: Seq<u8>) -> Seq<char> {
    if bytes_start(b, mam_magic()) {
        "mam_xpress_huffman"@
    } else if bytes_at(b, scca_magic(), 4) {
        "scca_raw"@
    } else if bytes_start(b, scca_magic()) {
        "scca_legacy_header"@
    } else {
        "unknown_prefetch_container"@
    }
}

pub fn prefetch_container_kind(bytes: &[u8]) -> (r: &'static str)
    ensures
        r@ == prefetch_container(bytes@),
{
    let mam = [0x4du8, 0x41, 0x4d, 0x04];
    let scca = [0x53u8, 0x43, 0x43, 0x41];
    assert(mam@ == mam_magic());
    assert(scca@ == scca_magic());
    if starts_with_bytes(bytes, &mam) {
        "mam_xpress_huffman"
    } else if bytes_at_exec(bytes, &scca, 4) {
        "scca_raw"
    } else if starts_with_bytes(bytes, &scca) {
        "scca_legacy_header"
    } else {
        "unknown_prefetch_container"
    }
}

/// The uncompressed size that a `MAM\x04` header declares.
pub fn prefetch_mam_declared_size(bytes: &[u8]) -> (r: Option<u32>)
    ensures
        match r {
            Some(v) => bytes_start(bytes@, mam_magic()) && bytes@.len() >= 8 && v == le32(
                bytes@,
                4,
            ),
            None => !(bytes_start(bytes@, mam_magic()) && bytes@.len() >= 8),
        },
{
    let mam = [0x4du8, 0x41, 0x4d, 0x04];
    assert(mam@ == mam_magic());
    if !starts_with_bytes(bytes, &mam) || bytes.len() < 8 {
        return None;
    }
    read_u32_le(bytes, 4)
}

/// The format version of an uncompressed prefetch file.
pub open spec fn prefetch_version_of(b: Seq<u8>) -> Option<int> {
    if b.len() < 8 || !prefetch_binary(b) {
        None
    } else if bytes_start(b, scca_magic()) {
        Some(le32(b, 4))
    } else if bytes_at(b, scca_magic(), 4) {
        Some(le32(b, 0))
    } else {
        None
    }
}

pub fn prefetch_version(bytes: &[u8]) -> (r: Option<u32>)
    ensures
        match r {
            Some(v) => prefetch_version_of(bytes@) == Some(v as int),
            None => prefetch_version_of(bytes@) is None,
        },
{
    if bytes.len() < 8 || !looks_like_prefetch_binary(bytes) {
        return None;
    }
    let scca = [0x53u8, 0x43, 0x43, 0x41];
    assert(scca@ == scca_magic());
    if starts_with_bytes(bytes, &scca) {
        read_u32_le(bytes, 4)
    } else if bytes_at_exec(bytes, &scca, 4) {
        read_u32_le(bytes, 0)
    } else {
        None
    }
}

/// The container format named by a recovery artifact's leading bytes.
pub open spec fn signature_of(b: Seq<u8>) -> Seq<char> {
    if bytes_start(b, seq![0x25u8, 0x50, 0x44, 0x46]) {
        "pdf"@
    } else if bytes_start(b, seq![0x50u8, 0x4b, 0x03, 0x04]) {
        "zip"@
    } else if bytes_start(b, seq![0xd0u8, 0xcf, 0x11, 0xe0]) {
        "ole"@
    } else if bytes_start(b, sqlite_magic()) {
        "sqlite"@
    } else if bytes_start(b, seq![0x0au8, 0x0d, 0x0d, 0x0a]) {
        "pcapng"@
    } else if bytes_start(b, seq![0xd4u8, 0xc3, 0xb2, 0xa1]) || bytes_start(
        b,
        seq![0xa1u8, 0xb2, 0xc3, 0xd4],
    ) || bytes_start(b, seq![0x4du8, 0x3c, 0xb2, 0xa1]) || bytes_start(
        b,
        seq![0xa1u8, 0xb2, 0x3c, 0x4d],
    ) {
        "pcap"@
    } else if bytes_start(b, seq![0x52u8, 0x61, 0x72, 0x21]) {
        "rar"@
    } else if bytes_start(b, seq![0x37u8, 0x7a, 0xbc, 0xaf, 0x27, 0x1c]) {
        "7z"@
    } else {
        "unknown"@
    }
}

/// `SQLite format 3\0`.
pub open spec fn sqlite_magic() -> Seq<u8> {
    seq![
        0x53u8, 0x51, 0x4c, 0x69, 0x74, 0x65, 0x20, 0x66, 0x6f, 0x72, 0x6d, 0x61, 0x74, 0x20,
        0x33, 0x00,
    ]
}

pub fn sqlite_magic_bytes() -> (r: [u8; 16])
    ensures
        r@ == sqlite_magic(),
{
    let m = [
        0x53u8, 0x51, 0x4c, 0x69, 0x74, 0x65, 0x20, 0x66, 0x6f, 0x72, 0x6d, 0x61, 0x74, 0x20,
        0x33, 0x00,
    ];
    assert(m@ == sqlite_magic());
    m
}

pub fn artifact_signature(bytes: &[u8]) -> (r: &'static str)
    ensures
        r@ == signature_of(bytes@),
{
    let pdf = [0x25u8, 0x50, 0x44, 0x46];
    let zip = [0x50u8, 0x4b, 0x03, 0x04];
    let ole = [0xd0u8, 0xcf, 0x11, 0xe0];
    let sqlite = sqlite_magic_bytes();
    let pcapng = [0x0au8, 0x0d, 0x0d, 0x0a];
    let p1 = [0xd4u8, 0xc3, 0xb2, 0xa1];
    let p2 = [0xa1u8, 0xb2, 0xc3, 0xd4];
    let p3 = [0x4du8, 0x3c, 0xb2, 0xa1];
    let p4 = [0xa1u8, 0xb2, 0x3c, 0x4d];
    let rar = [0x52u8, 0x61, 0x72, 0x21];
    let sz = [0x37u8, 0x7a, 0xbc, 0xaf, 0x27, 0x1c];
    assert(pdf@ == seq![0x25u8, 0x50, 0x44, 0x46]);
    assert(zip@ == seq![0x50u8, 0x4b, 0x03, 0x04]);
    assert(ole@ == seq![0xd0u8, 0xcf, 0x11, 0xe0]);
    assert(pcapng@ == seq![0x0au8, 0x0d, 0x0d, 0x0a]);
    assert(p1@ == seq![0xd4u8, 0xc3, 0xb2, 0xa1]);
    assert(p2@ == seq![0xa1u8, 0xb2, 0xc3, 0xd4]);
    assert(p3@ == seq![0x4du8, 0x3c, 0xb2, 0xa1]);
    assert(p4@ == seq![0xa1u8, 0xb2, 0x3c, 0x4d]);
    assert(rar@ == seq![0x52u8, 0x61, 0x72, 0x21]);
    assert(sz@ == seq![0x37u8, 0x7a, 0xbc, 0xaf, 0x27, 0x1c]);
    if starts_with_bytes(bytes, &pdf) {
        "pdf"
    } else if starts_with_bytes(bytes, &zip) {
        "zip"
    } else if starts_with_bytes(bytes, &ole) {
        "ole"
    } else if starts_with_bytes(bytes, &sqlite) {
        "sqlite"
    } else if starts_with_bytes(bytes, &pcapng) {
        "pcapng"
    } else if starts_with_bytes(bytes, &p1) || starts_with_bytes(bytes, &p2) || starts_with_bytes(
        bytes,
        &p3,
    ) || starts_with_bytes(bytes, &p4) {
        "pcap"
    } else if starts_with_bytes(bytes, &rar) {
        "rar"
    } else if starts_with_bytes(bytes, &sz) {
        "7z"
    } else {
        "unknown"
    }
}

/// A coarse format hint from leading bytes.
pub open spec fn magic_of(b: Seq<u8>) -> Seq<char> {
    if evtx_binary(b) {
        "evtx"@
    } else if bytes_start(b, file_magic()) {
        "ntfs_file_record"@
    } else if bytes_start(b, scca_magic()) {
        "prefetch"@
    } else if bytes_start(b, sqlite_magic()) {
        "sqlite"@
    } else if bytes_start(b, seq![0xd0u8, 0xcf, 0x11, 0xe0]) {
        "ole_cfb"@
    } else if bytes_start(b, seq![0x1fu8, 0x8b]) {
        "gzip"@
    } else if bytes_start(b, seq![0xffu8, 0xd8, 0xff]) {
        "jpeg"@
    } else if bytes_start(b, seq![0x89u8, 0x50, 0x4e, 0x47, 0x0d, 0x0a, 0x1a, 0x0a]) {
        "png"@
    } else if bytes_start(b, regf_magic()) {
        "registry_hive"@
    } else if bytes_start(b, seq![0x4du8, 0x5a]) {
        "pe"@
    } else {
        "unknown"@
    }
}

/// `FILE`, the signature of an NTFS file record.
pub open spec fn file_magic() -> Seq<u8> {
    seq![0x46u8, 0x49, 0x4c, 0x45]
}

/// `regf`, the signature of a registry hive.
pub open spec fn regf_magic() -> Seq<u8> {
    seq![0x72u8, 0x65, 0x67, 0x66]
}

pub fn file_magic_bytes() -> (r: [u8; 4])
    ensures
        r@ == file_magic(),
{
    let m = [0x46u8, 0x49, 0x4c, 0x45];
    assert(m@ == file_magic());
    m
}

pub fn regf_magic_bytes() -> (r: [u8; 4])
    ensures
        r@ == regf_magic(),
{
    let m = [0x72u8, 0x65, 0x67, 0x66];
    assert(m@ == regf_magic());
    m
}

pub fn magic_hint(bytes: &[u8]) -> (r: &'static str)
    ensures
        r@ == magic_of(bytes@),
{
    let scca = [0x53u8, 0x43, 0x43, 0x41];
    let ole = [0xd0u8, 0xcf, 0x11, 0xe0];
    let gz = [0x1fu8, 0x8b];
    let jpg = [0xffu8, 0xd8, 0xff];
    let png = [0x89u8, 0x50, 0x4e, 0x47, 0x0d, 0x0a, 0x1a, 0x0a];
    let mz = [0x4du8, 0x5a];
    assert(scca@ == scca_magic());
    assert(ole@ == seq![0xd0u8, 0xcf, 0x11, 0xe0]);
    assert(gz@ == seq![0x1fu8, 0x8b]);
    assert(jpg@ == seq![0xffu8, 0xd8, 0xff]);
    assert(png@ == seq![0x89u8, 0x50, 0x4e, 0x47, 0x0d, 0x0a, 0x1a, 0x0a]);
    assert(mz@ == seq![0x4du8, 0x5a]);
    if looks_like_evtx_binary(bytes) {
        "evtx"
    } else if starts_with_bytes(bytes, &file_magic_bytes()) {
        "ntfs_file_record"
    } else if starts_with_bytes(bytes, &scca) {
        "prefetch"
    } else if starts_with_bytes(bytes, &sqlite_magic_bytes()) {
        "sqlite"
    } else if starts_with_bytes(bytes, &ole) {
        "ole_cfb"
    } else if starts_with_bytes(bytes, &gz) {
        "gzip"
    } else if starts_with_bytes(bytes, &jpg) {
        "jpeg"
    } else if starts_with_bytes(bytes, &png) {
        "png"
    } else if starts_with_bytes(bytes, &regf_magic_bytes()) {
        "registry_hive"
    } else if starts_with_bytes(bytes, &mz) {
        "pe"
    } else {
        "unknown"
    }
}

/// The record number held in the low 48 bits of an NTFS file reference.
pub fn file_reference_record_number(reference: u64) -> (r: u64)
    ensures
        r == reference % 0x1_0000_0000_0000,
{
    reference % 0x1_0000_0000_0000
}

/// The sequence number held in the high 16 bits of an NTFS file reference.
pub fn file_reference_sequence_number(reference: u64) -> (r: u16)
    ensures
        r == reference / 0x1_0000_0000_0000,
{
    (reference / 0x1_0000_0000_0000) as u16
}

} // verus!
