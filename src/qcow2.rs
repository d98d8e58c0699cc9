use vstd::prelude::*;

verus! {

/// Why the disk image cannot be read as asked.
#[derive(Debug, Clone, Copy, PartialEq, Eq, Structural)]
pub enum ImageError {
    /// The file is shorter than a header.
    TooShort,
    /// The file does not start with the image magic.
    BadMagic,
    /// A format version other than 2 or 3.
    BadVersion,
    /// A cluster size outside 512 bytes to 2 MiB.
    BadClusterBits,
    /// The image is encrypted.
    Encrypted,
    /// An offset at or past the virtual disk's size.
    OutOfRange,
    /// An offset beyond what the first-level table covers.
    BadTable,
    /// A compressed cluster, which this reader does not decode.
    Compressed,
}

/// The magic number that opens an image: `QFI` and 0xfb.
pub const QCOW_MAGIC: u32 = 0x514649fb;

/// The bits of a table entry that hold a cluster's offset.
pub const OFFSET_MASK: u64 = 0x00ff_ffff_ffff_fe00;

/// The table entry flag of a compressed cluster.
pub const COMPRESSED_FLAG: u64 = 0x4000_0000_0000_0000;

/// The header length of a version 2 image, which version 3 extends.
pub const HEADER_LEN: usize = 72;

/// The big-endian number in the four bytes from `i`.
pub open spec fn be32(b: Seq<u8>, i: int) -> int {
    ((b[i] * 256 + b[i + 1]) * 256 + b[i + 2]) * 256 + b[i + 3]
}

/// The big-endian number in the eight bytes from `i`.
pub open spec fn be64(b: Seq<u8>, i: int) -> int {
    be32(b, i) * 0x1_0000_0000 + be32(b, i + 4)
}

pub open spec fn pow2(n: nat) -> nat
    decreases n,
{
    if n == 0 {
        1
    } else {
        2 * pow2((n - 1) as nat)
    }
}

/// The header fields that address translation needs.
#[derive(Debug, Clone, Copy, PartialEq, Eq, Structural)]
pub struct Qcow2Header {
    pub version: u32,
    pub cluster_bits: u32,
    pub size: u64,
    pub l1_size: u32,
    pub l1_table_offset: u64,
}

impl Qcow2Header {
    pub open spec fn wf(&self) -> bool {
        9 <= self.cluster_bits <= 21
    }

    pub open spec fn cluster_size(&self) -> nat {
        pow2(self.cluster_bits as nat)
    }

    /// Entries in one second-level table: a cluster of eight-byte entries.
    pub open spec fn l2_entries(&self) -> nat {
        self.cluster_size() / 8
    }
}

/// Reads the big-endian `u32` at `i`.
pub fn read_be32(b: &[u8], i: usize) -> (r: u32)
    requires
        i + 4 <= b@.len(),
    ensures
        r == be32(b@, i as int),
{
    let a = b[i] as u32 * 256 + b[i + 1] as u32;
    let c = a * 256 + b[i + 2] as u32;
    c * 256 + b[i + 3] as u32
}

/// Reads the big-endian `u64` at `i`.
pub fn read_be64(b: &[u8], i: usize) -> (r: u64)
    requires
        i + 8 <= b@.len() <= usize::MAX,
    ensures
        r == be64(b@, i as int),
{
    let hi = read_be32(b, i) as u64;
    let lo = read_be32(b, i + 4) as u64;
    hi * 0x1_0000_0000 + lo
}

/// Decodes an image header from the first bytes of the file.
pub fn parse_header(b: &[u8]) -> (r: Result<Qcow2Header, ImageError>)
    ensures
        b@.len() < HEADER_LEN ==> r == Err::<Qcow2Header, ImageError>(ImageError::TooShort),
        b@.len() >= HEADER_LEN ==> r == if be32(b@, 0) != QCOW_MAGIC {
            Err(ImageError::BadMagic)
        } else if be32(b@, 4) != 2 && be32(b@, 4) != 3 {
            Err(ImageError::BadVersion)
        } else if be32(b@, 20) < 9 || be32(b@, 20) > 21 {
            Err(ImageError::BadClusterBits)
        } else if be32(b@, 32) != 0 {
            Err(ImageError::Encrypted)
        } else {
            Ok(
                Qcow2Header {
                    version: be32(b@, 4) as u32,
                    cluster_bits: be32(b@, 20) as u32,
                    size: be64(b@, 24) as u64,
                    l1_size: be32(b@, 36) as u32,
                    l1_table_offset: be64(b@, 40) as u64,
                },
            )
        },
        r matches Ok(h) ==> h.wf(),
{
    if b.len() < HEADER_LEN {
        return Err(ImageError::TooShort);
    }
    if read_be32(b, 0) != QCOW_MAGIC {
        return Err(ImageError::BadMagic);
    }
    let version = read_be32(b, 4);
    if version != 2 && version != 3 {
        return Err(ImageError::BadVersion);
    }
    let cluster_bits = read_be32(b, 20);
    if cluster_bits < 9 || cluster_bits > 21 {
        return Err(ImageError::BadClusterBits);
    }
    if read_be32(b, 32) != 0 {
        return Err(ImageError::Encrypted);
    }
    Ok(Qcow2Header {
        version,
        cluster_bits,
        size: read_be64(b, 24),
        l1_size: read_be32(b, 36),
        l1_table_offset: read_be64(b, 40),
    })
}

proof fn lemma_pow2_bounds(n: nat)
    requires
        n <= 21,
    ensures
        1 <= pow2(n) <= 0x20_0000,
        n >= 3 ==> pow2(n) % 8 == 0 && pow2(n) >= 8,
    decreases n,
{
    reveal_with_fuel(pow2, 22);
    lemma_pow2_monotone(n, 21);
    lemma_pow2_monotone(0, n);
    if n > 3 {
        lemma_pow2_bounds((n - 1) as nat);
    } else if n == 3 {
        reveal_with_fuel(pow2, 4);
    }
}

/// The size in bytes of one cluster.
pub fn cluster_size(h: &Qcow2Header) -> (r: u64)
    requires
        h.wf(),
    ensures
        r == h.cluster_size(),
        512 <= r <= 0x20_0000,
{
    let mut r: u64 = 1;
    let mut k: u32 = 0;
    while k < h.cluster_bits
        invariant
            h.wf(),
            k <= h.cluster_bits,
            r == pow2(k as nat),
        decreases h.cluster_bits - k,
    {
        proof {
            lemma_pow2_bounds(k as nat);
        }
        r = r * 2;
        k = k + 1;
    }
    proof {
        lemma_pow2_bounds(h.cluster_bits as nat);
        lemma_pow2_monotone(9, h.cluster_bits as nat);
        reveal_with_fuel(pow2, 10);
    }
    r
}

proof fn lemma_pow2_monotone(a: nat, b: nat)
    requires
        a <= b,
    ensures
        pow2(a) <= pow2(b),
    decreases b - a,
{
    if a < b {
        lemma_pow2_monotone(a, (b - 1) as nat);
    }
}

/// Where a virtual-disk offset lies: the first- and second-level table
/// slots, and the offset inside the cluster.
#[derive(Debug, Clone, Copy, PartialEq, Eq, Structural)]
pub struct Location {
    pub l1_index: u64,
    pub l2_index: u64,
    pub in_cluster: u64,
}

/// Locates a virtual-disk offset in the image's two table levels.
pub fn locate(h: &Qcow2Header, offset: u64) -> (r: Result<Location, ImageError>)
    requires
        h.wf(),
    ensures
        offset >= h.size ==> r == Err::<Location, ImageError>(ImageError::OutOfRange),
        offset < h.size ==> (r is Ok <==> (offset as nat) / (h.cluster_size() * h.l2_entries()) < h.l1_size),
        offset < h.size && r is Err ==> r == Err::<Location, ImageError>(ImageError::BadTable),
        r matches Ok(loc) ==> loc.in_cluster == (offset as nat) % h.cluster_size()
            && loc.l2_index == ((offset as nat) / h.cluster_size()) % h.l2_entries()
            && loc.l1_index == (offset as nat) / (h.cluster_size() * h.l2_entries())
            && loc.l1_index < h.l1_size && loc.l2_index < h.l2_entries()
            && loc.in_cluster < h.cluster_size(),
{
    if offset >= h.size {
        return Err(ImageError::OutOfRange);
    }
    let cs = cluster_size(h);
    let entries = cs / 8;
    assert(cs * entries <= 0x20_0000 * 0x4_0000) by (nonlinear_arith)
        requires
            cs <= 0x20_0000,
            entries <= 0x4_0000,
    ;
    let span = cs * entries;
    assert(span > 0) by (nonlinear_arith)
        requires
            cs >= 512,
            entries >= 64,
            span == cs * entries,
    ;
    let l1_index = offset / span;
    if l1_index >= h.l1_size as u64 {
        return Err(ImageError::BadTable);
    }
    Ok(Location { l1_index, l2_index: (offset / cs) % entries, in_cluster: offset % cs })
}

/// The cluster a table entry points at: an error for a compressed cluster,
/// none for one that is not allocated or reads as zeros.
pub fn entry_cluster(entry: u64) -> (r: Result<Option<u64>, ImageError>)
    ensures
        r is Err <==> entry & COMPRESSED_FLAG != 0,
        r is Err ==> r == Err::<Option<u64>, ImageError>(ImageError::Compressed),
        r matches Ok(c) ==> c == if entry & OFFSET_MASK == 0 || entry & 1 != 0 {
            None
        } else {
            Some(entry & OFFSET_MASK)
        },
        r matches Ok(Some(c)) ==> c <= OFFSET_MASK,
{
    assert(entry & 0x00ff_ffff_ffff_fe00u64 <= 0x00ff_ffff_ffff_fe00u64) by (bit_vector);
    if entry & COMPRESSED_FLAG != 0 {
        return Err(ImageError::Compressed);
    }
    let off = entry & OFFSET_MASK;
    if off == 0 || entry & 1 != 0 {
        Ok(None)
    } else {
        Ok(Some(off))
    }
}

/// How many bytes from `offset` lie in its cluster and on the disk, up to `want`.
pub fn chunk_len(h: &Qcow2Header, offset: u64, want: u64) -> (r: u64)
    requires
        h.wf(),
        offset < h.size,
    ensures
        r <= want,
        r <= h.cluster_size() - (offset as nat) % h.cluster_size(),
        r <= h.size - offset,
        r == want || r == h.cluster_size() - (offset as nat) % h.cluster_size() || r == h.size - offset,
        want > 0 ==> r > 0,
{
    let cs = cluster_size(h);
    let mut r = cs - offset % cs;
    if want < r {
        r = want;
    }
    if h.size - offset < r {
        r = h.size - offset;
    }
    r
}

/// Where the first-level entry for `loc` is stored in the image file; an
/// offset past the file's address range is refused.
pub fn l1_entry_pos(h: &Qcow2Header, loc: &Location) -> (r: Result<u64, ImageError>)
    requires
        loc.l1_index < h.l1_size,
    ensures
        r is Ok <==> h.l1_table_offset + 8 * loc.l1_index <= u64::MAX,
        r matches Ok(p) ==> p == h.l1_table_offset + 8 * loc.l1_index,
        r is Err ==> r == Err::<u64, ImageError>(ImageError::BadTable),
{
    let step = 8 * loc.l1_index;
    if h.l1_table_offset > u64::MAX - step {
        return Err(ImageError::BadTable);
    }
    Ok(h.l1_table_offset + step)
}

/// Where the second-level entry for `loc` is stored, given the table's cluster.
pub fn l2_entry_pos(h: &Qcow2Header, table: u64, loc: &Location) -> (r: u64)
    requires
        h.wf(),
        table <= OFFSET_MASK,
        loc.l2_index < h.l2_entries(),
    ensures
        r == table + 8 * loc.l2_index,
{
    proof {
        lemma_pow2_bounds(h.cluster_bits as nat);
    }
    table + 8 * loc.l2_index
}

/// Where the byte at `loc` is stored, given its data cluster.
pub fn data_pos(h: &Qcow2Header, cluster: u64, loc: &Location) -> (r: u64)
    requires
        h.wf(),
        cluster <= OFFSET_MASK,
        loc.in_cluster < h.cluster_size(),
    ensures
        r == cluster + loc.in_cluster,
{
    proof {
        lemma_pow2_bounds(h.cluster_bits as nat);
    }
    cluster + loc.in_cluster
}

} // verus!
