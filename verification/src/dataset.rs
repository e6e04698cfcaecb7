use crate::shape::Shape;
use vstd::prelude::*;

verus! {

/// Magic number opening an image archive.
pub const IMAGE_MAGIC: u32 = 2051;

/// Magic number opening a label archive.
pub const LABEL_MAGIC: u32 = 2049;

/// Failure raised while decoding a sample archive.
#[derive(Clone, Copy, Debug, PartialEq, Eq, Structural)]
pub enum DatasetError {
    /// The archive opens with the wrong magic number.
    WrongMagic { found: u32 },
    /// The archive is shorter than its header calls for.
    Truncated,
    /// The declared sample dimensions do not fit the machine's word size.
    TooLarge,
}

/// The big-endian 32-bit word at byte offset `off`.
pub open spec fn be_u32(b: Seq<u8>, off: int) -> int
    recommends
        0 <= off,
        off + 4 <= b.len(),
{
    (b[off] as int) * 0x1000000 + (b[off + 1] as int) * 0x10000 + (b[off + 2] as int) * 0x100 + (
    b[off + 3] as int)
}

/// A decoded image archive: every sample is a flat row-major pixel buffer
/// of the common shape.
#[derive(Debug)]
pub struct ImageSet {
    /// Width and height every sample shares.
    pub shape: Shape,
    /// The samples, in archive order.
    pub images: Vec<Vec<u8>>,
}

/// The big-endian 32-bit word at byte offset `off`.
fn read_be_u32(bytes: &Vec<u8>, off: usize) -> (r: u32)
    requires
        off + 4 <= bytes@.len(),
    ensures
        r == be_u32(bytes@, off as int),
{
    let _n: usize = bytes.len();
    (bytes[off] as u32) * 0x1000000 + (bytes[off + 1] as u32) * 0x10000 + (bytes[off + 2] as u32)
        * 0x100 + (bytes[off + 3] as u32)
}

/// Decodes an image archive: a 16-byte header (magic, sample count, width,
/// height, each big-endian) followed by the samples' pixels, row-major,
/// back to back.
///
/// Succeeds exactly on archives that open with `IMAGE_MAGIC`, whose
/// declared sizes fit the machine's word size, and that hold all the
/// pixels the header calls for; trailing bytes are ignored, as a reader
/// that walks the archive front to back never sees them.
#[verifier::loop_isolation(false)]
pub fn parse_images(bytes: &Vec<u8>) -> (r: Result<ImageSet, DatasetError>)
    ensures
        match r {
            Ok(set) => {
                let count = be_u32(bytes@, 4);
                let w = be_u32(bytes@, 8);
                let h = be_u32(bytes@, 12);
                &&& bytes@.len() >= 16
                &&& be_u32(bytes@, 0) == IMAGE_MAGIC
                &&& set.shape.width == w
                &&& set.shape.height == h
                &&& set.shape.wf()
                &&& w * h <= usize::MAX
                &&& 16 + count * (w * h) <= bytes@.len()
                &&& set.images@.len() == count
                &&& forall|i: int|
                    0 <= i < count ==> (#[trigger] set.images@[i])@.len() == w * h
                &&& forall|i: int, p: int|
                    0 <= i < count && 0 <= p < w * h ==> (#[trigger] set.images@[i]@[p]) == bytes@[
                        16 + i * (w * h) + p
                    ]
            },
            Err(DatasetError::Truncated) => bytes@.len() < 16 || (be_u32(bytes@, 0) == IMAGE_MAGIC
                && be_u32(bytes@, 8) * be_u32(bytes@, 12) <= usize::MAX && 16 + be_u32(bytes@, 4)
                * (be_u32(bytes@, 8) * be_u32(bytes@, 12)) > bytes@.len()),
            Err(DatasetError::WrongMagic { found }) => bytes@.len() >= 16 && be_u32(bytes@, 0)
                != IMAGE_MAGIC && found == be_u32(bytes@, 0),
            Err(DatasetError::TooLarge) => bytes@.len() >= 16 && be_u32(bytes@, 0) == IMAGE_MAGIC
                && be_u32(bytes@, 8) * be_u32(bytes@, 12) > usize::MAX,
        },
{
    if bytes.len() < 16 {
        return Err(DatasetError::Truncated);
    }
    let magic: u32 = read_be_u32(bytes, 0);
    if magic != IMAGE_MAGIC {
        return Err(DatasetError::WrongMagic { found: magic });
    }
    let count: u32 = read_be_u32(bytes, 4);
    let w: u32 = read_be_u32(bytes, 8);
    let h: u32 = read_be_u32(bytes, 12);
    proof {
        assert((w as int) * (h as int) < 0x1_0000_0000_0000_0000) by (nonlinear_arith)
            requires
                w as int <= 0xffff_ffff,
                h as int <= 0xffff_ffff,
        ;
    }
    let wh64: u64 = (w as u64) * (h as u64);
    if wh64 > (usize::MAX as u64) {
        return Err(DatasetError::TooLarge);
    }
    let per: usize = wh64 as usize;
    proof {
        assert((count as int) * (per as int) <= 0xffff_ffff * 0xffff_ffff_ffff_ffff)
            by (nonlinear_arith)
            requires
                0 <= count as int <= 0xffff_ffff,
                0 <= per as int <= 0xffff_ffff_ffff_ffff,
        ;
    }
    let total: u128 = (count as u128) * (per as u128);
    if 16 + total > (bytes.len() as u128) {
        return Err(DatasetError::Truncated);
    }
    let count_us: usize = count as usize;
    let mut images: Vec<Vec<u8>> = Vec::new();
    let mut i: usize = 0;
    while i < count_us
        invariant
            i <= count_us,
            images@.len() == i,
            forall|q: int| 0 <= q < i ==> (#[trigger] images@[q])@.len() == per,
            forall|q: int, p: int|
                0 <= q < i && 0 <= p < per ==> (#[trigger] images@[q]@[p]) == bytes@[16 + q * (
                per as int) + p],
        decreases count_us - i,
    {
        proof {
            assert((i as int) * (per as int) + (per as int) <= (count_us as int) * (per as int)
                && 0 <= (i as int) * (per as int)) by (nonlinear_arith)
                requires
                    0 <= (i as int) < (count_us as int),
                    0 <= per as int,
            ;
        }
        let base: usize = 16 + i * per;
        let mut pixels: Vec<u8> = Vec::new();
        let mut p: usize = 0;
        while p < per
            invariant
                p <= per,
                pixels@.len() == p,
                forall|t: int|
                    0 <= t < p ==> (#[trigger] pixels@[t]) == bytes@[base as int + t],
            decreases per - p,
        {
            pixels.push(bytes[base + p]);
            p = p + 1;
        }
        images.push(pixels);
        i = i + 1;
    }
    Ok(ImageSet { shape: Shape::new(w as usize, h as usize), images })
}

/// Decodes a label archive: an 8-byte header (magic, item count, each
/// big-endian) followed by one byte per label.
///
/// Succeeds exactly on archives that open with `LABEL_MAGIC` and hold all
/// the labels the header calls for; trailing bytes are ignored.
#[verifier::loop_isolation(false)]
pub fn parse_labels(bytes: &Vec<u8>) -> (r: Result<Vec<u8>, DatasetError>)
    ensures
        match r {
            Ok(labels) => {
                let count = be_u32(bytes@, 4);
                &&& bytes@.len() >= 8
                &&& be_u32(bytes@, 0) == LABEL_MAGIC
                &&& 8 + count <= bytes@.len()
                &&& labels@.len() == count
                &&& forall|i: int| 0 <= i < count ==> (#[trigger] labels@[i]) == bytes@[8 + i]
            },
            Err(DatasetError::Truncated) => bytes@.len() < 8 || (be_u32(bytes@, 0) == LABEL_MAGIC
                && 8 + be_u32(bytes@, 4) > bytes@.len()),
            Err(DatasetError::WrongMagic { found }) => bytes@.len() >= 8 && be_u32(bytes@, 0)
                != LABEL_MAGIC && found == be_u32(bytes@, 0),
            Err(DatasetError::TooLarge) => false,
        },
{
    if bytes.len() < 8 {
        return Err(DatasetError::Truncated);
    }
    let magic: u32 = read_be_u32(bytes, 0);
    if magic != LABEL_MAGIC {
        return Err(DatasetError::WrongMagic { found: magic });
    }
    let count: u32 = read_be_u32(bytes, 4);
    if (count as u64) > (bytes.len() as u64) - 8 {
        return Err(DatasetError::Truncated);
    }
    let count_us: usize = count as usize;
    let mut labels: Vec<u8> = Vec::new();
    let mut i: usize = 0;
    while i < count_us
        invariant
            i <= count_us,
            labels@.len() == i,
            forall|q: int| 0 <= q < i ==> (#[trigger] labels@[q]) == bytes@[8 + q],
        decreases count_us - i,
    {
        labels.push(bytes[8 + i]);
        i = i + 1;
    }
    Ok(labels)
}

} // verus!
