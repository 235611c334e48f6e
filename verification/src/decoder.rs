use vstd::prelude::*;

verus! {

use crate::ViewerError;

/// Magic word at the head of an images file. The file stores it as a
/// big-endian signed 32-bit integer; the value is small enough that the
/// signed and unsigned readings agree.
pub const IMAGES_MAGIC: u32 = 2051;

/// Magic word at the head of a labels file.
pub const LABELS_MAGIC: u32 = 2049;

/// Width, in pixels, of every image in the dataset.
pub const IMAGE_WIDTH: usize = 28;

/// Height, in pixels, of every image in the dataset.
pub const IMAGE_HEIGHT: usize = 28;

/// Number of intensity bytes in one image: 28 rows of 28 columns.
pub const IMAGE_PIXELS: usize = 784;

/// Length of the images file header: magic, item count, row count and
/// column count, four bytes each.
pub const IMAGES_HEADER_LEN: usize = 16;

/// Length of the labels file header: magic and item count, four bytes each.
pub const LABELS_HEADER_LEN: usize = 8;

/// The value of the four bytes starting at `off`, read as one big-endian
/// 32-bit word.
pub open spec fn be_word(b: Seq<u8>, off: int) -> int {
    b[off] * 0x1000000 + b[off + 1] * 0x10000 + b[off + 2] * 0x100 + b[off + 3]
}

/// One decoded image: a flat row-major array of 784 grayscale intensities.
#[derive(Debug, Clone, PartialEq, Eq)]
pub struct ImageRecord {
    pub pixels: Vec<u8>,
}

impl ImageRecord {
    /// A record is well formed when it holds exactly one intensity byte per
    /// pixel of a 28 by 28 image.
    pub open spec fn wf(self) -> bool {
        self.pixels@.len() == IMAGE_PIXELS
    }
}

/// The images file starts with the images magic word.
pub open spec fn images_magic_ok(b: Seq<u8>) -> bool {
    b.len() >= 4 && be_word(b, 0) == IMAGES_MAGIC
}

/// The item count declared in the images file header.
pub open spec fn images_count(b: Seq<u8>) -> int {
    be_word(b, 4)
}

/// The row and column counts declared in the images file header match the
/// 28 by 28 shape this viewer supports.
pub open spec fn images_dims_ok(b: Seq<u8>) -> bool {
    be_word(b, 8) == IMAGE_HEIGHT && be_word(b, 12) == IMAGE_WIDTH
}

/// The file is long enough to hold its header and every declared image.
pub open spec fn images_len_ok(b: Seq<u8>) -> bool {
    b.len() >= IMAGES_HEADER_LEN + images_count(b) * IMAGE_PIXELS
}

/// A fully valid images file: right magic, full header, 28 by 28 shape,
/// and one whole 784-byte chunk per declared item.
pub open spec fn images_valid(b: Seq<u8>) -> bool {
    images_magic_ok(b) && b.len() >= IMAGES_HEADER_LEN && images_dims_ok(b) && images_len_ok(b)
}

/// The images file is malformed: its magic word is wrong (or there are not
/// even four bytes to hold one), or its header declares a shape other than
/// 28 by 28.
pub open spec fn images_format_bad(b: Seq<u8>) -> bool {
    !images_magic_ok(b) || (b.len() >= IMAGES_HEADER_LEN && !images_dims_ok(b))
}

/// The images file is truncated: the magic word is right but the file ends
/// inside the header, or before the last declared 784-byte chunk completes.
pub open spec fn images_truncated(b: Seq<u8>) -> bool {
    images_magic_ok(b)
        && (b.len() < IMAGES_HEADER_LEN || (images_dims_ok(b) && !images_len_ok(b)))
}

/// The bytes of the `i`-th image chunk of a valid images file.
pub open spec fn image_chunk(b: Seq<u8>, i: int) -> Seq<u8> {
    b.subrange(
        IMAGES_HEADER_LEN + i * IMAGE_PIXELS,
        IMAGES_HEADER_LEN + i * IMAGE_PIXELS + IMAGE_PIXELS,
    )
}

/// The labels file starts with the labels magic word.
pub open spec fn labels_magic_ok(b: Seq<u8>) -> bool {
    b.len() >= 4 && be_word(b, 0) == LABELS_MAGIC
}

/// A valid labels file: right magic and a full header; every byte after the
/// header is a label.
pub open spec fn labels_valid(b: Seq<u8>) -> bool {
    labels_magic_ok(b) && b.len() >= LABELS_HEADER_LEN
}

/// Reads the big-endian 32-bit word stored at offset `off`.
pub fn read_be_word(bytes: &Vec<u8>, off: usize) -> (r: u32)
    requires
        off + 4 <= bytes@.len(),
    ensures
        r == be_word(bytes@, off as int),
{
    let n: usize = bytes.len();
    assert(off + 4 <= n);
    let b0: u32 = bytes[off] as u32;
    let b1: u32 = bytes[off + 1] as u32;
    let b2: u32 = bytes[off + 2] as u32;
    let b3: u32 = bytes[off + 3] as u32;
    b0 * 0x1000000 + b1 * 0x10000 + b2 * 0x100 + b3
}

/// Decodes an images file: validates the header, then cuts the body into
/// one 784-byte record per declared item.
///
/// The outcome is decided entirely by the input bytes: a wrong magic word
/// or a declared shape other than 28 by 28 is a format error, a file that
/// ends before the last declared chunk is a truncation error, and on a
/// valid file every declared record comes back verbatim, in file order.
pub fn decode_images(bytes: &Vec<u8>) -> (r: Result<Vec<ImageRecord>, ViewerError>)
    ensures
        r is Ok <==> images_valid(bytes@),
        images_format_bad(bytes@) ==> r matches Err(ViewerError::FormatError),
        images_truncated(bytes@) ==> r matches Err(ViewerError::TruncationError),
        match r {
            Ok(imgs) => {
                &&& imgs@.len() == images_count(bytes@)
                &&& forall|i: int|
                    0 <= i < imgs@.len() ==> (#[trigger] imgs@[i]).pixels@ == image_chunk(
                        bytes@,
                        i,
                    )
                &&& forall|i: int| 0 <= i < imgs@.len() ==> (#[trigger] imgs@[i]).wf()
            },
            Err(ViewerError::FormatError) => images_format_bad(bytes@),
            Err(ViewerError::TruncationError) => images_truncated(bytes@),
            Err(_) => false,
        },
{
    let n: usize = bytes.len();
    if n < 4 || read_be_word(bytes, 0) != IMAGES_MAGIC {
        return Err(ViewerError::FormatError);
    }
    if n < IMAGES_HEADER_LEN {
        return Err(ViewerError::TruncationError);
    }
    let rows: u32 = read_be_word(bytes, 8);
    let cols: u32 = read_be_word(bytes, 12);
    if rows != IMAGE_HEIGHT as u32 || cols != IMAGE_WIDTH as u32 {
        return Err(ViewerError::FormatError);
    }
    let count: u32 = read_be_word(bytes, 4);
    let needed: u64 = IMAGES_HEADER_LEN as u64 + (count as u64) * (IMAGE_PIXELS as u64);
    if (n as u64) < needed {
        return Err(ViewerError::TruncationError);
    }
    let count_us: usize = count as usize;
    let mut imgs: Vec<ImageRecord> = Vec::new();
    let mut i: usize = 0;
    while i < count_us
        invariant
            count_us == images_count(bytes@),
            IMAGES_HEADER_LEN + count_us * IMAGE_PIXELS <= n,
            n == bytes@.len(),
            0 <= i <= count_us,
            imgs@.len() == i,
            forall|k: int| 0 <= k < i ==> (#[trigger] imgs@[k]).pixels@ == image_chunk(bytes@, k),
        decreases count_us - i,
    {
        let start: usize = IMAGES_HEADER_LEN + i * IMAGE_PIXELS;
        let mut px: Vec<u8> = Vec::new();
        let mut j: usize = 0;
        while j < IMAGE_PIXELS
            invariant
                start + IMAGE_PIXELS <= n,
                n == bytes@.len(),
                0 <= j <= IMAGE_PIXELS,
                px@ =~= bytes@.subrange(start as int, start + j),
            decreases IMAGE_PIXELS - j,
        {
            px.push(bytes[start + j]);
            j = j + 1;
        }
        imgs.push(ImageRecord { pixels: px });
        i = i + 1;
    }
    Ok(imgs)
}

/// Decodes a labels file: validates the header, then returns every byte
/// after it, one label per byte, unchanged and in file order.
pub fn decode_labels(bytes: &Vec<u8>) -> (r: Result<Vec<u8>, ViewerError>)
    ensures
        r is Ok <==> labels_valid(bytes@),
        !labels_magic_ok(bytes@) ==> r matches Err(ViewerError::FormatError),
        labels_magic_ok(bytes@) && bytes@.len() < LABELS_HEADER_LEN ==> r matches Err(
            ViewerError::TruncationError,
        ),
        match r {
            Ok(labels) => {
                &&& labels@ == bytes@.skip(LABELS_HEADER_LEN as int)
                &&& labels@.len() == bytes@.len() - LABELS_HEADER_LEN
            },
            Err(ViewerError::FormatError) => !labels_magic_ok(bytes@),
            Err(ViewerError::TruncationError) => labels_magic_ok(bytes@) && bytes@.len()
                < LABELS_HEADER_LEN,
            Err(_) => false,
        },
{
    let n: usize = bytes.len();
    if n < 4 || read_be_word(bytes, 0) != LABELS_MAGIC {
        return Err(ViewerError::FormatError);
    }
    if n < LABELS_HEADER_LEN {
        return Err(ViewerError::TruncationError);
    }
    let mut labels: Vec<u8> = Vec::new();
    let mut i: usize = LABELS_HEADER_LEN;
    while i < n
        invariant
            LABELS_HEADER_LEN <= i <= n,
            n == bytes@.len(),
            labels@ =~= bytes@.subrange(LABELS_HEADER_LEN as int, i as int),
        decreases n - i,
    {
        labels.push(bytes[i]);
        i = i + 1;
    }
    proof {
        assert(labels@ =~= bytes@.skip(LABELS_HEADER_LEN as int));
    }
    Ok(labels)
}

} // verus!
