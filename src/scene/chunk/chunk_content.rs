use vstd::prelude::*;

use crate::scene::chunk::archive::{
    archive_entries, archive_entry_count, entry_count, open_archive, read_entry, zip_contents,
    ChunkArchive,
};
use crate::scene::chunk::slice_image::{decode_rgba8, decoded_rgba8};

verus! {

#[verifier::external_type_specification]
#[verifier::external_body]
pub struct ExIoError(std::io::Error);

/// What each voxel of a chunk records.
pub const VOXEL_COMPONENTS: [&'static str; 1] = ["albedo"];

/// Number of bytes that one voxel takes in the albedo buffer (RGBA, 8 bits each).
pub const BYTES_PER_VOXEL: u64 = 4;

/// Extent of a voxel grid, in voxels along each axis.
#[derive(Clone, Copy, Debug, PartialEq, Eq, Structural)]
pub struct Dimensions {
    pub x: u32,
    pub y: u32,
    pub z: u32,
}

impl Dimensions {
    pub fn new(x: u32, y: u32, z: u32) -> (r: Self)
        ensures
            r == (Dimensions { x, y, z }),
    {
        Dimensions { x, y, z }
    }

    /// A grid is usable only when it holds at least one voxel along every axis.
    pub open spec fn is_valid(self) -> bool {
        self.x > 0 && self.y > 0 && self.z > 0
    }

    pub open spec fn voxel_count(self) -> int {
        self.x * self.y * self.z
    }

    /// Length of an albedo buffer that holds one RGBA texel per voxel.
    pub open spec fn byte_len(self) -> int {
        BYTES_PER_VOXEL * self.voxel_count()
    }

    /// Whether no side of the grid is longer than `limit`, the largest
    /// extent that a device accepts for a 3D texture.
    pub fn fits_within(&self, limit: u32) -> (r: bool)
        ensures
            r == (self.x <= limit && self.y <= limit && self.z <= limit),
    {
        self.x <= limit && self.y <= limit && self.z <= limit
    }
}

/// Why the content of a chunk could not be loaded.
#[derive(Debug)]
pub enum ChunkContentLoadingError {
    /// A dimension of the voxel grid is zero.
    InvalidDimensions,
    /// The chunk archive is malformed, misses a slice, or holds a slice that
    /// does not decode or does not match the first one.
    InvalidChunkFile,
    /// The chunk archive could not be read at all.
    FailedToReadChunkFile(std::io::Error),
}

/// The voxel colors of a chunk: the grid's extent and one RGBA texel per voxel,
/// row-major within each depth slice, slices concatenated along depth.
pub struct ChunkContent {
    pub dimensions: Dimensions,
    pub albedo: Vec<u8>,
}

impl ChunkContent {
    pub open spec fn wf(&self) -> bool {
        &&& self.dimensions.is_valid()
        &&& self.albedo@.len() == self.dimensions.byte_len()
    }

    /// Takes ownership of an albedo buffer laid out for `dimensions`.
    /// Fails exactly when a dimension is zero.
    pub fn from_raw_data(albedo: Vec<u8>, dimensions: Dimensions) -> (r: Result<
        Self,
        ChunkContentLoadingError,
    >)
        requires
            dimensions.is_valid() ==> albedo@.len() == dimensions.byte_len(),
        ensures
            r is Ok <==> dimensions.is_valid(),
            r matches Ok(c) ==> c.wf() && c.dimensions == dimensions && c.albedo@ == albedo@,
            r matches Err(e) ==> e is InvalidDimensions,
    {
        if dimensions.x == 0 || dimensions.y == 0 || dimensions.z == 0 {
            return Err(ChunkContentLoadingError::InvalidDimensions);
        }
        Ok(ChunkContent { dimensions, albedo })
    }
}

/// One decoded depth slice: an RGBA8 image, row-major.
pub struct RgbaSlice {
    pub width: u32,
    pub height: u32,
    pub pixels: Vec<u8>,
}

impl View for RgbaSlice {
    type V = (u32, u32, Seq<u8>);

    open spec fn view(&self) -> (u32, u32, Seq<u8>) {
        (self.width, self.height, self.pixels@)
    }
}

/// A slice holds exactly one RGBA texel per pixel.
pub open spec fn slice_is_complete(s: (u32, u32, Seq<u8>)) -> bool {
    s.2.len() == BYTES_PER_VOXEL * (s.0 * s.1)
}

/// Every slice is complete and has the width and height of the first one.
pub open spec fn slices_fit(slices: Seq<(u32, u32, Seq<u8>)>) -> bool {
    forall|i: int|
        0 <= i < slices.len() ==> {
            &&& (#[trigger] slices[i]).0 == slices[0].0
            &&& slices[i].1 == slices[0].1
            &&& slice_is_complete(slices[i])
        }
}

/// The pixels of all slices, concatenated in slice order.
pub open spec fn stacked_pixels(slices: Seq<(u32, u32, Seq<u8>)>) -> Seq<u8>
    decreases slices.len(),
{
    if slices.len() == 0 {
        Seq::empty()
    } else {
        stacked_pixels(slices.drop_last()) + slices.last().2
    }
}

/// What stacking decoded slices along depth yields: the first slice gives the
/// width and height, the number of slices gives the depth.
pub open spec fn stacked_content(slices: Seq<(u32, u32, Seq<u8>)>) -> Result<
    (Dimensions, Seq<u8>),
    ChunkContentLoadingError,
> {
    if slices.len() == 0 || slices.len() > u32::MAX || !slices_fit(slices) {
        Err(ChunkContentLoadingError::InvalidChunkFile)
    } else if slices[0].0 == 0 || slices[0].1 == 0 {
        Err(ChunkContentLoadingError::InvalidDimensions)
    } else {
        Ok(
            (
                Dimensions { x: slices[0].0, y: slices[0].1, z: slices.len() as u32 },
                stacked_pixels(slices),
            ),
        )
    }
}

/// `r` is the loading outcome that `m` describes.
pub open spec fn content_is(
    r: Result<ChunkContent, ChunkContentLoadingError>,
    m: Result<(Dimensions, Seq<u8>), ChunkContentLoadingError>,
) -> bool {
    match r {
        Ok(c) => m == Ok::<(Dimensions, Seq<u8>), ChunkContentLoadingError>(
            (c.dimensions, c.albedo@),
        ),
        Err(e) => m == Err::<(Dimensions, Seq<u8>), ChunkContentLoadingError>(e),
    }
}

pub open spec fn slice_views(slices: Seq<RgbaSlice>) -> Seq<(u32, u32, Seq<u8>)> {
    slices.map_values(|s: RgbaSlice| s@)
}

proof fn lemma_stacked_len(slices: Seq<(u32, u32, Seq<u8>)>, w: u32, h: u32)
    requires
        forall|i: int|
            0 <= i < slices.len() ==> (#[trigger] slices[i]).2.len() == BYTES_PER_VOXEL * (w
                * h),
    ensures
        stacked_pixels(slices).len() == BYTES_PER_VOXEL * (w * h) * slices.len(),
    decreases slices.len(),
{
    if slices.len() > 0 {
        let rest = slices.drop_last();
        assert forall|i: int| 0 <= i < rest.len() implies (#[trigger] rest[i]).2.len()
            == BYTES_PER_VOXEL * (w * h) by {
            assert(rest[i] == slices[i]);
        }
        lemma_stacked_len(rest, w, h);
        assert(BYTES_PER_VOXEL * (w * h) * slices.len() == BYTES_PER_VOXEL * (w * h) * rest.len()
            + BYTES_PER_VOXEL * (w * h)) by (nonlinear_arith)
            requires
                slices.len() == rest.len() + 1,
        ;
    }
}

/// Whether `s` holds exactly one RGBA texel per pixel.
fn is_complete(s: &RgbaSlice) -> (r: bool)
    ensures
        r == slice_is_complete(s@),
{
    let w = s.width as u64;
    let h = s.height as u64;
    assert(w * h <= u64::MAX) by (nonlinear_arith)
        requires
            w <= u32::MAX,
            h <= u32::MAX,
    ;
    let texels: u64 = w * h;
    let len: u64 = s.pixels.len() as u64;
    len % BYTES_PER_VOXEL == 0 && len / BYTES_PER_VOXEL == texels
}

impl ChunkContent {
    /// Stacks decoded depth slices into a voxel grid: slice `i` becomes depth
    /// layer `i`. Fails with `InvalidChunkFile` when there is no slice, or a
    /// slice is incomplete or differs in width or height from the first one,
    /// and with `InvalidDimensions` when the slices are empty images.
    pub fn from_slices(slices: Vec<RgbaSlice>) -> (r: Result<Self, ChunkContentLoadingError>)
        ensures
            content_is(r, stacked_content(slice_views(slices@))),
            r matches Ok(c) ==> c.wf(),
    {
        let ghost views = slice_views(slices@);
        let n = slices.len();
        if n == 0 || n > u32::MAX as usize {
            return Err(ChunkContentLoadingError::InvalidChunkFile);
        }
        let width = slices[0].width;
        let height = slices[0].height;
        let mut i: usize = 0;
        while i < n
            invariant
                n == slices@.len(),
                views == slice_views(slices@),
                width == views[0].0,
                height == views[0].1,
                0 <= i <= n,
                forall|j: int|
                    0 <= j < i ==> {
                        &&& (#[trigger] views[j]).0 == width
                        &&& views[j].1 == height
                        &&& slice_is_complete(views[j])
                    },
            decreases n - i,
        {
            let s = &slices[i];
            if s.width != width || s.height != height || !is_complete(s) {
                assert(views[i as int] == s@);
                return Err(ChunkContentLoadingError::InvalidChunkFile);
            }
            i = i + 1;
        }
        assert(slices_fit(views));
        if width == 0 || height == 0 {
            return Err(ChunkContentLoadingError::InvalidDimensions);
        }
        let dimensions = Dimensions { x: width, y: height, z: n as u32 };
        let mut rest = slices;
        let mut albedo: Vec<u8> = Vec::new();
        let mut k: usize = 0;
        while k < n
            invariant
                n == views.len(),
                0 <= k <= n,
                rest@.len() == n - k,
                forall|j: int| 0 <= j < n - k ==> (#[trigger] rest@[j])@ == views[j + k],
                albedo@ == stacked_pixels(views.take(k as int)),
            decreases n - k,
        {
            let mut s = rest.remove(0);
            assert(s@ == views[k as int]);
            albedo.append(&mut s.pixels);
            assert(views.take(k + 1).drop_last() == views.take(k as int));
            k = k + 1;
        }
        assert(views.take(n as int) == views);
        proof {
            lemma_stacked_len(views, width, height);
            assert(dimensions.byte_len() == BYTES_PER_VOXEL * (width * height) * n) by (
            nonlinear_arith)
                requires
                    dimensions.x == width,
                    dimensions.y == height,
                    dimensions.z == n,
            ;
        }
        ChunkContent::from_raw_data(albedo, dimensions)
    }
}

/// The character of a decimal digit.
pub open spec fn digit_char(d: int) -> char {
    seq!['0', '1', '2', '3', '4', '5', '6', '7', '8', '9'][d]
}

/// The decimal notation of `n`, without leading zeros.
pub open spec fn decimal(n: nat) -> Seq<char>
    decreases n,
{
    if n < 10 {
        seq![digit_char(n as int)]
    } else {
        decimal(n / 10).push(digit_char((n % 10) as int))
    }
}

fn digit(d: usize) -> (c: char)
    requires
        d < 10,
    ensures
        c == digit_char(d as int),
{
    match d {
        0 => '0',
        1 => '1',
        2 => '2',
        3 => '3',
        4 => '4',
        5 => '5',
        6 => '6',
        7 => '7',
        8 => '8',
        _ => '9',
    }
}

fn push_decimal(n: usize, out: &mut Vec<char>)
    ensures
        final(out)@ == old(out)@ + decimal(n as nat),
    decreases n,
{
    if n >= 10 {
        push_decimal(n / 10, out);
    }
    out.push(digit(n % 10));
    assert(decimal(n as nat) == if n < 10 {
        seq![digit_char(n as int)]
    } else {
        decimal((n / 10) as nat).push(digit_char((n % 10) as int))
    });
}

/// The name of the archive entry that holds depth slice `index`: the index
/// in decimal ("0", "1", ...).
pub fn slice_name(index: usize) -> (r: Vec<char>)
    ensures
        r@ == decimal(index as nat),
{
    let mut name: Vec<char> = Vec::new();
    push_decimal(index, &mut name);
    assert(name@ == Seq::<char>::empty() + decimal(index as nat));
    name
}

/// The decoded slice stored at index `i` of an archive, if its entry exists
/// and decodes to an image with one texel per pixel (as every image that
/// `decode_rgba8` returns has).
pub open spec fn slice_entry(entries: Map<Seq<char>, Seq<u8>>, i: int) -> Option<
    (u32, u32, Seq<u8>),
> {
    if entries.contains_key(decimal(i as nat)) {
        match decoded_rgba8(entries[decimal(i as nat)]) {
            Some(s) => if slice_is_complete(s) {
                Some(s)
            } else {
                None
            },
            None => None,
        }
    } else {
        None
    }
}

/// What loading the bytes of a chunk archive yields: nothing but
/// `InvalidChunkFile` when they hold no zip archive, else the archive's content.
pub open spec fn chunk_file_content(bytes: Seq<u8>) -> Result<
    (Dimensions, Seq<u8>),
    ChunkContentLoadingError,
> {
    match zip_contents(bytes) {
        Some(z) => archive_content(z.0, z.1),
        None => Err(ChunkContentLoadingError::InvalidChunkFile),
    }
}

/// What loading an archive of `count` entries yields: every slice "0" up to
/// the count must be present and decode, and the decoded slices are stacked.
pub open spec fn archive_content(entries: Map<Seq<char>, Seq<u8>>, count: nat) -> Result<
    (Dimensions, Seq<u8>),
    ChunkContentLoadingError,
> {
    if exists|i: int| 0 <= i < count && #[trigger] slice_entry(entries, i) is None {
        Err(ChunkContentLoadingError::InvalidChunkFile)
    } else {
        stacked_content(Seq::new(count, |i: int| slice_entry(entries, i)->Some_0))
    }
}

impl ChunkContent {
    /// Loads the slices of an open archive: entry "i" holds depth slice `i`
    /// as an encoded image, and the entry count is the depth.
    pub fn from_archive(archive: &mut ChunkArchive) -> (r: Result<Self, ChunkContentLoadingError>)
        ensures
            content_is(
                r,
                archive_content(archive_entries(*old(archive)), archive_entry_count(*old(archive))),
            ),
            r matches Ok(c) ==> c.wf(),
    {
        let ghost entries = archive_entries(*archive);
        let ghost want = Seq::new(
            archive_entry_count(*archive),
            |i: int| slice_entry(entries, i)->Some_0,
        );
        let count = entry_count(archive);
        if count > u32::MAX as usize {
            assert(archive_content(entries, count as nat) matches Err(
                ChunkContentLoadingError::InvalidChunkFile,
            ));
            return Err(ChunkContentLoadingError::InvalidChunkFile);
        }
        let mut slices: Vec<RgbaSlice> = Vec::new();
        let mut i: usize = 0;
        while i < count
            invariant
                entries == archive_entries(*archive),
                entries == archive_entries(*old(archive)),
                count == archive_entry_count(*archive),
                count == archive_entry_count(*old(archive)),
                want.len() == count,
                want == Seq::new(count as nat, |i: int| slice_entry(entries, i)->Some_0),
                0 <= i <= count,
                slices@.len() == i,
                forall|j: int|
                    0 <= j < i ==> (#[trigger] slice_entry(entries, j)) == Some(slices@[j]@),
            decreases count - i,
        {
            let name = slice_name(i);
            let bytes = match read_entry(archive, &name) {
                Ok(bytes) => bytes,
                Err(_) => {
                    assert(slice_entry(entries, i as int) is None);
                    return Err(ChunkContentLoadingError::InvalidChunkFile);
                },
            };
            let slice = match decode_rgba8(bytes.as_slice()) {
                Ok(slice) => slice,
                Err(_) => {
                    assert(slice_entry(entries, i as int) is None);
                    return Err(ChunkContentLoadingError::InvalidChunkFile);
                },
            };
            slices.push(slice);
            i = i + 1;
        }
        assert(slice_views(slices@) =~= want);
        Self::from_slices(slices)
    }

    /// Loads chunk content from the bytes of a chunk archive. Fails with
    /// `InvalidChunkFile` when the bytes are no zip archive, and otherwise as
    /// `from_archive` does.
    pub fn from_chunk_file(file_bytes: Vec<u8>) -> (r: Result<Self, ChunkContentLoadingError>)
        ensures
            content_is(r, chunk_file_content(file_bytes@)),
            r matches Ok(c) ==> c.wf(),
    {
        let mut archive = match open_archive(file_bytes) {
            Ok(archive) => archive,
            Err(_) => return Err(ChunkContentLoadingError::InvalidChunkFile),
        };
        Self::from_archive(&mut archive)
    }
}

/// An archive whose entries "0" up to `count` all decode to images of
/// one width `w` and height `h`, both positive, loads as a grid of `w` by `h`
/// by `count` voxels.
pub proof fn lemma_matching_slices_give_dimensions(
    entries: Map<Seq<char>, Seq<u8>>,
    count: nat,
    w: u32,
    h: u32,
)
    requires
        0 < w,
        0 < h,
        0 < count <= u32::MAX,
        forall|i: int|
            0 <= i < count ==> ((#[trigger] slice_entry(entries, i)) matches Some(s) && s.0 == w
                && s.1 == h),
    ensures
        archive_content(entries, count) is Ok,
        archive_content(entries, count)->Ok_0.0 == (Dimensions { x: w, y: h, z: count as u32 }),
{
    let slices = Seq::new(count, |i: int| slice_entry(entries, i)->Some_0);
    assert(slices[0] == slice_entry(entries, 0)->Some_0);
    assert forall|i: int| 0 <= i < slices.len() implies {
        &&& (#[trigger] slices[i]).0 == slices[0].0
        &&& slices[i].1 == slices[0].1
        &&& slice_is_complete(slices[i])
    } by {
        assert(slices[i] == slice_entry(entries, i)->Some_0);
    }
}

/// An archive that lacks the entry of one of its slices does not load.
pub proof fn lemma_missing_slice_is_rejected(
    entries: Map<Seq<char>, Seq<u8>>,
    count: nat,
    k: nat,
)
    requires
        k < count,
        !entries.contains_key(decimal(k)),
    ensures
        archive_content(entries, count) == Err::<
            (Dimensions, Seq<u8>),
            ChunkContentLoadingError,
        >(ChunkContentLoadingError::InvalidChunkFile),
{
    assert(slice_entry(entries, k as int) is None);
}

/// An archive with a slice whose width or height differs from those of slice
/// "0" does not load.
pub proof fn lemma_mismatched_slice_is_rejected(
    entries: Map<Seq<char>, Seq<u8>>,
    count: nat,
    k: nat,
)
    requires
        k < count,
        slice_entry(entries, 0) is Some,
        slice_entry(entries, k as int) is Some,
        slice_entry(entries, k as int)->Some_0.0 != slice_entry(entries, 0)->Some_0.0
            || slice_entry(entries, k as int)->Some_0.1 != slice_entry(entries, 0)->Some_0.1,
    ensures
        archive_content(entries, count) == Err::<
            (Dimensions, Seq<u8>),
            ChunkContentLoadingError,
        >(ChunkContentLoadingError::InvalidChunkFile),
{
    if !exists|i: int| 0 <= i < count && #[trigger] slice_entry(entries, i) is None {
        let slices = Seq::new(count, |i: int| slice_entry(entries, i)->Some_0);
        assert(slices[k as int] == slice_entry(entries, k as int)->Some_0);
        assert(slices[0] == slice_entry(entries, 0)->Some_0);
        assert(!slices_fit(slices));
    }
}

} // verus!
