//! What a video decoder hands on: the pixel format, the frame, the order in
//! which decoder backends are tried, and the packing of a backend's planes
//! into one contiguous buffer.
use crate::network::NetworkError;
use vstd::prelude::*;

verus! {

/// Pixel format for decoded frames
#[derive(Debug, Clone, Copy, PartialEq, Eq, Structural)]
pub enum PixelFormat {
    YUV420P,
    NV12,
    RGBA,
}

/// Bytes per pixel of the first plane of a format.
pub open spec fn first_plane_bytes_per_pixel(format: PixelFormat) -> nat {
    match format {
        PixelFormat::YUV420P => 1,
        PixelFormat::NV12 => 1,
        PixelFormat::RGBA => 4,
    }
}

impl PixelFormat {
    /// Bytes per pixel in the first plane: 4 for packed RGBA, 1 for the
    /// luma plane of the planar formats.
    pub fn bytes_per_pixel(&self) -> (n: usize)
        ensures
            n == first_plane_bytes_per_pixel(*self),
    {
        match self {
            PixelFormat::YUV420P => 1,
            PixelFormat::NV12 => 1,
            PixelFormat::RGBA => 4,
        }
    }
}

/// Decoded video frame with metadata
#[derive(Debug)]
pub struct DecodedFrame {
    pub pts: i64,
    pub data: Vec<u8>,
    pub width: u32,
    pub height: u32,
    pub format: PixelFormat,
}

impl DecodedFrame {
    /// Get stride (bytes per row of the first plane) for the frame
    pub fn stride(&self) -> (n: usize)
        requires
            self.width * first_plane_bytes_per_pixel(self.format) <= usize::MAX,
        ensures
            n == self.width * first_plane_bytes_per_pixel(self.format),
    {
        self.width as usize * self.format.bytes_per_pixel()
    }
}

/// Hardware decoders that a session may ask for.
#[derive(Debug, Clone, Copy, PartialEq, Eq, Structural)]
pub enum HwDecoder {
    /// Try every hardware backend, then software.
    Auto,
    Nvdec,
    Qsv,
    Vaapi,
    /// Software only.
    Off,
}

/// A decoder backend.
#[derive(Debug, Clone, Copy, PartialEq, Eq, Structural)]
pub enum Backend {
    Nvdec,
    Qsv,
    Vaapi,
    Software,
}

/// The backends to try for a preference, in order: the preferred hardware
/// backend, or all of them for `Auto`, and software last.
pub open spec fn backend_order(hint: HwDecoder) -> Seq<Backend> {
    match hint {
        HwDecoder::Auto => seq![Backend::Nvdec, Backend::Qsv, Backend::Vaapi, Backend::Software],
        HwDecoder::Nvdec => seq![Backend::Nvdec, Backend::Software],
        HwDecoder::Qsv => seq![Backend::Qsv, Backend::Software],
        HwDecoder::Vaapi => seq![Backend::Vaapi, Backend::Software],
        HwDecoder::Off => seq![Backend::Software],
    }
}

/// The backends to try for a preference, in order.
pub fn backends_to_try(hint: HwDecoder) -> (order: Vec<Backend>)
    ensures
        order@ == backend_order(hint),
{
    let mut order: Vec<Backend> = Vec::new();
    match hint {
        HwDecoder::Auto => {
            order.push(Backend::Nvdec);
            order.push(Backend::Qsv);
            order.push(Backend::Vaapi);
        },
        HwDecoder::Nvdec => {
            order.push(Backend::Nvdec);
        },
        HwDecoder::Qsv => {
            order.push(Backend::Qsv);
        },
        HwDecoder::Vaapi => {
            order.push(Backend::Vaapi);
        },
        HwDecoder::Off => {},
    }
    order.push(Backend::Software);
    assert(order@ =~= backend_order(hint));
    order
}

/// One plane of a decoded picture as the backend holds it: rows of
/// `stride` bytes each.
#[derive(Debug)]
pub struct Plane {
    pub data: Vec<u8>,
    pub stride: usize,
}

/// A plane as a mathematical value.
pub struct PlaneView {
    pub data: Seq<u8>,
    pub stride: nat,
}

impl View for Plane {
    type V = PlaneView;

    open spec fn view(&self) -> PlaneView {
        PlaneView { data: self.data@, stride: self.stride as nat }
    }
}

/// The values of some planes.
pub open spec fn plane_views(planes: Seq<Plane>) -> Seq<PlaneView> {
    Seq::new(planes.len(), |i: int| planes[i]@)
}

/// The first `row_bytes` bytes of each of the first `rows` rows of a plane,
/// one row after the other.
pub open spec fn cropped(p: PlaneView, row_bytes: nat, rows: nat) -> Seq<u8>
    decreases rows,
{
    if rows == 0 {
        Seq::empty()
    } else {
        cropped(p, row_bytes, (rows - 1) as nat) + p.data.subrange(
            (rows - 1) * p.stride,
            (rows - 1) * p.stride + row_bytes,
        )
    }
}

/// Whether a plane holds the rows that are asked of it.
pub open spec fn plane_holds(p: PlaneView, row_bytes: nat, rows: nat) -> bool {
    rows == 0 || (rows - 1) * p.stride + row_bytes <= p.data.len()
}

/// The planes of a format in their canonical order, each with the bytes
/// per row and the number of rows that a picture of the given size has.
pub open spec fn plane_layout(format: PixelFormat, width: u32, height: u32) -> Seq<(nat, nat)> {
    match format {
        PixelFormat::RGBA => seq![((width * 4) as nat, height as nat)],
        PixelFormat::YUV420P => seq![
            (width as nat, height as nat),
            ((width / 2) as nat, (height / 2) as nat),
            ((width / 2) as nat, (height / 2) as nat),
        ],
        PixelFormat::NV12 => seq![(width as nat, height as nat), (width as nat, (height / 2) as nat)],
    }
}

/// Whether the backend's planes hold a whole picture.
pub open spec fn planes_hold(layout: Seq<(nat, nat)>, planes: Seq<PlaneView>) -> bool {
    &&& planes.len() >= layout.len()
    &&& forall|i: int|
        0 <= i < layout.len() ==> plane_holds(#[trigger] planes[i], layout[i].0, layout[i].1)
}

/// The planes of the layout, cropped and concatenated: the first `upto` of them.
pub open spec fn packed(layout: Seq<(nat, nat)>, planes: Seq<PlaneView>, upto: nat) -> Seq<u8>
    decreases upto,
{
    if upto == 0 {
        Seq::empty()
    } else {
        packed(layout, planes, (upto - 1) as nat) + cropped(
            planes[upto - 1],
            layout[upto - 1].0,
            layout[upto - 1].1,
        )
    }
}

/// Appends the cropped rows of a plane to `out`, or reports that the
/// plane is too small for them and leaves `out` alone.
fn append_cropped(out: &mut Vec<u8>, plane: &Plane, row_bytes: usize, rows: usize) -> (ok: bool)
    ensures
        ok == plane_holds(plane@, row_bytes as nat, rows as nat),
        ok ==> final(out)@ == old(out)@ + cropped(plane@, row_bytes as nat, rows as nat),
        !ok ==> final(out)@ == old(out)@,
{
    if rows == 0 {
        assert(out@ + Seq::<u8>::empty() =~= out@);
        return true;
    }
    let len = plane.data.len();
    if row_bytes > len {
        return false;
    }
    let room = len - row_bytes;
    if plane.stride > 0 {
        let q = room / plane.stride;
        if rows - 1 > q {
            assert((rows - 1) * plane.stride > room) by (nonlinear_arith)
                requires
                    rows - 1 >= q + 1,
                    q == room / plane.stride,
                    plane.stride > 0,
                    room >= 0,
            ;
            return false;
        }
        assert((rows - 1) * plane.stride <= room) by (nonlinear_arith)
            requires
                0 <= rows - 1 <= q,
                q == room / plane.stride,
                plane.stride > 0,
                room >= 0,
        ;
    } else {
        assert((rows - 1) * plane.stride == 0) by (nonlinear_arith)
            requires
                plane.stride == 0,
        ;
    }
    let ghost start = out@;
    let mut y: usize = 0;
    while y < rows
        invariant
            0 <= y <= rows,
            rows > 0,
            len == plane.data@.len(),
            (rows - 1) * plane.stride + row_bytes <= len,
            out@ =~= start + cropped(plane@, row_bytes as nat, y as nat),
        decreases rows - y,
    {
        assert(y * plane.stride <= (rows - 1) * plane.stride) by (nonlinear_arith)
            requires
                0 <= y <= rows - 1,
                0 <= plane.stride,
        ;
        let from = y * plane.stride;
        let row = vstd::slice::slice_subrange(plane.data.as_slice(), from, from + row_bytes);
        out.extend_from_slice(row);
        y = y + 1;
    }
    true
}

/// Packs the planes of a decoded picture into one contiguous buffer: the
/// planes in their canonical order, each row cropped to the picture's
/// width. Fails with a decode error where a plane is missing or too small.
pub fn pack_planes(format: PixelFormat, width: u32, height: u32, planes: &Vec<Plane>) -> (r: Result<
    Vec<u8>,
    NetworkError,
>)
    requires
        width * 4 <= usize::MAX,
    ensures
        match r {
            Ok(data) => planes_hold(
                plane_layout(format, width, height),
                plane_views(planes@),
            ) && data@ == packed(
                plane_layout(format, width, height),
                plane_views(planes@),
                plane_layout(format, width, height).len(),
            ),
            Err(e) => e is Decode && !planes_hold(
                plane_layout(format, width, height),
                plane_views(planes@),
            ),
        },
{
    let w = width as usize;
    let h = height as usize;
    let mut layout: Vec<(usize, usize)> = Vec::new();
    match format {
        PixelFormat::RGBA => {
            layout.push((w * 4, h));
        },
        PixelFormat::YUV420P => {
            layout.push((w, h));
            layout.push((w / 2, h / 2));
            layout.push((w / 2, h / 2));
        },
        PixelFormat::NV12 => {
            layout.push((w, h));
            layout.push((w, h / 2));
        },
    }
    let ghost want = plane_layout(format, width, height);
    let ghost views = plane_views(planes@);
    assert(layout@.len() == want.len());
    assert(forall|i: int|
        0 <= i < want.len() ==> (#[trigger] layout@[i]).0 == want[i].0 && layout@[i].1
            == want[i].1);
    if planes.len() < layout.len() {
        return Err(NetworkError::Decode("missing plane".to_owned()));
    }
    let mut out: Vec<u8> = Vec::new();
    let mut i: usize = 0;
    while i < layout.len()
        invariant
            0 <= i <= layout@.len(),
            layout@.len() == want.len(),
            layout@.len() <= planes@.len(),
            views == plane_views(planes@),
            want == plane_layout(format, width, height),
            forall|j: int|
                0 <= j < want.len() ==> (#[trigger] layout@[j]).0 == want[j].0 && layout@[j].1
                    == want[j].1,
            forall|j: int| 0 <= j < i ==> plane_holds(#[trigger] views[j], want[j].0, want[j].1),
            out@ == packed(want, views, i as nat),
        decreases layout@.len() - i,
    {
        let (row_bytes, rows) = layout[i];
        assert(views[i as int] == planes@[i as int]@);
        if !append_cropped(&mut out, &planes[i], row_bytes, rows) {
            assert(!plane_holds(views[i as int], want[i as int].0, want[i as int].1));
            return Err(NetworkError::Decode("plane too small".to_owned()));
        }
        i = i + 1;
    }
    Ok(out)
}

} // verus!
