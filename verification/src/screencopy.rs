//! Captured frames: shared buffers, their pixels and the damage that is reported.

use crate::arith;
use crate::pixels::RgbImage;
use crate::text::same;
use vstd::prelude::*;

verus! {

/// A rectangle of an output that changed.
#[derive(Debug, Clone, Copy, PartialEq, Eq, Structural)]
pub struct DamageRect {
    pub x: u32,
    pub y: u32,
    pub width: u32,
    pub height: u32,
}

/// How pixels lie in a shared buffer. Those formats that cannot be read are known by their number.
#[derive(Debug, Clone, Copy, PartialEq, Eq, Structural)]
pub enum ShmFormat {
    Argb8888,
    Xrgb8888,
    Abgr8888,
    Xbgr8888,
    Other(u32),
}

/// How far the channels of a pixel lie from its first byte, if the format can be read. Pixels are
/// little-endian words.
pub open spec fn channel_offset(format: ShmFormat, channel: int) -> Option<int> {
    match format {
        ShmFormat::Xrgb8888 | ShmFormat::Argb8888 => Some(2 - channel),
        ShmFormat::Xbgr8888 | ShmFormat::Abgr8888 => Some(channel),
        ShmFormat::Other(_) => None,
    }
}

/// Why a buffer cannot be read.
#[derive(Debug, Clone, Copy, PartialEq, Eq, Structural)]
pub enum PixelError {
    /// The format is not known.
    Format,
    /// The size of the buffer does not fit 32 bits.
    Overflow,
    /// The buffer is shorter than its size, or its rows are shorter than its width.
    Buffer,
}

impl PixelError {
    /// What is said of a buffer. `format` is its format in words.
    pub open spec fn words(self, format: Seq<char>) -> Seq<char> {
        match self {
            PixelError::Format => "unsupported screencopy SHM format "@ + format,
            PixelError::Overflow => "screencopy dimensions overflow"@,
            PixelError::Buffer => "invalid screencopy pixel buffer"@,
        }
    }

    /// What is said of a buffer.
    pub fn message(&self, format: &str) -> (words: String)
        ensures
            words@ == self.words(format@),
    {
        match self {
            PixelError::Format => {
                let mut words = "unsupported screencopy SHM format ".to_owned();
                words.append(format);
                words
            },
            PixelError::Overflow => "screencopy dimensions overflow".to_owned(),
            PixelError::Buffer => "invalid screencopy pixel buffer".to_owned(),
        }
    }
}

/// What keeps a buffer from being read.
pub open spec fn pixel_fault(
    len: nat,
    width: u32,
    height: u32,
    stride: u32,
    format: ShmFormat,
) -> Option<PixelError> {
    if format is Other {
        Some(PixelError::Format)
    } else if stride * height > u32::MAX {
        Some(PixelError::Overflow)
    } else if len < stride * height || stride < arith::min_of(width * 4, u32::MAX as int) {
        Some(PixelError::Buffer)
    } else {
        None
    }
}

/// The row of the buffer that becomes row `y` of the image.
pub open spec fn source_row(y: int, height: int, y_invert: bool) -> int {
    if y_invert {
        height - 1 - y
    } else {
        y
    }
}

/// Whether an image shows the pixels of a buffer.
pub open spec fn shows_buffer(
    image: RgbImage,
    bytes: Seq<u8>,
    width: u32,
    height: u32,
    stride: u32,
    format: ShmFormat,
    y_invert: bool,
) -> bool {
    &&& image.wf()
    &&& image.width == width
    &&& image.height == height
    &&& forall|x: int, y: int, c: int|
        0 <= x < width && 0 <= y < height && 0 <= c < 3 ==> #[trigger] image@.channel(x, y, c)
            == bytes[source_row(y, height as int, y_invert) * stride + x * 4 + channel_offset(
            format,
            c,
        )->0]
}

proof fn lemma_source(source: int, stride: int, x: int, width: int, height: int)
    requires
        0 <= source < height,
        0 <= x < width,
        width * 4 <= stride,
    ensures
        0 <= source * stride,
        source * stride + x * 4 + 4 <= stride * height,
{
    assert(0 <= source * stride && source * stride + stride <= stride * height)
        by (nonlinear_arith)
        requires
            0 <= source < height,
            0 <= stride,
    ;
}

/// Reads the pixels of a shared buffer.
pub fn pixels_to_rgb(
    bytes: &[u8],
    width: u32,
    height: u32,
    stride: u32,
    format: ShmFormat,
    y_invert: bool,
) -> (image: Result<RgbImage, PixelError>)
    requires
        // Rows of so many pixels could not be addressed.
        width * 4 <= u32::MAX || height == 0 || stride < u32::MAX || bytes@.len() < u32::MAX,
    ensures
        match pixel_fault(bytes@.len(), width, height, stride, format) {
            Some(fault) => image == Err::<RgbImage, PixelError>(fault),
            None => image matches Ok(image) && shows_buffer(
                image,
                bytes@,
                width,
                height,
                stride,
                format,
                y_invert,
            ),
        },
{
    let bgr = match format {
        ShmFormat::Xrgb8888 | ShmFormat::Argb8888 => false,
        ShmFormat::Xbgr8888 | ShmFormat::Abgr8888 => true,
        ShmFormat::Other(_) => return Err(PixelError::Format),
    };
    proof {
        arith::lemma_product(stride, height);
    }
    let required: u64 = stride as u64 * height as u64;
    if required > u32::MAX as u64 {
        return Err(PixelError::Overflow);
    }
    let len: usize = bytes.len();
    let row_bytes: u64 = width as u64 * 4;
    let least: u64 = if row_bytes > u32::MAX as u64 {
        u32::MAX as u64
    } else {
        row_bytes
    };
    if (len as u64) < required || (stride as u64) < least {
        return Err(PixelError::Buffer);
    }
    proof {
        if height > 0 && width * 4 > u32::MAX {
            assert(stride == u32::MAX);
            assert(stride * height >= stride) by (nonlinear_arith)
                requires
                    height >= 1,
                    stride >= 0,
            ;
        }
    }
    let mut rgb: Vec<u8> = Vec::new();
    let mut y: u32 = 0;
    assert(0 * width * 3 == 0) by (nonlinear_arith);
    while y < height
        invariant
            len == bytes@.len(),
            required == stride * height,
            required <= len,
            height > 0 ==> width * 4 <= stride,
            bgr == (format is Xbgr8888 || format is Abgr8888),
            !(format is Other),
            y <= height,
            rgb@.len() == y * width * 3,
            forall|px: int, py: int, c: int|
                0 <= px < width && 0 <= py < y && 0 <= c < 3 ==> #[trigger] rgb@[(py * width + px)
                    * 3 + c] == bytes@[source_row(py, height as int, y_invert) * stride + px * 4
                    + channel_offset(format, c)->0],
        decreases height - y,
    {
        let source_y: u32 = if y_invert {
            height - 1 - y
        } else {
            y
        };
        let ghost before = rgb@;
        let mut x: u32 = 0;
        assert(0 <= y * width) by (nonlinear_arith)
            requires
                0 <= y,
                0 <= width,
        ;
        while x < width
            invariant
                len == bytes@.len(),
                required == stride * height,
                required <= len,
                width * 4 <= stride,
                bgr == (format is Xbgr8888 || format is Abgr8888),
                !(format is Other),
                y < height,
                source_y < height,
                source_y == source_row(y as int, height as int, y_invert),
                x <= width,
                0 <= y * width,
                before.len() == y * width * 3,
                rgb@.len() == (y * width + x) * 3,
                forall|i: int| 0 <= i < before.len() ==> rgb@[i] == before[i],
                forall|px: int, c: int|
                    0 <= px < x && 0 <= c < 3 ==> #[trigger] rgb@[(y * width + px) * 3 + c]
                        == bytes@[source_y * stride + px * 4 + channel_offset(format, c)->0],
            decreases width - x,
        {
            proof {
                lemma_source(
                    source_y as int,
                    stride as int,
                    x as int,
                    width as int,
                    height as int,
                );
            }
            assert(source_y * stride + x * 4 + 4 <= len);
            let at: usize = (source_y as u64 * stride as u64 + x as u64 * 4) as usize;
            let (red, green, blue) = if bgr {
                (bytes[at], bytes[at + 1], bytes[at + 2])
            } else {
                (bytes[at + 2], bytes[at + 1], bytes[at])
            };
            rgb.push(red);
            rgb.push(green);
            rgb.push(blue);
            x = x + 1;
        }
        proof {
            assert((y + 1) * width * 3 == (y * width + width) * 3) by (nonlinear_arith);
            assert forall|px: int, py: int, c: int|
                0 <= px < width && 0 <= py < y + 1 && 0 <= c < 3 implies #[trigger] rgb@[(py * width
                + px) * 3 + c] == bytes@[source_row(py, height as int, y_invert) * stride + px * 4
                + channel_offset(format, c)->0] by {
                if py < y {
                    assert(0 <= py * width && py * width + width <= y * width) by (nonlinear_arith)
                        requires
                            0 <= py < y,
                            0 <= width,
                    ;
                    assert(rgb@[(py * width + px) * 3 + c] == before[(py * width + px) * 3 + c]);
                } else {
                    assert(rgb@[(y * width + px) * 3 + c] == bytes@[source_y * stride + px * 4
                        + channel_offset(format, c)->0]);
                }
            }
        }
        y = y + 1;
    }
    assert(height * width * 3 == width * height * 3) by (nonlinear_arith);
    let image = RgbImage { width, height, data: rgb };
    proof {
        assert forall|x: int, y: int, c: int|
            0 <= x < width && 0 <= y < height && 0 <= c < 3 implies #[trigger] image@.channel(
            x,
            y,
            c,
        ) == bytes@[source_row(y, height as int, y_invert) * stride + x * 4 + channel_offset(
            format,
            c,
        )->0] by {
            assert(rgb@[(y * width + x) * 3 + c] == image@.channel(x, y, c));
        }
    }
    Ok(image)
}

/// What the compositor asks a buffer to be.
#[derive(Debug, Clone, Copy, PartialEq, Eq, Structural)]
pub struct BufferShape {
    pub width: u32,
    pub height: u32,
    pub stride: u32,
    pub format: ShmFormat,
}

/// Why a buffer cannot be made.
#[derive(Debug, Clone, Copy, PartialEq, Eq, Structural)]
pub enum BufferError {
    SizeOverflow,
    SizeTooLarge,
    WidthTooLarge,
    HeightTooLarge,
    StrideTooLarge,
}

impl BufferError {
    /// The error in words.
    pub fn message(&self) -> (message: &'static str)
        ensures
            message@ == match *self {
                BufferError::SizeOverflow => "screencopy buffer size overflow"@,
                BufferError::SizeTooLarge => "screencopy buffer is too large for wl_shm"@,
                BufferError::WidthTooLarge => "screencopy width is too large"@,
                BufferError::HeightTooLarge => "screencopy height is too large"@,
                BufferError::StrideTooLarge => "screencopy stride is too large"@,
            },
    {
        match self {
            BufferError::SizeOverflow => "screencopy buffer size overflow",
            BufferError::SizeTooLarge => "screencopy buffer is too large for wl_shm",
            BufferError::WidthTooLarge => "screencopy width is too large",
            BufferError::HeightTooLarge => "screencopy height is too large",
            BufferError::StrideTooLarge => "screencopy stride is too large",
        }
    }
}

/// What to do for a buffer of a shape. Unless it is kept, the old buffer goes first.
#[derive(Debug, Clone, Copy, PartialEq, Eq, Structural)]
pub enum BufferPlan {
    Keep,
    /// Make one: its size in bytes, width, height and stride.
    Create(i32, i32, i32, i32),
    Refuse(BufferError),
}

/// What to do for a buffer of a shape.
pub open spec fn buffer_plan(current: Option<BufferShape>, wanted: BufferShape) -> BufferPlan {
    let size = wanted.stride * wanted.height;
    if current == Some(wanted) {
        BufferPlan::Keep
    } else if size > u32::MAX {
        BufferPlan::Refuse(BufferError::SizeOverflow)
    } else if size > i32::MAX {
        BufferPlan::Refuse(BufferError::SizeTooLarge)
    } else if wanted.width > i32::MAX {
        BufferPlan::Refuse(BufferError::WidthTooLarge)
    } else if wanted.height > i32::MAX {
        BufferPlan::Refuse(BufferError::HeightTooLarge)
    } else if wanted.stride > i32::MAX {
        BufferPlan::Refuse(BufferError::StrideTooLarge)
    } else {
        BufferPlan::Create(
            size as i32,
            wanted.width as i32,
            wanted.height as i32,
            wanted.stride as i32,
        )
    }
}

/// Decides what to do for a buffer of a shape.
pub fn ensure_buffer(current: Option<BufferShape>, wanted: BufferShape) -> (plan: BufferPlan)
    ensures
        plan == buffer_plan(current, wanted),
{
    if let Some(shape) = current {
        if shape == wanted {
            return BufferPlan::Keep;
        }
    }
    proof {
        arith::lemma_product(wanted.stride, wanted.height);
    }
    let size: u64 = wanted.stride as u64 * wanted.height as u64;
    if size > u32::MAX as u64 {
        return BufferPlan::Refuse(BufferError::SizeOverflow);
    }
    if size > i32::MAX as u64 {
        return BufferPlan::Refuse(BufferError::SizeTooLarge);
    }
    if wanted.width > i32::MAX as u32 {
        return BufferPlan::Refuse(BufferError::WidthTooLarge);
    }
    if wanted.height > i32::MAX as u32 {
        return BufferPlan::Refuse(BufferError::HeightTooLarge);
    }
    if wanted.stride > i32::MAX as u32 {
        return BufferPlan::Refuse(BufferError::StrideTooLarge);
    }
    BufferPlan::Create(
        size as i32,
        wanted.width as i32,
        wanted.height as i32,
        wanted.stride as i32,
    )
}

/// How far a capture has come.
#[derive(Debug, Clone, Copy, PartialEq, Eq, Structural)]
pub enum FrameStatus {
    WaitingForBuffer,
    WaitingForReady,
    Ready,
    Failed,
}

/// A capture on its way.
#[derive(Debug, Clone, Copy, PartialEq, Eq, Structural)]
pub struct FrameState {
    pub status: FrameStatus,
    pub y_invert: bool,
}

impl Default for FrameState {
    fn default() -> (state: Self)
        ensures
            state == (FrameState { status: FrameStatus::WaitingForBuffer, y_invert: false }),
    {
        FrameState { status: FrameStatus::WaitingForBuffer, y_invert: false }
    }
}

/// What the compositor says of a capture.
#[derive(Debug, Clone, Copy, PartialEq, Eq, Structural)]
pub enum FrameEvent {
    /// A buffer is asked for. Whether there is one now.
    Buffer(bool),
    /// Whether the rows are upside down.
    Flags(bool),
    Ready,
    Failed,
}

/// A capture after an event.
pub open spec fn frame_after(state: FrameState, event: FrameEvent) -> FrameState {
    match event {
        FrameEvent::Buffer(usable) => FrameState {
            status: if usable {
                FrameStatus::WaitingForReady
            } else {
                FrameStatus::Failed
            },
            ..state
        },
        FrameEvent::Flags(y_invert) => FrameState { y_invert, ..state },
        FrameEvent::Ready => FrameState { status: FrameStatus::Ready, ..state },
        FrameEvent::Failed => FrameState { status: FrameStatus::Failed, ..state },
    }
}

impl FrameState {
    /// Goes on after an event.
    pub fn apply(&mut self, event: FrameEvent)
        ensures
            *final(self) == frame_after(*old(self), event),
    {
        match event {
            FrameEvent::Buffer(usable) => if usable {
                self.status = FrameStatus::WaitingForReady;
            } else {
                self.status = FrameStatus::Failed;
            },
            FrameEvent::Flags(y_invert) => {
                self.y_invert = y_invert;
            },
            FrameEvent::Ready => {
                self.status = FrameStatus::Ready;
            },
            FrameEvent::Failed => {
                self.status = FrameStatus::Failed;
            },
        }
    }

    /// Whether the capture is over.
    pub fn is_over(&self) -> (over: bool)
        ensures
            over == (self.status == FrameStatus::Ready || self.status == FrameStatus::Failed),
    {
        match self.status {
            FrameStatus::Ready | FrameStatus::Failed => true,
            _ => false,
        }
    }
}

/// The first output with a name.
pub open spec fn is_first_named(names: Seq<Option<String>>, wanted: Seq<char>, at: int) -> bool {
    &&& 0 <= at < names.len()
    &&& names[at] matches Some(name) && name@ == wanted
    &&& forall|i: int|
        0 <= i < at ==> !(#[trigger] names[i] matches Some(name) && name@ == wanted)
}

/// Finds the output with a name.
pub fn find_output(names: &Vec<Option<String>>, wanted: &str) -> (found: Option<usize>)
    ensures
        match found {
            Some(at) => is_first_named(names@, wanted@, at as int),
            None => forall|i: int|
                0 <= i < names@.len() ==> !(#[trigger] names@[i] matches Some(name) && name@
                    == wanted@),
        },
{
    let mut i: usize = 0;
    while i < names.len()
        invariant
            i <= names@.len(),
            forall|j: int|
                0 <= j < i ==> !(#[trigger] names@[j] matches Some(name) && name@ == wanted@),
        decreases names@.len() - i,
    {
        if let Some(name) = &names[i] {
            if same(name.as_str(), wanted) {
                return Some(i);
            }
        }
        i = i + 1;
    }
    None
}

/// Turning a frame upside down twice gives it back: row `y` is read from the row that row
/// `height - 1 - y` is read from when the frame is not turned.
pub proof fn lemma_rows_mirrored(y: int, height: int)
    requires
        0 <= y < height,
    ensures
        source_row(source_row(y, height, true), height, true) == y,
        0 <= source_row(y, height, true) < height,
        source_row(y, height, false) == y,
{
}

/// The colours of the two channel orders differ only in that red and blue change places.
pub proof fn lemma_channel_orders(channel: int)
    requires
        0 <= channel < 3,
    ensures
        channel_offset(ShmFormat::Xrgb8888, channel) == channel_offset(
            ShmFormat::Xbgr8888,
            2 - channel,
        ),
        channel_offset(ShmFormat::Argb8888, channel) == channel_offset(
            ShmFormat::Xrgb8888,
            channel,
        ),
        channel_offset(ShmFormat::Abgr8888, channel) == channel_offset(
            ShmFormat::Xbgr8888,
            channel,
        ),
{
}

} // verus!
