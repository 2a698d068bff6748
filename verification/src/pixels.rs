//! Eight-bit RGB images and the outside codecs and samplers that work on them.

use base64::Engine;
use image::ImageEncoder;
use vstd::prelude::*;

verus! {

/// The largest width or height that the sampler is asked to read or to make. Up to here its
/// single-precision positions stay within a quarter of a pixel, so that every output pixel has an
/// input pixel of positive weight.
pub const MAX_EXTENT: u32 = 0x10_0000;

/// What an image shows: its size, and three channels per pixel in row order.
#[verifier::ext_equal]
pub struct Pixels {
    pub width: nat,
    pub height: nat,
    pub data: Seq<u8>,
}

impl Pixels {
    /// There are as many channel bytes as the size asks for.
    pub open spec fn wf(self) -> bool {
        self.data.len() == self.width * self.height * 3
    }

    /// Channel `c` of the pixel in column `x` of row `y`.
    pub open spec fn channel(self, x: int, y: int, c: int) -> u8 {
        self.data[(y * self.width + x) * 3 + c]
    }

    /// The rectangle of `width` by `height` pixels whose top left corner is at (`x`, `y`).
    pub open spec fn crop(self, x: int, y: int, width: nat, height: nat) -> Pixels {
        Pixels {
            width,
            height,
            data: Seq::new(
                width * height * 3,
                |i: int| self.channel(x + i / 3 % width as int, y + i / 3 / width as int, i % 3),
            ),
        }
    }
}

/// An RGB image.
pub struct RgbImage {
    pub width: u32,
    pub height: u32,
    pub data: Vec<u8>,
}

impl View for RgbImage {
    type V = Pixels;

    open spec fn view(&self) -> Pixels {
        Pixels { width: self.width as nat, height: self.height as nat, data: self.data@ }
    }
}

/// Where channel byte `k` of row `r` stands in an image of width `w`.
proof fn lemma_row_position(r: int, k: int, w: int)
    requires
        0 <= r,
        0 < w,
        0 <= k < w * 3,
    ensures
        (r * w * 3 + k) / 3 == r * w + k / 3,
        (r * w * 3 + k) % 3 == k % 3,
        (r * w + k / 3) % w == k / 3,
        (r * w + k / 3) / w == r,
        0 <= k / 3 < w,
{
    let q = k / 3;
    assert(0 <= q < w);
    assert((r * w + q) % w == q && (r * w + q) / w == r) by {
        vstd::arithmetic::div_mod::lemma_fundamental_div_mod_converse(r * w + q, w, r, q);
    }
}

impl RgbImage {
    /// The size fits in memory and the channel bytes are all there.
    pub open spec fn wf(&self) -> bool {
        self@.wf()
    }

    /// The image of the given channel bytes, if there are as many as the size asks for.
    pub fn from_raw(width: u32, height: u32, data: Vec<u8>) -> (image: Option<RgbImage>)
        ensures
            image is Some <==> data@.len() == width * height * 3,
            image matches Some(made) ==> made.wf() && made@ == (Pixels {
                width: width as nat,
                height: height as nat,
                data: data@,
            }),
    {
        assert(0 <= width * height * 3 <= u32::MAX * u32::MAX * 3) by (nonlinear_arith)
            requires
                0 <= width <= u32::MAX,
                0 <= height <= u32::MAX,
        ;
        assert(0 <= width * height <= u32::MAX * u32::MAX) by (nonlinear_arith)
            requires
                0 <= width <= u32::MAX,
                0 <= height <= u32::MAX,
        ;
        let needed: u128 = width as u128 * height as u128 * 3;
        if data.len() as u128 == needed {
            Some(RgbImage { width, height, data })
        } else {
            None
        }
    }

    /// An image of one colour.
    pub fn from_pixel(width: u32, height: u32, pixel: [u8; 3]) -> (image: RgbImage)
        requires
            width * height * 3 <= usize::MAX,
        ensures
            image.wf(),
            image.width == width,
            image.height == height,
            forall|i: int| 0 <= i < image.data@.len() ==> image.data@[i] == pixel[i % 3],
    {
        proof {
            lemma_area(width, height);
        }
        let len: usize = width as usize * height as usize * 3;
        let mut data: Vec<u8> = Vec::new();
        let mut i: usize = 0;
        while i < len
            invariant
                i <= len,
                data@.len() == i,
                forall|j: int| 0 <= j < i ==> data@[j] == pixel[j % 3],
            decreases len - i,
        {
            data.push(pixel[i % 3]);
            i = i + 1;
        }
        RgbImage { width, height, data }
    }

    /// A black image.
    pub fn new(width: u32, height: u32) -> (image: RgbImage)
        requires
            width * height * 3 <= usize::MAX,
        ensures
            image.wf(),
            image.width == width,
            image.height == height,
            forall|i: int| 0 <= i < image.data@.len() ==> image.data@[i] == 0u8,
    {
        RgbImage::from_pixel(width, height, [0u8, 0u8, 0u8])
    }

    /// Replaces one pixel.
    pub fn put_pixel(&mut self, x: u32, y: u32, pixel: [u8; 3])
        requires
            old(self).wf(),
            x < old(self).width,
            y < old(self).height,
        ensures
            final(self).wf(),
            final(self).width == old(self).width,
            final(self).height == old(self).height,
            final(self).data@ == ({
                let at = (y * old(self).width + x) * 3;
                old(self).data@.update(at, pixel[0]).update(at + 1, pixel[1]).update(
                    at + 2,
                    pixel[2],
                )
            }),
    {
        proof {
            lemma_inside(self.width as int, self.height as int, x as int, y as int);
        }
        let len: usize = self.data.len();
        assert((y * self.width + x) * 3 + 3 <= len);
        let at: usize = (y as usize * self.width as usize + x as usize) * 3;
        self.data.set(at, pixel[0]);
        self.data.set(at + 1, pixel[1]);
        self.data.set(at + 2, pixel[2]);
    }

    /// The three channels of a pixel.
    pub fn pixel(&self, x: u32, y: u32) -> (pixel: [u8; 3])
        requires
            self.wf(),
            x < self.width,
            y < self.height,
        ensures
            forall|c: int|
                0 <= c < 3 ==> #[trigger] pixel@[c] == self@.channel(x as int, y as int, c),
    {
        proof {
            lemma_inside(self.width as int, self.height as int, x as int, y as int);
        }
        let len: usize = self.data.len();
        assert((y * self.width + x) * 3 + 3 <= len);
        let at: usize = (y as usize * self.width as usize + x as usize) * 3;
        [self.data[at], self.data[at + 1], self.data[at + 2]]
    }

    /// A copy of the image.
    pub fn duplicate(&self) -> (copy: RgbImage)
        ensures
            copy@ == self@,
            copy.width == self.width,
            copy.height == self.height,
    {
        RgbImage { width: self.width, height: self.height, data: self.data.clone() }
    }

    /// A copy of a rectangle of the image.
    pub fn crop(&self, x: u32, y: u32, width: u32, height: u32) -> (part: RgbImage)
        requires
            self.wf(),
            x + width <= self.width,
            y + height <= self.height,
        ensures
            part.wf(),
            part.width == width,
            part.height == height,
            part@ == self@.crop(x as int, y as int, width as nat, height as nat),
    {
        let ghost expected = self@.crop(x as int, y as int, width as nat, height as nat);
        let mut data: Vec<u8> = Vec::new();
        let mut row: u32 = 0;
        let len: usize = self.data.len();
        assert(0 * width * 3 == 0) by (nonlinear_arith);
        while row < height
            invariant
                self.wf(),
                len == self.data@.len(),
                x + width <= self.width,
                y + height <= self.height,
                row <= height,
                expected == self@.crop(x as int, y as int, width as nat, height as nat),
                data@.len() == row * width * 3,
                forall|i: int| 0 <= i < data@.len() ==> data@[i] == expected.data[i],
            decreases height - row,
        {
            if width > 0 {
                proof {
                    lemma_inside(
                        self.width as int,
                        self.height as int,
                        x as int,
                        y + row,
                    );
                    lemma_row_end(
                        self.width as int,
                        self.height as int,
                        x as int,
                        y + row,
                        width as int,
                    );
                }
                assert(((y + row) * self.width + x) * 3 + width * 3 <= len);
                let start: usize = (y as usize + row as usize) * self.width as usize + x as usize;
                let first: usize = start * 3;
                let count: usize = width as usize * 3;
                let mut k: usize = 0;
                while k < count
                    invariant
                        0 < width,
                        count == width * 3,
                        k <= count,
                        row < height,
                        self.wf(),
                        first == ((y + row) * self.width + x) * 3,
                        first + count <= len,
                        len == self.data@.len(),
                        expected == self@.crop(x as int, y as int, width as nat, height as nat),
                        data@.len() == row * width * 3 + k,
                        forall|i: int| 0 <= i < data@.len() ==> data@[i] == expected.data[i],
                    decreases count - k,
                {
                    data.push(self.data[first + k]);
                    proof {
                        let i = row * width * 3 + k;
                        lemma_row_position(row as int, k as int, width as int);
                        lemma_row_end(width as int, height as int, 0, row as int, width as int);
                        assert(0 <= row * width) by (nonlinear_arith)
                            requires
                                0 <= row,
                                0 <= width,
                        ;
                        assert(expected.data[i] == self@.channel(x + k as int / 3, y + row, k as int % 3));
                    }
                    k = k + 1;
                }
            } else {
                assert(row * width * 3 == 0 && (row + 1) * width * 3 == 0) by (nonlinear_arith)
                    requires
                        width == 0,
                ;
            }
            assert((row + 1) * width * 3 == row * width * 3 + width * 3) by (nonlinear_arith);
            row = row + 1;
        }
        let part = RgbImage { width, height, data };
        assert(height * width * 3 == width * height * 3) by (nonlinear_arith);
        assert(part@ =~= expected);
        part
    }
}

impl RgbImage {
    /// Whether two images of one size differ in a rectangle.
    pub fn differs_in(&self, other: &RgbImage, x: u32, y: u32, width: u32, height: u32) -> (differs:
        bool)
        requires
            self.wf(),
            other.wf(),
            self.width == other.width,
            self.height == other.height,
            x + width <= self.width,
            y + height <= self.height,
        ensures
            differs == (self@.crop(x as int, y as int, width as nat, height as nat) != other@.crop(
                x as int,
                y as int,
                width as nat,
                height as nat,
            )),
    {
        let ghost mine = self@.crop(x as int, y as int, width as nat, height as nat);
        let ghost theirs = other@.crop(x as int, y as int, width as nat, height as nat);
        let mut row: u32 = 0;
        let len: usize = self.data.len();
        let other_len: usize = other.data.len();
        assert(len == other_len);
        assert(0 * width * 3 == 0) by (nonlinear_arith);
        while row < height
            invariant
                self.wf(),
                other.wf(),
                self.width == other.width,
                self.height == other.height,
                len == self.data@.len(),
                len == other.data@.len(),
                x + width <= self.width,
                y + height <= self.height,
                row <= height,
                mine == self@.crop(x as int, y as int, width as nat, height as nat),
                theirs == other@.crop(x as int, y as int, width as nat, height as nat),
                forall|i: int| 0 <= i < row * width * 3 ==> mine.data[i] == theirs.data[i],
            decreases height - row,
        {
            if width > 0 {
                proof {
                    lemma_inside(self.width as int, self.height as int, x as int, y + row);
                    lemma_row_end(
                        self.width as int,
                        self.height as int,
                        x as int,
                        y + row,
                        width as int,
                    );
                }
                assert(((y + row) * self.width + x) * 3 + width * 3 <= len);
                let start: usize = (y as usize + row as usize) * self.width as usize + x as usize;
                let first: usize = start * 3;
                let count: usize = width as usize * 3;
                let mut k: usize = 0;
                while k < count
                    invariant
                        0 < width,
                        count == width * 3,
                        k <= count,
                        row < height,
                        self.wf(),
                        other.wf(),
                        self.width == other.width,
                        first == ((y + row) * self.width + x) * 3,
                        first + count <= len,
                        len == self.data@.len(),
                        len == other.data@.len(),
                        mine == self@.crop(x as int, y as int, width as nat, height as nat),
                        theirs == other@.crop(x as int, y as int, width as nat, height as nat),
                        forall|i: int|
                            0 <= i < row * width * 3 + k ==> mine.data[i] == theirs.data[i],
                    decreases count - k,
                {
                    proof {
                        let i = row * width * 3 + k;
                        lemma_row_position(row as int, k as int, width as int);
                        lemma_row_end(width as int, height as int, 0, row as int, width as int);
                        assert(0 <= row * width) by (nonlinear_arith)
                            requires
                                0 <= row,
                                0 <= width,
                        ;
                        assert(mine.data[i] == self.data@[first + k]);
                        assert(theirs.data[i] == other.data@[first + k]);
                    }
                    if self.data[first + k] != other.data[first + k] {
                        return true;
                    }
                    k = k + 1;
                }
            } else {
                assert(row * width * 3 == 0 && (row + 1) * width * 3 == 0) by (nonlinear_arith)
                    requires
                        width == 0,
                ;
            }
            assert((row + 1) * width * 3 == row * width * 3 + width * 3) by (nonlinear_arith);
            row = row + 1;
        }
        assert(height * width * 3 == width * height * 3) by (nonlinear_arith);
        assert(mine =~= theirs);
        false
    }
}

/// What `image::imageops::resize` makes of an image with the triangle filter.
pub uninterp spec fn triangle_resized(
    data: Seq<u8>,
    width: u32,
    height: u32,
    new_width: u32,
    new_height: u32,
) -> Seq<u8>;

/// The sizes between which the sampler works without leaving the range of its positions or of
/// its buffers, the first of which holds sixteen bytes for each pixel of the old width and the
/// new height.
pub open spec fn resizable(width: int, height: int, new_width: int, new_height: int) -> bool {
    &&& width <= MAX_EXTENT
    &&& height <= MAX_EXTENT
    &&& new_width <= MAX_EXTENT
    &&& new_height <= MAX_EXTENT
    &&& width * new_height * 16 <= isize::MAX
    &&& new_width * new_height * 3 <= isize::MAX
}

/// Calls `image::imageops::resize` with `FilterType::Triangle`. Its result is a function of the
/// pixels and of the two sizes alone; it holds three bytes for each new pixel, and where the size
/// stays, it is a copy. Which weights it gives the pixels is left unsaid.
#[verifier::external_body]
fn resize_triangle(
    data: &Vec<u8>,
    width: u32,
    height: u32,
    new_width: u32,
    new_height: u32,
) -> (resized: Vec<u8>)
    requires
        data@.len() == width * height * 3,
        resizable(width as int, height as int, new_width as int, new_height as int),
    ensures
        resized@ == triangle_resized(data@, width, height, new_width, new_height),
        resized@.len() == new_width * new_height * 3,
        new_width == width && new_height == height ==> resized@ == data@,
{
    let source = image::RgbImage::from_raw(width, height, data.clone()).unwrap();
    let filter = image::imageops::FilterType::Triangle;
    image::imageops::resize(&source, new_width, new_height, filter).into_raw()
}

impl Pixels {
    /// The image brought to another size by the triangle filter.
    pub open spec fn resized(self, new_width: nat, new_height: nat) -> Pixels {
        Pixels {
            width: new_width,
            height: new_height,
            data: triangle_resized(
                self.data,
                self.width as u32,
                self.height as u32,
                new_width as u32,
                new_height as u32,
            ),
        }
    }
}

impl RgbImage {
    /// The image brought to another size by the triangle filter.
    pub fn resize(&self, new_width: u32, new_height: u32) -> (resized: RgbImage)
        requires
            self.wf(),
            resizable(
                self.width as int,
                self.height as int,
                new_width as int,
                new_height as int,
            ),
        ensures
            resized.wf(),
            resized.width == new_width,
            resized.height == new_height,
            resized@ == self@.resized(new_width as nat, new_height as nat),
            new_width == self.width && new_height == self.height ==> resized@ == self@,
    {
        let data = resize_triangle(&self.data, self.width, self.height, new_width, new_height);
        RgbImage { width: new_width, height: new_height, data }
    }
}

/// An error of the outside image codec.
#[verifier::external_type_specification]
#[verifier::external_body]
pub struct ExImageError(image::ImageError);

/// The PNG file that `image::codecs::png::PngEncoder` writes for eight-bit RGB pixels, if it
/// writes one.
pub uninterp spec fn png_file(data: Seq<u8>, width: u32, height: u32) -> Option<Seq<u8>>;

/// Calls `PngEncoder::write_image`. Whether it succeeds, and the bytes that it writes, are a
/// function of the pixels and of the size alone; neither is said here.
#[verifier::external_body]
fn write_png(data: &Vec<u8>, width: u32, height: u32) -> (file: Result<Vec<u8>, image::ImageError>)
    requires
        data@.len() == width * height * 3,
    ensures
        file is Ok <==> png_file(data@, width, height) is Some,
        file matches Ok(bytes) ==> Some(bytes@) == png_file(data@, width, height),
{
    let mut file = Vec::new();
    let encoder = image::codecs::png::PngEncoder::new(&mut file);
    encoder.write_image(data, width, height, image::ExtendedColorType::Rgb8)?;
    Ok(file)
}

/// The character that stands for six bits in standard base64.
pub open spec fn base64_symbol(bits: int) -> char {
    if bits < 26 {
        (65 + bits) as char
    } else if bits < 52 {
        (71 + bits) as char
    } else if bits < 62 {
        (bits - 4) as char
    } else if bits == 62 {
        '+'
    } else {
        '/'
    }
}

/// Standard base64 with padding: four characters for three bytes.
pub open spec fn base64_text(bytes: Seq<u8>) -> Seq<char>
    decreases bytes.len(),
{
    if bytes.len() == 0 {
        seq![]
    } else if bytes.len() == 1 {
        seq![base64_symbol(bytes[0] as int / 4), base64_symbol(bytes[0] as int % 4 * 16), '=', '=']
    } else if bytes.len() == 2 {
        seq![
            base64_symbol(bytes[0] as int / 4),
            base64_symbol(bytes[0] as int % 4 * 16 + bytes[1] as int / 16),
            base64_symbol(bytes[1] as int % 16 * 4),
            '=',
        ]
    } else {
        seq![
            base64_symbol(bytes[0] as int / 4),
            base64_symbol(bytes[0] as int % 4 * 16 + bytes[1] as int / 16),
            base64_symbol(bytes[1] as int % 16 * 4 + bytes[2] as int / 64),
            base64_symbol(bytes[2] as int % 64),
        ] + base64_text(bytes.skip(3))
    }
}

/// Calls `Engine::encode` of `base64::engine::general_purpose::STANDARD`: the standard alphabet,
/// with padding.
#[verifier::external_body]
fn encode_base64(bytes: &Vec<u8>) -> (encoded: String)
    requires
        bytes@.len() <= isize::MAX / 2,
    ensures
        encoded@ == base64_text(bytes@),
{
    base64::engine::general_purpose::STANDARD.encode(bytes)
}

/// Why an image has no base64 text.
#[derive(Debug, Clone, Copy, PartialEq, Eq, Structural)]
pub enum PngError {
    /// The codec refused the image.
    Codec,
    /// The file is too long to be encoded in memory.
    TooLong,
}

/// The image as base64 of a PNG file.
pub open spec fn png_text(image: Pixels) -> Result<Seq<char>, PngError> {
    match png_file(image.data, image.width as u32, image.height as u32) {
        Some(file) => if file.len() <= isize::MAX / 2 {
            Ok(base64_text(file))
        } else {
            Err(PngError::TooLong)
        },
        None => Err(PngError::Codec),
    }
}

/// Encodes an image as base64 of a PNG file.
pub fn encode_png(image: &RgbImage) -> (payload: Result<String, PngError>)
    requires
        image.wf(),
    ensures
        match payload {
            Ok(encoded) => png_text(image@) == Ok::<Seq<char>, PngError>(encoded@),
            Err(error) => png_text(image@) == Err::<Seq<char>, PngError>(error),
        },
{
    match write_png(&image.data, image.width, image.height) {
        Ok(file) => {
            if file.len() <= isize::MAX as usize / 2 {
                Ok(encode_base64(&file))
            } else {
                Err(PngError::TooLong)
            }
        },
        Err(_) => Err(PngError::Codec),
    }
}

/// The channel bytes of a size that fits in memory can be counted without overflow.
proof fn lemma_area(width: u32, height: u32)
    requires
        width * height * 3 <= usize::MAX,
    ensures
        0 <= width * height <= usize::MAX,
{
    assert(0 <= width * height) by (nonlinear_arith)
        requires
            0 <= width,
            0 <= height,
    ;
}

/// A pixel inside an image has its three channel bytes inside the data.
proof fn lemma_inside(w: int, h: int, x: int, y: int)
    requires
        0 <= x < w,
        0 <= y < h,
    ensures
        0 <= y * w,
        0 <= y * w + x,
        (y * w + x) * 3 + 3 <= w * h * 3,
{
    assert(0 <= y * w && y * w + w <= w * h) by (nonlinear_arith)
        requires
            0 <= x < w,
            0 <= y < h,
    ;
}

/// The pixels of a row that starts inside an image and does not leave it.
proof fn lemma_row_end(w: int, h: int, x: int, y: int, count: int)
    requires
        0 <= x,
        0 < count,
        x + count <= w,
        0 <= y < h,
    ensures
        (y * w + x) * 3 + count * 3 <= w * h * 3,
        y * w * 3 + count * 3 <= w * h * 3,
{
    assert(0 <= y * w && y * w + w <= w * h) by (nonlinear_arith)
        requires
            0 <= w,
            0 <= y < h,
    ;
}

} // verus!
