//! Where frames come from: the compositor, or the program `grim` where that fails.

use crate::pixels::{Pixels, RgbImage};
use vstd::prelude::*;

verus! {

/// How long frames with damage lie apart, in nanoseconds.
pub const DAMAGE_FRAME_INTERVAL: u128 = 200_000_000;

/// What hands out frames.
#[derive(Debug, Clone, Copy, PartialEq, Eq, Structural)]
pub enum FrameSource {
    /// The compositor.
    Screencopy,
    /// The program `grim`.
    Grim,
}

/// Which of the two hands out frames. Once the compositor failed, it is not asked again.
pub struct Capturer {
    /// Why the compositor does not hand out frames, if it does not.
    pub reason: Option<String>,
}

impl Capturer {
    /// What hands out frames.
    pub open spec fn origin(&self) -> FrameSource {
        if self.reason is None {
            FrameSource::Screencopy
        } else {
            FrameSource::Grim
        }
    }

    /// Frames from the compositor, or from `grim` where there is an error.
    pub fn new(error: Option<String>) -> (capturer: Capturer)
        ensures
            capturer.reason == error,
    {
        Capturer { reason: error }
    }

    /// What hands out frames.
    pub fn source(&self) -> (source: FrameSource)
        ensures
            source == self.origin(),
    {
        if self.reason.is_none() {
            FrameSource::Screencopy
        } else {
            FrameSource::Grim
        }
    }

    /// The name of what hands out frames.
    pub fn backend_name(&self) -> (name: &'static str)
        ensures
            name@ == match self.origin() {
                FrameSource::Screencopy => "wlr-screencopy"@,
                FrameSource::Grim => "grim"@,
            },
    {
        match self.source() {
            FrameSource::Screencopy => "wlr-screencopy",
            FrameSource::Grim => "grim",
        }
    }

    /// Why the compositor does not hand out frames, if it does not.
    pub fn fallback_reason(&self) -> (reason: Option<&str>)
        ensures
            match self.reason {
                Some(words) => reason matches Some(reason) && reason@ == words@,
                None => reason is None,
            },
    {
        match &self.reason {
            Some(words) => Some(words.as_str()),
            None => None,
        }
    }

    /// Turns to `grim` after the compositor failed. What failed first is remembered.
    pub fn fall_back(&mut self, error: String)
        ensures
            final(self).origin() == FrameSource::Grim,
            final(self).reason == if old(self).reason is None {
                Some(error)
            } else {
                old(self).reason
            },
    {
        if self.reason.is_none() {
            self.reason = Some(error);
        }
    }
}

/// What `image::load_from_memory_with_format` finds in a portable anymap, brought to eight bits
/// each of red, green and blue: its width, its height and its channels.
pub uninterp spec fn anymap(bytes: Seq<u8>) -> Option<(u32, u32, Seq<u8>)>;

/// Calls `image::load_from_memory_with_format` for a portable anymap, and `into_rgb8` on what it
/// finds. Which bytes are an anymap, and what it shows, is a function of the bytes alone; it is
/// named, not stated.
#[verifier::external_body]
fn read_anymap(bytes: &[u8]) -> (found: Result<(u32, u32, Vec<u8>), image::ImageError>)
    ensures
        match anymap(bytes@) {
            Some((width, height, data)) => found matches Ok(image) && image.0 == width && image.1
                == height && image.2@ == data,
            None => found is Err,
        },
{
    let image = image::load_from_memory_with_format(bytes, image::ImageFormat::Pnm)?.into_rgb8();
    Ok((image.width(), image.height(), image.into_raw()))
}

/// The frame that `grim` printed, if it is one.
pub fn grim_frame(bytes: &[u8]) -> (frame: Option<RgbImage>)
    ensures
        match anymap(bytes@) {
            Some((width, height, data)) => if data.len() == width * height * 3 {
                frame matches Some(image) && image.wf() && image@ == (Pixels {
                    width: width as nat,
                    height: height as nat,
                    data,
                })
            } else {
                frame is None
            },
            None => frame is None,
        },
{
    match read_anymap(bytes) {
        Ok((width, height, data)) => RgbImage::from_raw(width, height, data),
        Err(_) => None,
    }
}

/// When the next frame with damage may be asked for, after one that arrived at `now`.
pub fn next_frame(now: u128) -> (at: u128)
    requires
        now + DAMAGE_FRAME_INTERVAL <= u128::MAX,
    ensures
        at == now + DAMAGE_FRAME_INTERVAL,
{
    now + DAMAGE_FRAME_INTERVAL
}

} // verus!
