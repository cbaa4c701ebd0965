//! Camera capture. Without a camera backend the capture yields synthetic
//! grey-gradient frames, and one synthetic camera is listed.

use vstd::prelude::*;
use crate::frame::Frame;

verus! {

/// `anyhow::Error`, the error of the capture functions.
#[verifier::external_type_specification]
#[verifier::external_body]
pub struct ExAnyhowError(anyhow::Error);

/// An available camera device.
#[derive(Debug, Clone)]
pub struct CameraInfo {
    pub index: u32,
    pub name: String,
}

/// The name of the synthetic camera.
pub open spec fn stub_camera_name() -> Seq<char> {
    "Stub Camera (opencv feature disabled)"@
}

/// The cameras that can be opened: without a camera backend, the one
/// synthetic camera at index 0.
pub fn list_cameras() -> (r: Result<Vec<CameraInfo>, anyhow::Error>)
    ensures
        r matches Ok(cams) && cams@.len() == 1 && cams@[0].index == 0 && cams@[0].name@ == stub_camera_name(),
{
    list_cameras_stub()
}

/// The synthetic camera list: one camera at index 0, so that callers
/// always have a camera to open.
pub fn list_cameras_stub() -> (r: Result<Vec<CameraInfo>, anyhow::Error>)
    ensures
        r matches Ok(cams) && cams@.len() == 1 && cams@[0].index == 0 && cams@[0].name@ == stub_camera_name(),
{
    let mut cams: Vec<CameraInfo> = Vec::new();
    cams.push(CameraInfo { index: 0, name: String::from_str("Stub Camera (opencv feature disabled)") });
    Ok(cams)
}

/// Abstract state of a capture handle.
pub struct CaptureView {
    pub index: u32,
    pub frame_count: u64,
    pub width: u32,
    pub height: u32,
}

/// Byte `i` of the synthetic frame of width `width` produced after
/// `frame_count` earlier frames: a gradient along the columns, shifted by
/// the frame count.
pub open spec fn synthetic_byte(i: int, width: int, frame_count: int) -> u8 {
    ((((i / 3) % width) + frame_count) % 256) as u8
}

/// Live camera capture handle (synthetic frames).
pub struct CameraCapture {
    index: u32,
    frame_count: u64,
    width: u32,
    height: u32,
}

impl View for CameraCapture {
    type V = CaptureView;

    closed spec fn view(&self) -> CaptureView {
        CaptureView { index: self.index, frame_count: self.frame_count, width: self.width, height: self.height }
    }
}

impl CameraCapture {
    /// Open the camera at `index`: 640 × 480 frames, counter at zero.
    pub fn open(index: u32) -> (r: Result<Self, anyhow::Error>)
        ensures
            r matches Ok(c) && c@ == (CaptureView { index, frame_count: 0, width: 640, height: 480 }),
    {
        Ok(CameraCapture { index, frame_count: 0, width: 640, height: 480 })
    }

    /// Grab one frame: `height × width` pixels whose every byte is
    /// `(column + frame counter) mod 256`; the counter then advances
    /// (wrapping).
    pub fn read_frame(&mut self) -> (r: Result<Frame, anyhow::Error>)
        requires
            (old(self)@.height as int) * (old(self)@.width as int) * 3 <= usize::MAX,
        ensures
            final(self)@ == (CaptureView { frame_count: old(self)@.frame_count.wrapping_add(1), ..old(self)@ }),
            r matches Ok(f) && {
                &&& f.wf()
                &&& f.height == old(self)@.height
                &&& f.width == old(self)@.width
                &&& forall|i: int| 0 <= i < f.data@.len() ==> #[trigger] f.data@[i] == synthetic_byte(
                    i,
                    old(self)@.width as int,
                    old(self)@.frame_count as int,
                )
            },
    {
        let h = self.height as usize;
        let w = self.width as usize;
        proof {
            vstd::arithmetic::mul::lemma_mul_nonnegative(h as int, w as int);
        }
        let n = h * w * 3;
        let shift = (self.frame_count % 256) as usize;
        let mut data: Vec<u8> = Vec::new();
        let mut i: usize = 0;
        while i < n
            invariant
                n == h * w * 3,
                w == self.width,
                shift == self.frame_count % 256,
                i <= n,
                data@.len() == i,
                forall|j: int| 0 <= j < i ==> #[trigger] data@[j] == synthetic_byte(j, w as int, self.frame_count as int),
            decreases n - i,
        {
            let pixel = i / 3;
            proof {
                if w == 0 {
                    assert(h * w == 0);
                }
            }
            let col = pixel % w;
            let v = ((col % 256 + shift) % 256) as u8;
            proof {
                vstd::arithmetic::div_mod::lemma_add_mod_noop(col as int, self.frame_count as int, 256);
            }
            data.push(v);
            i = i + 1;
        }
        self.frame_count = self.frame_count.wrapping_add(1);
        Ok(Frame { height: h, width: w, data })
    }

    /// The capture resolution, as `(width, height)`.
    pub fn resolution(&self) -> (r: (u32, u32))
        ensures
            r == (self@.width, self@.height),
    {
        (self.width, self.height)
    }

    /// Set the capture resolution for later frames.
    pub fn set_resolution(&mut self, width: u32, height: u32)
        ensures
            final(self)@ == (CaptureView { width, height, ..old(self)@ }),
    {
        self.width = width;
        self.height = height;
    }
}

} // verus!
