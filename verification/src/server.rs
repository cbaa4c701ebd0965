//! Decisions of the HTTP server: command-line flags, the API token, the
//! enhancer settings, camera selection, the inputs of an image swap, and
//! the fallback video frame.

use vstd::prelude::*;
use vstd::utf8::encode_utf8;
use crate::api::{ApiError, BAD_REQUEST, SERVICE_UNAVAILABLE, UNPROCESSABLE_ENTITY};
use crate::capture::CameraInfo;
use crate::text::{decimal, decimal_string, hex_digits, lemma_hex_digits_len, push_hex, trim, trimmed};

verus! {

/// Whether the live stream reads from the camera or from a video file.
#[derive(Debug, Clone, Copy, PartialEq, Eq, Structural)]
pub enum InputMode {
    Camera,
    VideoFile,
}

impl Default for InputMode {
    fn default() -> (r: Self)
        ensures
            r == InputMode::Camera,
    {
        InputMode::Camera
    }
}

/// Index of the first argument equal to `flag`, if any.
pub open spec fn first_position(args: Seq<String>, flag: Seq<char>) -> Option<int> {
    if exists|i: int| 0 <= i < args.len() && (#[trigger] args[i])@ == flag {
        Some(
            choose|i: int|
                0 <= i < args.len() && (#[trigger] args[i])@ == flag && forall|j: int|
                    0 <= j < i ==> (#[trigger] args[j])@ != flag,
        )
    } else {
        None
    }
}

/// Index of the first argument equal to `flag`.
fn position_of(args: &Vec<String>, flag: &str) -> (r: Option<usize>)
    ensures
        match r {
            Some(p) => p < args@.len() && args@[p as int]@ == flag@ && forall|j: int|
                0 <= j < p ==> (#[trigger] args@[j])@ != flag@,
            None => forall|j: int| 0 <= j < args@.len() ==> (#[trigger] args@[j])@ != flag@,
        },
{
    let mut i: usize = 0;
    while i < args.len()
        invariant
            i <= args@.len(),
            forall|j: int| 0 <= j < i ==> (#[trigger] args@[j])@ != flag@,
        decreases args@.len() - i,
    {
        if crate::text::str_eq(args[i].as_str(), flag) {
            return Some(i);
        }
        i = i + 1;
    }
    None
}

/// The value following the first `--models-dir`, when there is one.
pub open spec fn models_dir_arg(args: Seq<String>) -> Option<Seq<char>> {
    match first_position(args, "--models-dir"@) {
        Some(p) => if p + 1 < args.len() {
            Some(args[p + 1]@)
        } else {
            None
        },
        None => None,
    }
}

/// The models directory given on the command line: the argument after the
/// first `--models-dir`.
pub fn parse_models_dir_arg(args: &Vec<String>) -> (r: Option<String>)
    ensures
        match r {
            Some(d) => models_dir_arg(args@) == Some(d@),
            None => models_dir_arg(args@) is None,
        },
{
    match position_of(args, "--models-dir") {
        None => None,
        Some(p) => {
            proof {
                assert(first_position(args@, "--models-dir"@) == Some(p as int));
            }
            if p < args.len() - 1 {
                Some(args[p + 1].clone())
            } else {
                None
            }
        },
    }
}

/// Whether any argument equals `flag`.
pub open spec fn has_flag(args: Seq<String>, flag: Seq<char>) -> bool {
    exists|i: int| 0 <= i < args.len() && (#[trigger] args[i])@ == flag
}

/// Whether `--remote` was given.
pub fn parse_remote_flag(args: &Vec<String>) -> (r: bool)
    ensures
        r == has_flag(args@, "--remote"@),
{
    position_of(args, "--remote").is_some()
}

/// Whether `--npu` was given.
pub fn parse_npu_flag(args: &Vec<String>) -> (r: bool)
    ensures
        r == has_flag(args@, "--npu"@),
{
    position_of(args, "--npu").is_some()
}

/// The address the server binds: every interface in remote mode, the
/// loopback interface otherwise, on port 8008.
pub fn bind_address(remote: bool) -> (r: &'static str)
    ensures
        r@ == if remote { "0.0.0.0:8008"@ } else { "127.0.0.1:8008"@ },
{
    if remote { "0.0.0.0:8008" } else { "127.0.0.1:8008" }
}

/// What `str::len` reports for a string: its UTF-8 length in bytes.
pub open spec fn byte_len(s: Seq<char>) -> usize {
    encode_utf8(s).len() as usize
}

/// A persisted API token: the trimmed file contents, accepted when they are
/// at least 16 bytes long.
pub fn persisted_token(contents: &str) -> (r: Option<String>)
    ensures
        r is Some <==> byte_len(trimmed(contents@)) >= 16,
        r matches Some(t) ==> t@ == trimmed(contents@),
{
    let t = trim(contents);
    if t.len() >= 16 {
        Some(String::from_str(t))
    } else {
        None
    }
}

/// A fresh API token from two 64-bit values: each printed as 16 lower-case
/// hexadecimal digits.
pub fn format_token(h1: u64, h2: u64) -> (t: String)
    ensures
        t@ == hex_digits(h1 as nat, 16) + hex_digits(h2 as nat, 16),
        t@.len() == 32,
{
    let mut t = String::new();
    push_hex(&mut t, h1, 16);
    push_hex(&mut t, h2, 16);
    proof {
        lemma_hex_digits_len(h1 as nat, 16);
        lemma_hex_digits_len(h2 as nat, 16);
        assert(t@ =~= hex_digits(h1 as nat, 16) + hex_digits(h2 as nat, 16));
    }
    t
}

/// The face enhancers that are switched on.
#[derive(Debug, Clone, Copy)]
pub struct EnhancerSettings {
    pub face_enhancer_gfpgan: bool,
    pub face_enhancer_gpen256: bool,
    pub face_enhancer_gpen512: bool,
}

/// A settings update: each given toggle replaces the current one.
#[derive(Debug, Clone, Copy)]
pub struct SettingsUpdate {
    pub face_enhancer: Option<bool>,
    pub face_enhancer_gpen256: Option<bool>,
    pub face_enhancer_gpen512: Option<bool>,
}

/// A toggle after an update.
pub open spec fn updated_toggle(current: bool, update: Option<bool>) -> bool {
    match update {
        Some(v) => v,
        None => current,
    }
}

/// Settings after an update.
pub open spec fn updated_settings(s: EnhancerSettings, u: SettingsUpdate) -> EnhancerSettings {
    EnhancerSettings {
        face_enhancer_gfpgan: updated_toggle(s.face_enhancer_gfpgan, u.face_enhancer),
        face_enhancer_gpen256: updated_toggle(s.face_enhancer_gpen256, u.face_enhancer_gpen256),
        face_enhancer_gpen512: updated_toggle(s.face_enhancer_gpen512, u.face_enhancer_gpen512),
    }
}

impl EnhancerSettings {
    /// Apply an update.
    pub fn apply(&mut self, update: &SettingsUpdate)
        ensures
            *final(self) == updated_settings(*old(self), *update),
            final(self).face_enhancer_gfpgan == match update.face_enhancer {
                Some(v) => v,
                None => old(self).face_enhancer_gfpgan,
            },
            final(self).face_enhancer_gpen256 == match update.face_enhancer_gpen256 {
                Some(v) => v,
                None => old(self).face_enhancer_gpen256,
            },
            final(self).face_enhancer_gpen512 == match update.face_enhancer_gpen512 {
                Some(v) => v,
                None => old(self).face_enhancer_gpen512,
            },
    {
        if let Some(v) = update.face_enhancer {
            self.face_enhancer_gfpgan = v;
        }
        if let Some(v) = update.face_enhancer_gpen256 {
            self.face_enhancer_gpen256 = v;
        }
        if let Some(v) = update.face_enhancer_gpen512 {
            self.face_enhancer_gpen512 = v;
        }
    }
}

/// A given toggle takes effect and an absent one leaves its setting alone:
/// for each enhancer, the setting after an update is the update's value
/// when it carries one, and the old setting otherwise.
pub proof fn lemma_settings_update_takes_effect(s: EnhancerSettings, u: SettingsUpdate)
    ensures
        u.face_enhancer matches Some(v) ==> updated_settings(s, u).face_enhancer_gfpgan == v,
        u.face_enhancer is None ==> updated_settings(s, u).face_enhancer_gfpgan == s.face_enhancer_gfpgan,
        u.face_enhancer_gpen256 matches Some(v) ==> updated_settings(s, u).face_enhancer_gpen256 == v,
        u.face_enhancer_gpen256 is None ==> updated_settings(s, u).face_enhancer_gpen256 == s.face_enhancer_gpen256,
        u.face_enhancer_gpen512 matches Some(v) ==> updated_settings(s, u).face_enhancer_gpen512 == v,
        u.face_enhancer_gpen512 is None ==> updated_settings(s, u).face_enhancer_gpen512 == s.face_enhancer_gpen512,
{
}

/// Applying the same settings update twice is the same as applying it
/// once, and an update without toggles changes nothing.
pub proof fn lemma_settings_update_idempotent(s: EnhancerSettings, u: SettingsUpdate)
    ensures
        updated_settings(updated_settings(s, u), u) == updated_settings(s, u),
        (u.face_enhancer is None && u.face_enhancer_gpen256 is None && u.face_enhancer_gpen512 is None)
            ==> updated_settings(s, u) == s,
{
}

/// The camera to switch to: refused with 400 unless a camera with that
/// index is available.
pub fn select_camera(cameras: &Vec<CameraInfo>, index: u32) -> (r: Result<u32, ApiError>)
    ensures
        r is Ok <==> exists|i: int| 0 <= i < cameras@.len() && (#[trigger] cameras@[i]).index == index,
        r matches Ok(v) ==> v == index,
        r matches Err(e) ==> e.status == BAD_REQUEST && e.message@ == "Camera "@ + decimal(index as nat)
            + " not available"@,
{
    let mut i: usize = 0;
    while i < cameras.len()
        invariant
            i <= cameras@.len(),
            forall|j: int| 0 <= j < i ==> (#[trigger] cameras@[j]).index != index,
        decreases cameras@.len() - i,
    {
        if cameras[i].index == index {
            return Ok(index);
        }
        i = i + 1;
    }
    let mut message = String::from_str("Camera ");
    let d = decimal_string(index as u64);
    message.append(d.as_str());
    message.append(" not available");
    Err(ApiError { status: BAD_REQUEST, message })
}

/// The bytes of the last multipart field named `name`, if any.
pub open spec fn last_field(fields: Seq<(String, Vec<u8>)>, name: Seq<char>) -> Option<Seq<u8>>
    decreases fields.len(),
{
    if fields.len() == 0 {
        None
    } else if fields.last().0@ == name {
        Some(fields.last().1@)
    } else {
        last_field(fields.drop_last(), name)
    }
}

/// The source and target images of an image swap: the last fields named
/// `source` and `target`; a missing one is refused with 400, the source
/// checked first.
pub fn select_swap_images(fields: &Vec<(String, Vec<u8>)>) -> (r: Result<(Vec<u8>, Vec<u8>), ApiError>)
    ensures
        r is Ok <==> last_field(fields@, "source"@) is Some && last_field(fields@, "target"@) is Some,
        r matches Ok((s, t)) ==> last_field(fields@, "source"@) == Some(s@) && last_field(fields@, "target"@)
            == Some(t@),
        r matches Err(e) ==> e.status == BAD_REQUEST && e.message@ == if last_field(fields@, "source"@) is None {
            "missing multipart field: source"@
        } else {
            "missing multipart field: target"@
        },
{
    let mut source: Option<Vec<u8>> = None;
    let mut target: Option<Vec<u8>> = None;
    let mut i: usize = 0;
    while i < fields.len()
        invariant
            i <= fields@.len(),
            match source {
                Some(s) => last_field(fields@.take(i as int), "source"@) == Some(s@),
                None => last_field(fields@.take(i as int), "source"@) is None,
            },
            match target {
                Some(t) => last_field(fields@.take(i as int), "target"@) == Some(t@),
                None => last_field(fields@.take(i as int), "target"@) is None,
            },
        decreases fields@.len() - i,
    {
        let ghost next = fields@.take(i as int + 1);
        assert(next.drop_last() =~= fields@.take(i as int));
        let (name, bytes) = &fields[i];
        if crate::text::str_eq(name.as_str(), "source") {
            source = Some(bytes.clone());
        } else if crate::text::str_eq(name.as_str(), "target") {
            target = Some(bytes.clone());
        }
        proof {
            reveal_strlit("source");
            reveal_strlit("target");
            assert("source"@ != "target"@) by {
                assert("source"@[0] != "target"@[0]);
            }
        }
        i = i + 1;
    }
    assert(fields@.take(fields@.len() as int) =~= fields@);
    match source {
        None => Err(ApiError { status: BAD_REQUEST, message: String::from_str("missing multipart field: source") }),
        Some(s) => match target {
            None => Err(
                ApiError { status: BAD_REQUEST, message: String::from_str("missing multipart field: target") },
            ),
            Some(t) => Ok((s, t)),
        },
    }
}

/// The refusal of an image swap, as its checks come in order: the detector
/// must be loaded (503), a face found in the source (422) and in the target
/// (422), and the swapper loaded (503). A caller that has not reached a
/// later check yet passes it as met.
pub open spec fn swap_refusal_of(
    detector_loaded: bool,
    source_faces: usize,
    target_faces: usize,
    swapper_loaded: bool,
) -> Option<(u16, Seq<char>)> {
    if !detector_loaded {
        Some((SERVICE_UNAVAILABLE, "models not loaded"@))
    } else if source_faces == 0 {
        Some((UNPROCESSABLE_ENTITY, "no face detected in source image"@))
    } else if target_faces == 0 {
        Some((UNPROCESSABLE_ENTITY, "no face detected in target image"@))
    } else if !swapper_loaded {
        Some((SERVICE_UNAVAILABLE, "models not loaded"@))
    } else {
        None
    }
}

/// Why an image swap is refused, if it is: the first check that fails of
/// a loaded detector, a face in the source image, a face in the target
/// image and a loaded swapper.
pub fn swap_refusal(detector_loaded: bool, source_faces: usize, target_faces: usize, swapper_loaded: bool) -> (r:
    Option<ApiError>)
    ensures
        r is None <==> swap_refusal_of(detector_loaded, source_faces, target_faces, swapper_loaded) is None,
        r matches Some(e) ==> swap_refusal_of(detector_loaded, source_faces, target_faces, swapper_loaded) == Some(
            (e.status, e.message@),
        ),
{
    if !detector_loaded {
        Some(ApiError { status: SERVICE_UNAVAILABLE, message: String::from_str("models not loaded") })
    } else if source_faces == 0 {
        Some(ApiError { status: UNPROCESSABLE_ENTITY, message: String::from_str("no face detected in source image") })
    } else if target_faces == 0 {
        Some(ApiError { status: UNPROCESSABLE_ENTITY, message: String::from_str("no face detected in target image") })
    } else if !swapper_loaded {
        Some(ApiError { status: SERVICE_UNAVAILABLE, message: String::from_str("models not loaded") })
    } else {
        None
    }
}

/// Width of the fallback video frame.
pub const TEST_FRAME_WIDTH: u32 = 640;

/// Height of the fallback video frame.
pub const TEST_FRAME_HEIGHT: u32 = 480;

/// The fallback video frame shown when no camera is available: 640 × 480
/// RGB pixels, black but for a blue channel of 200.
pub fn generate_test_frame() -> (pixels: Vec<u8>)
    ensures
        pixels@.len() == 640 * 480 * 3,
        forall|i: int| 0 <= i < pixels@.len() ==> #[trigger] pixels@[i] == if i % 3 == 2 { 200u8 } else { 0u8 },
{
    let n: usize = 640 * 480 * 3;
    let mut pixels: Vec<u8> = Vec::new();
    let mut i: usize = 0;
    while i < n
        invariant
            n == 640 * 480 * 3,
            i <= n,
            pixels@.len() == i,
            forall|j: int| 0 <= j < i ==> #[trigger] pixels@[j] == if j % 3 == 2 { 200u8 } else { 0u8 },
        decreases n - i,
    {
        if i % 3 == 2 {
            pixels.push(200);
        } else {
            pixels.push(0);
        }
        i = i + 1;
    }
    pixels
}

} // verus!
