//! One photograph being cropped: whose it is, how it is turned, and where
//! its crop rectangle stands.
//!
//! The pixels themselves are not held here. Of the picture the session knows
//! the width and the height as they were read from the file; the frame in
//! which the rectangle lives is the picture after its quarter turns, so its
//! sides swap on an odd number of turns.

use crate::codec::{
    decode_spec, read_record, stored_record, strip_records, write_record, write_record_spec,
    written_view, CodecError,
};
use crate::container::{container_parsing, ends_in_scan, parse_container};
use crate::geometry::{truncating_quotient, AspectRatio, CropRectangle, Direction};
use crate::record::{CropRecord, RecordView};
use crate::util::{filename_to_given_family, names_of_path};
use vstd::prelude::*;

verus! {

/// Why a photograph could not be taken up.
#[derive(Clone, Copy, Debug, PartialEq, Eq, Structural)]
pub enum LoadError {
    /// The path has no file name to read the person's names from.
    NoFileName,
    /// The file is no JPEG container, or the record in it cannot be read.
    Codec(CodecError),
}

/// The part of a picture that a crop cuts out, in pixels of the turned picture.
#[derive(Clone, Copy, Debug, PartialEq, Eq, Structural)]
pub struct CropWindow {
    pub left: u32,
    pub top: u32,
    pub width: u32,
    pub height: u32,
}

/// A session as the contracts see it.
pub struct CroppedView {
    pub path: Seq<char>,
    pub given: Seq<char>,
    pub family: Seq<char>,
    pub rect: CropRectangle,
    pub rotation: int,
    pub image_width: int,
    pub image_height: int,
}

impl CroppedView {
    /// Width of the picture after its quarter turns.
    pub open spec fn frame_width(self) -> int {
        if self.rotation % 2 == 1 {
            self.image_height
        } else {
            self.image_width
        }
    }

    /// Height of the picture after its quarter turns.
    pub open spec fn frame_height(self) -> int {
        if self.rotation % 2 == 1 {
            self.image_width
        } else {
            self.image_height
        }
    }

    /// The session's rectangle satisfies the bounds invariant in its frame.
    pub open spec fn in_frame(self) -> bool {
        self.rect.within_bounds(self.frame_width(), self.frame_height())
    }

    /// The session once a stored record has been taken over: names, centre
    /// and width are the record's, the rotation is the record's modulo 4.
    pub open spec fn with_record(self, record: RecordView) -> CroppedView {
        CroppedView {
            given: record.given,
            family: record.family,
            rect: CropRectangle {
                center_x: record.x as i32,
                center_y: record.y as i32,
                width: record.w as i32,
                ratio: self.rect.ratio,
            },
            rotation: record.rotation % 4,
            ..self
        }
    }

    /// The session after a push of `step` pixels in `direction`, inside the
    /// frame of the turned picture.
    pub open spec fn pushed(self, direction: Direction, step: int) -> CroppedView {
        CroppedView {
            rect: self.rect.pushed(direction, step, self.frame_width(), self.frame_height()),
            ..self
        }
    }

    /// The session with the picture at `k` quarter turns, taken modulo 4.
    pub open spec fn turned(self, k: int) -> CroppedView {
        CroppedView { rotation: k % 4, ..self }
    }

    /// The record that keeps this session.
    pub open spec fn record(self) -> RecordView {
        RecordView {
            given: self.given,
            family: self.family,
            x: self.rect.center_x as int,
            y: self.rect.center_y as int,
            w: self.rect.width as int,
            rotation: self.rotation,
        }
    }
}

/// The rectangle that a picture starts with: centred, and a fifth of the
/// picture wide.
pub open spec fn default_rectangle(width: int, height: int, ratio: AspectRatio) -> CropRectangle {
    CropRectangle {
        center_x: (width / 2) as i32,
        center_y: (height / 2) as i32,
        width: (width / 5) as i32,
        ratio,
    }
}

/// The session that a picture of this size starts with: the names that its
/// path stands for, the default rectangle, no turn.
pub open spec fn fresh(
    path: Seq<char>,
    names: (Seq<char>, Seq<char>),
    width: int,
    height: int,
    ratio: AspectRatio,
) -> CroppedView {
    CroppedView {
        path,
        given: names.0,
        family: names.1,
        rect: default_rectangle(width, height, ratio),
        rotation: 0,
        image_width: width,
        image_height: height,
    }
}

/// What taking up a photograph gives: the fresh session, overridden by the
/// record in the file unless that is to be passed over.
pub open spec fn loaded(
    path: Seq<char>,
    width: int,
    height: int,
    ratio: AspectRatio,
    jpeg_bytes: Seq<u8>,
    strip_old_metadata: bool,
) -> Result<CroppedView, LoadError> {
    match names_of_path(path) {
        None => Err(LoadError::NoFileName),
        Some(names) => match container_parsing(jpeg_bytes) {
            Err(e) => Err(LoadError::Codec(CodecError::Container(e))),
            Ok(segments) => if strip_old_metadata {
                Ok(fresh(path, names, width, height, ratio))
            } else {
                match stored_record(segments) {
                    Err(e) => Err(LoadError::Codec(e)),
                    Ok(None) => Ok(fresh(path, names, width, height, ratio)),
                    Ok(Some(record)) => Ok(
                        fresh(path, names, width, height, ratio).with_record(record),
                    ),
                }
            },
        },
    }
}

/// An outcome of taking up a photograph, with the session by its view.
pub open spec fn load_view(out: Result<Cropped, LoadError>) -> Result<CroppedView, LoadError> {
    match out {
        Ok(session) => Ok(session@),
        Err(e) => Err(e),
    }
}

/// A value as a cast to `u32` leaves it: its remainder modulo 2^32.
pub open spec fn wrapped(v: int) -> int {
    v % 0x1_0000_0000
}

/// The window that a rectangle cuts out: from half a width left of the centre
/// and half a height above it, a width wide and a height high. Each number
/// is taken modulo 2^32, which changes nothing for a rectangle that fits.
pub open spec fn window_of(rect: CropRectangle) -> CropWindow {
    let h = rect.spec_height();
    CropWindow {
        left: wrapped(rect.center_x - truncating_quotient(rect.width as int, 2)) as u32,
        top: wrapped(rect.center_y - truncating_quotient(h, 2)) as u32,
        width: wrapped(rect.width as int) as u32,
        height: wrapped(h) as u32,
    }
}

/// The window of a rectangle that fits its frame is the rectangle itself, and
/// lies inside the frame.
pub proof fn lemma_window_in_frame(rect: CropRectangle, max_w: int, max_h: int)
    requires
        rect.ratio.wf(),
        rect.within_bounds(max_w, max_h),
        max_w <= i32::MAX,
        max_h <= i32::MAX,
    ensures
        window_of(rect).left == rect.center_x - rect.width / 2,
        window_of(rect).top == rect.center_y - rect.spec_height() / 2,
        window_of(rect).width == rect.width,
        window_of(rect).height == rect.spec_height(),
        window_of(rect).left + window_of(rect).width <= max_w,
        window_of(rect).top + window_of(rect).height <= max_h,
{
    crate::geometry::lemma_fits_is_small(
        rect.center_x as int,
        rect.center_y as int,
        rect.width as int,
        rect.ratio,
        max_w,
        max_h,
    );
}

/// Wraps a number as a cast to `u32` does.
fn wrap_u32(v: i64) -> (out: u32)
    ensures
        out == wrapped(v as int),
{
    let m: i64 = 0x1_0000_0000;
    let r: i64 = v % m;
    if r < 0 {
        (r + m) as u32
    } else {
        r as u32
    }
}

/// One photograph in the batch.
#[derive(Debug)]
pub struct Cropped {
    path: String,
    given: String,
    family: String,
    rect: CropRectangle,
    rotation: i8,
    image_width: u32,
    image_height: u32,
}

impl View for Cropped {
    type V = CroppedView;

    closed spec fn view(&self) -> CroppedView {
        CroppedView {
            path: self.path@,
            given: self.given@,
            family: self.family@,
            rect: self.rect,
            rotation: self.rotation as int,
            image_width: self.image_width as int,
            image_height: self.image_height as int,
        }
    }
}

impl Cropped {
    /// The rotation is a number of quarter turns from 0 to 3, and the
    /// picture's sides fit in 31 bits.
    #[verifier::type_invariant]
    pub closed spec fn wf(self) -> bool {
        &&& 0 <= self.rotation <= 3
        &&& self.image_width <= i32::MAX
        &&& self.image_height <= i32::MAX
        &&& self.rect.ratio.wf()
    }

    /// A session for a picture of `width` by `height` pixels that has no
    /// record yet. The names come from the path's file name; there is no
    /// session where the path has none.
    pub fn new(path: &str, width: u32, height: u32, ratio: AspectRatio) -> (out: Option<Cropped>)
        requires
            width <= i32::MAX,
            height <= i32::MAX,
        ensures
            match names_of_path(path@) {
                Some(names) => out matches Some(session) && session.wf() && session@ == fresh(
                    path@,
                    names,
                    width as int,
                    height as int,
                    ratio,
                ),
                None => out is None,
            },
    {
        proof {
            use_type_invariant(&ratio);
        }
        let (given, family) = match filename_to_given_family(path) {
            Some(names) => names,
            None => {
                return None;
            },
        };
        let w: i32 = width as i32;
        let h: i32 = height as i32;
        Some(
            Cropped {
                path: path.to_owned(),
                given,
                family,
                rect: CropRectangle::new(w / 2, h / 2, w / 5, ratio),
                rotation: 0,
                image_width: width,
                image_height: height,
            },
        )
    }

    /// Takes up a photograph: `path` names it, `width` and `height` are those
    /// of its pixels, `jpeg_bytes` is the file. The record in the file, if
    /// there is one, overrides the names and the rectangle that the session
    /// would start with; with `strip_old_metadata` it is passed over.
    pub fn load(
        path: &str,
        width: u32,
        height: u32,
        ratio: AspectRatio,
        jpeg_bytes: &[u8],
        strip_old_metadata: bool,
    ) -> (out: Result<Cropped, LoadError>)
        requires
            width <= i32::MAX,
            height <= i32::MAX,
        ensures
            load_view(out) == loaded(
                path@,
                width as int,
                height as int,
                ratio,
                jpeg_bytes@,
                strip_old_metadata,
            ),
            out matches Ok(session) ==> session.wf(),
    {
        let mut session = match Cropped::new(path, width, height, ratio) {
            Some(session) => session,
            None => {
                return Err(LoadError::NoFileName);
            },
        };
        let mut jpeg = match parse_container(jpeg_bytes) {
            Ok(jpeg) => jpeg,
            Err(e) => {
                return Err(LoadError::Codec(CodecError::Container(e)));
            },
        };
        if strip_old_metadata {
            strip_records(&mut jpeg);
        }
        match read_record(&jpeg) {
            Ok(Some(record)) => {
                session.set_metadata(record);
            },
            Ok(None) => {},
            Err(e) => {
                return Err(LoadError::Codec(e));
            },
        }
        Ok(session)
    }

    /// Takes over a stored record: names, centre, width and rotation.
    pub fn set_metadata(&mut self, record: CropRecord)
        ensures
            final(self).wf(),
            final(self)@ == old(self)@.with_record(record@),
    {
        proof {
            use_type_invariant(&*self);
        }
        let CropRecord { given, family, x, y, w, rotation } = record;
        self.given = given;
        self.family = family;
        self.rect = CropRectangle::new(x, y, w, self.rect.ratio);
        self.rotation = quarter_turns(rotation);
    }

    /// Turns the picture to `k` quarter turns, taken modulo 4. The rectangle
    /// keeps its numbers.
    pub fn set_rotation(&mut self, k: i8)
        ensures
            final(self).wf(),
            final(self)@ == old(self)@.turned(k as int),
    {
        proof {
            use_type_invariant(&*self);
        }
        self.rotation = quarter_turns(k);
    }

    /// One quarter turn to the right.
    pub fn rot_r(&mut self)
        ensures
            final(self).wf(),
            final(self)@ == old(self)@.turned(old(self)@.rotation + 1),
    {
        proof {
            use_type_invariant(&*self);
        }
        let k: i8 = self.rotation + 1;
        self.set_rotation(k);
    }

    /// One quarter turn to the left.
    pub fn rot_l(&mut self)
        ensures
            final(self).wf(),
            final(self)@ == old(self)@.turned(old(self)@.rotation - 1),
    {
        proof {
            use_type_invariant(&*self);
        }
        let k: i8 = self.rotation - 1;
        self.set_rotation(k);
    }

    /// Pushes the rectangle `step` pixels in `direction`, inside the frame of
    /// the turned picture. A push that would leave the frame changes nothing.
    pub fn mutate(&mut self, direction: Direction, step: i32)
        ensures
            final(self).wf(),
            final(self)@ == old(self)@.pushed(direction, step as int),
            old(self)@.in_frame() ==> final(self)@.in_frame(),
            final(self)@ == old(self)@ || final(self)@.in_frame(),
    {
        proof {
            use_type_invariant(&*self);
        }
        let max_w = self.frame_width();
        let max_h = self.frame_height();
        let mut rect = self.rect;
        rect.push(direction, step, max_w, max_h);
        self.rect = rect;
    }

    /// The record that keeps this session: names, centre, width, rotation.
    pub fn record(&self) -> (record: CropRecord)
        ensures
            record@ == self@.record(),
    {
        CropRecord {
            given: self.given.clone(),
            family: self.family.clone(),
            x: self.rect.center_x,
            y: self.rect.center_y,
            w: self.rect.width,
            rotation: self.rotation,
        }
    }

    /// The bytes of the session's photograph with the session's record
    /// written into them. Where the photograph ends in its scan, the new bytes
    /// hold the record, so that taking them up again restores names,
    /// rectangle and rotation.
    pub fn save_metadata(&self, jpeg_bytes: &[u8]) -> (out: Result<Vec<u8>, CodecError>)
        ensures
            written_view(out) == write_record_spec(jpeg_bytes@, self@.record()),
            out matches Ok(bytes) ==> (container_parsing(jpeg_bytes@) matches Ok(segments) && (
            ends_in_scan(segments) ==> (decode_spec(bytes@) matches Ok(Some(r)) && r
                == self@.record()))),
    {
        let record = self.record();
        write_record(jpeg_bytes, &record)
    }

    /// The part of the turned picture that the crop cuts out.
    pub fn crop_window(&self) -> (window: CropWindow)
        ensures
            window == window_of(self@.rect),
            self@.in_frame() ==> {
                &&& window.left == self@.rect.center_x - self@.rect.width / 2
                &&& window.top == self@.rect.center_y - self@.rect.spec_height() / 2
                &&& window.width == self@.rect.width
                &&& window.height == self@.rect.spec_height()
                &&& window.left + window.width <= self@.frame_width()
                &&& window.top + window.height <= self@.frame_height()
            },
    {
        proof {
            use_type_invariant(self);
            if self@.in_frame() {
                lemma_window_in_frame(self@.rect, self@.frame_width(), self@.frame_height());
            }
        }
        let h: i64 = self.rect.height();
        let x: i64 = self.rect.center_x as i64;
        let y: i64 = self.rect.center_y as i64;
        let w: i64 = self.rect.width as i64;
        CropWindow {
            left: wrap_u32(x - w / 2),
            top: wrap_u32(y - h / 2),
            width: wrap_u32(w),
            height: wrap_u32(h),
        }
    }

    /// Width of the picture after its quarter turns.
    pub fn frame_width(&self) -> (w: i32)
        ensures
            w == self@.frame_width(),
    {
        proof {
            use_type_invariant(self);
        }
        if self.rotation == 1 || self.rotation == 3 {
            self.image_height as i32
        } else {
            self.image_width as i32
        }
    }

    /// Height of the picture after its quarter turns.
    pub fn frame_height(&self) -> (h: i32)
        ensures
            h == self@.frame_height(),
    {
        proof {
            use_type_invariant(self);
        }
        if self.rotation == 1 || self.rotation == 3 {
            self.image_width as i32
        } else {
            self.image_height as i32
        }
    }

    /// The path that the photograph was taken up from.
    pub fn path(&self) -> (path: &str)
        ensures
            path@ == self@.path,
    {
        self.path.as_str()
    }

    /// The person's given name.
    pub fn given(&self) -> (given: &str)
        ensures
            given@ == self@.given,
    {
        self.given.as_str()
    }

    /// The person's family name.
    pub fn family(&self) -> (family: &str)
        ensures
            family@ == self@.family,
    {
        self.family.as_str()
    }

    /// The crop rectangle, in the frame of the turned picture.
    pub fn rect(&self) -> (rect: CropRectangle)
        ensures
            rect == self@.rect,
    {
        self.rect
    }

    /// Quarter turns of the picture, from 0 to 3.
    pub fn rotation(&self) -> (rotation: i8)
        ensures
            rotation == self@.rotation,
            0 <= rotation <= 3,
    {
        proof {
            use_type_invariant(self);
        }
        self.rotation
    }

    /// Width of the picture as it was read.
    pub fn image_width(&self) -> (width: u32)
        ensures
            width == self@.image_width,
    {
        self.image_width
    }

    /// Height of the picture as it was read.
    pub fn image_height(&self) -> (height: u32)
        ensures
            height == self@.image_height,
    {
        self.image_height
    }
}

/// A number of quarter turns brought into the range from 0 to 3.
pub fn quarter_turns(k: i8) -> (turns: i8)
    ensures
        turns == k as int % 4,
        0 <= turns <= 3,
{
    let r: i8 = k % 4;
    if r < 0 {
        r + 4
    } else {
        r
    }
}

/// Rotation wraps: a turn to the left of a picture that is not turned brings
/// it to three quarter turns, and otherwise takes one quarter turn off; a
/// turn to the right of a picture at three quarter turns brings it back to
/// none, and otherwise adds one. A turn to one side undoes a turn to the
/// other, and four turns to the same side change nothing.
pub proof fn lemma_rotation_wraps(view: CroppedView)
    requires
        0 <= view.rotation <= 3,
    ensures
        view.turned(view.rotation - 1).rotation == if view.rotation == 0 {
            3
        } else {
            view.rotation - 1
        },
        view.turned(view.rotation + 1).rotation == if view.rotation == 3 {
            0
        } else {
            view.rotation + 1
        },
        view.turned(view.rotation - 1).turned(view.turned(view.rotation - 1).rotation + 1) == view,
        view.turned(view.rotation + 1).turned(view.turned(view.rotation + 1).rotation - 1) == view,
        view.turned(view.rotation - 4) == view,
        view.turned(view.rotation + 4) == view,
        view.turned(view.rotation) == view,
{
}

/// A session's record restores it: taken over by a fresh session for the
/// same picture, it gives back names, rectangle and rotation.
pub proof fn lemma_record_restores(
    view: CroppedView,
    path: Seq<char>,
    names: (Seq<char>, Seq<char>),
)
    requires
        0 <= view.rotation <= 3,
    ensures
        fresh(path, names, view.image_width, view.image_height, view.rect.ratio).with_record(
            view.record(),
        ) == (CroppedView { path, ..view }),
{
}

/// A turn changes nothing but the rotation: names, rectangle and picture
/// stay as they were.
pub proof fn lemma_turned_keeps_the_rest(view: CroppedView, k: int)
    ensures
        0 <= view.turned(k).rotation <= 3,
        view.turned(k).rect == view.rect,
        view.turned(k).given == view.given,
        view.turned(k).family == view.family,
        view.turned(k).path == view.path,
        view.turned(k).image_width == view.image_width,
        view.turned(k).image_height == view.image_height,
{
}

/// A push keeps a session in its frame: a rectangle that satisfies the
/// bounds invariant satisfies it after any push, and a push that is turned
/// down changes nothing at all.
pub proof fn lemma_pushed_stays_in_frame(view: CroppedView, direction: Direction, step: int)
    requires
        view.rect.ratio.wf(),
        view.frame_width() <= i32::MAX,
        view.frame_height() <= i32::MAX,
    ensures
        view.in_frame() ==> view.pushed(direction, step).in_frame(),
        view.pushed(direction, step) == view || view.pushed(direction, step).in_frame(),
        view.pushed(direction, step).rotation == view.rotation,
        step == 0 ==> view.pushed(direction, step) == view,
{
    view.rect.lemma_pushed(direction, step, view.frame_width(), view.frame_height());
}

} // verus!
