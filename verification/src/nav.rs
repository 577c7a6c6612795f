//! Navigation state: the ordered image collection, the current position,
//! the zoom factor, and the resident decoded image.
//!
//! The zoom factor is a multiplier on top of the fit-to-viewport scale,
//! carried in thousandths (`1000` means exact fit), and is always kept in
//! `[ZOOM_MIN_MILLI, ZOOM_MAX_MILLI]`.

use vstd::prelude::*;
use vstd::arithmetic::div_mod::{lemma_small_mod, lemma_mod_add_multiples_vanish, lemma_mod_self_0};
use vstd::arithmetic::mul::lemma_mul_upper_bound;

verus! {

/// Smallest admissible zoom, in thousandths (0.1 times fit).
pub const ZOOM_MIN_MILLI: u32 = 100;

/// Largest admissible zoom, in thousandths (5 times fit).
pub const ZOOM_MAX_MILLI: u32 = 5000;

/// The zoom value that means "exactly fit to the viewport".
pub const ZOOM_UNIT_MILLI: u32 = 1000;

/// Largest admissible width or height, in samples, of a decoded image.
pub const MAX_DIMENSION: u32 = 65535;

/// A zoom value forced into the admissible range.
pub open spec fn clamped_zoom(v: int) -> int {
    if v < ZOOM_MIN_MILLI as int {
        ZOOM_MIN_MILLI as int
    } else if v > ZOOM_MAX_MILLI as int {
        ZOOM_MAX_MILLI as int
    } else {
        v
    }
}

/// The position after one step forward, wrapping from the last index to 0.
pub open spec fn next_position(p: int, n: int) -> int {
    if n <= 0 {
        p
    } else {
        (p + 1) % n
    }
}

/// The position after one step backward, wrapping from 0 to the last index.
pub open spec fn prev_position(p: int, n: int) -> int {
    if n <= 0 {
        p
    } else {
        (p + n - 1) % n
    }
}

/// Why a collection could not be loaded.
#[derive(Clone, Copy, Debug, PartialEq, Eq, Structural)]
pub enum LoadError {
    /// The candidate list held no images at all.
    EmptyCollection,
}

/// The navigation state of the viewer.
///
/// The collection is an ordered list of image identifiers (file paths),
/// established by `load_collection` and immutable until the next load.
/// At most one decoded image is resident: `image_data` holds tightly packed
/// RGBA samples, 4 bytes per pixel, row-major, for the image most recently
/// installed by `install_decoded`.
pub struct Session {
    /// Ordered identifiers of the images of the open folder.
    pub images: Vec<String>,
    /// Index of the selected image; 0 when the collection is empty.
    pub position: usize,
    /// Current zoom factor in thousandths.
    pub zoom_milli: u32,
    /// RGBA samples of the resident decoded image.
    pub image_data: Vec<u8>,
    /// Width in samples of the resident decoded image.
    pub image_width: u32,
    /// Height in samples of the resident decoded image.
    pub image_height: u32,
}

impl Session {
    /// Well-formedness: the position indexes the collection whenever it is
    /// non-empty, the zoom is in range, and the resident buffer matches its
    /// declared dimensions.
    pub open spec fn wf(self) -> bool {
        &&& ZOOM_MIN_MILLI <= self.zoom_milli <= ZOOM_MAX_MILLI
        &&& (self.images@.len() > 0 ==> self.position < self.images@.len())
        &&& (self.images@.len() == 0 ==> self.position == 0)
        &&& self.image_data@.len() == 4 * (self.image_width as int) * (self.image_height as int)
        &&& self.image_width <= MAX_DIMENSION
        &&& self.image_height <= MAX_DIMENSION
    }

    /// Active means a non-empty collection is loaded; the empty collection is
    /// the terminal "no image" state.
    pub open spec fn is_active(self) -> bool {
        self.images@.len() > 0
    }

    /// A fresh, inactive session: no collection, no resident image, zoom at
    /// exact fit.
    pub fn new() -> (s: Session)
        ensures
            s.wf(),
            !s.is_active(),
            s.position == 0,
            s.zoom_milli == ZOOM_UNIT_MILLI,
            s.image_data@.len() == 0,
            s.image_width == 0,
            s.image_height == 0,
    {
        Session {
            images: Vec::new(),
            position: 0,
            zoom_milli: ZOOM_UNIT_MILLI,
            image_data: Vec::new(),
            image_width: 0,
            image_height: 0,
        }
    }

    /// Replaces the collection. Fails with `EmptyCollection` on an empty
    /// candidate list, leaving the state untouched. On success the position
    /// is the first index whose identifier equals `selected` (0 when absent),
    /// the zoom returns to exact fit, and the resident decoded image is kept
    /// until the caller installs the freshly decoded one.
    pub fn load_collection(&mut self, new_list: Vec<String>, selected: &String) -> (r: Result<
        (),
        LoadError,
    >)
        requires
            old(self).wf(),
        ensures
            final(self).wf(),
            new_list@.len() == 0 ==> {
                &&& r == Err::<(), LoadError>(LoadError::EmptyCollection)
                &&& *final(self) == *old(self)
            },
            new_list@.len() > 0 ==> {
                &&& r == Ok::<(), LoadError>(())
                &&& final(self).images == new_list
                &&& final(self).zoom_milli == ZOOM_UNIT_MILLI
                &&& final(self).image_data == old(self).image_data
                &&& final(self).image_width == old(self).image_width
                &&& final(self).image_height == old(self).image_height
                &&& final(self).position < new_list@.len()
                &&& (forall|j: int|
                    0 <= j < final(self).position ==> new_list@[j]@ != selected@)
                &&& (new_list@[final(self).position as int]@ == selected@ || (
                final(self).position == 0 && forall|j: int|
                    0 <= j < new_list@.len() ==> new_list@[j]@ != selected@))
            },
    {
        let n: usize = new_list.len();
        if n == 0 {
            return Err(LoadError::EmptyCollection);
        }
        let mut i: usize = 0;
        let mut pos: usize = 0;
        let mut seen: bool = false;
        while i < n
            invariant
                n == new_list@.len(),
                i <= n,
                seen ==> {
                    &&& pos < i
                    &&& new_list@[pos as int]@ == selected@
                    &&& forall|j: int| 0 <= j < pos ==> new_list@[j]@ != selected@
                },
                !seen ==> {
                    &&& pos == 0
                    &&& forall|j: int| 0 <= j < i ==> new_list@[j]@ != selected@
                },
            decreases n - i,
        {
            if !seen {
                if new_list[i] == *selected {
                    pos = i;
                    seen = true;
                }
            }
            i += 1;
        }
        self.images = new_list;
        self.position = pos;
        self.zoom_milli = ZOOM_UNIT_MILLI;
        Ok(())
    }

    /// Steps to the next image, wrapping to the first after the last, and
    /// returns the zoom to exact fit. A no-op on an empty collection.
    pub fn advance(&mut self)
        requires
            old(self).wf(),
        ensures
            final(self).wf(),
            final(self).images == old(self).images,
            final(self).image_data == old(self).image_data,
            final(self).image_width == old(self).image_width,
            final(self).image_height == old(self).image_height,
            old(self).is_active() ==> {
                &&& final(self).position == next_position(
                    old(self).position as int,
                    old(self).images@.len() as int,
                )
                &&& final(self).zoom_milli == ZOOM_UNIT_MILLI
            },
            !old(self).is_active() ==> *final(self) == *old(self),
    {
        let n: usize = self.images.len();
        if n > 0 {
            self.position = (self.position + 1) % n;
            self.zoom_milli = ZOOM_UNIT_MILLI;
        }
    }

    /// Steps to the previous image, wrapping to the last before the first,
    /// and returns the zoom to exact fit. A no-op on an empty collection.
    pub fn retreat(&mut self)
        requires
            old(self).wf(),
        ensures
            final(self).wf(),
            final(self).images == old(self).images,
            final(self).image_data == old(self).image_data,
            final(self).image_width == old(self).image_width,
            final(self).image_height == old(self).image_height,
            old(self).is_active() ==> {
                &&& final(self).position == prev_position(
                    old(self).position as int,
                    old(self).images@.len() as int,
                )
                &&& final(self).zoom_milli == ZOOM_UNIT_MILLI
            },
            !old(self).is_active() ==> *final(self) == *old(self),
    {
        let n: usize = self.images.len();
        if n > 0 {
            proof {
                let p = old(self).position as int;
                let ni = n as int;
                if p == 0 {
                    lemma_small_mod((ni - 1) as nat, ni as nat);
                } else {
                    lemma_mod_add_multiples_vanish(p - 1, ni);
                    lemma_small_mod((p - 1) as nat, ni as nat);
                }
            }
            if self.position == 0 {
                self.position = n - 1;
            } else {
                self.position = self.position - 1;
            }
            self.zoom_milli = ZOOM_UNIT_MILLI;
        }
    }

    /// Multiplies the zoom by `multiplier_milli` (in thousandths, truncating)
    /// and clamps the product into the admissible range. A step of `1100`
    /// zooms in by one proportional notch, `900` zooms out by one.
    pub fn apply_zoom_delta(&mut self, multiplier_milli: u32)
        requires
            old(self).wf(),
        ensures
            final(self).wf(),
            final(self).zoom_milli == clamped_zoom(
                (old(self).zoom_milli as int * multiplier_milli as int) / 1000,
            ),
            final(self).images == old(self).images,
            final(self).position == old(self).position,
            final(self).image_data == old(self).image_data,
            final(self).image_width == old(self).image_width,
            final(self).image_height == old(self).image_height,
    {
        proof {
            lemma_mul_upper_bound(
                self.zoom_milli as int,
                ZOOM_MAX_MILLI as int,
                multiplier_milli as int,
                u32::MAX as int,
            );
        }
        let scaled: u64 = (self.zoom_milli as u64) * (multiplier_milli as u64) / 1000;
        self.zoom_milli = if scaled < ZOOM_MIN_MILLI as u64 {
            ZOOM_MIN_MILLI
        } else if scaled > ZOOM_MAX_MILLI as u64 {
            ZOOM_MAX_MILLI
        } else {
            scaled as u32
        };
    }

    /// Sets the zoom to `value_milli` clamped into the admissible range;
    /// used for direct slider assignment.
    pub fn set_zoom_absolute(&mut self, value_milli: u32)
        requires
            old(self).wf(),
        ensures
            final(self).wf(),
            final(self).zoom_milli == clamped_zoom(value_milli as int),
            final(self).images == old(self).images,
            final(self).position == old(self).position,
            final(self).image_data == old(self).image_data,
            final(self).image_width == old(self).image_width,
            final(self).image_height == old(self).image_height,
    {
        self.zoom_milli = if value_milli < ZOOM_MIN_MILLI {
            ZOOM_MIN_MILLI
        } else if value_milli > ZOOM_MAX_MILLI {
            ZOOM_MAX_MILLI
        } else {
            value_milli
        };
    }

    /// Sets the zoom back to exact fit.
    pub fn reset_zoom(&mut self)
        requires
            old(self).wf(),
        ensures
            final(self).wf(),
            final(self).zoom_milli == ZOOM_UNIT_MILLI,
            final(self).images == old(self).images,
            final(self).position == old(self).position,
            final(self).image_data == old(self).image_data,
            final(self).image_width == old(self).image_width,
            final(self).image_height == old(self).image_height,
    {
        self.zoom_milli = ZOOM_UNIT_MILLI;
    }

    /// Installs a freshly decoded image: `data` must hold exactly
    /// `4 * width * height` RGBA bytes and the dimensions must be admissible,
    /// else nothing changes and `false` is returned (the previous resident
    /// image then stays on display, which is this library's documented
    /// fallback after a decode failure).
    pub fn install_decoded(&mut self, data: Vec<u8>, width: u32, height: u32) -> (ok: bool)
        requires
            old(self).wf(),
        ensures
            final(self).wf(),
            final(self).images == old(self).images,
            final(self).position == old(self).position,
            final(self).zoom_milli == old(self).zoom_milli,
            ok <==> (data@.len() == 4 * (width as int) * (height as int) && width <= MAX_DIMENSION
                && height <= MAX_DIMENSION),
            ok ==> {
                &&& final(self).image_data == data
                &&& final(self).image_width == width
                &&& final(self).image_height == height
            },
            !ok ==> {
                &&& final(self).image_data == old(self).image_data
                &&& final(self).image_width == old(self).image_width
                &&& final(self).image_height == old(self).image_height
            },
    {
        if width <= MAX_DIMENSION && height <= MAX_DIMENSION {
            proof {
                lemma_mul_upper_bound(
                    width as int,
                    MAX_DIMENSION as int,
                    height as int,
                    MAX_DIMENSION as int,
                );
            }
            let expected: u64 = (width as u64) * (height as u64) * 4;
            proof {
                assert((width as int) * (height as int) * 4 == 4 * (width as int) * (height
                    as int)) by (nonlinear_arith);
            }
            if (data.len() as u64) == expected {
                self.image_data = data;
                self.image_width = width;
                self.image_height = height;
                return true;
            }
        }
        false
    }

    /// The current zoom factor in thousandths.
    pub fn current_zoom(&self) -> (z: u32)
        ensures
            z == self.zoom_milli,
    {
        self.zoom_milli
    }

    /// The identifier of the selected image, its 1-based position, and the
    /// collection size, for surrounding chrome such as a title bar.
    pub fn current_title_info(&self) -> (info: (String, usize, usize))
        requires
            self.wf(),
            self.is_active(),
        ensures
            info.0@ == self.images@[self.position as int]@,
            info.1 == self.position + 1,
            info.2 == self.images@.len(),
    {
        let total: usize = self.images.len();
        let name: String = self.images[self.position].clone();
        (name, self.position + 1, total)
    }
}

/// An input event consumed by the navigation state machine. The surrounding
/// presentation layer translates device input into these and owns whatever
/// the event does not change here (such as the destination buffer size).
#[derive(Clone, Copy, Debug, PartialEq, Eq, Structural)]
pub enum NavEvent {
    /// Go to the next image.
    Next,
    /// Go to the previous image.
    Previous,
    /// Multiply the zoom by this factor in thousandths.
    ZoomDelta(u32),
    /// Set the zoom to this absolute value in thousandths.
    ZoomAbsolute(u32),
    /// Return the zoom to exact fit.
    ResetZoom,
    /// The destination buffer now has these dimensions.
    Resize(u32, u32),
    /// The user asked to open another folder.
    OpenRequested,
}

/// What the caller must do after an event has been applied.
#[derive(Clone, Copy, Debug, PartialEq, Eq, Structural)]
pub enum Action {
    /// Composite the resident image into the destination buffer again.
    Repaint,
    /// Decode the image now selected, install it, then repaint.
    DecodeThenRepaint,
    /// Run the folder picker and load the chosen collection.
    OpenDialog,
}

impl Session {
    /// Applies one event to the session and says what the caller must do
    /// next. Navigation events are no-ops without a loaded collection; zoom
    /// and resize events always ask for a repaint; a resize changes nothing
    /// here, since the destination buffer belongs to the caller.
    pub fn handle_event(&mut self, event: NavEvent) -> (action: Option<Action>)
        requires
            old(self).wf(),
        ensures
            final(self).wf(),
            final(self).images == old(self).images,
            final(self).image_data == old(self).image_data,
            final(self).image_width == old(self).image_width,
            final(self).image_height == old(self).image_height,
            match event {
                NavEvent::Next => {
                    &&& (old(self).is_active() ==> {
                        &&& final(self).position == next_position(
                            old(self).position as int,
                            old(self).images@.len() as int,
                        )
                        &&& final(self).zoom_milli == ZOOM_UNIT_MILLI
                        &&& action == Some(Action::DecodeThenRepaint)
                    })
                    &&& (!old(self).is_active() ==> *final(self) == *old(self) && action
                        == None::<Action>)
                },
                NavEvent::Previous => {
                    &&& (old(self).is_active() ==> {
                        &&& final(self).position == prev_position(
                            old(self).position as int,
                            old(self).images@.len() as int,
                        )
                        &&& final(self).zoom_milli == ZOOM_UNIT_MILLI
                        &&& action == Some(Action::DecodeThenRepaint)
                    })
                    &&& (!old(self).is_active() ==> *final(self) == *old(self) && action
                        == None::<Action>)
                },
                NavEvent::ZoomDelta(m) => {
                    &&& final(self).position == old(self).position
                    &&& final(self).zoom_milli == clamped_zoom(
                        (old(self).zoom_milli as int * m as int) / 1000,
                    )
                    &&& action == Some(Action::Repaint)
                },
                NavEvent::ZoomAbsolute(v) => {
                    &&& final(self).position == old(self).position
                    &&& final(self).zoom_milli == clamped_zoom(v as int)
                    &&& action == Some(Action::Repaint)
                },
                NavEvent::ResetZoom => {
                    &&& final(self).position == old(self).position
                    &&& final(self).zoom_milli == ZOOM_UNIT_MILLI
                    &&& action == Some(Action::Repaint)
                },
                NavEvent::Resize(_, _) => {
                    &&& *final(self) == *old(self)
                    &&& action == Some(Action::Repaint)
                },
                NavEvent::OpenRequested => {
                    &&& *final(self) == *old(self)
                    &&& action == Some(Action::OpenDialog)
                },
            },
    {
        match event {
            NavEvent::Next => {
                if self.images.len() > 0 {
                    self.advance();
                    Some(Action::DecodeThenRepaint)
                } else {
                    None
                }
            },
            NavEvent::Previous => {
                if self.images.len() > 0 {
                    self.retreat();
                    Some(Action::DecodeThenRepaint)
                } else {
                    None
                }
            },
            NavEvent::ZoomDelta(m) => {
                self.apply_zoom_delta(m);
                Some(Action::Repaint)
            },
            NavEvent::ZoomAbsolute(v) => {
                self.set_zoom_absolute(v);
                Some(Action::Repaint)
            },
            NavEvent::ResetZoom => {
                self.reset_zoom();
                Some(Action::Repaint)
            },
            NavEvent::Resize(_, _) => Some(Action::Repaint),
            NavEvent::OpenRequested => Some(Action::OpenDialog),
        }
    }
}

/// Law: on a non-empty collection, advancing and then retreating — or
/// retreating and then advancing — returns any valid position to itself.
pub proof fn lemma_advance_retreat_inverse(p: int, n: int)
    requires
        0 <= p < n,
    ensures
        prev_position(next_position(p, n), n) == p,
        next_position(prev_position(p, n), n) == p,
{
    if p + 1 == n {
        lemma_mod_self_0(n);
        lemma_small_mod((n - 1) as nat, n as nat);
    } else {
        lemma_small_mod((p + 1) as nat, n as nat);
        lemma_mod_add_multiples_vanish(p, n);
        lemma_small_mod(p as nat, n as nat);
    }
    if p == 0 {
        lemma_small_mod((n - 1) as nat, n as nat);
        lemma_mod_self_0(n);
    } else {
        lemma_mod_add_multiples_vanish(p - 1, n);
        lemma_small_mod((p - 1) as nat, n as nat);
        lemma_small_mod(p as nat, n as nat);
    }
}

/// Law: advancing from the last index wraps to 0, and retreating from 0
/// wraps to the last index.
pub proof fn lemma_wrap_at_ends(n: int)
    requires
        1 <= n,
    ensures
        next_position(n - 1, n) == 0,
        prev_position(0, n) == n - 1,
{
    lemma_mod_self_0(n);
    lemma_small_mod((n - 1) as nat, n as nat);
}

/// Law: a clamped zoom always lies in the admissible range, whatever the
/// requested value.
pub proof fn lemma_zoom_clamped_in_range(v: int)
    ensures
        ZOOM_MIN_MILLI <= clamped_zoom(v) <= ZOOM_MAX_MILLI,
{
}

} // verus!
