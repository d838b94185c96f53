//! The browser driver: the application state that owns the photo list and
//! the index of the photo being shown, and the guarded navigation over it.
//!
//! Navigation is clamped: stepping back at the first photo and stepping
//! forward at the last are no-ops, never an underflow or overflow.  On a
//! transition that does move the index, the driver hands back the new path so
//! the caller can read and decode it; the `filename` label then reflects the
//! path whose load was last initiated, which may run ahead of the pixels on
//! screen until the resize completes.

use vstd::prelude::*;

use crate::decode::decode_pixels;
use crate::decode::image_decode_of;
use crate::decode::PixelBuffer;
use crate::listing::image_listing;
use crate::listing::list_images;
use crate::listing::views;
use crate::ErrorKind;

verus! {

/// Where a clamped forward step lands: one to the right, unless that would
/// leave the list.
pub open spec fn spec_advance(i: int, len: int) -> int {
    if i + 1 < len {
        i + 1
    } else {
        i
    }
}

/// Where a clamped backward step lands: one to the left, stopping at zero.
pub open spec fn spec_retreat(i: int) -> int {
    if i >= 1 {
        i - 1
    } else {
        0
    }
}

/// Law: wherever a forward step moves the index, stepping back returns to
/// the start, and the other way round; at the two clamped boundaries the
/// guarded step is a no-op.
pub proof fn lemma_navigation_round_trip(i: int, len: int)
    requires
        0 <= i < len,
    ensures
        i + 1 < len ==> spec_retreat(spec_advance(i, len)) == i,
        i >= 1 ==> spec_advance(spec_retreat(i), len) == i,
        i + 1 >= len ==> spec_advance(i, len) == i,
        i == 0 ==> spec_retreat(i) == i,
{
}

/// Copy a path's bytes.
fn clone_path(v: &Vec<u8>) -> (r: Vec<u8>)
    ensures
        r@ == v@,
{
    let r = v.clone();
    proof {
        assert forall|i: int| 0 <= i < v@.len() implies r@[i] == v@[i] by {
            assert(cloned::<u8>(v@[i], r@[i]));
        }
        assert(v@ =~= r@);
    }
    r
}

/// The application state the render loop owns: the running flag, the demo
/// counter, the photo list from the last directory scan, and the navigation
/// bookkeeping.
pub struct App {
    pub running: bool,
    pub counter: u8,
    pub dir_list: Vec<Vec<u8>>,
    pub list_of_here: Vec<Vec<u8>>,
    pub photo_count: usize,
    pub current_photo: usize,
    pub filename: Vec<u8>,
}

/// Saturating add on the demo counter.
pub open spec fn sat_add(c: u8, d: u8) -> u8 {
    if c + d > 255 {
        255u8
    } else {
        (c + d) as u8
    }
}

/// Saturating subtract on the demo counter.
pub open spec fn sat_sub(c: u8, d: u8) -> u8 {
    if c >= d {
        (c - d) as u8
    } else {
        0u8
    }
}

impl App {
    /// The index always points into the photo list, and at zero while the
    /// list is empty.
    pub open spec fn wf(self) -> bool {
        if self.list_of_here@.len() == 0 {
            self.current_photo == 0
        } else {
            self.current_photo < self.list_of_here@.len()
        }
    }

    /// A fresh state: running, with nothing listed yet.
    pub fn new() -> (r: Self)
        ensures
            r.running,
            r.counter == 0,
            r.dir_list@.len() == 0,
            r.list_of_here@.len() == 0,
            r.photo_count == 0,
            r.current_photo == 0,
            r.filename@.len() == 0,
            r.wf(),
    {
        App {
            running: true,
            counter: 0,
            dir_list: Vec::new(),
            list_of_here: Vec::new(),
            photo_count: 0,
            current_photo: 0,
            filename: Vec::new(),
        }
    }

    /// A fixed-rate tick; nothing to update here.
    pub fn tick(&self) {
    }

    /// Stop the main loop.
    pub fn quit(&mut self)
        ensures
            *final(self) == (App { running: false, ..*old(self) }),
    {
        self.running = false;
    }

    pub fn increment_counter(&mut self)
        ensures
            *final(self) == (App { counter: sat_add(old(self).counter, 1), ..*old(self) }),
    {
        if self.counter < 255 {
            self.counter = self.counter + 1;
        }
    }

    pub fn decrement_counter(&mut self)
        ensures
            *final(self) == (App { counter: sat_sub(old(self).counter, 1), ..*old(self) }),
    {
        if self.counter > 0 {
            self.counter = self.counter - 1;
        }
    }

    pub fn double_counter(&mut self)
        ensures
            *final(self) == (App { counter: sat_add(old(self).counter, 2), ..*old(self) }),
    {
        if self.counter < 254 {
            self.counter = self.counter + 2;
        } else {
            self.counter = 255;
        }
    }

    /// The compute half of a directory scan: keep the image entries of what
    /// the caller read, sorted.  Bumps the demo counter as a scan always did.
    pub fn show_dir(&mut self, entries: Vec<Vec<u8>>) -> (r: Vec<Vec<u8>>)
        ensures
            views(r@) == image_listing(views(entries@)),
            *final(self) == (App { counter: sat_add(old(self).counter, 1), ..*old(self) }),
    {
        let images = list_images(entries);
        self.increment_counter();
        images
    }

    /// Install the photo list of a directory scan.  Both list fields hold
    /// the sorted image entries; the index is clamped into the new list so
    /// navigation stays guarded.
    pub fn list_dir_into_text(&mut self, entries: Vec<Vec<u8>>)
        ensures
            views(final(self).list_of_here@) == image_listing(views(entries@)),
            views(final(self).dir_list@) == image_listing(views(entries@)),
            final(self).counter == sat_add(sat_add(old(self).counter, 1), 1),
            final(self).running == old(self).running,
            final(self).filename == old(self).filename,
            final(self).photo_count == old(self).photo_count,
            final(self).current_photo == ({
                let n = image_listing(views(entries@)).len();
                if n == 0 {
                    0int
                } else if old(self).current_photo < n {
                    old(self).current_photo as int
                } else {
                    n - 1
                }
            }),
            final(self).wf(),
    {
        let stuff = self.show_dir(entries);
        let copy = clone_paths(&stuff);
        self.dir_list = copy;
        self.increment_counter();
        self.list_of_here = stuff;
        if self.list_of_here.len() == 0 {
            self.current_photo = 0;
        } else if self.current_photo >= self.list_of_here.len() {
            self.current_photo = self.list_of_here.len() - 1;
        }
    }

    /// The path of the photo the index points at; also refreshes the photo
    /// count from the list.
    pub fn one_by_one(&mut self) -> (r: Vec<u8>)
        requires
            old(self).wf(),
            old(self).list_of_here@.len() > 0,
        ensures
            r@ == old(self).list_of_here@[old(self).current_photo as int]@,
            final(self).photo_count == old(self).list_of_here@.len(),
            *final(self) == (App { photo_count: final(self).photo_count, ..*old(self) }),
    {
        self.photo_count = self.list_of_here.len();
        let c_p = self.current_photo;
        clone_path(&self.list_of_here[c_p])
    }

    /// Step forward, clamped at the end of the list.
    pub fn advance(&mut self)
        requires
            old(self).wf(),
        ensures
            final(self).current_photo == spec_advance(
                old(self).current_photo as int,
                old(self).list_of_here@.len() as int,
            ),
            *final(self) == (App { current_photo: final(self).current_photo, ..*old(self) }),
            final(self).wf(),
    {
        let len = self.list_of_here.len();
        if self.current_photo + 1 < len {
            self.current_photo = self.current_photo + 1;
        }
    }

    /// Step backward, clamped at zero.
    pub fn retreat(&mut self)
        requires
            old(self).wf(),
        ensures
            final(self).current_photo == spec_retreat(old(self).current_photo as int),
            *final(self) == (App { current_photo: final(self).current_photo, ..*old(self) }),
            final(self).wf(),
    {
        if self.current_photo > 0 {
            self.current_photo = self.current_photo - 1;
        }
    }

    /// Navigate to the next photo.  When the guarded step moves the index,
    /// the new path is returned for the caller to read and then decode with
    /// `load_new_image_thread`; at the clamped boundary nothing changes and
    /// nothing is loaded.
    pub fn go_up_image(&mut self) -> (r: Option<Vec<u8>>)
        requires
            old(self).wf(),
        ensures
            final(self).wf(),
            old(self).current_photo + 1 < old(self).list_of_here@.len() ==> ({
                let i = old(self).current_photo + 1;
                &&& *final(self) == (App { current_photo: final(self).current_photo, ..*old(
                    self,
                ) })
                &&& final(self).current_photo == i
                &&& r matches Some(p) && p@ == old(self).list_of_here@[i as int]@
            }),
            old(self).current_photo + 1 >= old(self).list_of_here@.len() ==> r is None
                && *final(self) == *old(self),
    {
        let len = self.list_of_here.len();
        if self.current_photo + 1 < len {
            self.current_photo = self.current_photo + 1;
            Some(clone_path(&self.list_of_here[self.current_photo]))
        } else {
            None
        }
    }

    /// Navigate to the previous photo, with the same contract shape as
    /// `go_up_image`: clamped at the first photo.
    pub fn go_down_image(&mut self) -> (r: Option<Vec<u8>>)
        requires
            old(self).wf(),
        ensures
            final(self).wf(),
            old(self).current_photo >= 1 ==> ({
                let i = old(self).current_photo - 1;
                &&& *final(self) == (App { current_photo: final(self).current_photo, ..*old(
                    self,
                ) })
                &&& final(self).current_photo == i
                &&& r matches Some(p) && p@ == old(self).list_of_here@[i as int]@
            }),
            old(self).current_photo == 0 ==> r is None && *final(self) == *old(self),
    {
        if self.current_photo > 0 {
            self.current_photo = self.current_photo - 1;
            Some(clone_path(&self.list_of_here[self.current_photo]))
        } else {
            None
        }
    }

    /// The compute half of loading the photo the index points at: record its
    /// path as the displayed label — the label runs ahead of the pixels on
    /// screen — and decode the bytes the caller read from that path.  A
    /// decode failure is returned, never a crash, so the caller can record
    /// it and keep the previous frame.
    pub fn load_new_image_thread(&mut self, bytes: &Vec<u8>) -> (r: Result<
        PixelBuffer,
        ErrorKind,
    >)
        requires
            old(self).wf(),
            old(self).list_of_here@.len() > 0,
        ensures
            final(self).wf(),
            final(self).filename@ == old(self).list_of_here@[old(self).current_photo as int]@,
            final(self).photo_count == old(self).list_of_here@.len(),
            final(self).current_photo == old(self).current_photo,
            final(self).running == old(self).running,
            final(self).counter == old(self).counter,
            final(self).list_of_here == old(self).list_of_here,
            final(self).dir_list == old(self).dir_list,
            (match r {
                Ok(p) => image_decode_of(bytes@) == Some(
                    (p.width as nat, p.height as nat, p.data@),
                ) && p.wf(),
                Err(e) => e == ErrorKind::DecodeError && image_decode_of(bytes@) is None,
            }),
    {
        let img_path = self.one_by_one();
        self.filename = img_path;
        decode_pixels(bytes)
    }

    /// Switching to the image screen needs no preparation; it always
    /// succeeds.
    pub fn show_image_screen(&mut self) -> (r: Result<(), ErrorKind>)
        ensures
            r is Ok,
            *final(self) == *old(self),
    {
        Ok(())
    }

    /// The label the render surface shows: the path whose load was last
    /// initiated.
    pub fn display_label(&self) -> (r: Vec<u8>)
        ensures
            r@ == self.filename@,
    {
        clone_path(&self.filename)
    }
}

/// The abstract intents the key-decoding layer hands the driver; no raw key
/// codes reach the core.
#[derive(Clone, Copy, PartialEq, Eq, Structural, Debug)]
pub enum Intent {
    Next,
    Prev,
    Quit,
    RefreshList,
    Increment,
    Decrement,
    Double,
}

/// What the caller must do after a transition: nothing, read and decode the
/// returned path, or rescan the directory and install the listing.
pub enum Action {
    Stay,
    Load(Vec<u8>),
    Rescan,
}

impl App {
    /// The driver's transition function: from state and intent to next state
    /// and the outside action the caller performs.  Navigation is guarded as
    /// in `go_up_image` and `go_down_image`; a rescan's reading is the
    /// caller's, so `RefreshList` only asks for it.
    pub fn handle_intent(&mut self, intent: Intent) -> (r: Action)
        requires
            old(self).wf(),
        ensures
            final(self).wf(),
            (match intent {
                Intent::Quit => r is Stay && *final(self) == (App {
                    running: false,
                    ..*old(self)
                }),
                Intent::Increment => r is Stay && *final(self) == (App {
                    counter: sat_add(old(self).counter, 1),
                    ..*old(self)
                }),
                Intent::Decrement => r is Stay && *final(self) == (App {
                    counter: sat_sub(old(self).counter, 1),
                    ..*old(self)
                }),
                Intent::Double => r is Stay && *final(self) == (App {
                    counter: sat_add(old(self).counter, 2),
                    ..*old(self)
                }),
                Intent::RefreshList => r is Rescan && *final(self) == *old(self),
                Intent::Next => {
                    &&& (old(self).current_photo + 1 < old(self).list_of_here@.len() ==> ({
                        let i = old(self).current_photo + 1;
                        &&& *final(self) == (App {
                            current_photo: final(self).current_photo,
                            ..*old(self)
                        })
                        &&& final(self).current_photo == i
                        &&& r matches Action::Load(p) && p@ == old(self).list_of_here@[i as int]@
                    }))
                    &&& (old(self).current_photo + 1 >= old(self).list_of_here@.len() ==> r
                        is Stay && *final(self) == *old(self))
                },
                Intent::Prev => {
                    &&& (old(self).current_photo >= 1 ==> ({
                        let i = old(self).current_photo - 1;
                        &&& *final(self) == (App {
                            current_photo: final(self).current_photo,
                            ..*old(self)
                        })
                        &&& final(self).current_photo == i
                        &&& r matches Action::Load(p) && p@ == old(self).list_of_here@[i as int]@
                    }))
                    &&& (old(self).current_photo == 0 ==> r is Stay && *final(self) == *old(
                        self,
                    ))
                },
            }),
    {
        match intent {
            Intent::Quit => {
                self.quit();
                Action::Stay
            },
            Intent::Increment => {
                self.increment_counter();
                Action::Stay
            },
            Intent::Decrement => {
                self.decrement_counter();
                Action::Stay
            },
            Intent::Double => {
                self.double_counter();
                Action::Stay
            },
            Intent::RefreshList => Action::Rescan,
            Intent::Next => {
                match self.go_up_image() {
                    Some(p) => Action::Load(p),
                    None => Action::Stay,
                }
            },
            Intent::Prev => {
                match self.go_down_image() {
                    Some(p) => Action::Load(p),
                    None => Action::Stay,
                }
            },
        }
    }
}

impl Default for App {
    /// The same fresh state `new` builds.
    fn default() -> (r: Self)
        ensures
            r.running,
            r.counter == 0,
            r.dir_list@.len() == 0,
            r.list_of_here@.len() == 0,
            r.photo_count == 0,
            r.current_photo == 0,
            r.filename@.len() == 0,
            r.wf(),
    {
        Self::new()
    }
}

/// Copy a list of paths.
fn clone_paths(v: &Vec<Vec<u8>>) -> (r: Vec<Vec<u8>>)
    ensures
        views(r@) == views(v@),
{
    let mut r: Vec<Vec<u8>> = Vec::new();
    let mut i: usize = 0;
    proof {
        assert(views(r@) =~= views(v@).take(0));
    }
    while i < v.len()
        invariant
            i <= v.len(),
            views(r@) == views(v@).take(i as int),
        decreases v.len() - i,
    {
        let ghost entry_r: Seq<Vec<u8>> = r@;
        let p = clone_path(&v[i]);
        r.push(p);
        proof {
            assert(views(v@).len() == v@.len());
            assert(views(entry_r).len() == entry_r.len());
            assert(entry_r.len() == i as int);
            assert forall|k: int| 0 <= k < views(r@).len() implies views(r@)[k] == views(v@).take(
                i + 1,
            )[k] by {
                assert(views(r@)[k] == r@[k]@);
                if k < entry_r.len() {
                    assert(r@[k] == entry_r[k]);
                    assert(views(entry_r)[k] == entry_r[k]@);
                    assert(views(v@).take(i as int)[k] == views(v@)[k]);
                } else {
                    assert(r@[k] == p);
                    assert(views(v@)[i as int] == v@[i as int]@);
                }
            }
            assert(views(r@) =~= views(v@).take(i + 1));
        }
        i = i + 1;
    }
    proof {
        assert(views(v@).take(v@.len() as int) =~= views(v@));
    }
    r
}

} // verus!
