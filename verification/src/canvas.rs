//! The CPU side of a canvas: an RGBA8 pixel buffer shown through a ring of
//! three texture layers, with the states of its upload and download.
//!
//! Upload states: 1 dirty, 2 upload submitted, 3 dirty again while
//! submitted, 0 clean. Download states: 0 idle, 1 requested, 2 copying,
//! 3 done.

use vstd::prelude::*;

verus! {

/// The initial pixels: every byte 0 but the alpha byte of each pixel, 255.
pub open spec fn initial_pixel_byte(i: int) -> u8 {
    if i % 4 == 3 {
        255
    } else {
        0
    }
}

/// `data` with pixel `p` (its four bytes) set to `rgba`.
pub open spec fn with_pixel(data: Seq<u8>, p: int, rgba: [u8; 4]) -> Seq<u8> {
    Seq::new(data.len(), |i: int| if p * 4 <= i < p * 4 + 4 { rgba@[i - p * 4] } else { data[i] })
}

/// What the caller does before drawing with the canvas.
#[derive(Debug, Clone, Copy, PartialEq, Eq, Structural)]
pub struct PrepareActions {
    /// Copy the displayed layer (the index) into a download buffer.
    pub download_from: Option<u32>,
    /// Create the texture and its three layers.
    pub create_texture: bool,
    /// Upload the pixels into layer 0.
    pub upload: bool,
}

pub struct Canvas {
    width: u32,
    height: u32,
    data: Vec<u8>,
    has_texture: bool,
    update_state: u32,
    write_index: u32,
    download_state: u32,
}

impl Canvas {
    pub closed spec fn size_view(&self) -> (u32, u32) {
        (self.width, self.height)
    }

    pub closed spec fn pixels(&self) -> Seq<u8> {
        self.data@
    }

    pub closed spec fn textured(&self) -> bool {
        self.has_texture
    }

    pub closed spec fn update_state_view(&self) -> u32 {
        self.update_state
    }

    pub closed spec fn write_index_view(&self) -> u32 {
        self.write_index
    }

    pub closed spec fn download_state_view(&self) -> u32 {
        self.download_state
    }

    /// The canvas invariant: one RGBA pixel per position, a layer index
    /// below 3.
    pub closed spec fn wf(&self) -> bool {
        &&& self.data@.len() == self.width * self.height * 4
        &&& self.write_index < 3
    }

    /// A canvas of `width` by `height` opaque black pixels, dirty, without a
    /// texture yet.
    pub fn new(width: u32, height: u32) -> (r: Self)
        requires
            width * height * 4 <= usize::MAX,
        ensures
            r.wf(),
            r.size_view() == (width, height),
            r.pixels().len() == width * height * 4,
            forall|i: int| 0 <= i < r.pixels().len() ==> r.pixels()[i] == initial_pixel_byte(i),
            !r.textured(),
            r.update_state_view() == 1,
            r.write_index_view() == 1,
            r.download_state_view() == 0,
    {
        let n: usize = (width as usize) * (height as usize) * 4;
        let mut data: Vec<u8> = Vec::new();
        let mut i: usize = 0;
        while i < n
            invariant
                i <= n,
                data@.len() == i,
                forall|j: int| 0 <= j < i ==> data@[j] == initial_pixel_byte(j),
            decreases n - i,
        {
            if i % 4 == 3 {
                data.push(255);
            } else {
                data.push(0);
            }
            i = i + 1;
        }
        Canvas {
            width,
            height,
            data,
            has_texture: false,
            update_state: 1,
            write_index: 1,
            download_state: 0,
        }
    }

    /// The size in pixels.
    pub fn size(&self) -> (r: (u32, u32))
        ensures
            r == self.size_view(),
    {
        (self.width, self.height)
    }

    /// The pixels, RGBA8 row by row.
    pub fn texture_data(&self) -> (r: &Vec<u8>)
        ensures
            r@ == self.pixels(),
    {
        &self.data
    }

    /// Sets every pixel to `rgba`.
    pub fn clear(&mut self, rgba: [u8; 4])
        requires
            old(self).wf(),
        ensures
            final(self).wf(),
            final(self).pixels().len() == old(self).pixels().len(),
            forall|i: int| 0 <= i < final(self).pixels().len() ==> final(self).pixels()[i] == rgba@[i % 4],
            final(self).size_view() == old(self).size_view(),
            final(self).textured() == old(self).textured(),
            final(self).update_state_view() == old(self).update_state_view(),
            final(self).write_index_view() == old(self).write_index_view(),
            final(self).download_state_view() == old(self).download_state_view(),
    {
        let n = self.data.len();
        let mut i: usize = 0;
        while i < n
            invariant
                i <= n,
                n == self.data@.len(),
                self.wf(),
                self.width == old(self).width,
                self.height == old(self).height,
                self.has_texture == old(self).has_texture,
                self.update_state == old(self).update_state,
                self.write_index == old(self).write_index,
                self.download_state == old(self).download_state,
                forall|j: int| 0 <= j < i ==> self.data@[j] == rgba@[j % 4],
            decreases n - i,
        {
            self.data.set(i, rgba[i % 4]);
            i = i + 1;
        }
    }

    /// Sets the pixel at column `x` of row `y` to `rgba`.
    pub fn draw_pixel(&mut self, x: u32, y: u32, rgba: [u8; 4])
        requires
            old(self).wf(),
            y * old(self).size_view().0 + x <= u32::MAX,
            (y * old(self).size_view().0 + x) * 4 + 4 <= old(self).pixels().len(),
        ensures
            final(self).wf(),
            final(self).pixels() == with_pixel(old(self).pixels(), y * old(self).size_view().0 + x, rgba),
            final(self).size_view() == old(self).size_view(),
            final(self).textured() == old(self).textured(),
            final(self).update_state_view() == old(self).update_state_view(),
            final(self).write_index_view() == old(self).write_index_view(),
            final(self).download_state_view() == old(self).download_state_view(),
    {
        let ghost d0 = self.data@;
        let ghost p = y * self.width + x;
        proof {
            assert(y * self.width <= u32::MAX) by (nonlinear_arith)
                requires
                    y * self.width + x <= u32::MAX,
                    x >= 0,
            ;
        }
        let _len = self.data.len();
        let base: usize = ((y * self.width + x) as usize) * 4;
        let mut k: usize = 0;
        while k < 4
            invariant
                k <= 4,
                base == p * 4,
                base + 4 <= self.data@.len(),
                self.data@.len() == d0.len(),
                forall|i: int| 0 <= i < d0.len() && !(base <= i < base + k) ==> self.data@[i] == d0[i],
                forall|i: int| base <= i < base + k ==> self.data@[i] == rgba@[i - base],
                self.width == old(self).width,
                self.height == old(self).height,
                self.has_texture == old(self).has_texture,
                self.update_state == old(self).update_state,
                self.write_index == old(self).write_index,
                self.download_state == old(self).download_state,
                old(self).wf(),
                d0 == old(self).data@,
            decreases 4 - k,
        {
            self.data.set(base + k, rgba[k]);
            k = k + 1;
        }
        proof {
            assert(self.data@ =~= with_pixel(d0, p, rgba));
        }
    }

    /// The layer to display, once the texture exists: the one before the
    /// layer being written.
    pub fn display_frame(&self) -> (r: Option<u32>)
        requires
            self.wf(),
        ensures
            r == if self.textured() {
                Some(((self.write_index_view() + 2) % 3) as u32)
            } else {
                None::<u32>
            },
    {
        if !self.has_texture {
            return None;
        }
        Some((self.write_index + 2) % 3)
    }

    /// The layer to render into, when the pixels are uploaded and the
    /// texture exists; the next call gets the next layer of the ring.
    pub fn writer_frame(&mut self) -> (r: Option<u32>)
        requires
            old(self).wf(),
        ensures
            final(self).wf(),
            if old(self).update_state_view() == 0 && old(self).textured() {
                &&& r == Some(old(self).write_index_view())
                &&& final(self).write_index_view() == (old(self).write_index_view() + 1) % 3
            } else {
                &&& r is None
                &&& final(self).write_index_view() == old(self).write_index_view()
            },
            final(self).pixels() == old(self).pixels(),
            final(self).size_view() == old(self).size_view(),
            final(self).textured() == old(self).textured(),
            final(self).update_state_view() == old(self).update_state_view(),
            final(self).download_state_view() == old(self).download_state_view(),
    {
        if self.update_state != 0 {
            return None;
        }
        if !self.has_texture {
            return None;
        }
        let w = self.write_index;
        self.write_index = (w + 1) % 3;
        Some(w)
    }

    /// What to do before drawing: a requested download copies the displayed
    /// layer (once the texture exists), and a missing texture is created
    /// and filled with the pixels.
    pub fn prepare_texture(&mut self) -> (r: PrepareActions)
        requires
            old(self).wf(),
        ensures
            final(self).wf(),
            r.download_from == if old(self).download_state_view() == 1 && old(self).textured() {
                Some(((old(self).write_index_view() + 2) % 3) as u32)
            } else {
                None::<u32>
            },
            final(self).download_state_view() == state_after_prepare(
                old(self).download_state_view(),
                old(self).textured(),
            ),
            final(self).download_state_view() == if old(self).download_state_view() == 1
                && old(self).textured() {
                2
            } else {
                old(self).download_state_view()
            },
            r.create_texture == !old(self).textured(),
            r.upload == !old(self).textured(),
            final(self).textured(),
            final(self).update_state_view() == if old(self).textured() {
                old(self).update_state_view()
            } else {
                2
            },
            final(self).pixels() == old(self).pixels(),
            final(self).size_view() == old(self).size_view(),
            final(self).write_index_view() == old(self).write_index_view(),
    {
        let mut download_from: Option<u32> = None;
        if self.download_state == 1 && self.has_texture {
            download_from = Some((self.write_index + 2) % 3);
            self.download_state = 2;
        }
        let create = !self.has_texture;
        if create {
            self.has_texture = true;
            self.update_state = 2;
        }
        PrepareActions { download_from, create_texture: create, upload: create }
    }

    /// Uploads the pixels when they are dirty or `force` is set and the
    /// texture exists. Returns whether an upload was submitted.
    pub fn flush_texture(&mut self, force: bool) -> (r: bool)
        requires
            old(self).wf(),
        ensures
            final(self).wf(),
            r == ((old(self).update_state_view() != 0 || force) && old(self).textured()),
            final(self).update_state_view() == if r {
                2
            } else {
                old(self).update_state_view()
            },
            final(self).pixels() == old(self).pixels(),
            final(self).size_view() == old(self).size_view(),
            final(self).textured() == old(self).textured(),
            final(self).write_index_view() == old(self).write_index_view(),
            final(self).download_state_view() == old(self).download_state_view(),
    {
        if (self.update_state != 0 || force) && self.has_texture {
            self.update_state = 2;
            true
        } else {
            false
        }
    }

    /// The GPU finished a submitted upload: a submitted (2) or re-dirtied (3)
    /// state becomes clean (0).
    pub fn upload_done(&mut self)
        requires
            old(self).wf(),
        ensures
            final(self).wf(),
            final(self).update_state_view() == if old(self).update_state_view() == 2
                || old(self).update_state_view() == 3 {
                0
            } else {
                old(self).update_state_view()
            },
            final(self).pixels() == old(self).pixels(),
            final(self).size_view() == old(self).size_view(),
            final(self).textured() == old(self).textured(),
            final(self).write_index_view() == old(self).write_index_view(),
            final(self).download_state_view() == old(self).download_state_view(),
    {
        if self.update_state == 2 || self.update_state == 3 {
            self.update_state = 0;
        }
    }

    /// Asks for the displayed layer to be downloaded; refused while another
    /// download is under way or unread.
    pub fn request_download_texture(&mut self) -> (r: Option<()>)
        requires
            old(self).wf(),
        ensures
            final(self).wf(),
            r is Some == (old(self).download_state_view() == 0),
            r is Some == request_accepted(old(self).download_state_view()),
            final(self).download_state_view() == state_after_request(old(self).download_state_view()),
            final(self).download_state_view() == if old(self).download_state_view() == 0 {
                1
            } else {
                old(self).download_state_view()
            },
            final(self).pixels() == old(self).pixels(),
            final(self).size_view() == old(self).size_view(),
            final(self).textured() == old(self).textured(),
            final(self).update_state_view() == old(self).update_state_view(),
            final(self).write_index_view() == old(self).write_index_view(),
    {
        if self.download_state != 0 {
            return None;
        }
        self.download_state = 1;
        Some(())
    }

    /// The downloaded layer's pixels arrived: they replace the pixels.
    pub fn download_finished(&mut self, data: &Vec<u8>)
        requires
            old(self).wf(),
            data@.len() == old(self).pixels().len(),
        ensures
            final(self).wf(),
            final(self).pixels() == data@,
            final(self).download_state_view() == 3,
            final(self).download_state_view() == download_done(),
            final(self).size_view() == old(self).size_view(),
            final(self).textured() == old(self).textured(),
            final(self).update_state_view() == old(self).update_state_view(),
            final(self).write_index_view() == old(self).write_index_view(),
    {
        let n = data.len();
        let mut i: usize = 0;
        while i < n
            invariant
                i <= n,
                n == data@.len(),
                self.data@.len() == n,
                forall|j: int| 0 <= j < i ==> self.data@[j] == data@[j],
                self.width == old(self).width,
                self.height == old(self).height,
                self.has_texture == old(self).has_texture,
                self.update_state == old(self).update_state,
                self.write_index == old(self).write_index,
                self.download_state == old(self).download_state,
                old(self).wf(),
                data@.len() == old(self).data@.len(),
            decreases n - i,
        {
            self.data.set(i, data[i]);
            i = i + 1;
        }
        proof {
            assert(self.data@ =~= data@);
        }
        self.download_state = 3;
    }

    /// Whether a download is under way (`Some(false)`), finished
    /// (`Some(true)`), or none was asked for (`None`).
    pub fn download_ok(&self) -> (r: Option<bool>)
        ensures
            r == download_report(self.download_state_view()),
            r == if self.download_state_view() == 0 {
                None::<bool>
            } else {
                Some(self.download_state_view() == 3)
            },
    {
        if self.download_state == 0 {
            None
        } else if self.download_state == 3 {
            Some(true)
        } else {
            Some(false)
        }
    }

    /// Forgets a download, so another can be asked for.
    pub fn clean_download_state(&mut self)
        requires
            old(self).wf(),
        ensures
            final(self).wf(),
            final(self).download_state_view() == 0,
            final(self).pixels() == old(self).pixels(),
            final(self).size_view() == old(self).size_view(),
            final(self).textured() == old(self).textured(),
            final(self).update_state_view() == old(self).update_state_view(),
            final(self).write_index_view() == old(self).write_index_view(),
    {
        self.download_state = 0;
    }
}


/// The download state after the finished pixels arrived.
pub open spec fn download_done() -> u32 {
    3
}

/// What `download_ok` reports in download state `state`: nothing when no
/// download was asked for, else whether the pixels arrived.
pub open spec fn download_report(state: u32) -> Option<bool> {
    if state == 0 {
        None
    } else {
        Some(state == download_done())
    }
}

/// Whether a download request is taken in state `state`: only when none is
/// under way or unread.
pub open spec fn request_accepted(state: u32) -> bool {
    state == 0
}

/// The download state after a request.
pub open spec fn state_after_request(state: u32) -> u32 {
    if state == 0 {
        1
    } else {
        state
    }
}

/// The download state after `prepare_texture`: a requested download starts
/// copying once the texture exists.
pub open spec fn state_after_prepare(state: u32, textured: bool) -> u32 {
    if state == 1 && textured {
        2
    } else {
        state
    }
}

/// The download protocol of a canvas. With no download asked for, the
/// canvas reports none and takes a request; a request taken is reported
/// unfinished, and stays so (refusing further requests) while the copy is
/// prepared, until the pixels arrive and it is reported finished; a
/// finished download still refuses requests until it is cleaned, and
/// cleaning leaves none.
pub proof fn lemma_download_protocol(state: u32, textured: bool)
    ensures
        download_report(state) is None <==> request_accepted(state),
        !request_accepted(state) ==> state_after_request(state) == state,
        request_accepted(state) ==> download_report(state_after_request(state)) == Some(false),
        state == 1 ==> download_report(state_after_prepare(state, textured)) == Some(false),
        state == 1 ==> !request_accepted(state_after_prepare(state, textured)),
        download_report(download_done()) == Some(true),
        !request_accepted(download_done()),
        download_report(0) is None,
{
}

/// The layer a writer just got is the one displayed next: after
/// `writer_frame` returns layer `w`, `display_frame` returns `w`.
pub proof fn lemma_written_layer_is_displayed(c: Canvas, d: Canvas, w: u32)
    requires
        c.wf(),
        c.update_state_view() == 0,
        c.textured(),
        w == c.write_index_view(),
        d.write_index_view() == (c.write_index_view() + 1) % 3,
    ensures
        (d.write_index_view() + 2) % 3 == w,
{
}

/// The three layers are written in turn: three calls of `writer_frame` come
/// back to the first layer.
pub proof fn lemma_layers_cycle(w: u32)
    requires
        w < 3,
    ensures
        ((((w + 1) % 3) + 1) % 3 + 1) % 3 == w,
{
}

} // verus!
