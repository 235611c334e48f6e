use vstd::prelude::*;

verus! {

use crate::ViewerError;
use crate::decoder::IMAGE_HEIGHT;
use crate::decoder::IMAGE_PIXELS;
use crate::decoder::IMAGE_WIDTH;
use crate::decoder::ImageRecord;

/// The index selected after one click: the next image, or the last one when
/// the selection already is at the end (the selection clamps, it never wraps
/// and never leaves the collection).
pub open spec fn next_index(i: nat, len: nat) -> nat {
    if i + 1 < len {
        i + 1
    } else if len > 0 {
        (len - 1) as nat
    } else {
        0
    }
}

/// The index selected after `n` clicks from the start of a collection of
/// `len` images.
pub open spec fn index_after_clicks(n: nat, len: nat) -> nat
    decreases n,
{
    if n == 0 {
        0
    } else {
        next_index(index_after_clicks((n - 1) as nat, len), len)
    }
}

/// The four bytes of one rendered pixel agree with the source intensity:
/// the intensity on each of the three color channels, and an opaque alpha.
pub open spec fn pixel_rendered(img: Seq<u8>, frame: Seq<u8>, i: int) -> bool {
    &&& frame[4 * i] == img[i]
    &&& frame[4 * i + 1] == img[i]
    &&& frame[4 * i + 2] == img[i]
    &&& frame[4 * i + 3] == 255
}

/// The whole frame is the rendering of `img`: one opaque grayscale RGBA
/// quadruple per source intensity, in row-major source order.
pub open spec fn frame_rendered(img: Seq<u8>, frame: Seq<u8>) -> bool {
    &&& frame.len() == 4 * img.len()
    &&& forall|i: int| 0 <= i < img.len() ==> #[trigger] pixel_rendered(img, frame, i)
}

/// The view model: the decoded images, optionally their labels, and the
/// index of the image currently shown.
pub struct World {
    pub images: Vec<ImageRecord>,
    pub labels: Option<Vec<u8>>,
    pub index: usize,
}

impl World {
    /// The label sequence, or the empty sequence when no labels were loaded.
    pub open spec fn label_view(self) -> Seq<u8> {
        match self.labels {
            Some(ls) => ls@,
            None => Seq::empty(),
        }
    }

    /// A well-formed view model: every image holds its 784 intensities, the
    /// selection stays inside the collection (at 0 when it is empty), and a
    /// loaded label set has exactly one label per image.
    pub open spec fn wf(self) -> bool {
        &&& forall|i: int| 0 <= i < self.images@.len() ==> (#[trigger] self.images@[i]).wf()
        &&& self.images@.len() == 0 ==> self.index == 0
        &&& self.images@.len() > 0 ==> self.index < self.images@.len()
        &&& self.labels is Some ==> self.label_view().len() == self.images@.len()
    }

    /// Builds a view model that starts at the first image.
    pub fn new(images: Vec<ImageRecord>, labels: Option<Vec<u8>>) -> (w: World)
        requires
            forall|i: int| 0 <= i < images@.len() ==> (#[trigger] images@[i]).wf(),
            labels matches Some(ls) ==> ls@.len() == images@.len(),
        ensures
            w.wf(),
            w.images == images,
            w.labels == labels,
            w.index == 0,
    {
        World { images, labels, index: 0 }
    }

    /// How many images the view model holds.
    pub fn image_count(&self) -> (n: usize)
        ensures
            n == self.images@.len(),
    {
        self.images.len()
    }

    /// The index of the image currently shown.
    pub fn current_index(&self) -> (i: usize)
        ensures
            i == self.index,
    {
        self.index
    }

    /// The label of the image currently shown, when labels were loaded and
    /// there is an image to show.
    pub fn current_label(&self) -> (r: Option<u8>)
        requires
            self.wf(),
        ensures
            r is Some <==> self.labels is Some && self.images@.len() > 0,
            r matches Some(l) ==> l == self.label_view()[self.index as int],
    {
        match &self.labels {
            Some(ls) => {
                if self.index < ls.len() {
                    Some(ls[self.index])
                } else {
                    None
                }
            },
            None => None,
        }
    }

    /// Moves the selection to the next image; at the end of the collection
    /// it clamps to the last image instead of wrapping or running out.
    pub fn advance(&mut self)
        requires
            old(self).wf(),
        ensures
            final(self).wf(),
            final(self).images == old(self).images,
            final(self).labels == old(self).labels,
            final(self).index == next_index(old(self).index as nat, old(self).images@.len()),
    {
        let len: usize = self.images.len();
        if len > 0 && self.index + 1 < len {
            self.index = self.index + 1;
        } else if len > 0 {
            self.index = len - 1;
        }
    }

    /// Paints the currently selected image into `frame`, an RGBA buffer at
    /// the image's own 28 by 28 resolution: the pixel at linear index `i`
    /// becomes the quadruple `[v, v, v, 255]` where `v` is the `i`-th
    /// intensity of the image, in row-major order. Upscaling to the window
    /// is the display layer's business, not this function's.
    pub fn render(&self, frame: &mut Vec<u8>, width: usize, height: usize) -> (r: Result<
        (),
        ViewerError,
    >)
        requires
            self.wf(),
            width * height == IMAGE_PIXELS,
            old(frame)@.len() == 4 * IMAGE_PIXELS,
        ensures
            r is Ok <==> self.index < self.images@.len(),
            final(frame)@.len() == old(frame)@.len(),
            match r {
                Ok(()) => frame_rendered(
                    self.images@[self.index as int].pixels@,
                    final(frame)@,
                ),
                Err(ViewerError::IndexOutOfRange) => final(frame)@ == old(frame)@,
                Err(_) => false,
            },
    {
        let len: usize = self.images.len();
        if self.index >= len {
            return Err(ViewerError::IndexOutOfRange);
        }
        let img: &ImageRecord = &self.images[self.index];
        let mut i: usize = 0;
        while i < IMAGE_PIXELS
            invariant
                self.wf(),
                self.index < self.images@.len(),
                img == self.images@[self.index as int],
                img.pixels@.len() == IMAGE_PIXELS,
                frame@.len() == 4 * IMAGE_PIXELS,
                0 <= i <= IMAGE_PIXELS,
                forall|k: int| 0 <= k < i ==> #[trigger] pixel_rendered(img.pixels@, frame@, k),
            decreases IMAGE_PIXELS - i,
        {
            let v: u8 = img.pixels[i];
            let ghost frame0 = frame@;
            frame.set(4 * i, v);
            frame.set(4 * i + 1, v);
            frame.set(4 * i + 2, v);
            frame.set(4 * i + 3, 255);
            proof {
                assert forall|k: int| 0 <= k < i + 1 implies #[trigger] pixel_rendered(
                    img.pixels@,
                    frame@,
                    k,
                ) by {
                    if k < i {
                        assert(pixel_rendered(img.pixels@, frame0, k));
                        assert(frame@[4 * k] == frame0[4 * k]);
                        assert(frame@[4 * k + 1] == frame0[4 * k + 1]);
                        assert(frame@[4 * k + 2] == frame0[4 * k + 2]);
                        assert(frame@[4 * k + 3] == frame0[4 * k + 3]);
                    } else {
                        assert(frame@[4 * k] == v);
                        assert(frame@[4 * k + 1] == v);
                        assert(frame@[4 * k + 2] == v);
                        assert(frame@[4 * k + 3] == 255);
                    }
                }
            }
            i = i + 1;
        }
        Ok(())
    }

    /// Paints the currently selected image into a native-resolution frame;
    /// the shorthand the redraw callback uses.
    pub fn draw(&self, frame: &mut Vec<u8>) -> (r: Result<(), ViewerError>)
        requires
            self.wf(),
            old(frame)@.len() == 4 * IMAGE_PIXELS,
        ensures
            r is Ok <==> self.index < self.images@.len(),
            final(frame)@.len() == old(frame)@.len(),
            match r {
                Ok(()) => frame_rendered(
                    self.images@[self.index as int].pixels@,
                    final(frame)@,
                ),
                Err(ViewerError::IndexOutOfRange) => final(frame)@ == old(frame)@,
                Err(_) => false,
            },
    {
        self.render(frame, IMAGE_WIDTH, IMAGE_HEIGHT)
    }
}

/// Clicking `n` times from the start of a collection of `len` images selects
/// image `n` while one exists; once the clicks reach the end, the selection
/// stays clamped to the last image, and on an empty collection it stays at 0.
pub proof fn lemma_click_sequence(n: nat, len: nat)
    ensures
        n < len ==> index_after_clicks(n, len) == n,
        len > 0 && n >= len ==> index_after_clicks(n, len) == len - 1,
        len == 0 ==> index_after_clicks(n, len) == 0,
    decreases n,
{
    if n > 0 {
        lemma_click_sequence((n - 1) as nat, len);
    }
}

} // verus!
