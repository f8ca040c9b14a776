//! Rendering a picture: pixel after pixel in raster order, each colour
//! mapped to three bytes.
//!
//! What colour a pixel has is arithmetic that the caller supplies as a
//! function. What is here is the order of the pixels and the bytes that
//! their colours become.

use vstd::prelude::*;
use crate::color::{Color, quantized, map_color_256};

verus! {

/// The pixel that is `k`-th in raster order, counted from 0, in a picture
/// `width` wide and `height` high: its column, counted from the left, and
/// its row, counted from the bottom. The top row comes first, and each row
/// runs from left to right.
pub open spec fn pixel_at(width: int, height: int, k: int) -> (int, int) {
    (k % width, height - 1 - k / width)
}

/// The three bytes of a colour.
pub open spec fn bytes_of(color: Color) -> Seq<u8> {
    seq![quantized(color.r) as u8, quantized(color.g) as u8, quantized(color.b) as u8]
}

/// What is known of a picture.
pub struct FrameState {
    pub width: nat,
    pub height: nat,
    /// The bytes of the pixels that were put so far: red, green and blue of
    /// the first pixel, then of the second, and so on.
    pub data: Seq<u8>,
}

impl FrameState {
    /// How many pixels were put.
    pub open spec fn done(self) -> int {
        self.data.len() as int / 3
    }

    /// Whether every pixel was put.
    pub open spec fn complete(self) -> bool {
        self.done() >= self.width * self.height
    }

    /// The picture with its next pixel put; a picture that is complete is
    /// unchanged.
    pub open spec fn after_put(self, color: Color) -> FrameState {
        if self.complete() {
            self
        } else {
            FrameState { data: self.data + bytes_of(color), ..self }
        }
    }
}

/// A picture in the making.
pub struct Frame {
    width: u32,
    height: u32,
    data: Vec<u8>,
    done: u64,
}

impl Frame {
    #[verifier::type_invariant]
    spec fn wf(self) -> bool {
        &&& self.data@.len() == 3 * self.done
        &&& self.done <= self.width * self.height
    }

    /// What is known of the picture.
    pub closed spec fn state(&self) -> FrameState {
        FrameState { width: self.width as nat, height: self.height as nat, data: self.data@ }
    }

    /// An empty picture of the given size.
    pub fn new(image_width: u32, image_height: u32) -> (frame: Frame)
        ensures
            frame.state() == (FrameState {
                width: image_width as nat,
                height: image_height as nat,
                data: Seq::empty(),
            }),
    {
        assert(0 <= image_width * image_height) by (nonlinear_arith);
        Frame { width: image_width, height: image_height, data: Vec::new(), done: 0 }
    }

    fn total(&self) -> (n: u64)
        ensures
            n == self.width * self.height,
    {
        assert(self.width * self.height <= 0xffff_ffff * 0xffff_ffff) by (nonlinear_arith)
            requires
                self.width <= 0xffff_ffff,
                self.height <= 0xffff_ffff,
        ;
        (self.width as u64) * (self.height as u64)
    }

    /// The pixel to be put next, as its column from the left and its row
    /// from the bottom; `None` once the picture is complete.
    pub fn next_pixel(&self) -> (pixel: Option<(u32, u32)>)
        ensures
            self.state().complete() <==> pixel is None,
            pixel matches Some((x, y)) ==> (x as int, y as int) == pixel_at(
                self.state().width as int,
                self.state().height as int,
                self.state().done(),
            ),
            pixel matches Some((x, y)) ==> x < self.state().width && y < self.state().height,
    {
        proof {
            use_type_invariant(self);
        }
        let total: u64 = self.total();
        if self.done >= total {
            return None;
        }
        let width: u64 = self.width as u64;
        assert(width > 0) by (nonlinear_arith)
            requires
                self.done < self.width * self.height,
                width == self.width,
        ;
        let column: u64 = self.done % width;
        let row: u64 = self.done / width;
        assert(row < self.height) by (nonlinear_arith)
            requires
                self.done < self.width * self.height,
                width == self.width,
                width > 0,
                row == self.done as int / width as int,
        ;
        Some((column as u32, self.height - 1 - (row as u32)))
    }

    /// Puts the next pixel.
    pub fn put(self, color: Color) -> (next: Frame)
        ensures
            next.state() == self.state().after_put(color),
    {
        proof {
            use_type_invariant(&self);
        }
        let total: u64 = self.total();
        let Frame { width, height, mut data, done } = self;
        if done >= total {
            return Frame { width, height, data, done };
        }
        let ghost before = data@;
        let bytes = map_color_256(color);
        data.push(bytes.0);
        data.push(bytes.1);
        data.push(bytes.2);
        assert(data@ =~= before + bytes_of(color));
        Frame { width, height, data, done: done + 1 }
    }

    /// The bytes of the picture as far as it was filled: three for each
    /// pixel that was put.
    pub fn into_data(self) -> (data: Vec<u8>)
        ensures
            data@ == self.state().data,
            data@.len() == 3 * self.state().done(),
            self.state().complete() ==> data@.len() == 3 * self.state().width * self.state().height,
    {
        proof {
            use_type_invariant(&self);
            assert(3 * (self.width * self.height) == 3 * self.width * self.height) by (nonlinear_arith);
        }
        self.data
    }
}

/// Putting a pixel adds its three bytes at the end and changes nothing
/// before them; so the `k`-th pixel put stays at bytes `3k` to `3k + 2`.
pub proof fn put_appends(state: FrameState, color: Color)
    requires
        !state.complete(),
        state.data.len() % 3 == 0,
    ensures
        state.after_put(color).done() == state.done() + 1,
        state.after_put(color).data.len() == state.data.len() + 3,
        state.after_put(color).data.subrange(0, state.data.len() as int) == state.data,
        state.after_put(color).data.subrange(state.data.len() as int, state.data.len() as int + 3) == bytes_of(color),
{
    let after = state.after_put(color);
    assert(after.data.subrange(0, state.data.len() as int) =~= state.data);
    assert(after.data.subrange(state.data.len() as int, state.data.len() as int + 3) =~= bytes_of(color));
}

/// Whether the `k`-th three bytes of `data` show a colour that `pixel`
/// returns for the pixel that is `k`-th in raster order.
pub open spec fn shows<P: Fn(u32, u32) -> Color>(pixel: P, width: int, height: int, data: Seq<u8>, k: int) -> bool {
    exists|color: Color| #[trigger]
        call_ensures(pixel, (pixel_at(width, height, k).0 as u32, pixel_at(width, height, k).1 as u32), color)
            && data.subrange(3 * k, 3 * k + 3) == bytes_of(color)
}

/// Renders a picture `image_width` wide and `image_height` high. `pixel`
/// gives the colour of a pixel, named by its column from the left and its
/// row from the bottom; it is asked once for every pixel, in raster order.
///
/// The result holds three bytes for each pixel, red, green and blue, in
/// raster order: the top row first, each row from left to right.
pub fn render<P: Fn(u32, u32) -> Color>(image_width: u32, image_height: u32, pixel: P) -> (data: Vec<u8>)
    requires
        forall|x: u32, y: u32| x < image_width && y < image_height ==> call_requires(pixel, (x, y)),
    ensures
        data@.len() == 3 * image_width * image_height,
        forall|k: int|
            0 <= k < image_width * image_height ==> shows(
                pixel,
                image_width as int,
                image_height as int,
                data@,
                k,
            ),
{
    let mut frame = Frame::new(image_width, image_height);
    let ghost mut done: int = 0;
    proof {
        assert(0 <= image_width * image_height) by (nonlinear_arith);
    }
    loop
        invariant
            forall|x: u32, y: u32| x < image_width && y < image_height ==> call_requires(pixel, (x, y)),
            frame.state().width == image_width,
            frame.state().height == image_height,
            frame.state().data.len() == 3 * done,
            0 <= done <= image_width * image_height,
            forall|k: int|
                0 <= k < done ==> shows(pixel, image_width as int, image_height as int, frame.state().data, k),
        decreases image_width * image_height - done,
    {
        let ghost before = frame.state();
        match frame.next_pixel() {
            None => {
                proof {
                    assert(3 * (image_width * image_height) == 3 * image_width * image_height)
                        by (nonlinear_arith);
                }
                return frame.into_data();
            },
            Some((x, y)) => {
                let color = pixel(x, y);
                frame = frame.put(color);
                proof {
                    let after = frame.state();
                    put_appends(before, color);
                    assert forall|k: int| 0 <= k < done + 1 implies shows(
                        pixel,
                        image_width as int,
                        image_height as int,
                        after.data,
                        k,
                    ) by {
                        let at = pixel_at(image_width as int, image_height as int, k);
                        if k < done {
                            assert(shows(pixel, image_width as int, image_height as int, before.data, k));
                            let earlier = choose|c: Color| #[trigger]
                                call_ensures(pixel, (at.0 as u32, at.1 as u32), c) && before.data.subrange(
                                    3 * k,
                                    3 * k + 3,
                                ) == bytes_of(c);
                            assert(after.data.subrange(3 * k, 3 * k + 3) =~= before.data.subrange(
                                3 * k,
                                3 * k + 3,
                            ));
                            assert(call_ensures(pixel, (at.0 as u32, at.1 as u32), earlier));
                        } else {
                            assert(before.done() == done);
                            assert(at.0 as u32 == x && at.1 as u32 == y);
                            assert(call_ensures(pixel, (at.0 as u32, at.1 as u32), color));
                            assert(after.data.subrange(3 * k, 3 * k + 3) == bytes_of(color));
                        }
                    }
                    done = done + 1;
                }
            },
        }
    }
}

/// A picture is fixed by the colours of its pixels: if `pixel` gives every
/// pixel one colour only, as it does when the random draws of every sample
/// are given, then any two pictures that `render` may return for it are the
/// same bytes in the same order.
pub proof fn render_is_determined<P: Fn(u32, u32) -> Color>(
    pixel: P,
    width: int,
    height: int,
    first: Seq<u8>,
    second: Seq<u8>,
)
    requires
        0 <= width,
        0 <= height,
        forall|x: u32, y: u32, c1: Color, c2: Color|
            call_ensures(pixel, (x, y), c1) && call_ensures(pixel, (x, y), c2) ==> c1 == c2,
        first.len() == 3 * width * height,
        second.len() == 3 * width * height,
        forall|k: int| 0 <= k < width * height ==> shows(pixel, width, height, first, k),
        forall|k: int| 0 <= k < width * height ==> shows(pixel, width, height, second, k),
    ensures
        first == second,
{
    assert(3 * (width * height) == 3 * width * height) by (nonlinear_arith);
    assert forall|i: int| 0 <= i < first.len() implies first[i] == second[i] by {
        let k = i / 3;
        let at = pixel_at(width, height, k);
        assert(shows(pixel, width, height, first, k));
        assert(shows(pixel, width, height, second, k));
        let c1 = choose|c: Color| #[trigger]
            call_ensures(pixel, (at.0 as u32, at.1 as u32), c) && first.subrange(3 * k, 3 * k + 3) == bytes_of(c);
        let c2 = choose|c: Color| #[trigger]
            call_ensures(pixel, (at.0 as u32, at.1 as u32), c) && second.subrange(3 * k, 3 * k + 3) == bytes_of(
                c,
            );
        assert(c1 == c2);
        assert(first[i] == first.subrange(3 * k, 3 * k + 3)[i - 3 * k]);
        assert(second[i] == second.subrange(3 * k, 3 * k + 3)[i - 3 * k]);
    }
    assert(first =~= second);
}

} // verus!
