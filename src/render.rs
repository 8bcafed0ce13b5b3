//! The render loop: one ray per pixel, every pixel of the image computed.
use vstd::prelude::*;

use crate::canvas::{lemma_row_major, row_major, Canvas};

verus! {

/// How a whole image is rendered.
pub struct RenderSettings {
    /// How many times a ray may bounce (reflect or refract) before it is
    /// given up.
    pub recursion_limit: u32,
}

impl Default for RenderSettings {
    fn default() -> (settings: Self)
        ensures
            settings.recursion_limit == 5,
    {
        RenderSettings { recursion_limit: 5 }
    }
}

/// Renders a `width` by `height` image: each pixel `(x, y)` gets the color that
/// `color_at(x, y, depth)` gives for it, where `depth` is the recursion limit of
/// `settings`. `background` only fills the buffer before the pixels are
/// computed; none of it remains.
pub fn render<T: Copy, F: Fn(u32, u32, u32) -> T>(
    width: u32,
    height: u32,
    settings: &RenderSettings,
    background: T,
    color_at: F,
) -> (image: Canvas<T>)
    requires
        width as nat * height as nat <= usize::MAX,
        forall|x: u32, y: u32|
            x < width && y < height ==> call_requires(
                color_at,
                (x, y, settings.recursion_limit),
            ),
    ensures
        image.wf(),
        image.spec_width() == width,
        image.spec_height() == height,
        forall|x: u32, y: u32|
            x < width && y < height ==> call_ensures(
                color_at,
                (x, y, settings.recursion_limit),
                #[trigger] image.pixel(x as int, y as int),
            ),
{
    let depth = settings.recursion_limit;
    let mut image = Canvas::new(width, height, background);
    let mut y: u32 = 0;
    while y < height
        invariant
            y <= height,
            image.wf(),
            image.spec_width() == width,
            image.spec_height() == height,
            forall|px: u32, py: u32|
                px < width && py < height ==> call_requires(color_at, (px, py, depth)),
            forall|px: u32, py: u32|
                px < width && py < y ==> call_ensures(
                    color_at,
                    (px, py, depth),
                    #[trigger] image.pixel(px as int, py as int),
                ),
        decreases height - y,
    {
        let mut x: u32 = 0;
        while x < width
            invariant
                x <= width,
                y < height,
                image.wf(),
                image.spec_width() == width,
                image.spec_height() == height,
                forall|px: u32, py: u32|
                    px < width && py < height ==> call_requires(color_at, (px, py, depth)),
                forall|px: u32, py: u32|
                    px < width && (py < y || (py == y && px < x)) ==> call_ensures(
                        color_at,
                        (px, py, depth),
                        #[trigger] image.pixel(px as int, py as int),
                    ),
            decreases width - x,
        {
            let color = color_at(x, y, depth);
            let ghost before = image;
            let _ = image.put_pixel(x, y, color);
            proof {
                lemma_row_major(width as nat, height as nat, x as int, y as int, x as int, y as int);
                assert forall|px: u32, py: u32|
                    px < width && (py < y || (py == y && px < x + 1)) implies call_ensures(
                    color_at,
                    (px, py, depth),
                    #[trigger] image.pixel(px as int, py as int),
                ) by {
                    lemma_row_major(
                        width as nat,
                        height as nat,
                        px as int,
                        py as int,
                        x as int,
                        y as int,
                    );
                    if px != x || py != y {
                        assert(image.pixel(px as int, py as int) == before.pixel(
                            px as int,
                            py as int,
                        ));
                    }
                }
            }
            x += 1;
        }
        y += 1;
    }
    image
}

} // verus!
