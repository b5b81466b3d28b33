//! Types shared by the decoders.

use vstd::prelude::*;

verus! {

/// Two components of one kind, such as a texture coordinate.
#[derive(Clone, Copy, Debug)]
pub struct Vector2<T> {
    pub x: T,
    pub y: T,
}

/// Three components of one kind, such as a position or a direction.
#[derive(Clone, Copy, Debug)]
pub struct Vector3<T> {
    pub x: T,
    pub y: T,
    pub z: T,
}

/// What is in a vertex. `T` is the type of one component: the library moves
/// components and never computes with them.
#[derive(Clone, Copy, Debug)]
pub struct Vertex<T> {
    pub pos: Vector3<T>,
    pub norm: Vector3<T>,
    pub tc: Vector2<T>,
    pub bitangent: Vector3<T>,
    pub tangent: Vector3<T>,
}

impl<T> Vector2<T> {
    /// Component `index`: `x`, then `y`.
    pub open spec fn component(self, index: int) -> T {
        if index == 0 {
            self.x
        } else {
            self.y
        }
    }
}

impl<T> Vector3<T> {
    /// Component `index`: `x`, then `y`, then `z`.
    pub open spec fn component(self, index: int) -> T {
        if index == 0 {
            self.x
        } else if index == 1 {
            self.y
        } else {
            self.z
        }
    }
}

/// A pixel with colour and alpha information, each channel in the range 0-255.
#[derive(Clone, Copy, Debug, PartialEq, Eq, Structural)]
pub struct Pixel {
    pub red: u8,
    pub green: u8,
    pub blue: u8,
    pub alpha: u8,
}

/// Number of channels that a pixel contributes to a flat array.
pub open spec fn channel_count(rgba: bool) -> int {
    if rgba {
        4
    } else {
        3
    }
}

/// Channel `index` of a pixel: red, green, blue, then alpha.
pub open spec fn pixel_channel(pixel: Pixel, index: int) -> u8 {
    if index == 0 {
        pixel.red
    } else if index == 1 {
        pixel.green
    } else if index == 2 {
        pixel.blue
    } else {
        pixel.alpha
    }
}

/// The channels of all pixels, pixel after pixel: red, green, blue and, if
/// `rgba`, alpha.
pub open spec fn channels(pixels: Seq<Pixel>, rgba: bool) -> Seq<u8> {
    Seq::new(
        (pixels.len() * channel_count(rgba)) as nat,
        |k: int| pixel_channel(pixels[k / channel_count(rgba)], k % channel_count(rgba)),
    )
}

/// A decoded image: `data` holds the pixels row by row.
pub struct Image {
    pub width: u32,
    pub height: u32,
    pub data: Vec<Pixel>,
}

impl Image {
    /// The pixel data as one flat vector of channels, with or without alpha.
    fn get_vec_helper(&self, rgba: bool) -> (bmp_data: Vec<u8>)
        ensures
            bmp_data@ == channels(self.data@, rgba),
    {
        let mut bmp_data: Vec<u8> = Vec::new();
        let mut i: usize = 0;
        while i < self.data.len()
            invariant
                i <= self.data@.len(),
                bmp_data@.len() == i * channel_count(rgba),
                forall|k: int|
                    0 <= k < bmp_data@.len() ==> bmp_data@[k] == channels(self.data@, rgba)[k],
            decreases self.data.len() - i,
        {
            let pixel = self.data[i];
            bmp_data.push(pixel.red);
            bmp_data.push(pixel.green);
            bmp_data.push(pixel.blue);
            if rgba {
                bmp_data.push(pixel.alpha);
            }
            i += 1;
        }
        bmp_data
    }

    /// The image as a flat vector with the channels red, green and blue of
    /// each pixel.
    pub fn get_rgb_vec(&self) -> (bmp_data: Vec<u8>)
        ensures
            bmp_data@ == channels(self.data@, false),
    {
        self.get_vec_helper(false)
    }

    /// The image as a flat vector with the channels red, green, blue and
    /// alpha of each pixel.
    pub fn get_rgba_vec(&self) -> (bmp_data: Vec<u8>)
        ensures
            bmp_data@ == channels(self.data@, true),
    {
        self.get_vec_helper(true)
    }
}

} // verus!
