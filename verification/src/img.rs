//! The image buffer: pixel dimensions, the 8-bit pixels in arrival order,
//! and the accumulated plain-text pixel lines ready for an external writer.

use vstd::prelude::*;
use crate::color::{add_color_to_string, spec_pixel_line, spec_channel_byte, channel_byte};
use crate::vec3::Color;

verus! {

/// One converted output pixel, 8 bits per channel.
#[derive(Clone, Copy, PartialEq, Eq, Structural, Debug)]
pub struct Pixel {
    pub r: u8,
    pub g: u8,
    pub b: u8,
}

impl Pixel {
    /// Converts an accumulated color to an 8-bit pixel.
    pub fn from_vec3(vec: &Color) -> (p: Pixel)
        requires
            0 <= vec.x,
            0 <= vec.y,
            0 <= vec.z,
        ensures
            p.r as int == spec_channel_byte(vec.x as int),
            p.g as int == spec_channel_byte(vec.y as int),
            p.b as int == spec_channel_byte(vec.z as int),
    {
        Pixel { r: channel_byte(vec.x), g: channel_byte(vec.y), b: channel_byte(vec.z) }
    }
}

pub struct Img {
    pub height: u32,
    pub width: u32,
    pub pixels: Vec<Pixel>,
    pub content: Vec<u8>,
}

impl Img {
    /// An empty buffer for the given dimensions; the header line is the
    /// caller's concern, the body accumulates here.
    pub fn new(height: u32, width: u32) -> (img: Img)
        ensures
            img.height == height,
            img.width == width,
            img.pixels@.len() == 0,
            img.content@.len() == 0,
    {
        Img { height, width, pixels: Vec::new(), content: Vec::new() }
    }

    /// Converts and records one accumulated color: the pixel is appended
    /// and its output line is appended to the content.
    pub fn add_pixel(&mut self, color: &Color)
        requires
            0 <= color.x,
            0 <= color.y,
            0 <= color.z,
        ensures
            final(self).height == old(self).height,
            final(self).width == old(self).width,
            final(self).pixels@ == old(self).pixels@.push(
                Pixel {
                    r: spec_channel_byte(color.x as int) as u8,
                    g: spec_channel_byte(color.y as int) as u8,
                    b: spec_channel_byte(color.z as int) as u8,
                },
            ),
            final(self).content@ == old(self).content@ + spec_pixel_line(
                spec_channel_byte(color.x as int),
                spec_channel_byte(color.y as int),
                spec_channel_byte(color.z as int),
            ),
    {
        let p = Pixel::from_vec3(color);
        add_color_to_string(&mut self.content, color);
        self.pixels.push(p);
    }

    /// The number of rows to iterate.
    pub fn iter_heigth(&self) -> (h: u32)
        ensures
            h == self.height,
    {
        self.height
    }

    /// The number of columns to iterate.
    pub fn iter_width(&self) -> (w: u32)
        ensures
            w == self.width,
    {
        self.width
    }
}

} // verus!
