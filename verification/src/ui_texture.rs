//! Textures of the immediate-mode UI, created by the host and known here by
//! their handle.
use vstd::prelude::*;

verus! {

/// What a texture is created with, as the host takes it.
#[derive(Copy, Clone, Debug, PartialEq, Eq, Structural)]
pub struct TextureOptions {
    pub width: i32,
    pub height: i32,
    pub format: i32,
    pub usage: i32,
    pub cpu_access_flags: i32,
}

/// Why an upload into a texture is refused.
#[derive(Copy, Clone, Debug, PartialEq, Eq, Structural)]
pub enum TextureError {
    InvalidSize,
}

impl TextureError {
    pub fn message(&self) -> (r: &'static str)
        ensures
            r@ == "Invalid data size for texture dimensions"@,
    {
        "Invalid data size for texture dimensions"
    }
}

/// A UI texture: its size and the host's handle (`0` for none).
pub struct Texture {
    pub width: usize,
    pub height: usize,
    pub ptr: usize,
}

impl Texture {
    /// The texture the host made from `options` under the handle `ptr`.
    pub fn from_resource(options: TextureOptions, ptr: usize) -> (r: Texture)
        ensures
            r.width == options.width as usize,
            r.height == options.height as usize,
            r.ptr == ptr,
    {
        Texture { width: options.width as usize, height: options.height as usize, ptr }
    }

    /// No texture.
    pub fn empty() -> (r: Texture)
        ensures
            r.width == 0 && r.height == 0 && r.ptr == 0,
    {
        Texture { width: 0, height: 0, ptr: 0 }
    }

    /// The host's handle.
    pub fn resource(&self) -> (r: usize)
        ensures
            r == self.ptr,
    {
        self.ptr
    }

    /// Whether `len` bytes of RGBA fill the whole texture, as an upload needs.
    pub fn draw_check(&self, len: usize) -> (r: Result<(), TextureError>)
        requires
            self.width * self.height * 4 <= usize::MAX,
        ensures
            r is Ok <==> len == self.width * self.height * 4,
    {
        proof {
            assert(self.width * self.height <= self.width * self.height * 4) by (nonlinear_arith)
                requires
                    self.width >= 0,
                    self.height >= 0,
            ;
            vstd::arithmetic::mul::lemma_mul_nonnegative(self.width as int, self.height as int);
        }
        if len != self.width * self.height * 4 {
            return Err(TextureError::InvalidSize);
        }
        Ok(())
    }
}

} // verus!
