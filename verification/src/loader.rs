//! What becomes of a resource that the native library has loaded.
//!
//! The native loaders do not fail: each hands back a record whatever
//! happened, and a second call into the library tells whether the record can
//! be used.  The functions here take both answers and decide what the caller
//! of the safe interface gets.  They do not look into the record, so they
//! are generic in it.

use vstd::prelude::*;

verus! {

/// The result of loading a font from a file: the font where the native
/// library reports it as ready, nothing otherwise.
pub fn load_font<F>(font: F, ready: bool) -> (out: Option<F>)
    ensures
        out == (if ready {
            Some(font)
        } else {
            None
        }),
{
    if ready {
        Some(font)
    } else {
        None
    }
}

/// The result of loading a font from a file with a size and a set of
/// characters chosen by the caller: the font where the native library reports
/// it as ready, nothing otherwise.
pub fn load_font_ex<F>(font: F, ready: bool) -> (out: Option<F>)
    ensures
        out == (if ready {
            Some(font)
        } else {
            None
        }),
{
    if ready {
        Some(font)
    } else {
        None
    }
}

/// The result of loading a texture from a file: the texture where the
/// native library reports it as ready, nothing otherwise.
pub fn load_texture<T>(texture: T, ready: bool) -> (out: Option<T>)
    ensures
        out == (if ready {
            Some(texture)
        } else {
            None
        }),
{
    if ready {
        Some(texture)
    } else {
        None
    }
}

} // verus!
