//! 15-bit colors: five bits each of red, green and blue, red lowest. Bit 15 of
//! a framebuffer pixel marks it as written.

use vstd::prelude::*;

verus! {

/// The red channel, `0..=31`.
pub open spec fn red(c: u16) -> int {
    c as int % 32
}

/// The green channel, `0..=31`.
pub open spec fn green(c: u16) -> int {
    (c as int / 32) % 32
}

/// The blue channel, `0..=31`.
pub open spec fn blue(c: u16) -> int {
    (c as int / 1024) % 32
}

/// A color from its three channels.
pub open spec fn pack(r: int, g: int, b: int) -> u16 {
    (r + 32 * g + 1024 * b) as u16
}

/// Whether a framebuffer pixel carries the written mark.
pub open spec fn written(c: u16) -> bool {
    c >= 0x8000
}

/// The color part of a pixel, without the written mark.
pub open spec fn rgb(c: u16) -> u16 {
    c % 0x8000
}

/// A pixel with the written mark set.
pub open spec fn mark(c: u16) -> u16 {
    (rgb(c) + 0x8000) as u16
}

/// Unpacking a packed color gives its channels back, and a packed color never
/// carries the written mark.
pub proof fn law_pack_channels(r: int, g: int, b: int)
    requires
        0 <= r <= 31,
        0 <= g <= 31,
        0 <= b <= 31,
    ensures
        red(pack(r, g, b)) == r,
        green(pack(r, g, b)) == g,
        blue(pack(r, g, b)) == b,
        rgb(pack(r, g, b)) == pack(r, g, b),
        !written(pack(r, g, b)),
{
    let c = r + 32 * g + 1024 * b;
    assert(c / 32 == g + 32 * b);
    assert(c / 1024 == b);
}

/// Packing the channels of a color gives its color part back.
pub proof fn law_channels_pack(c: u16)
    ensures
        pack(red(c), green(c), blue(c)) == rgb(c),
{
    let x = c as int;
    assert(x / 32 / 32 == x / 1024);
    assert(x / 1024 / 32 == x / 0x8000);
    assert(x == 32 * (x / 32) + x % 32);
    assert(x / 32 == 32 * (x / 1024) + green(c));
    assert(x / 1024 == 32 * (x / 0x8000) + blue(c));
    assert(x == 0x8000 * (x / 0x8000) + x % 0x8000);
}

/// Marking a color sets the mark and keeps the channels.
pub proof fn law_mark(c: u16)
    ensures
        written(mark(c)),
        rgb(mark(c)) == rgb(c),
        red(mark(c)) == red(c),
        green(mark(c)) == green(c),
        blue(mark(c)) == blue(c),
        written(c) ==> mark(c) == c,
{
}

/// The three channels of a color.
pub fn channels(c: u16) -> (r: (u32, u32, u32))
    ensures
        r.0 == red(c),
        r.1 == green(c),
        r.2 == blue(c),
        r.0 <= 31,
        r.1 <= 31,
        r.2 <= 31,
{
    ((c % 32) as u32, ((c / 32) % 32) as u32, ((c / 1024) % 32) as u32)
}

/// Pack three channels into a color.
pub fn make(r: u32, g: u32, b: u32) -> (c: u16)
    requires
        r <= 31,
        g <= 31,
        b <= 31,
    ensures
        c == pack(r as int, g as int, b as int),
        c <= 0x7FFF,
{
    (r + 32 * g + 1024 * b) as u16
}

/// Set the written mark.
pub fn set_mark(c: u16) -> (r: u16)
    ensures
        r == mark(c),
{
    (c % 0x8000) + 0x8000
}

/// Red lies in the lowest five bits, green in the five above, blue in the five above
/// those, and the written mark in bit 15.
pub proof fn law_channel_places(r: int, g: int, b: int, on: bool)
    requires
        0 <= r <= 31,
        0 <= g <= 31,
        0 <= b <= 31,
    ensures
        ({
            let c = (r + 32 * g + 1024 * b + if on { 0x8000int } else { 0 }) as u16;
            &&& red(c) == r
            &&& green(c) == g
            &&& blue(c) == b
            &&& written(c) == on
            &&& pack(r, g, b) == r + 32 * g + 1024 * b
        }),
{
    let o: int = if on { 1 } else { 0 };
    let c = r + 32 * g + 1024 * b + 0x8000 * o;
    assert(c / 32 == g + 32 * b + 1024 * o);
    assert(c / 1024 == b + 32 * o);
}

} // verus!
