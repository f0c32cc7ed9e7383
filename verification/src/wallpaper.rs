use vstd::prelude::*;

verus! {

/// The image that `data` encodes (in any format the `image` crate reads),
/// as its width, its height and its RGBA pixels, four bytes each, row by row;
/// `None` when the data cannot be decoded.
pub uninterp spec fn decoded_rgba(data: Seq<u8>) -> Option<(u32, u32, Seq<u8>)>;

/// Decodes an image with `image::load_from_memory` and converts it to RGBA
/// with `DynamicImage::to_rgba8`; what comes out depends on the bytes alone,
/// so it is named `decoded_rgba` rather than described.
#[verifier::external_body]
fn decode_rgba(data: &[u8]) -> (r: Option<(u32, u32, Vec<u8>)>)
    ensures
        match r {
            Some((w, h, px)) => decoded_rgba(data@) == Some((w, h, px@)),
            None => decoded_rgba(data@) is None,
        },
{
    match image::load_from_memory(data) {
        Ok(img) => {
            let rgba = img.to_rgba8();
            Some((rgba.width(), rgba.height(), rgba.into_raw()))
        },
        Err(_) => None,
    }
}

/// The background shown when the wallpaper cannot be shown: a dark blue.
pub const FALLBACK_BACKGROUND: u32 = 0x001a1a2e;

/// The server's bytes for the RGBA pixel at `p`: blue, green, red, pad when
/// the server wants the least significant byte first, else pad, red, green,
/// blue. The alpha byte is dropped.
pub open spec fn zpixel(rgba: Seq<u8>, p: int, lsb_first: bool) -> Seq<u8> {
    let r = rgba[4 * p];
    let g = rgba[4 * p + 1];
    let b = rgba[4 * p + 2];
    if lsb_first {
        seq![b, g, r, 0u8]
    } else {
        seq![0u8, r, g, b]
    }
}

/// The server's bytes for the first `n` pixels.
pub open spec fn zpixels(rgba: Seq<u8>, n: nat, lsb_first: bool) -> Seq<u8>
    decreases n,
{
    if n == 0 {
        seq![]
    } else {
        zpixels(rgba, (n - 1) as nat, lsb_first) + zpixel(rgba, n - 1, lsb_first)
    }
}

/// RGBA pixels in the server's `ZPixmap` layout; a trailing partial pixel is
/// dropped.
pub open spec fn zpixmap(rgba: Seq<u8>, lsb_first: bool) -> Seq<u8> {
    zpixels(rgba, rgba.len() / 4, lsb_first)
}

/// Converts RGBA pixels into the server's `ZPixmap` layout.
pub fn rgba_to_zpixmap(rgba: &[u8], lsb_first: bool) -> (out: Vec<u8>)
    ensures
        out@ == zpixmap(rgba@, lsb_first),
{
    let len = rgba.len();
    let n = len / 4;
    let mut out: Vec<u8> = Vec::with_capacity(len);
    let mut p: usize = 0;
    while p < n
        invariant
            len == rgba@.len(),
            n == len / 4,
            4 * n <= len,
            0 <= p <= n,
            out@ == zpixels(rgba@, p as nat, lsb_first),
        decreases n - p,
    {
        let r = rgba[4 * p];
        let g = rgba[4 * p + 1];
        let b = rgba[4 * p + 2];
        if lsb_first {
            out.push(b);
            out.push(g);
            out.push(r);
            out.push(0);
        } else {
            out.push(0);
            out.push(r);
            out.push(g);
            out.push(b);
        }
        assert(out@ =~= zpixels(rgba@, (p + 1) as nat, lsb_first));
        p = p + 1;
    }
    out
}

/// Which pixel of a `w` by `h` image the screen pixel (`x`, `y`) of an `sw`
/// by `sh` screen shows when the image fills the screen: the image is scaled
/// by the larger of `sw / w` and `sh / h`, so that it covers the screen,
/// centred, and what overhangs is cropped; each screen pixel takes the image
/// pixel it falls into.
pub open spec fn fill_source(w: nat, h: nat, sw: nat, sh: nat, x: nat, y: nat) -> (nat, nat) {
    if sw * h >= sh * w {
        let scaled_h = h * sw / w;
        let oy = ((scaled_h - sh) / 2) as nat;
        (x * w / sw, (y + oy) * w / sw)
    } else {
        let scaled_w = w * sh / h;
        let ox = ((scaled_w - sw) / 2) as nat;
        ((x + ox) * h / sh, y * h / sh)
    }
}

/// The RGBA bytes of screen pixel `p` (row by row) of the filled screen.
pub open spec fn fill_pixel(px: Seq<u8>, w: nat, h: nat, sw: nat, sh: nat, p: nat) -> Seq<u8> {
    let (sx, sy) = fill_source(w, h, sw, sh, p % sw, p / sw);
    let i = 4 * (sy * w + sx);
    px.subrange(i as int, (i + 4) as int)
}

/// The RGBA bytes of the first `n` pixels of the filled screen.
pub open spec fn filled(px: Seq<u8>, w: nat, h: nat, sw: nat, sh: nat, n: nat) -> Seq<u8>
    decreases n,
{
    if n == 0 {
        seq![]
    } else {
        filled(px, w, h, sw, sh, (n - 1) as nat) + fill_pixel(px, w, h, sw, sh, (n - 1) as nat)
    }
}

proof fn lemma_div_lt(a: int, d: int, b: int)
    requires
        0 <= a < b * d,
        d > 0,
    ensures
        0 <= a / d < b,
{
    vstd::arithmetic::div_mod::lemma_fundamental_div_mod(a, d);
    vstd::arithmetic::div_mod::lemma_div_pos_is_pos(a, d);
    let q = a / d;
    assert(q < b) by (nonlinear_arith)
        requires
            a == d * q + a % d,
            0 <= a % d,
            a < b * d,
            d > 0,
    ;
}

proof fn lemma_div_ge(a: int, d: int, c: int)
    requires
        0 <= c * d <= a,
        d > 0,
    ensures
        c <= a / d,
        (a / d) * d <= a,
{
    vstd::arithmetic::div_mod::lemma_fundamental_div_mod(a, d);
    let q = a / d;
    assert(c <= q && q * d <= a) by (nonlinear_arith)
        requires
            a == d * q + a % d,
            0 <= a % d < d,
            c * d <= a,
            d > 0,
    ;
}

/// Every screen pixel shows a pixel of the image: the filled wallpaper
/// covers the whole screen.
pub proof fn lemma_fill_source_in_image(w: nat, h: nat, sw: nat, sh: nat, x: nat, y: nat)
    requires
        w > 0,
        h > 0,
        x < sw,
        y < sh,
    ensures
        fill_source(w, h, sw, sh, x, y).0 < w,
        fill_source(w, h, sw, sh, x, y).1 < h,
{
    if sw * h >= sh * w {
        let scaled_h = h * sw / w;
        lemma_div_ge((h * sw) as int, w as int, sh as int);
        assert(sh <= scaled_h);
        let oy = ((scaled_h - sh) / 2) as nat;
        assert(x * w < w * sw) by (nonlinear_arith)
            requires
                x < sw,
                w > 0,
        ;
        lemma_div_lt((x * w) as int, sw as int, w as int);
        assert(y + oy <= scaled_h - 1);
        assert((y + oy) * w < h * sw) by (nonlinear_arith)
            requires
                0 <= y + oy <= scaled_h - 1,
                scaled_h * w <= h * sw,
                w > 0,
        ;
        lemma_div_lt(((y + oy) * w) as int, sw as int, h as int);
    } else {
        let scaled_w = w * sh / h;
        lemma_div_ge((w * sh) as int, h as int, sw as int);
        assert(sw <= scaled_w);
        let ox = ((scaled_w - sw) / 2) as nat;
        assert(y * h < h * sh) by (nonlinear_arith)
            requires
                y < sh,
                h > 0,
        ;
        lemma_div_lt((y * h) as int, sh as int, h as int);
        assert(x + ox <= scaled_w - 1);
        assert((x + ox) * h < w * sh) by (nonlinear_arith)
            requires
                0 <= x + ox <= scaled_w - 1,
                scaled_w * h <= w * sh,
                h > 0,
        ;
        lemma_div_lt(((x + ox) * h) as int, sh as int, w as int);
    }
}

/// The index of the image pixel that screen pixel (`x`, `y`) shows.
fn fill_source_exec(w: u32, h: u32, sw: u16, sh: u16, x: u16, y: u16) -> (r: (u32, u32))
    requires
        w > 0,
        h > 0,
        x < sw,
        y < sh,
    ensures
        r.0 as nat == fill_source(w as nat, h as nat, sw as nat, sh as nat, x as nat, y as nat).0,
        r.1 as nat == fill_source(w as nat, h as nat, sw as nat, sh as nat, x as nat, y as nat).1,
        r.0 < w,
        r.1 < h,
{
    proof {
        lemma_fill_source_in_image(w as nat, h as nat, sw as nat, sh as nat, x as nat, y as nat);
    }
    let w64 = w as u64;
    let h64 = h as u64;
    let sw64 = sw as u64;
    let sh64 = sh as u64;
    let x64 = x as u64;
    let y64 = y as u64;
    assert(sw64 * h64 <= 0x1_0000 * 0x1_0000_0000) by (nonlinear_arith)
        requires sw64 < 0x1_0000, h64 < 0x1_0000_0000;
    assert(sh64 * w64 <= 0x1_0000 * 0x1_0000_0000) by (nonlinear_arith)
        requires sh64 < 0x1_0000, w64 < 0x1_0000_0000;
    assert(h64 * sw64 == sw64 * h64 && w64 * sh64 == sh64 * w64) by (nonlinear_arith);
    assert(x64 * w64 <= 0x1_0000 * 0x1_0000_0000) by (nonlinear_arith)
        requires x64 < 0x1_0000, w64 < 0x1_0000_0000;
    assert(y64 * h64 <= 0x1_0000 * 0x1_0000_0000) by (nonlinear_arith)
        requires y64 < 0x1_0000, h64 < 0x1_0000_0000;
    if sw64 * h64 >= sh64 * w64 {
        let scaled_h = h64 * sw64 / w64;
        proof {
            lemma_div_ge((h * sw) as int, w as int, sh as int);
        }
        let oy = (scaled_h - sh64) / 2;
        assert((y64 + oy) * w64 < h64 * sw64) by (nonlinear_arith)
            requires
                0 <= y64 + oy <= scaled_h - 1,
                scaled_h * w64 <= h64 * sw64,
                w64 > 0,
        ;
        let sx = x64 * w64 / sw64;
        let sy = (y64 + oy) * w64 / sw64;
        (sx as u32, sy as u32)
    } else {
        let scaled_w = w64 * sh64 / h64;
        proof {
            lemma_div_ge((w * sh) as int, h as int, sw as int);
        }
        let ox = (scaled_w - sw64) / 2;
        assert((x64 + ox) * h64 < w64 * sh64) by (nonlinear_arith)
            requires
                0 <= x64 + ox <= scaled_w - 1,
                scaled_w * h64 <= w64 * sh64,
                h64 > 0,
        ;
        let sx = (x64 + ox) * h64 / sh64;
        let sy = y64 * h64 / sh64;
        (sx as u32, sy as u32)
    }
}

/// Scales and crops a `w` by `h` RGBA image so that it fills an `sw` by `sh`
/// screen.
pub fn scale_to_fill(px: &[u8], w: u32, h: u32, sw: u16, sh: u16) -> (out: Vec<u8>)
    requires
        w > 0,
        h > 0,
        px@.len() >= 4 * w * h,
    ensures
        out@ == filled(px@, w as nat, h as nat, sw as nat, sh as nat, (sw * sh) as nat),
{
    let mut out: Vec<u8> = Vec::new();
    let len = px.len();
    let mut y: u16 = 0;
    while y < sh
        invariant
            len == px@.len(),
            w > 0,
            h > 0,
            px@.len() >= 4 * w * h,
            y <= sh,
            out@ == filled(px@, w as nat, h as nat, sw as nat, sh as nat, (y * sw) as nat),
        decreases sh - y,
    {
        let mut x: u16 = 0;
        while x < sw
            invariant
                len == px@.len(),
                w > 0,
                h > 0,
                px@.len() >= 4 * w * h,
                y < sh,
                x <= sw,
                out@ == filled(px@, w as nat, h as nat, sw as nat, sh as nat, (y * sw + x) as nat),
            decreases sw - x,
        {
            let (sx, sy) = fill_source_exec(w, h, sw, sh, x, y);
            let ghost p = (y * sw + x) as nat;
            proof {
                vstd::arithmetic::div_mod::lemma_fundamental_div_mod_converse(p as int, sw as int, y as int, x as int);
                assert(4 * (sy * w + sx) + 4 <= 4 * w * h) by (nonlinear_arith)
                    requires
                        sx < w,
                        sy < h,
                ;
            }
            let i64v: u64 = 4 * (sy as u64 * w as u64 + sx as u64);
            let i = i64v as usize;
            out.push(px[i]);
            out.push(px[i + 1]);
            out.push(px[i + 2]);
            out.push(px[i + 3]);
            assert(out@ =~= filled(px@, w as nat, h as nat, sw as nat, sh as nat, p + 1));
            x = x + 1;
        }
        y = y + 1;
        assert((y - 1) * sw + sw == y * sw) by (nonlinear_arith);
    }
    assert(sh * sw == sw * sh) by (nonlinear_arith);
    out
}

/// A wallpaper the size of the screen, ready to be put into a pixmap.
pub struct WallpaperImage {
    pub width: u32,
    pub height: u32,
    pub data: Vec<u8>,
}

/// The wallpaper that the image file `png_data` holds, scaled to fill a
/// `screen_w` by `screen_h` screen (see `fill_source`: scaled by the larger
/// of the two ratios, centred, cropped), in the server's layout. `None` when
/// the file cannot be decoded or holds no pixels to scale.
pub fn wallpaper_image(png_data: &[u8], lsb_first: bool, screen_w: u16, screen_h: u16) -> (img: Option<WallpaperImage>)
    ensures
        match decoded_rgba(png_data@) {
            None => img is None,
            Some((w, h, px)) => if w == 0 || h == 0 || px.len() < 4 * w * h {
                img is None
            } else {
                img matches Some(i) && i.width == screen_w && i.height == screen_h
                    && i.data@ == zpixmap(filled(px, w as nat, h as nat, screen_w as nat, screen_h as nat, (screen_w * screen_h) as nat), lsb_first)
            },
        },
{
    match decode_rgba(png_data) {
        None => None,
        Some((w, h, px)) => {
            let (w128, h128) = (w as u128, h as u128);
            assert(4 * w128 * h128 <= 4 * 0xffff_ffff * 0xffff_ffff) by (nonlinear_arith)
                requires
                    w128 <= 0xffff_ffff,
                    h128 <= 0xffff_ffff,
            ;
            if w == 0 || h == 0 || (px.len() as u128) < 4 * w128 * h128 {
                return None;
            }
            let rgba = scale_to_fill(px.as_slice(), w, h, screen_w, screen_h);
            let data = rgba_to_zpixmap(rgba.as_slice(), lsb_first);
            Some(WallpaperImage { width: screen_w as u32, height: screen_h as u32, data })
        },
    }
}

} // verus!
