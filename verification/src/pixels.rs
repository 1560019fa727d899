//! Pictures of red, green, blue and alpha bytes: generated ones, blending and
//! scaling.
use vstd::prelude::*;

verus! {

/// A picture, row by row, four bytes per pixel.
#[derive(Debug)]
pub struct RgbaPixels {
    pub width: u32,
    pub height: u32,
    pub data: Vec<u8>,
}

impl RgbaPixels {
    /// The picture has a byte for each channel of each pixel, and no more.
    pub open spec fn wf(self) -> bool {
        self.data@.len() == 4 * (self.width * self.height)
    }

    /// The picture has the given size.
    pub open spec fn is_size(self, width: u32, height: u32) -> bool {
        self.width == width && self.height == height
    }
}

/// What `image::load_from_memory` and `DynamicImage::to_rgba8` make of the
/// bytes of a picture file: width, height and bytes, or nothing where the file
/// cannot be read.
pub uninterp spec fn decoded_image(bytes: Seq<u8>) -> Option<(u32, u32, Seq<u8>)>;

/// `image::load_from_memory`, then `DynamicImage::to_rgba8`: the picture in a
/// file. Which file gives which picture is not stated; a picture that comes
/// out has four bytes per pixel.
#[verifier::external_body]
fn load_from_memory(bytes: &[u8]) -> (r: Option<(u32, u32, Vec<u8>)>)
    ensures
        match r {
            Some(p) => decoded_image(bytes@) == Some((p.0, p.1, p.2@)) && p.2@.len() == 4 * (p.0
                * p.1),
            None => decoded_image(bytes@) is None,
        },
{
    match image::load_from_memory(bytes) {
        Ok(picture) => {
            let rgba = picture.to_rgba8();
            let (w, h) = rgba.dimensions();
            Some((w, h, rgba.into_raw()))
        },
        Err(_) => None,
    }
}

/// What `image::load_from_memory_with_format` and `DynamicImage::to_rgba8` make
/// of the bytes of a picture file in the format that `ImageFormat::from_extension`
/// gives for a file extension: width, height and bytes, or nothing where the
/// extension is of no format or the file cannot be read in it.
pub uninterp spec fn decoded_as(bytes: Seq<u8>, extension: Seq<char>) -> Option<(u32, u32, Seq<u8>)>;

/// `image::ImageFormat::from_extension`, `image::load_from_memory_with_format`,
/// then `DynamicImage::to_rgba8`: the picture in a file, read in the format of
/// its extension. Which file gives which picture is not stated; a picture that
/// comes out has four bytes per pixel.
#[verifier::external_body]
fn load_by_extension(bytes: &[u8], extension: &str) -> (r: Option<(u32, u32, Vec<u8>)>)
    ensures
        match r {
            Some(p) => decoded_as(bytes@, extension@) == Some((p.0, p.1, p.2@)) && p.2@.len() == 4
                * (p.0 * p.1),
            None => decoded_as(bytes@, extension@) is None,
        },
{
    let format = image::ImageFormat::from_extension(extension)?;
    match image::load_from_memory_with_format(bytes, format) {
        Ok(picture) => {
            let rgba = picture.to_rgba8();
            let (w, h) = rgba.dimensions();
            Some((w, h, rgba.into_raw()))
        },
        Err(_) => None,
    }
}

/// What `image::imageops::resize` with the filter `Triangle` makes of a
/// picture: its bytes at another size.
pub uninterp spec fn resized(
    data: Seq<u8>,
    width: u32,
    height: u32,
    new_width: u32,
    new_height: u32,
) -> Seq<u8>;

/// The largest side of a picture that is scaled. Positions up to it are exact
/// enough in single precision for the weights of a pixel never to sum to zero.
pub const MAX_SIDE: u32 = 0x10_0000;

/// `image::imageops::resize` with the filter `Triangle`, that is, linear
/// interpolation in both directions: the bytes of a picture at another size.
/// The colours of its pixels are not stated, only their number. The weights of
/// the filter are single-precision numbers that are divided by their sum; the
/// bound on the sides keeps out the sizes at which the rounding of positions
/// could make that sum zero.
#[verifier::external_body]
fn resize(data: &Vec<u8>, width: u32, height: u32, new_width: u32, new_height: u32) -> (r: Vec<u8>)
    requires
        data@.len() == 4 * (width * height),
        width <= MAX_SIDE,
        height <= MAX_SIDE,
        new_width <= MAX_SIDE,
        new_height <= MAX_SIDE,
        16 * (width * new_height) <= isize::MAX,
        4 * (new_width * new_height) <= isize::MAX,
    ensures
        r@ == resized(data@, width, height, new_width, new_height),
        r@.len() == 4 * (new_width * new_height),
{
    let source = image::RgbaImage::from_raw(width, height, data.clone()).unwrap();
    let filter = image::imageops::FilterType::Triangle;
    image::imageops::resize(&source, new_width, new_height, filter).into_raw()
}

/// Whether `data` has the bytes `f(x, y, channel)` for a picture of the width.
pub open spec fn shows(
    data: Seq<u8>,
    width: int,
    height: int,
    f: spec_fn(int, int, int) -> int,
) -> bool {
    &&& data.len() == 4 * (width * height)
    &&& forall|p: int, c: int|
        #![trigger f(p % width, p / width, c)]
        0 <= p < width * height && 0 <= c < 4 ==> data[4 * p + c] == f(p % width, p / width, c)
}

/// The bytes of a pixel of the checkerboard: squares of eight pixels, bright
/// and dark magenta in turn.
pub open spec fn checker(x: int, y: int, c: int) -> int {
    if c == 3 {
        255
    } else if c == 1 {
        0
    } else if (x / 8 + y / 8) % 2 == 0 {
        255
    } else {
        80
    }
}

/// The texture of models without one: a checkerboard of 64 by 64 pixels.
pub fn checkerboard() -> (r: RgbaPixels)
    ensures
        r.is_size(64, 64),
        r.wf(),
        shows(r.data@, 64, 64, |x: int, y: int, c: int| checker(x, y, c)),
{
    let mut data: Vec<u8> = Vec::new();
    let mut p: u32 = 0;
    while p < 4096
        invariant
            p <= 4096,
            data@.len() == 4 * p,
            forall|q: int, c: int|
                #![trigger checker(q % 64, q / 64, c)]
                0 <= q < p && 0 <= c < 4 ==> data@[4 * q + c] == checker(q % 64, q / 64, c),
        decreases 4096 - p,
    {
        let x: u32 = p % 64;
        let y: u32 = p / 64;
        let v: u8 = if (x / 8 + y / 8) % 2 == 0 {
            255
        } else {
            80
        };
        let ghost before = data@;
        data.push(v);
        data.push(0);
        data.push(v);
        data.push(255);
        assert(forall|k: int| 0 <= k < before.len() ==> data@[k] == before[k]);
        p += 1;
    }
    RgbaPixels { width: 64, height: 64, data }
}

/// Twice the distance, in pixels, of the row or column `t` of a tile from the
/// highlight of a frame, which moves half a pixel per frame and comes in again
/// from the other side.
pub open spec fn band_distance(t: int, frame: int) -> int {
    let a = if 2 * t >= frame {
        2 * t - frame
    } else {
        frame - 2 * t
    };
    let b = if 2 * t + 32 >= frame {
        2 * t + 32 - frame
    } else {
        frame - 2 * t - 32
    };
    if a <= b {
        a
    } else {
        b
    }
}

/// The brightness at a distance from the highlight: full at it, and eighteen
/// hundredths less a tile's length away, to the nearest whole number.
pub open spec fn band_brightness(d: int) -> int {
    (255 * 320 - 459 * d + 160) / 320
}

/// The bytes of a pixel of the water sheets: 32 tiles of 16 by 16 pixels, one
/// below the other. The highlight runs across the rows of a tile, or across
/// its columns where the water flows.
pub open spec fn water_pixel(flowing: bool, x: int, y: int, c: int) -> int {
    if c == 3 {
        255
    } else {
        band_brightness(
            band_distance(
                if flowing {
                    x
                } else {
                    y % 16
                },
                y / 16,
            ),
        )
    }
}

fn water_sheet(flowing: bool) -> (r: Vec<u8>)
    ensures
        shows(r@, 16, 512, |x: int, y: int, c: int| water_pixel(flowing, x, y, c)),
{
    let mut data: Vec<u8> = Vec::new();
    let mut p: i32 = 0;
    while p < 8192
        invariant
            0 <= p <= 8192,
            data@.len() == 4 * p,
            forall|q: int, c: int|
                #![trigger water_pixel(flowing, q % 16, q / 16, c)]
                0 <= q < p && 0 <= c < 4 ==> data@[4 * q + c] == water_pixel(
                    flowing,
                    q % 16,
                    q / 16,
                    c,
                ),
        decreases 8192 - p,
    {
        let x: i32 = p % 16;
        let y: i32 = p / 16;
        let t: i32 = if flowing {
            x
        } else {
            y % 16
        };
        let frame: i32 = y / 16;
        let a: i32 = if 2 * t >= frame {
            2 * t - frame
        } else {
            frame - 2 * t
        };
        let b: i32 = if 2 * t + 32 >= frame {
            2 * t + 32 - frame
        } else {
            frame - 2 * t - 32
        };
        let d: i32 = if a <= b {
            a
        } else {
            b
        };
        let v: u8 = ((255 * 320 - 459 * d + 160) / 320) as u8;
        let ghost before = data@;
        data.push(v);
        data.push(v);
        data.push(v);
        data.push(255);
        assert(forall|k: int| 0 <= k < before.len() ==> data@[k] == before[k]);
        p += 1;
    }
    data
}

/// The sheet of still water that stands in for a missing file.
pub fn generate_water_anim_pixels() -> (r: Vec<u8>)
    ensures
        shows(r@, 16, 512, |x: int, y: int, c: int| water_pixel(false, x, y, c)),
{
    water_sheet(false)
}

/// The sheet of flowing water that stands in for a missing file.
pub fn generate_water_flow_pixels() -> (r: Vec<u8>)
    ensures
        shows(r@, 16, 512, |x: int, y: int, c: int| water_pixel(true, x, y, c)),
{
    water_sheet(true)
}

/// Each frame of the still sheet is brightest where its highlight is, and no
/// pixel is darker than 82 hundredths of full brightness allow.
pub proof fn law_water_brightness(flowing: bool, x: int, y: int, c: int)
    requires
        0 <= x < 16,
        0 <= y < 512,
        0 <= c < 4,
    ensures
        209 <= water_pixel(flowing, x, y, c) <= 255,
        c < 3 && band_distance(
            if flowing {
                x
            } else {
                y % 16
            },
            y / 16,
        ) == 0 ==> water_pixel(flowing, x, y, c) == 255,
{
}

/// The whole number nearest to `n / d`, the upper one of two.
pub open spec fn nearest(n: int, d: int) -> int {
    (2 * n + d) / (2 * d)
}

/// The opacity, in parts of 255 times 255, where a layer of opacity `la` lies
/// over a pixel of opacity `ba`.
pub open spec fn coverage(ba: int, la: int) -> int {
    255 * la + ba * (255 - la)
}

/// The alpha of a pixel after a layer was laid over it.
pub open spec fn over_alpha(ba: int, la: int) -> int {
    nearest(coverage(ba, la), 255)
}

/// A colour channel after a layer was laid over it: the mean of both colours,
/// each weighted by the share of the opacity that it has. Where nothing is
/// opaque at all the colour stays.
pub open spec fn over_color(b: int, ba: int, l: int, la: int) -> int {
    if coverage(ba, la) == 0 {
        b
    } else {
        nearest(255 * la * l + ba * (255 - la) * b, coverage(ba, la))
    }
}

/// The byte at place `i` of a picture after a layer was laid over it, by the
/// rule "source over" for colours that are not multiplied by their alpha.
pub open spec fn blended_byte(base: Seq<u8>, layer: Seq<u8>, i: int) -> int {
    let p = i / 4;
    let ba = base[4 * p + 3] as int;
    let la = layer[4 * p + 3] as int;
    if i % 4 == 3 {
        over_alpha(ba, la)
    } else {
        over_color(base[i] as int, ba, layer[i] as int, la)
    }
}

proof fn lemma_nearest(n: int, d: int, lo: int, hi: int)
    requires
        d > 0,
        lo * d <= n <= hi * d,
    ensures
        lo <= nearest(n, d) <= hi,
{
    let q = nearest(n, d);
    vstd::arithmetic::div_mod::lemma_fundamental_div_mod(2 * n + d, 2 * d);
    vstd::arithmetic::div_mod::lemma_mod_bound(2 * n + d, 2 * d);
    let r = (2 * n + d) % (2 * d);
    assert(lo <= q <= hi) by (nonlinear_arith)
        requires
            d > 0,
            lo * d <= n <= hi * d,
            2 * n + d == 2 * d * q + r,
            0 <= r < 2 * d,
    ;
}

proof fn lemma_coverage(ba: int, la: int)
    requires
        0 <= ba <= 255,
        0 <= la <= 255,
    ensures
        0 <= 255 * la,
        0 <= ba * (255 - la),
        0 <= coverage(ba, la) <= 255 * 255,
        coverage(ba, la) == 0 <==> ba == 0 && la == 0,
        ba == 255 ==> coverage(ba, la) == 255 * 255,
        0 <= over_alpha(ba, la) <= 255,
{
    assert(0 <= ba * (255 - la) <= 255 * (255 - la)) by (nonlinear_arith)
        requires
            0 <= ba <= 255,
            0 <= la <= 255,
    ;
    if la == 0 {
        assert(ba * (255 - la) == 255 * ba) by (nonlinear_arith)
            requires
                la == 0,
        ;
    }
    lemma_nearest(coverage(ba, la), 255, 0, 255);
}

proof fn lemma_over_color(b: int, ba: int, l: int, la: int)
    requires
        0 <= b <= 255,
        0 <= ba <= 255,
        0 <= l <= 255,
        0 <= la <= 255,
    ensures
        0 <= 255 * la * l,
        0 <= ba * (255 - la) * b,
        255 * la * l + ba * (255 - la) * b <= 255 * 255 * 255,
        (b <= l ==> b <= over_color(b, ba, l, la) <= l),
        (l <= b ==> l <= over_color(b, ba, l, la) <= b),
{
    lemma_coverage(ba, la);
    let p = 255 * la;
    let q = ba * (255 - la);
    let lo = if b <= l {
        b
    } else {
        l
    };
    let hi = if b <= l {
        l
    } else {
        b
    };
    assert(0 <= p * l && 0 <= q * b && lo * (p + q) <= p * l + q * b <= hi * (p + q)) by (
    nonlinear_arith)
        requires
            0 <= p,
            0 <= q,
            0 <= lo <= l <= hi,
            0 <= lo <= b <= hi,
    ;
    assert(hi * (p + q) <= 255 * (255 * 255)) by (nonlinear_arith)
        requires
            0 <= hi <= 255,
            0 <= p + q <= 255 * 255,
    ;
    if p + q > 0 {
        lemma_nearest(p * l + q * b, p + q, lo, hi);
    }
}

/// A blended channel lies between the two it comes from. A layer that is
/// transparent changes nothing, one that is opaque covers, and over a clear
/// pixel the layer keeps its colour and its alpha. Over an opaque pixel the
/// colour is the mean, weighted by the opacity of the layer.
pub proof fn law_blend(b: int, ba: int, l: int, la: int)
    requires
        0 <= b <= 255,
        0 <= ba <= 255,
        0 <= l <= 255,
        0 <= la <= 255,
    ensures
        la == 0 ==> over_color(b, ba, l, la) == b && over_alpha(ba, la) == ba,
        la == 255 ==> over_color(b, ba, l, la) == l && over_alpha(ba, la) == 255,
        ba == 0 && la > 0 ==> over_color(b, ba, l, la) == l,
        ba == 0 ==> over_alpha(ba, la) == la,
        ba == 255 ==> over_color(b, ba, l, la) == nearest(la * l + (255 - la) * b, 255),
        ba == 255 ==> over_alpha(ba, la) == 255,
        (b <= l ==> b <= over_color(b, ba, l, la) <= l),
        (l <= b ==> l <= over_color(b, ba, l, la) <= b),
        ba <= over_alpha(ba, la) && la <= over_alpha(ba, la) <= 255,
{
    lemma_coverage(ba, la);
    lemma_over_color(b, ba, l, la);
    let d = coverage(ba, la);
    let n = 255 * la * l + ba * (255 - la) * b;
    assert(la == 0 ==> d == 255 * ba && n == b * d) by (nonlinear_arith)
        requires
            d == 255 * la + ba * (255 - la),
            n == 255 * la * l + ba * (255 - la) * b,
    ;
    assert(la == 255 ==> d == 255 * 255 && n == l * d) by (nonlinear_arith)
        requires
            d == 255 * la + ba * (255 - la),
            n == 255 * la * l + ba * (255 - la) * b,
    ;
    assert(ba == 0 ==> d == 255 * la && n == l * d) by (nonlinear_arith)
        requires
            d == 255 * la + ba * (255 - la),
            n == 255 * la * l + ba * (255 - la) * b,
    ;
    if d > 0 {
        if la == 0 {
            lemma_nearest(n, d, b, b);
        }
        if la == 255 || ba == 0 {
            lemma_nearest(n, d, l, l);
        }
    }
    if ba == 255 {
        let m = la * l + (255 - la) * b;
        assert(n == 255 * m) by (nonlinear_arith)
            requires
                ba == 255,
                m == la * l + (255 - la) * b,
                n == 255 * la * l + ba * (255 - la) * b,
        ;
        let x = 2 * m + 255;
        assert(2 * n + d == 255 * x);
        assert((255 * x) / 130050 == x / 510) by {
            vstd::arithmetic::div_mod::lemma_div_denominator(255 * x, 255, 510);
            vstd::arithmetic::div_mod::lemma_div_multiples_vanish(x, 255);
        }
    }
    assert(ba * 255 <= d && la * 255 <= d) by (nonlinear_arith)
        requires
            0 <= ba <= 255,
            0 <= la <= 255,
            d == 255 * la + ba * (255 - la),
    ;
    lemma_nearest(d, 255, ba, 255);
    lemma_nearest(d, 255, la, 255);
    if la == 0 {
        lemma_nearest(d, 255, ba, ba);
    }
    if ba == 0 {
        lemma_nearest(d, 255, la, la);
    }
}

fn blend_alpha(ba: u8, la: u8) -> (r: u8)
    ensures
        r as int == over_alpha(ba as int, la as int),
{
    proof {
        lemma_coverage(ba as int, la as int);
    }
    let d: u32 = 255 * la as u32 + ba as u32 * (255 - la as u32);
    ((2 * d + 255) / 510) as u8
}

fn blend_color(b: u8, ba: u8, l: u8, la: u8) -> (r: u8)
    ensures
        r as int == over_color(b as int, ba as int, l as int, la as int),
{
    proof {
        lemma_coverage(ba as int, la as int);
        lemma_over_color(b as int, ba as int, l as int, la as int);
    }
    let p: u32 = 255 * la as u32;
    let q: u32 = ba as u32 * (255 - la as u32);
    let d: u32 = p + q;
    if d == 0 {
        return b;
    }
    let n: u32 = p * l as u32 + q * b as u32;
    ((2 * n + d) / (2 * d)) as u8
}

/// The bytes of `base` with `layer` laid over it.
pub open spec fn overlaid(base: Seq<u8>, layer: Seq<u8>) -> Seq<u8> {
    Seq::new(base.len(), |i: int| blended_byte(base, layer, i) as u8)
}

/// Lays a picture of the same size over another one.
pub fn blend_over(base: &Vec<u8>, layer: &Vec<u8>) -> (r: Vec<u8>)
    requires
        base@.len() == layer@.len(),
        base@.len() % 4 == 0,
    ensures
        r@ == overlaid(base@, layer@),
        r@.len() == base@.len(),
{
    let mut r: Vec<u8> = Vec::new();
    let mut i: usize = 0;
    while i < base.len()
        invariant
            i <= base@.len(),
            i % 4 == 0,
            base@.len() % 4 == 0,
            base@.len() == layer@.len(),
            r@.len() == i,
            forall|k: int| #![trigger r@[k]] 0 <= k < i ==> r@[k] == blended_byte(base@, layer@, k) as u8,
        decreases base@.len() - i,
    {
        let ba: u8 = base[i + 3];
        let la: u8 = layer[i + 3];
        let c0: u8 = blend_color(base[i], ba, layer[i], la);
        let c1: u8 = blend_color(base[i + 1], ba, layer[i + 1], la);
        let c2: u8 = blend_color(base[i + 2], ba, layer[i + 2], la);
        let c3: u8 = blend_alpha(ba, la);
        r.push(c0);
        r.push(c1);
        r.push(c2);
        r.push(c3);
        assert(c0 == blended_byte(base@, layer@, i as int));
        assert(c1 == blended_byte(base@, layer@, i + 1));
        assert(c2 == blended_byte(base@, layer@, i + 2));
        assert(c3 == blended_byte(base@, layer@, i + 3));
        i += 4;
    }
    assert(r@ =~= overlaid(base@, layer@));
    r
}

/// The bytes of a layer brought to the size of the picture below it.
pub open spec fn scaled(layer: RgbaPixels, width: u32, height: u32) -> Seq<u8> {
    if layer.is_size(width, height) {
        layer.data@
    } else {
        resized(layer.data@, layer.width, layer.height, width, height)
    }
}

/// The layer can be brought to the size: no side and no intermediate picture
/// is too large.
pub open spec fn scalable(layer: RgbaPixels, width: u32, height: u32) -> bool {
    layer.is_size(width, height) || {
        &&& layer.width <= MAX_SIDE
        &&& layer.height <= MAX_SIDE
        &&& width <= MAX_SIDE
        &&& height <= MAX_SIDE
        &&& 16 * (layer.width * height) <= isize::MAX
        &&& 4 * (width * height) <= isize::MAX
    }
}

/// The bytes of a picture after the layers were laid over it, one after the
/// other. A layer that is missing is passed over.
pub open spec fn composited(
    base: Seq<u8>,
    width: u32,
    height: u32,
    layers: Seq<Option<RgbaPixels>>,
) -> Seq<u8>
    decreases layers.len(),
{
    if layers.len() == 0 {
        base
    } else {
        let below = composited(base, width, height, layers.drop_last());
        match layers.last() {
            Some(l) => overlaid(below, scaled(l, width, height)),
            None => below,
        }
    }
}

/// Lays pictures over another one, each brought to its size first.
pub fn composite_layers(base: RgbaPixels, layers: &Vec<Option<RgbaPixels>>) -> (r: RgbaPixels)
    requires
        base.wf(),
        forall|i: int|
            #![trigger layers@[i]]
            0 <= i < layers@.len() ==> (layers@[i] matches Some(l) ==> l.wf() && scalable(
                l,
                base.width,
                base.height,
            )),
    ensures
        r.wf(),
        r.is_size(base.width, base.height),
        r.data@ == composited(base.data@, base.width, base.height, layers@),
{
    let w: u32 = base.width;
    let h: u32 = base.height;
    let ghost start = base.data@;
    let mut data: Vec<u8> = base.data;
    let mut i: usize = 0;
    assert(layers@.take(0) =~= Seq::<Option<RgbaPixels>>::empty());
    while i < layers.len()
        invariant
            i <= layers@.len(),
            data@.len() == 4 * (w * h),
            data@ == composited(start, w, h, layers@.take(i as int)),
            forall|i: int|
                #![trigger layers@[i]]
                0 <= i < layers@.len() ==> (layers@[i] matches Some(l) ==> l.wf() && scalable(
                    l,
                    w,
                    h,
                )),
        decreases layers@.len() - i,
    {
        proof {
            let next = layers@.take(i as int + 1);
            assert(next.drop_last() =~= layers@.take(i as int));
            assert(next.last() == layers@[i as int]);
        }
        match &layers[i] {
            Some(l) => {
                if l.width != w || l.height != h {
                    let scaled: Vec<u8> = resize(&l.data, l.width, l.height, w, h);
                    data = blend_over(&data, &scaled);
                } else {
                    data = blend_over(&data, &l.data);
                }
            },
            None => {},
        }
        i += 1;
    }
    assert(layers@.take(layers@.len() as int) =~= layers@);
    RgbaPixels { width: w, height: h, data }
}

/// The side of a tile, in pixels.
pub const TILE: u32 = 16;

/// The pixel of a side of length `n` that stands for pixel `i` of a tile.
pub open spec fn sample_at(i: int, n: int) -> int {
    i * n / 16
}

/// The byte of a tile made from a picture: each pixel is the one that lies at
/// the same place in proportion.
pub open spec fn tile_byte(data: Seq<u8>, width: int, height: int, x: int, y: int, c: int) -> int {
    data[4 * (sample_at(y, height) * width + sample_at(x, width)) + c] as int
}

proof fn lemma_sample(i: int, n: int)
    requires
        0 <= i < 16,
        n >= 1,
    ensures
        0 <= sample_at(i, n) < n,
{
    assert(0 <= i * n < 16 * n) by (nonlinear_arith)
        requires
            0 <= i < 16,
            n >= 1,
    ;
}

/// The tile of 16 by 16 pixels that stands for a picture.
pub fn tile_preview(picture: &RgbaPixels) -> (r: Vec<u8>)
    requires
        picture.wf(),
        picture.width >= 1,
        picture.height >= 1,
    ensures
        shows(
            r@,
            16,
            16,
            |x: int, y: int, c: int|
                tile_byte(
                    picture.data@,
                    picture.width as int,
                    picture.height as int,
                    x,
                    y,
                    c,
                ),
        ),
{
    let w: u64 = picture.width as u64;
    let h: u64 = picture.height as u64;
    let mut data: Vec<u8> = Vec::new();
    let mut p: u64 = 0;
    let n: usize = picture.data.len();
    while p < 256
        invariant
            p <= 256,
            w == picture.width,
            h == picture.height,
            n == picture.data@.len(),
            picture.wf(),
            w >= 1,
            h >= 1,
            data@.len() == 4 * p,
            forall|q: int, c: int|
                #![trigger tile_byte(picture.data@, w as int, h as int, q % 16, q / 16, c)]
                0 <= q < p && 0 <= c < 4 ==> data@[4 * q + c] == tile_byte(
                    picture.data@,
                    w as int,
                    h as int,
                    q % 16,
                    q / 16,
                    c,
                ),
        decreases 256 - p,
    {
        let x: u64 = p % 16;
        let y: u64 = p / 16;
        proof {
            lemma_sample(x as int, w as int);
            lemma_sample(y as int, h as int);
            assert(0 <= x * w <= 15 * 0xffff_ffff) by (nonlinear_arith)
                requires
                    0 <= x < 16,
                    w <= 0xffff_ffff,
            ;
            assert(0 <= y * h <= 15 * 0xffff_ffff) by (nonlinear_arith)
                requires
                    0 <= y < 16,
                    h <= 0xffff_ffff,
            ;
        }
        let sx: u64 = x * w / 16;
        let sy: u64 = y * h / 16;
        proof {
            assert(0 <= sy * w && sy * w + sx < w * h) by (nonlinear_arith)
                requires
                    0 <= sx,
                    sx < w,
                    0 <= sy,
                    sy < h,
            ;
        }
        let src: usize = (sy * w + sx) as usize * 4;
        let ghost before = data@;
        data.push(picture.data[src]);
        data.push(picture.data[src + 1]);
        data.push(picture.data[src + 2]);
        data.push(picture.data[src + 3]);
        assert(forall|k: int| 0 <= k < before.len() ==> data@[k] == before[k]);
        p += 1;
    }
    data
}

/// `t` is the tile of a picture, given by its sides and its bytes.
pub open spec fn shows_tile(t: Seq<u8>, p: (u32, u32, Seq<u8>)) -> bool {
    shows(
        t,
        16,
        16,
        |x: int, y: int, c: int| tile_byte(p.2, p.0 as int, p.1 as int, x, y, c),
    )
}

/// The picture in a file whose name has the extension, or nothing where the
/// file cannot be read in the format of the extension.
pub fn picture_of_file(bytes: &Vec<u8>, extension: &str) -> (r: Option<RgbaPixels>)
    ensures
        match r {
            Some(p) => p.wf() && decoded_as(bytes@, extension@) == Some(
                (p.width, p.height, p.data@),
            ),
            None => decoded_as(bytes@, extension@) is None,
        },
{
    match load_by_extension(bytes.as_slice(), extension) {
        Some(p) => Some(RgbaPixels { width: p.0, height: p.1, data: p.2 }),
        None => None,
    }
}

/// The tile of the picture in a file: none where the file cannot be read or
/// the picture has no pixels.
pub fn tile_of_file(bytes: &Vec<u8>) -> (r: Option<Vec<u8>>)
    ensures
        r is Some <==> (decoded_image(bytes@) matches Some(p) && p.0 >= 1 && p.1 >= 1),
        r matches Some(t) ==> shows_tile(t@, decoded_image(bytes@)->Some_0),
{
    match load_from_memory(bytes.as_slice()) {
        Some(p) => {
            if p.0 == 0 || p.1 == 0 {
                return None;
            }
            let picture: RgbaPixels = RgbaPixels { width: p.0, height: p.1, data: p.2 };
            Some(tile_preview(&picture))
        },
        None => None,
    }
}

/// A picture shows a function of place and channel where the four bytes of
/// each pixel, row by row, are its values there.
pub proof fn law_shows(
    data: Seq<u8>,
    width: int,
    height: int,
    f: spec_fn(int, int, int) -> int,
    x: int,
    y: int,
    c: int,
)
    requires
        shows(data, width, height, f),
        0 <= x < width,
        0 <= y < height,
        0 <= c < 4,
    ensures
        data.len() == 4 * (width * height),
        data[4 * (y * width + x) + c] == f(x, y, c),
{
    let p = y * width + x;
    assert(p == width * y + x) by (nonlinear_arith)
        requires
            p == y * width + x,
    ;
    vstd::arithmetic::div_mod::lemma_fundamental_div_mod_converse(p, width, y, x);
    assert(0 <= p < width * height) by (nonlinear_arith)
        requires
            p == width * y + x,
            0 <= x < width,
            0 <= y < height,
    ;
    assert(f(p % width, p / width, c) == f(x, y, c));
}

/// The checkerboard: opaque squares of eight by eight pixels, without green
/// and with as much red as blue, full in the first square and at 80 in those
/// beside it, and so on in turn.
pub proof fn law_checker(x: int, y: int, i: int, j: int, c: int)
    requires
        0 <= i < 8,
        0 <= j < 8,
    ensures
        checker(x, y, 3) == 255,
        checker(x, y, 1) == 0,
        checker(x, y, 0) == checker(x, y, 2),
        checker(i, j, 0) == 255,
        checker(8 * x + i, 8 * y + j, c) == checker(8 * x, 8 * y, c),
        checker(x + 8, y, 0) + checker(x, y, 0) == 335,
        checker(x, y + 8, 0) + checker(x, y, 0) == 335,
{
    assert((8 * x + i) / 8 == x);
    assert((8 * y + j) / 8 == y);
    assert((x + 8) / 8 == x / 8 + 1);
    assert((y + 8) / 8 == y / 8 + 1);
}

/// How far a line lies from the bright band, in half pixels: nothing where
/// twice the line is the frame, one more for each frame to either side, and the
/// band comes round every 32 frames. Two frames on it has moved by one line.
pub proof fn law_band_distance(t: int, d: int, frame: int)
    ensures
        0 <= d <= 16 ==> band_distance(t, 2 * t + d) == d && band_distance(t, 2 * t + 32 - d) == d,
        d >= 0 ==> band_distance(t, 2 * t - d) == d && band_distance(t, 2 * t + 32 + d) == d,
        band_distance(t + 1, frame + 2) == band_distance(t, frame),
{
}

/// The brightness at a distance is the whole number nearest to
/// `255 - 459 d / 320`.
pub proof fn law_band_brightness(d: int)
    ensures
        255 * 320 - 459 * d - 160 < 320 * band_brightness(d) <= 255 * 320 - 459 * d + 160,
{
}

/// Water is grey and opaque. Still water is alike along each line, flowing
/// water along each column; and two frames on every line of the one, and every
/// column of the other, looks as the one before it looked.
pub proof fn law_water(flowing: bool, x: int, z: int, t: int, s: int, frame: int, c: int)
    requires
        0 <= t < 15,
        0 <= s < 16,
        0 <= frame,
        0 <= c < 3,
    ensures
        water_pixel(flowing, x, s, 3) == 255,
        water_pixel(flowing, x, s, c) == water_pixel(flowing, x, s, 0),
        water_pixel(false, x, 16 * frame + s, c) == water_pixel(false, z, 16 * frame + s, c),
        water_pixel(true, x, 16 * frame + s, c) == water_pixel(true, x, 16 * frame + t, c),
        water_pixel(false, x, 16 * (frame + 2) + t + 1, c) == water_pixel(
            false,
            x,
            16 * frame + t,
            c,
        ),
        water_pixel(true, x + 1, 16 * (frame + 2) + s, c) == water_pixel(
            true,
            x,
            16 * frame + s,
            c,
        ),
        water_pixel(false, x, 16 * frame + s, c) == band_brightness(band_distance(s, frame)),
        water_pixel(true, x, 16 * frame + s, c) == band_brightness(band_distance(x, frame)),
{
    assert((16 * frame + s) % 16 == s && (16 * frame + s) / 16 == frame);
    assert((16 * frame + t) % 16 == t && (16 * frame + t) / 16 == frame);
    assert((16 * (frame + 2) + t + 1) % 16 == t + 1 && (16 * (frame + 2) + t + 1) / 16 == frame + 2);
    assert((16 * (frame + 2) + s) / 16 == frame + 2);
}

/// The nearest whole number to a quotient, the larger of two equally near.
pub proof fn law_nearest(n: int, d: int)
    requires
        d > 0,
    ensures
        2 * n - d < 2 * (d * nearest(n, d)) <= 2 * n + d,
{
    let a = 2 * n + d;
    let b = 2 * d;
    vstd::arithmetic::div_mod::lemma_fundamental_div_mod(a, b);
    vstd::arithmetic::div_mod::lemma_mod_bound(a, b);
    let q = a / b;
    assert(b * q == 2 * (d * q)) by (nonlinear_arith)
        requires
            b == 2 * d,
    ;
}

/// What shines through two layers is what shines through both, and the colour
/// of the two is the mean of theirs, each counted by what it covers of what is
/// seen, to the nearest whole number. Where nothing covers, the colour stays.
pub proof fn law_blend_is_mean(b: int, ba: int, l: int, la: int)
    requires
        0 <= ba <= 255,
        0 <= la <= 255,
    ensures
        255 * 255 - coverage(ba, la) == (255 - ba) * (255 - la),
        ({
            let c = 255 * 255 - (255 - ba) * (255 - la);
            let sum = 255 * la * l + ba * (255 - la) * b;
            &&& 2 * c - 255 < 2 * (255 * over_alpha(ba, la)) <= 2 * c + 255
            &&& c > 0 ==> 2 * sum - c < 2 * (c * over_color(b, ba, l, la)) <= 2 * sum + c
            &&& c == 0 ==> over_color(b, ba, l, la) == b
        }),
{
    assert(255 * 255 - (255 * la + ba * (255 - la)) == (255 - ba) * (255 - la)) by (nonlinear_arith);
    assert(coverage(ba, la) >= 0) by {
        assert(ba * (255 - la) >= 0) by (nonlinear_arith)
            requires
                0 <= ba,
                la <= 255,
        ;
    }
    law_nearest(coverage(ba, la), 255);
    if coverage(ba, la) > 0 {
        law_nearest(255 * la * l + ba * (255 - la) * b, coverage(ba, la));
    }
}

/// A layer is laid over a picture pixel by pixel and channel by channel: each
/// byte comes from the same byte of both and the two pixels' own coverage.
pub proof fn law_overlay(base: Seq<u8>, layer: Seq<u8>, p: int, c: int)
    requires
        base.len() == layer.len(),
        base.len() % 4 == 0,
        0 <= p,
        4 * p + 3 < base.len(),
        0 <= c < 3,
    ensures
        overlaid(base, layer).len() == base.len(),
        overlaid(base, layer)[4 * p + 3] == over_alpha(
            base[4 * p + 3] as int,
            layer[4 * p + 3] as int,
        ),
        overlaid(base, layer)[4 * p + c] == over_color(
            base[4 * p + c] as int,
            base[4 * p + 3] as int,
            layer[4 * p + c] as int,
            layer[4 * p + 3] as int,
        ),
{
    assert((4 * p + 3) / 4 == p && (4 * p + 3) % 4 == 3);
    assert((4 * p + c) / 4 == p && (4 * p + c) % 4 == c);
    let ba = base[4 * p + 3] as int;
    let la = layer[4 * p + 3] as int;
    let b = base[4 * p + c] as int;
    let l = layer[4 * p + c] as int;
    law_blend(b, ba, l, la);
}

/// Layers are laid on one after the other, the first lowest; a layer that is
/// missing changes nothing, and one of another size is brought to the picture's
/// size first.
pub proof fn law_layers(
    base: Seq<u8>,
    width: u32,
    height: u32,
    a: Seq<Option<RgbaPixels>>,
    b: Seq<Option<RgbaPixels>>,
    l: RgbaPixels,
)
    ensures
        composited(base, width, height, Seq::empty()) == base,
        composited(base, width, height, seq![None]) == base,
        l.width == width && l.height == height ==> composited(base, width, height, seq![Some(l)])
            == overlaid(base, l.data@),
        l.width != width || l.height != height ==> composited(base, width, height, seq![Some(l)])
            == overlaid(base, resized(l.data@, l.width, l.height, width, height)),
        composited(base, width, height, a + b) == composited(
            composited(base, width, height, a),
            width,
            height,
            b,
        ),
    decreases b.len(),
{
    reveal_with_fuel(composited, 2);
    let none: Option<RgbaPixels> = None;
    assert(seq![none].drop_last() =~= Seq::empty());
    assert(seq![Some(l)].drop_last() =~= Seq::empty());
    if b.len() == 0 {
        assert(a + b =~= a);
    } else {
        law_layers(base, width, height, a, b.drop_last(), l);
        assert((a + b).drop_last() =~= a + b.drop_last());
    }
}

/// A tile of 16 by 16 takes from a picture the pixel that each of its own falls
/// on, spread evenly over the picture: a sixteenth of its side apart, and always
/// inside.
pub proof fn law_tile(data: Seq<u8>, width: int, height: int, x: int, y: int, c: int)
    requires
        0 <= x < 16,
        0 <= y < 16,
        width >= 1,
        height >= 1,
    ensures
        0 <= sample_at(x, width) < width,
        0 <= sample_at(y, height) < height,
        16 * sample_at(x, width) <= x * width < 16 * sample_at(x, width) + 16,
        16 * sample_at(y, height) <= y * height < 16 * sample_at(y, height) + 16,
        tile_byte(data, width, height, x, y, c) == data[4 * (sample_at(y, height) * width
            + sample_at(x, width)) + c],
        tile_byte(data, 16, 16, x, y, c) == data[4 * (16 * y + x) + c],
{
    assert(x * width < 16 * width) by (nonlinear_arith)
        requires
            0 <= x < 16,
            width >= 1,
    ;
    assert(y * height < 16 * height) by (nonlinear_arith)
        requires
            0 <= y < 16,
            height >= 1,
    ;
    assert(x * width >= 0) by (nonlinear_arith)
        requires
            0 <= x,
            width >= 1,
    ;
    assert(y * height >= 0) by (nonlinear_arith)
        requires
            0 <= y,
            height >= 1,
    ;
    assert(sample_at(x, 16) == x);
    assert(sample_at(y, 16) == y);
}

/// A picture has four bytes for each pixel, and its size is its two sides.
pub proof fn law_picture(p: RgbaPixels, width: u32, height: u32)
    ensures
        p.wf() <==> p.data@.len() == 4 * (p.width * p.height),
        p.is_size(width, height) <==> p.width == width && p.height == height,
        p.is_size(width, height) ==> scalable(p, width, height) && scaled(p, width, height)
            == p.data@,
        !p.is_size(width, height) ==> scaled(p, width, height) == resized(
            p.data@,
            p.width,
            p.height,
            width,
            height,
        ),
{
}

/// A tile shows a picture where each of its pixels is the picture's pixel
/// that it falls on.
pub proof fn law_shows_tile(t: Seq<u8>, p: (u32, u32, Seq<u8>), x: int, y: int, c: int)
    requires
        shows_tile(t, p),
        0 <= x < 16,
        0 <= y < 16,
        0 <= c < 4,
    ensures
        t.len() == 1024,
        t[4 * (16 * y + x) + c] == p.2[4 * ((y * p.1 / 16) * p.0 + x * p.0 / 16) + c],
{
    let f = |x: int, y: int, c: int| tile_byte(p.2, p.0 as int, p.1 as int, x, y, c);
    law_shows(t, 16, 16, f, x, y, c);
}

} // verus!
