use std::collections::HashMap;
use vstd::prelude::*;

verus! {

broadcast use vstd::std_specs::hash::group_hash_axioms;

/// Marker for the perceptual metric by which the palette is searched: the
/// CIEDE2000 color difference in Lab space, pruned per axis by plain
/// differences. It holds no data; the metric is computed in floating point
/// outside this library.
#[derive(Debug, Clone, Copy, PartialEq, Eq)]
pub struct CiedeDist;

/// A search handed back an identifier that the table does not hold.
#[derive(Debug, Clone, Copy, PartialEq, Eq)]
pub struct UnknownColorId {
    pub id: u64,
}

/// The color of pixel `p` in a buffer of three bytes per pixel.
pub open spec fn rgb_at(s: Seq<u8>, p: int) -> [u8; 3] {
    [s[3 * p], s[3 * p + 1], s[3 * p + 2]]
}

/// The color channels of pixel `p` in a buffer of `stride` bytes per pixel.
pub open spec fn pixel_rgb(s: Seq<u8>, stride: int, p: int) -> [u8; 3] {
    [s[stride * p], s[stride * p + 1], s[stride * p + 2]]
}

/// The color of pixel `p` in a buffer of four bytes per pixel, alpha dropped.
pub open spec fn rgb_of_rgba_at(s: Seq<u8>, p: int) -> [u8; 3] {
    [s[4 * p], s[4 * p + 1], s[4 * p + 2]]
}

/// Quantizes images to a fixed palette at fixed output dimensions.
///
/// Palette entry `i` is stored under identifier `i`; duplicates are kept.
pub struct DalImageConverter {
    index_map: HashMap<u64, [u8; 3]>,
    len: usize,
    dim: (u32, u32),
}

impl DalImageConverter {
    /// The table is exactly the identifiers `0..len`.
    pub closed spec fn wf(&self) -> bool {
        forall|k: u64| #[trigger] self.index_map@.contains_key(k) <==> (k as int) < self.len
    }

    /// The palette, in the order in which it was given.
    pub closed spec fn palette(&self) -> Seq<[u8; 3]> {
        Seq::new(self.len as nat, |i: int| self.index_map@[i as u64])
    }

    /// What resolving an identifier gives.
    pub open spec fn lookup(&self, id: u64) -> Option<[u8; 3]> {
        if (id as int) < self.palette().len() {
            Some(self.palette()[id as int])
        } else {
            None
        }
    }

    /// The output dimensions, width then height.
    pub closed spec fn dims(&self) -> (u32, u32) {
        self.dim
    }

    /// Builds the identifier table of `palette`; the converter produces
    /// images of `dim` (width, height).
    pub fn new(palette: &[[u8; 3]], dim: (u32, u32)) -> (r: Self)
        ensures
            r.wf(),
            r.palette() == palette@,
            r.dims() == dim,
    {
        let mut index_map: HashMap<u64, [u8; 3]> = HashMap::new();
        let mut i: usize = 0;
        while i < palette.len()
            invariant
                i <= palette@.len(),
                forall|k: u64| #[trigger] index_map@.contains_key(k) <==> (k as int) < i,
                forall|j: int| 0 <= j < i ==> index_map@[j as u64] == palette@[j],
            decreases palette@.len() - i,
        {
            index_map.insert(i as u64, palette[i]);
            i = i + 1;
        }
        let r = DalImageConverter { index_map, len: i, dim };
        assert(r.palette() =~= palette@);
        r
    }

    /// `q` is the palette color of an identifier that `nearest` may give for `c`.
    pub open spec fn found<F: Fn([u8; 3]) -> u64>(&self, nearest: F, c: [u8; 3], q: [u8; 3]) -> bool {
        exists|id: u64| call_ensures(nearest, (c,), id) && self.lookup(id) == Some(q)
    }

    /// `nearest` only ever gives identifiers that the table holds.
    pub open spec fn search_in_range<F: Fn([u8; 3]) -> u64>(&self, nearest: F) -> bool {
        forall|c: [u8; 3], id: u64| call_ensures(nearest, (c,), id) ==> (id as int) < self.palette().len()
    }

    /// `nearest` answers a palette color with an identifier of an equal entry.
    pub open spec fn exact_on_palette<F: Fn([u8; 3]) -> u64>(&self, nearest: F) -> bool {
        forall|c: [u8; 3], id: u64|
            self.palette().contains(c) && call_ensures(nearest, (c,), id) ==> self.lookup(id) == Some(c)
    }

    /// `id` is what `nearest` may give for some pixel of the first `n` of
    /// buffer `s`, and the table does not hold it.
    pub open spec fn unknown_in<F: Fn([u8; 3]) -> u64>(
        &self,
        nearest: F,
        s: Seq<u8>,
        n: int,
        stride: int,
        id: u64,
    ) -> bool {
        &&& self.lookup(id) is None
        &&& exists|p: int|
            0 <= p < n && call_ensures(nearest, (#[trigger] pixel_rgb(s, stride, p),), id)
    }

    /// `new` is the RGB buffer `old` with every whole pixel replaced by the
    /// palette color of an identifier that `nearest` may give for it.
    pub open spec fn convert_post<F: Fn([u8; 3]) -> u64>(&self, nearest: F, old: Seq<u8>, new: Seq<u8>) -> bool {
        &&& new.len() == old.len()
        &&& forall|p: int|
            0 <= p < old.len() / 3 ==> #[trigger] self.found(nearest, rgb_at(old, p), rgb_at(new, p))
        &&& forall|k: int| 3 * (old.len() / 3) <= k < old.len() ==> new[k] == old[k]
    }

    /// Pixel `p` of the RGBA buffer `new` is what the alpha policy makes of
    /// pixel `p` of `old`: an opaque pixel takes its palette color, any other
    /// takes `trans_color`, and the result is opaque.
    pub open spec fn alpha_pixel_done<F: Fn([u8; 3]) -> u64>(
        &self,
        nearest: F,
        trans_color: [u8; 3],
        old: Seq<u8>,
        new: Seq<u8>,
        p: int,
    ) -> bool {
        &&& new[4 * p + 3] == 255
        &&& if old[4 * p + 3] == 255 {
            self.found(nearest, rgb_of_rgba_at(old, p), rgb_of_rgba_at(new, p))
        } else {
            rgb_of_rgba_at(new, p) == trans_color
        }
    }

    /// The output dimensions, width then height.
    pub fn dim(&self) -> (r: (u32, u32))
        ensures
            r == self.dims(),
    {
        self.dim
    }

    /// The alpha policy in palette terms for pixel `p`: the result is opaque;
    /// a fully opaque pixel holds a palette entry, any other exactly
    /// `trans_color`.
    pub open spec fn alpha_policy(&self, trans_color: [u8; 3], old: Seq<u8>, new: Seq<u8>, p: int) -> bool {
        &&& new[4 * p + 3] == 255
        &&& old[4 * p + 3] == 255 ==> self.palette().contains(rgb_of_rgba_at(new, p))
        &&& old[4 * p + 3] != 255 ==> rgb_of_rgba_at(new, p) == trans_color
    }

    /// Resolves a search result back to its palette color.
    pub fn color_of(&self, id: u64) -> (r: Option<[u8; 3]>)
        requires
            self.wf(),
        ensures
            r == self.lookup(id),
    {
        match self.index_map.get(&id) {
            Some(c) => Some(*c),
            None => None,
        }
    }

    /// The palette color of what `nearest` gives for `rgb`.
    pub fn get_nearest<F: Fn([u8; 3]) -> u64>(&self, rgb: [u8; 3], nearest: &F) -> (r: Result<[u8; 3], UnknownColorId>)
        requires
            self.wf(),
            call_requires(*nearest, (rgb,)),
        ensures
            r matches Ok(q) ==> self.found(*nearest, rgb, q),
            r matches Ok(q) ==> self.palette().contains(q),
            r matches Err(e) ==> self.lookup(e.id) is None && call_ensures(*nearest, (rgb,), e.id),
            self.search_in_range(*nearest) ==> r is Ok,
            self.search_in_range(*nearest) ==> (r matches Ok(q) && self.palette().contains(q)),
            self.exact_on_palette(*nearest) && self.palette().contains(rgb) ==> r == Ok::<
                [u8; 3],
                UnknownColorId,
            >(rgb),
    {
        let id = nearest(rgb);
        match self.color_of(id) {
            Some(q) => {
                assert(self.palette()[id as int] == q);
                Ok(q)
            },
            None => Err(UnknownColorId { id }),
        }
    }

    /// Replaces every pixel of an RGB buffer (three bytes per pixel) by the
    /// palette color of what `nearest` gives for it. Trailing bytes that
    /// make no whole pixel are left as they are.
    pub fn convert<F: Fn([u8; 3]) -> u64>(&self, pixels: &mut Vec<u8>, nearest: &F) -> (r: Result<(), UnknownColorId>)
        requires
            self.wf(),
            forall|c: [u8; 3]| call_requires(*nearest, (c,)),
        ensures
            final(pixels)@.len() == old(pixels)@.len(),
            r is Ok ==> self.convert_post(*nearest, old(pixels)@, final(pixels)@),
            r matches Err(e) ==> self.unknown_in(*nearest, old(pixels)@, (old(pixels)@.len() / 3) as int, 3, e.id),
            self.search_in_range(*nearest) ==> r is Ok,
    {
        let ghost orig = pixels@;
        let len = pixels.len();
        let mut b: usize = 0;
        let ghost mut i: int = 0;
        while len - b >= 3
            invariant
                self.wf(),
                forall|c: [u8; 3]| call_requires(*nearest, (c,)),
                len == orig.len(),
                orig == old(pixels)@,
                pixels@.len() == len,
                b == 3 * i,
                0 <= b <= len,
                forall|p: int|
                    0 <= p < i ==> #[trigger] self.found(*nearest, rgb_at(orig, p), rgb_at(pixels@, p)),
                forall|k: int| b <= k < len ==> pixels@[k] == orig[k],
            decreases len - b,
        {
            let c: [u8; 3] = [pixels[b], pixels[b + 1], pixels[b + 2]];
            assert(c == rgb_at(orig, i));
            match self.get_nearest(c, nearest) {
                Ok(q) => {
                    let ghost prev = pixels@;
                    pixels.set(b, q[0]);
                    pixels.set(b + 1, q[1]);
                    pixels.set(b + 2, q[2]);
                    proof {
                        assert(rgb_at(pixels@, i) == q);
                        assert forall|p: int| 0 <= p < i + 1 implies #[trigger] self.found(
                            *nearest,
                            rgb_at(orig, p),
                            rgb_at(pixels@, p),
                        ) by {
                            if p < i {
                                assert(rgb_at(pixels@, p) == rgb_at(prev, p));
                            }
                        }
                    }
                },
                Err(e) => {
                    assert(0 <= i < len / 3);
                    assert(pixel_rgb(orig, 3, i) == c);
                    return Err(e);
                },
            }
            b = b + 3;
            proof {
                i = i + 1;
            }
        }
        assert(i == len / 3);
        Ok(())
    }


    /// Applies the alpha policy to every pixel of an RGBA buffer (four bytes
    /// per pixel): a fully opaque pixel is replaced by the palette color of
    /// what `nearest` gives for it, any other by `trans_color`; every alpha
    /// becomes 255. Trailing bytes that make no whole pixel are left as they
    /// are.
    pub fn convert_alpha<F: Fn([u8; 3]) -> u64>(
        &self,
        pixels: &mut Vec<u8>,
        trans_color: [u8; 3],
        nearest: &F,
    ) -> (r: Result<(), UnknownColorId>)
        requires
            self.wf(),
            forall|c: [u8; 3]| call_requires(*nearest, (c,)),
        ensures
            final(pixels)@.len() == old(pixels)@.len(),
            r is Ok ==> forall|p: int|
                0 <= p < old(pixels)@.len() / 4 ==> #[trigger] self.alpha_pixel_done(
                    *nearest,
                    trans_color,
                    old(pixels)@,
                    final(pixels)@,
                    p,
                ),
            r is Ok ==> forall|k: int|
                4 * (old(pixels)@.len() / 4) <= k < old(pixels)@.len() ==> final(pixels)@[k] == old(pixels)@[k],
            r is Ok ==> forall|p: int|
                0 <= p < old(pixels)@.len() / 4 ==> #[trigger] self.alpha_policy(
                    trans_color,
                    old(pixels)@,
                    final(pixels)@,
                    p,
                ),
            r matches Err(e) ==> self.unknown_in(*nearest, old(pixels)@, (old(pixels)@.len() / 4) as int, 4, e.id),
            self.search_in_range(*nearest) ==> r is Ok,
    {
        let ghost orig = pixels@;
        let len = pixels.len();
        let mut b: usize = 0;
        let ghost mut i: int = 0;
        while len - b >= 4
            invariant
                self.wf(),
                forall|c: [u8; 3]| call_requires(*nearest, (c,)),
                len == orig.len(),
                orig == old(pixels)@,
                pixels@.len() == len,
                b == 4 * i,
                0 <= b <= len,
                forall|p: int|
                    0 <= p < i ==> #[trigger] self.alpha_pixel_done(
                        *nearest,
                        trans_color,
                        orig,
                        pixels@,
                        p,
                    ),
                forall|k: int| b <= k < len ==> pixels@[k] == orig[k],
            decreases len - b,
        {
            let c: [u8; 3] = [pixels[b], pixels[b + 1], pixels[b + 2]];
            assert(c == rgb_of_rgba_at(orig, i));
            let q: [u8; 3] = if pixels[b + 3] == 255 {
                match self.get_nearest(c, nearest) {
                    Ok(q) => q,
                    Err(e) => {
                        assert(0 <= i < len / 4);
                        assert(pixel_rgb(orig, 4, i) == c);
                        return Err(e);
                    },
                }
            } else {
                trans_color
            };
            let ghost prev = pixels@;
            pixels.set(b, q[0]);
            pixels.set(b + 1, q[1]);
            pixels.set(b + 2, q[2]);
            pixels.set(b + 3, 255);
            proof {
                assert(rgb_of_rgba_at(pixels@, i) == q);
                assert forall|p: int| 0 <= p < i + 1 implies #[trigger] self.alpha_pixel_done(
                    *nearest,
                    trans_color,
                    orig,
                    pixels@,
                    p,
                ) by {
                    if p < i {
                        assert(rgb_of_rgba_at(pixels@, p) == rgb_of_rgba_at(prev, p));
                        assert(self.alpha_pixel_done(*nearest, trans_color, orig, prev, p));
                    }
                }
            }
            b = b + 4;
            proof {
                i = i + 1;
            }
        }
        assert(i == len / 4);
        assert forall|p: int| 0 <= p < len / 4 implies #[trigger] self.alpha_policy(
            trans_color,
            orig,
            pixels@,
            p,
        ) by {
            assert(self.alpha_pixel_done(*nearest, trans_color, orig, pixels@, p));
            lemma_alpha_policy(self, *nearest, trans_color, orig, pixels@, p);
        }
        Ok(())
    }
}

/// The default palette: eighteen entries, black twice.
pub fn default_palette() -> (r: Vec<[u8; 3]>)
    ensures
        r@ == default_palette_spec(),
{
    vec![
        [0, 0, 0],
        [0, 0, 0],
        [255, 255, 255],
        [255, 0, 0],
        [255, 124, 123],
        [120, 0, 2],
        [10, 13, 255],
        [125, 134, 255],
        [3, 0, 122],
        [0, 255, 10],
        [150, 255, 154],
        [0, 115, 4],
        [255, 232, 0],
        [255, 245, 140],
        [110, 94, 0],
        [255, 99, 0],
        [255, 179, 131],
        [113, 55, 18],
    ]
}

pub open spec fn default_palette_spec() -> Seq<[u8; 3]> {
    seq![
        [0, 0, 0],
        [0, 0, 0],
        [255, 255, 255],
        [255, 0, 0],
        [255, 124, 123],
        [120, 0, 2],
        [10, 13, 255],
        [125, 134, 255],
        [3, 0, 122],
        [0, 255, 10],
        [150, 255, 154],
        [0, 115, 4],
        [255, 232, 0],
        [255, 245, 140],
        [110, 94, 0],
        [255, 99, 0],
        [255, 179, 131],
        [113, 55, 18],
    ]
}

/// Default output width.
pub const DEFAULT_WIDTH: u32 = 87;

/// Default output height.
pub const DEFAULT_HEIGHT: u32 = 60;

impl Default for DalImageConverter {
    /// The default palette at 87 by 60.
    fn default() -> (r: Self)
        ensures
            r.wf(),
            r.palette() == default_palette_spec(),
            r.dims() == (DEFAULT_WIDTH, DEFAULT_HEIGHT),
    {
        let palette = default_palette();
        DalImageConverter::new(palette.as_slice(), (DEFAULT_WIDTH, DEFAULT_HEIGHT))
    }
}

/// Whatever the search, a color it resolves to is a palette entry.
pub proof fn lemma_found_in_palette<F: Fn([u8; 3]) -> u64>(
    conv: &DalImageConverter,
    nearest: F,
    c: [u8; 3],
    q: [u8; 3],
)
    requires
        conv.found(nearest, c, q),
    ensures
        conv.palette().contains(q),
{
    let id = choose|id: u64| call_ensures(nearest, (c,), id) && conv.lookup(id) == Some(q);
    assert(conv.palette()[id as int] == q);
}

/// The alpha policy in palette terms: after a successful `convert_alpha`,
/// every pixel is opaque, a pixel that was fully opaque holds a palette
/// entry, and any other holds exactly the fallback color.
pub proof fn lemma_alpha_policy<F: Fn([u8; 3]) -> u64>(
    conv: &DalImageConverter,
    nearest: F,
    trans_color: [u8; 3],
    old: Seq<u8>,
    new: Seq<u8>,
    p: int,
)
    requires
        conv.alpha_pixel_done(nearest, trans_color, old, new, p),
    ensures
        new[4 * p + 3] == 255,
        old[4 * p + 3] == 255 ==> conv.palette().contains(rgb_of_rgba_at(new, p)),
        old[4 * p + 3] != 255 ==> rgb_of_rgba_at(new, p) == trans_color,
{
    if old[4 * p + 3] == 255 {
        lemma_found_in_palette(conv, nearest, rgb_of_rgba_at(old, p), rgb_of_rgba_at(new, p));
    }
}

/// Two runs of the pixel rewrite on the same buffer agree whenever the
/// search gives one identifier per color.
pub proof fn lemma_convert_deterministic<F: Fn([u8; 3]) -> u64>(
    conv: &DalImageConverter,
    nearest: F,
    old: Seq<u8>,
    a: Seq<u8>,
    b: Seq<u8>,
)
    requires
        forall|c: [u8; 3], i: u64, j: u64|
            call_ensures(nearest, (c,), i) && call_ensures(nearest, (c,), j) ==> i == j,
        conv.convert_post(nearest, old, a),
        conv.convert_post(nearest, old, b),
    ensures
        a == b,
{
    assert forall|k: int| 0 <= k < a.len() implies a[k] == b[k] by {
        if k < 3 * (old.len() / 3) {
            let p = k / 3;
            assert(conv.found(nearest, rgb_at(old, p), rgb_at(a, p)));
            assert(conv.found(nearest, rgb_at(old, p), rgb_at(b, p)));
            let i = choose|i: u64|
                call_ensures(nearest, (rgb_at(old, p),), i) && conv.lookup(i) == Some(rgb_at(a, p));
            let j = choose|j: u64|
                call_ensures(nearest, (rgb_at(old, p),), j) && conv.lookup(j) == Some(rgb_at(b, p));
            assert(rgb_at(a, p) == rgb_at(b, p));
            assert(k == 3 * p || k == 3 * p + 1 || k == 3 * p + 2);
        }
    }
    assert(a =~= b);
}

} // verus!
