//! Texture handles, sampling modes and the missing-texture checkerboard.

use vstd::arithmetic::div_mod::lemma_fundamental_div_mod_converse;
use vstd::prelude::*;
use vstd::string::*;

use crate::error::RedixelError;

verus! {

/// How a texture is sampled when it is drawn at a different size.
#[derive(Debug, Clone, Copy, Default, PartialEq, Eq, Hash, Structural)]
pub enum TextureFilter {
    #[default]
    Nearest,
    Linear,
}

/// An opaque handle to a texture the engine has been asked to load.
#[derive(Debug, Clone, Copy, PartialEq, Eq, Hash, Structural)]
pub struct TextureId(u32);

impl View for TextureId {
    type V = u32;

    closed spec fn view(&self) -> u32 {
        self.0
    }
}

impl TextureId {
    /// The handle numbered `index`.
    pub fn new(index: u32) -> (id: Self)
        ensures
            id@ == index,
    {
        TextureId(index)
    }

    /// The number this handle was issued with.
    pub fn index(self) -> (index: u32)
        ensures
            index == self@,
    {
        self.0
    }

    /// Two handles are the same handle exactly when their numbers agree.
    pub proof fn lemma_view_injective(a: TextureId, b: TextureId)
        ensures
            (a@ == b@) <==> (a == b),
    {
    }
}

/// Bytes per RGBA8 texel.
pub const RGBA_BYTES_PER_TEXEL: u32 = 4;

/// Side of the missing-texture checkerboard, in texels.
pub const CHECKERBOARD_SIZE: u32 = 16;

/// Side of one checkerboard cell, in texels.
pub const CHECKERBOARD_CELL: u32 = 8;

/// Whether texel `(x, y)` of a checkerboard with `cell`-sized cells is in a
/// dark cell: the cell grid's coordinates sum to an even number.
pub open spec fn checker_dark(x: int, y: int, cell: int) -> bool {
    ((x / cell) + (y / cell)) % 2 == 0
}

/// Channel `channel` of a checkerboard texel: black (`00 00 00 FF`) in a dark
/// cell, magenta (`FF 00 FF FF`) in a light one.
pub open spec fn checker_channel(dark: bool, channel: int) -> u8 {
    if channel == 3 {
        0xFF
    } else if channel == 1 {
        0x00
    } else if dark {
        0x00
    } else {
        0xFF
    }
}

/// Byte `k` of a `size`×`size` checkerboard with `cell`-sized cells, laid
/// out row by row, four bytes per texel.
pub open spec fn checker_byte(size: int, cell: int, k: int) -> u8 {
    let texel = k / 4;
    checker_channel(checker_dark(texel % size, texel / size, cell), k % 4)
}

/// Where channel `channel` of texel `(x, y)` sits in a row-major RGBA8 image
/// `size` texels wide, and what the checkerboard holds there.
pub proof fn lemma_checker_texel(size: int, cell: int, x: int, y: int, channel: int)
    requires
        0 <= x < size,
        0 <= y,
        0 <= channel < 4,
    ensures
        ((y * size + x) * 4 + channel) / 4 == y * size + x,
        ((y * size + x) * 4 + channel) % 4 == channel,
        checker_byte(size, cell, (y * size + x) * 4 + channel) == checker_channel(
            checker_dark(x, y, cell),
            channel,
        ),
{
    let texel = y * size + x;
    lemma_fundamental_div_mod_converse(texel * 4 + channel, 4, texel, channel);
    assert(texel * 4 + channel == (y * size + x) * 4 + channel);
    lemma_fundamental_div_mod_converse(texel, size, y, x);
}

/// Builds the magenta-and-black checkerboard, deliberately the loudest thing
/// the engine can draw: a texture that failed to load is a bug in the game's
/// assets, and rendering nothing would hide it.
///
/// `size`×`size` texels, row by row, four bytes each, fully opaque.
pub fn checkerboard_rgba(size: u32, cell: u32) -> (texels: Vec<u8>)
    requires
        size == 0 || cell > 0,
        size * size * RGBA_BYTES_PER_TEXEL <= u32::MAX,
    ensures
        texels@.len() == size * size * 4,
        forall|k: int| 0 <= k < texels@.len() ==> #[trigger] texels@[k] == checker_byte(size as int, cell as int, k),
{
    let mut texels: Vec<u8> = Vec::with_capacity((size * size * RGBA_BYTES_PER_TEXEL) as usize);
    let mut y: u32 = 0;
    assert(size < 0x10000) by (nonlinear_arith)
        requires
            size * size * 4 <= u32::MAX,
    ;
    while y < size
        invariant
            0 <= y <= size,
            size < 0x10000,
            size == 0 || cell > 0,
            size * size * 4 <= u32::MAX,
            texels@.len() == y * size * 4,
            forall|k: int| 0 <= k < texels@.len() ==> #[trigger] texels@[k] == checker_byte(size as int, cell as int, k),
        decreases size - y,
    {
        let mut x: u32 = 0;
        while x < size
            invariant
                0 <= x <= size,
                0 <= y < size,
                size < 0x10000,
                cell > 0,
                size * size * 4 <= u32::MAX,
                texels@.len() == (y * size + x) * 4,
                forall|k: int| 0 <= k < texels@.len() ==> #[trigger] texels@[k] == checker_byte(size as int, cell as int, k),
            decreases size - x,
        {
            assert(x / cell <= x && y / cell <= y) by (nonlinear_arith)
                requires
                    cell > 0,
            ;
            let dark: bool = ((x / cell) + (y / cell)) % 2 == 0;
            let ghost base: int = texels@.len() as int;
            proof {
                lemma_checker_texel(size as int, cell as int, x as int, y as int, 0);
                lemma_checker_texel(size as int, cell as int, x as int, y as int, 1);
                lemma_checker_texel(size as int, cell as int, x as int, y as int, 2);
                lemma_checker_texel(size as int, cell as int, x as int, y as int, 3);
            }
            if dark {
                texels.push(0x00);
                texels.push(0x00);
                texels.push(0x00);
                texels.push(0xFF);
            } else {
                texels.push(0xFF);
                texels.push(0x00);
                texels.push(0xFF);
                texels.push(0xFF);
            }
            proof {
                assert forall|k: int| 0 <= k < texels@.len() implies #[trigger] texels@[k] == checker_byte(
                    size as int,
                    cell as int,
                    k,
                ) by {
                    if k >= base {
                        assert(k == (y * size + x) * 4 + (k - base));
                    }
                }
                assert((y * size + x + 1) * 4 == (y * size + x) * 4 + 4) by (nonlinear_arith);
            }
            x = x + 1;
        }
        proof {
            assert((y * size + size) * 4 == (y + 1) * size * 4) by (nonlinear_arith);
        }
        y = y + 1;
    }
    texels
}

/// Every texel of a checkerboard built by [`checkerboard_rgba`] is opaque and
/// either black or magenta, black exactly in the dark cells.
pub proof fn law_checkerboard_texels(size: int, cell: int, x: int, y: int)
    requires
        0 <= x < size,
        0 <= y < size,
    ensures
        checker_byte(size, cell, (y * size + x) * 4 + 3) == 0xFF,
        checker_byte(size, cell, (y * size + x) * 4 + 1) == 0x00,
        checker_byte(size, cell, (y * size + x) * 4) == (if checker_dark(x, y, cell) {
            0x00u8
        } else {
            0xFFu8
        }),
        checker_byte(size, cell, (y * size + x) * 4 + 2) == (if checker_dark(x, y, cell) {
            0x00u8
        } else {
            0xFFu8
        }),
{
    lemma_checker_texel(size, cell, x, y, 0);
    lemma_checker_texel(size, cell, x, y, 1);
    lemma_checker_texel(size, cell, x, y, 2);
    lemma_checker_texel(size, cell, x, y, 3);
}

/// A decoded image: `width`×`height` texels, row by row, four bytes each.
#[derive(Debug, Clone, PartialEq, Eq)]
pub struct RgbaImage {
    pub width: u32,
    pub height: u32,
    pub texels: Vec<u8>,
}

/// Decodes `bytes` with the `image` crate: `ImageReader::with_guessed_format`
/// picks the format from the leading bytes, `ImageReader::decode` decodes it
/// under `Limits` whose width and height are capped at `max`, and
/// `DynamicImage::to_rgba8` converts the result to RGBA8.
///
/// Claimed of it: a decoded image is at most `max` texels on each side (the
/// crate documents both limits as strict) and holds four bytes per texel.
/// Which inputs decode, and to what, is not claimed: the crate lets any code
/// register format-detection and decoding hooks at run time, so the same
/// bytes may decode differently from one call to the next.
#[verifier::external_body]
fn decode_rgba8(bytes: &[u8], max: u32) -> (decoded: Result<RgbaImage, String>)
    ensures
        decoded matches Ok(img) ==> img.width <= max && img.height <= max && img.texels@.len() == img.width
            * img.height * 4,
{
    let mut limits = image::Limits::default();
    limits.max_image_width = Some(max);
    limits.max_image_height = Some(max);
    let mut reader = image::ImageReader::new(std::io::Cursor::new(bytes)).with_guessed_format().map_err(|e| e.to_string())?;
    reader.limits(limits);
    let rgba = reader.decode().map_err(|e| e.to_string())?.to_rgba8();
    Ok(RgbaImage { width: rgba.width(), height: rgba.height(), texels: rgba.into_raw() })
}

/// `raw` is an outcome the `image` crate's decoder can give when handed
/// exactly `bytes` and the side limit `max`: what [`decode_rgba8`] may return
/// for these arguments. It is a relation, not a function: the same bytes may
/// decode differently from one call to the next.
pub closed spec fn image_outcome(bytes: &[u8], max: u32, raw: Result<RgbaImage, String>) -> bool {
    call_ensures(decode_rgba8, (bytes, max), raw)
}

/// An image the decoder gives under a limit `max` is at most `max` texels on
/// each side and holds four bytes per texel.
pub proof fn lemma_image_outcome_fits(bytes: &[u8], max: u32, raw: Result<RgbaImage, String>)
    requires
        image_outcome(bytes, max, raw),
    ensures
        raw matches Ok(img) ==> img.width <= max && img.height <= max && img.texels@.len() == img.width
            * img.height * 4,
{
}

/// The message a decoded image with no texels is refused with.
pub open spec fn zero_size_message() -> Seq<char> {
    "image has zero width or height"@
}

/// Refuses a decoded image with zero width or height, and turns a decoder
/// error into [`RedixelError::TextureDecode`].
pub fn check_decoded(decoded: Result<RgbaImage, String>) -> (checked: Result<RgbaImage, RedixelError>)
    ensures
        (match decoded {
            Ok(img) => if img.width == 0 || img.height == 0 {
                checked matches Err(RedixelError::TextureDecode(m)) && m@ == zero_size_message()
            } else {
                checked == Ok::<RgbaImage, RedixelError>(img)
            },
            Err(msg) => checked matches Err(RedixelError::TextureDecode(m)) && m@ == msg@,
        }),
{
    match decoded {
        Ok(img) => {
            if img.width == 0 || img.height == 0 {
                let msg: String = String::from_str("image has zero width or height");
                proof {
                    reveal_strlit("image has zero width or height");
                }
                Err(RedixelError::TextureDecode(msg))
            } else {
                Ok(img)
            }
        },
        Err(msg) => Err(RedixelError::TextureDecode(msg)),
    }
}

/// Decodes `bytes` to RGBA8, refusing an image wider or taller than `max`
/// (the device's largest texture side) and one with no texels.
///
/// The bound goes to the decoder rather than being checked afterwards, so an
/// oversized image is rejected from its header without allocating pixels
/// that were never going to fit.
pub fn decode(bytes: &[u8], max: u32) -> (decoded: Result<RgbaImage, RedixelError>)
    ensures
        exists|raw: Result<RgbaImage, String>|
            image_outcome(bytes, max, raw) && #[trigger] call_ensures(check_decoded, (raw,), decoded),
        (match decoded {
            Ok(img) => 0 < img.width <= max && 0 < img.height <= max && img.texels@.len() == img.width * img.height * 4,
            Err(e) => e is TextureDecode,
        }),
{
    let raw = decode_rgba8(bytes, max);
    let checked = check_decoded(raw);
    checked
}

/// The bind group geometry tagged `texture` draws with, given the white
/// pixel `default`, the checkerboard `missing` and the uploaded `entries`:
/// untextured geometry gets the white pixel, a filled slot its own group, and
/// an id never uploaded, or whose upload failed, the checkerboard.
pub open spec fn bound_group<B>(default: B, missing: B, entries: Seq<Option<B>>, texture: Option<TextureId>) -> B {
    match texture {
        None => default,
        Some(id) => if id@ < entries.len() && entries[id@ as int] is Some {
            entries[id@ as int]->Some_0
        } else {
            missing
        },
    }
}

/// Every texture the engine has been asked to load, indexed by
/// [`TextureId::index`], plus the two fallbacks: the white pixel untextured
/// geometry samples and the checkerboard a broken handle draws.
///
/// `B` is whatever the GPU binds a texture through. A slot stays empty when
/// its image failed to decode, costing a warning and a checkerboard rather
/// than a dead frame.
pub struct TextureRegistry<B> {
    default: B,
    missing: B,
    entries: Vec<Option<B>>,
}

impl<B> TextureRegistry<B> {
    /// The white pixel.
    pub closed spec fn default_view(&self) -> B {
        self.default
    }

    /// The checkerboard.
    pub closed spec fn missing_view(&self) -> B {
        self.missing
    }

    /// The slots, by texture index.
    pub closed spec fn entries_view(&self) -> Seq<Option<B>> {
        self.entries@
    }

    /// A registry with no texture uploaded yet.
    pub fn new(default: B, missing: B) -> (registry: Self)
        ensures
            registry.default_view() == default,
            registry.missing_view() == missing,
            registry.entries_view() == Seq::<Option<B>>::empty(),
    {
        TextureRegistry { default, missing, entries: Vec::new() }
    }

    /// Starts uploading `bytes` into the slot named by `id`: empties the slot
    /// first, so a failed reload of an id that already held an image falls
    /// back to the checkerboard rather than leaving the stale one, then
    /// decodes the image under the side limit `max`.
    ///
    /// On success the caller builds the bind group from the decoded image and
    /// hands it to [`fill`](Self::fill).
    pub fn begin_upload(&mut self, id: TextureId, bytes: &[u8], max: u32) -> (decoded: Result<RgbaImage, RedixelError>)
        requires
            id@ < usize::MAX,
        ensures
            final(self).default_view() == old(self).default_view(),
            final(self).missing_view() == old(self).missing_view(),
            final(self).entries_view().len() == if id@ < old(self).entries_view().len() {
                old(self).entries_view().len() as int
            } else {
                id@ + 1
            },
            final(self).entries_view()[id@ as int] is None,
            forall|j: int| 0 <= j < final(self).entries_view().len() && j != id@ ==> #[trigger] final(self).entries_view()[j] == if j < old(self).entries_view().len() {
                old(self).entries_view()[j]
            } else {
                None
            },
            exists|raw: Result<RgbaImage, String>|
                image_outcome(bytes, max, raw) && #[trigger] call_ensures(check_decoded, (raw,), decoded),
            (match decoded {
                Ok(img) => 0 < img.width <= max && 0 < img.height <= max && img.texels@.len() == img.width * img.height
                    * 4,
                Err(e) => e is TextureDecode,
            }),
    {
        let index: usize = id.index() as usize;
        let ghost old_entries = self.entries@;
        if index >= self.entries.len() {
            while self.entries.len() <= index
                invariant
                    old_entries.len() <= self.entries@.len() <= index + 1,
                    index == id@,
                    self.default == old(self).default,
                    self.missing == old(self).missing,
                    forall|j: int| 0 <= j < self.entries@.len() ==> #[trigger] self.entries@[j] == if j < old_entries.len() {
                        old_entries[j]
                    } else {
                        None
                    },
                decreases index + 1 - self.entries@.len(),
            {
                self.entries.push(None);
            }
        }
        self.entries.set(index, None);
        decode(bytes, max)
    }

    /// Stores the bind group built for `id`.
    pub fn fill(&mut self, id: TextureId, group: B)
        requires
            id@ < old(self).entries_view().len(),
        ensures
            final(self).default_view() == old(self).default_view(),
            final(self).missing_view() == old(self).missing_view(),
            final(self).entries_view() == old(self).entries_view().update(id@ as int, Some(group)),
    {
        let index: usize = id.index() as usize;
        self.entries.set(index, Some(group));
    }

    /// The bind group to use for geometry tagged with `texture`.
    pub fn bind_group(&self, texture: Option<TextureId>) -> (group: &B)
        ensures
            *group == bound_group(self.default_view(), self.missing_view(), self.entries_view(), texture),
    {
        match texture {
            None => &self.default,
            Some(id) => {
                let index: usize = id.index() as usize;
                if index < self.entries.len() {
                    match &self.entries[index] {
                        Some(entry) => entry,
                        None => &self.missing,
                    }
                } else {
                    &self.missing
                }
            },
        }
    }
}

/// A texture whose upload has begun draws the checkerboard until its bind
/// group is filled in, and so forever when its image fails to decode; other
/// handles draw as they did before.
pub proof fn law_upload_starts_from_the_checkerboard<B>(
    before: &TextureRegistry<B>,
    after: &TextureRegistry<B>,
    id: TextureId,
    other: Option<TextureId>,
)
    requires
        after.default_view() == before.default_view(),
        after.missing_view() == before.missing_view(),
        after.entries_view().len() == if id@ < before.entries_view().len() {
            before.entries_view().len() as int
        } else {
            id@ + 1
        },
        after.entries_view()[id@ as int] is None,
        forall|j: int| 0 <= j < after.entries_view().len() && j != id@ ==> #[trigger] after.entries_view()[j] == if j < before.entries_view().len() {
            before.entries_view()[j]
        } else {
            None
        },
        other != Some(id),
    ensures
        bound_group(after.default_view(), after.missing_view(), after.entries_view(), Some(id)) == after.missing_view(),
        bound_group(after.default_view(), after.missing_view(), after.entries_view(), other) == bound_group(
            before.default_view(),
            before.missing_view(),
            before.entries_view(),
            other,
        ),
{
    if let Some(o) = other {
        TextureId::lemma_view_injective(o, id);
    }
}

} // verus!
