//! Textures: what the backend is told of a buffer, and what is remembered of
//! what it was told.
use crate::protocol::wl_shm_pool::FORMAT_XRGB8888;
use crate::seqs::copy_vec;
use crate::state::compositor_state::{CompositorState, StateView};
use crate::state::types::{
    Buffer, BufferKind, BufferKindView, BufferMapping, BufferTransform, BufferView,
    ClientObjectId, DefaultCursor, ShmBuffer, ShmBufferView, TextureRect,
};
use crate::table::{Dict, Table};
use vstd::prelude::*;

verus! {

/// Number of bytes for representing one pixel
pub const BYTES_PER_PIXEL: u64 = 4;

/// What a texture is of.
#[derive(Debug, Clone, Copy, PartialEq, Eq, Structural)]
pub enum TextureId {
    /// A client's buffer
    Buffer(u32, u32),
    /// A cursor of the theme
    DefaultCursor,
    /// The built-in cursor
    FallbackCursor,
}

/// How the pixels of a texture are laid out.
#[derive(Debug, Clone, Copy, PartialEq, Eq, Structural)]
pub enum PixelFormat {
    Argb8888,
    Xrgb8888,
    /// As the imported buffer says
    Imported,
}

/// Where the pixels of a client's buffer lie in its pool, and what of them is
/// new.
pub struct Upload {
    /// Where the first row begins
    pub offset: u64,
    /// From the beginning of one row to that of the next
    pub stride: u64,
    /// The bytes of a row that are pixels
    pub row_bytes: u64,
    /// Whether the rows have to be packed tightly before they can be read
    pub repack: bool,
    /// What the damage is against; `None` if the backend has nothing, or has
    /// this already
    pub previous_serial: Option<u64>,
    /// What changed, in buffer pixels; nothing means all of it
    pub damage: Vec<TextureRect>,
}

/// What is known of an upload.
#[verifier::ext_equal]
pub struct UploadView {
    pub offset: u64,
    pub stride: u64,
    pub row_bytes: u64,
    pub repack: bool,
    pub previous_serial: Option<u64>,
    pub damage: Seq<TextureRect>,
}

impl View for Upload {
    type V = UploadView;

    open spec fn view(&self) -> UploadView {
        UploadView {
            offset: self.offset,
            stride: self.stride,
            row_bytes: self.row_bytes,
            repack: self.repack,
            previous_serial: self.previous_serial,
            damage: self.damage@,
        }
    }
}

/// Where the pixels of a texture come from.
pub enum TextureSource {
    /// The client's shm memory
    Upload(Upload),
    /// Here
    Pixels(Vec<u8>),
    /// A GPU buffer, sampled where it lies
    Imported,
}

/// What is known of where pixels come from.
#[verifier::ext_equal]
pub enum SourceView {
    Upload(UploadView),
    Pixels(Seq<u8>),
    Imported,
}

impl View for TextureSource {
    type V = SourceView;

    open spec fn view(&self) -> SourceView {
        match self {
            TextureSource::Upload(u) => SourceView::Upload(u@),
            TextureSource::Pixels(p) => SourceView::Pixels(p@),
            TextureSource::Imported => SourceView::Imported,
        }
    }
}

/// A texture.
pub struct TextureImage {
    pub id: TextureId,
    /// Identifies the contents
    pub serial: u64,
    pub width: i32,
    pub height: i32,
    pub format: PixelFormat,
    pub source: TextureSource,
}

/// What is known of a texture.
#[verifier::ext_equal]
pub struct ImageView {
    pub id: TextureId,
    pub serial: u64,
    pub width: i32,
    pub height: i32,
    pub format: PixelFormat,
    pub source: SourceView,
}

impl View for TextureImage {
    type V = ImageView;

    open spec fn view(&self) -> ImageView {
        ImageView {
            id: self.id,
            serial: self.serial,
            width: self.width,
            height: self.height,
            format: self.format,
            source: self.source@,
        }
    }
}

impl TextureImage {
    /// Another of the same
    pub fn again(&self) -> (r: Self)
        ensures
            r@ == self@,
    {
        let source = match &self.source {
            TextureSource::Upload(u) => TextureSource::Upload(
                Upload {
                    offset: u.offset,
                    stride: u.stride,
                    row_bytes: u.row_bytes,
                    repack: u.repack,
                    previous_serial: u.previous_serial,
                    damage: copy_vec(&u.damage),
                },
            ),
            TextureSource::Pixels(p) => TextureSource::Pixels(copy_vec(p)),
            TextureSource::Imported => TextureSource::Imported,
        };
        TextureImage {
            id: self.id,
            serial: self.serial,
            width: self.width,
            height: self.height,
            format: self.format,
            source,
        }
    }
}

/// What is known of a texture, if there is one.
pub open spec fn image_view(i: Option<TextureImage>) -> Option<ImageView> {
    match i {
        Some(i) => Some(i@),
        None => None,
    }
}

/// What the cache remembers about a buffer between frames.
///
/// Metadata only. There are no pixels to keep now that images borrow the
/// client's mapping.
#[derive(Debug, Clone, Copy, PartialEq, Eq, Structural)]
pub struct CachedImage {
    /// A unique serial number for this cached image
    pub serial: u64,
    /// Width of the cached image
    pub width: i32,
    /// Height of the cached image
    pub height: i32,
}

impl View for CachedImage {
    type V = CachedImage;

    open spec fn view(&self) -> CachedImage {
        *self
    }
}

/// A surface's last successfully composed content, kept so the surface can
/// go on being drawn when its committed buffer stops existing.
///
/// Toolkits destroy a buffer the moment it is obsolete - during an
/// interactive resize, often while it is still the surface's current one and
/// before the replacement commits. The protocol calls the contents
/// "undefined" from then until the next commit; blanking the window for that
/// gap flickers on every resize step, so what was there is kept showing.
pub struct RetainedSurface {
    pub image: TextureImage,
    pub mapping: BufferMapping,
    pub transform: BufferTransform,
}

/// What is known of a surface's last content.
#[verifier::ext_equal]
pub struct RetainedView {
    pub image: ImageView,
    pub mapping: BufferMapping,
    pub transform: BufferTransform,
}

impl View for RetainedSurface {
    type V = RetainedView;

    open spec fn view(&self) -> RetainedView {
        RetainedView { image: self.image@, mapping: self.mapping, transform: self.transform }
    }
}

/// Cached textures
pub struct SceneCache {
    /// Buffers from the client
    pub buffers: Table<ClientObjectId, CachedImage>,
    /// Each surface's last composed content, by surface key - the fallback
    /// for a committed buffer destroyed before its replacement arrives.
    pub retained: Table<ClientObjectId, RetainedSurface>,
    /// The texture of the theme's cursor
    pub default_cursor: Option<TextureImage>,
    /// The texture of the built-in cursor
    pub fallback_cursor: Option<TextureImage>,
    /// Serials for cursor images, which have no protocol-side content serial.
    pub next_cursor_serial: u64,
    /// Which cursor the themed slot currently holds: a shape, or `None` for the
    /// ordinary pointer.
    pub cursor_shape: Option<u32>,
}

/// What is cached.
#[verifier::ext_equal]
pub struct CacheView {
    pub buffers: Dict<ClientObjectId, CachedImage>,
    pub retained: Dict<ClientObjectId, RetainedView>,
    pub default_cursor: Option<ImageView>,
    pub fallback_cursor: Option<ImageView>,
    pub next_cursor_serial: u64,
    pub cursor_shape: Option<u32>,
}

impl View for SceneCache {
    type V = CacheView;

    open spec fn view(&self) -> CacheView {
        CacheView {
            buffers: self.buffers@,
            retained: self.retained@,
            default_cursor: image_view(self.default_cursor),
            fallback_cursor: image_view(self.fallback_cursor),
            next_cursor_serial: self.next_cursor_serial,
            cursor_shape: self.cursor_shape,
        }
    }
}

/// Whether a buffer is still there.
pub open spec fn still_buffer(state: StateView) -> spec_fn(ClientObjectId, CachedImage) -> bool {
    |k: ClientObjectId, c: CachedImage| state.mem.buffers.has(k)
}

/// Whether a surface is still there and has something attached.
pub open spec fn still_shown(state: StateView) -> spec_fn(ClientObjectId, RetainedView) -> bool {
    |k: ClientObjectId, r: RetainedView|
        state.surf.surfaces.has(k) && state.surf.surfaces.at(k).buffer_id is Some
}

impl CacheView {
    /// Nothing cached.
    pub open spec fn fresh() -> Self {
        CacheView {
            buffers: Dict::empty(),
            retained: Dict::empty(),
            default_cursor: None,
            fallback_cursor: None,
            next_cursor_serial: 0,
            cursor_shape: None,
        }
    }

    /// Without what has no reason to be kept any more.
    pub open spec fn gc(self, state: StateView) -> Self {
        CacheView {
            buffers: self.buffers.keep(still_buffer(state)),
            retained: self.retained.keep(still_shown(state)),
            ..self
        }
    }
}

impl SceneCache {
    /// Create a new instance of the scene cache with defaults
    pub fn new() -> (r: Self)
        ensures
            r@ == CacheView::fresh(),
    {
        SceneCache {
            buffers: Table::new(),
            retained: Table::new(),
            default_cursor: None,
            fallback_cursor: None,
            next_cursor_serial: 0,
            cursor_shape: None,
        }
    }

    /// Whether the cache remembers no buffers.
    pub fn is_empty(&self) -> (r: bool)
        ensures
            r == (self@.buffers.order.len() == 0),
    {
        self.buffers.len() == 0
    }

    /// Drop what is remembered of buffers that no longer exist.
    ///
    /// Buffers are destroyed without the cache hearing about it, so entries are
    /// reaped against live state rather than by explicit removal.
    pub fn gc(&mut self, state: &CompositorState)
        ensures
            final(self)@ == old(self)@.gc(state@),
    {
        self.buffers.retain(
            |k: &ClientObjectId, c: &CachedImage| -> (r: bool)
                ensures
                    r == still_buffer(state@)(*k, c@)
            { state.mem.buffers.contains(*k) },
            Ghost(still_buffer(state@)),
        );
        self.retained.retain(
            |k: &ClientObjectId, c: &RetainedSurface| -> (r: bool)
                ensures
                    r == still_shown(state@)(*k, c@)
            {
                match state.surf.surfaces.get(*k) {
                    Some(s) => s.buffer_id.is_some(),
                    None => false,
                }
            },
            Ghost(still_shown(state@)),
        );
    }
}

/// How far a number is from zero.
pub open spec fn magnitude(n: i32) -> int {
    if n < 0 {
        -(n as int)
    } else {
        n as int
    }
}

fn magnitude_of(n: i32) -> (r: u64)
    ensures
        r == magnitude(n),
        r <= 0x8000_0000,
{
    if n < 0 {
        (-(n as i64)) as u64
    } else {
        n as u64
    }
}

/// How far into its pool a buffer reaches.
pub open spec fn extent(width: i32, height: i32, shm: ShmBufferView) -> int {
    magnitude(shm.offset) + (height - 1) * magnitude(shm.stride) + 4 * width
}

/// Whether a buffer in a pool can be read: it has pixels, its rows are long
/// enough to hold them, and they all lie in what is mapped.
pub open spec fn fits_mapping(width: i32, height: i32, shm: ShmBufferView, mapped: u32) -> bool {
    width > 0 && height > 0 && magnitude(shm.stride) >= 4 * width && extent(width, height, shm) <= mapped
}

/// What damage a texture carries: what changed since the backend's copy, if
/// that is of the same size and other contents.
pub open spec fn damage_since(b: BufferView, shm: ShmBufferView, previous: Option<CachedImage>) -> Seq<TextureRect> {
    match (previous, shm.damage) {
        (Some(p), Some(d)) => if p.serial != b.content_serial && p.width == b.width && p.height == b.height {
            d
        } else {
            Seq::empty()
        },
        _ => Seq::empty(),
    }
}

/// What the damage is against: the backend's copy, if it has other contents.
pub open spec fn damage_base(b: BufferView, previous: Option<CachedImage>) -> Option<u64> {
    match previous {
        Some(p) => if p.serial != b.content_serial {
            Some(p.serial)
        } else {
            None
        },
        None => None,
    }
}

/// The texture of a buffer in a pool.
pub open spec fn uploaded(
    key: ClientObjectId,
    b: BufferView,
    shm: ShmBufferView,
    previous: Option<CachedImage>,
) -> ImageView {
    ImageView {
        id: TextureId::Buffer(key.0, key.1),
        serial: b.content_serial,
        width: b.width,
        height: b.height,
        format: if shm.format == FORMAT_XRGB8888 {
            PixelFormat::Xrgb8888
        } else {
            PixelFormat::Argb8888
        },
        source: SourceView::Upload(
            UploadView {
                offset: magnitude(shm.offset) as u64,
                stride: magnitude(shm.stride) as u64,
                row_bytes: (4 * b.width) as u64,
                repack: magnitude(shm.stride) % 4 != 0,
                previous_serial: damage_base(b, previous),
                damage: damage_since(b, shm, previous),
            },
        ),
    }
}

/// The texture of an imported buffer.
pub open spec fn imported(key: ClientObjectId, b: BufferView) -> ImageView {
    ImageView {
        id: TextureId::Buffer(key.0, key.1),
        serial: b.content_serial,
        width: b.width,
        height: b.height,
        format: PixelFormat::Imported,
        source: SourceView::Imported,
    }
}

impl StateView {
    /// Whether a buffer in a pool can be read.
    pub open spec fn readable(self, key: ClientObjectId) -> bool {
        self.mem.buffers.has(key) && self.mem.buffer_guards.has(key) && match self.mem.buffers.at(key).kind {
            BufferKindView::Shm(shm) => fits_mapping(
                self.mem.buffers.at(key).width,
                self.mem.buffers.at(key).height,
                shm,
                self.mem.buffer_guards.at(key),
            ),
            _ => false,
        }
    }

    /// The texture of a client's buffer, if there is anything to show.
    pub open spec fn image_of(self, cache: CacheView, key: ClientObjectId) -> Option<ImageView> {
        if self.mem.buffers.has(key) {
            let b = self.mem.buffers.at(key);
            match b.kind {
                BufferKindView::Shm(shm) => if self.readable(key) {
                    Some(uploaded(key, b, shm, cache.buffers.get(key)))
                } else {
                    None
                },
                BufferKindView::Dmabuf => Some(imported(key, b)),
                BufferKindView::Failed => None,
            }
        } else {
            None
        }
    }

    /// The cache after the texture of a client's buffer is made: it remembers
    /// what of a pool the backend was given.
    pub open spec fn image_cached(self, cache: CacheView, key: ClientObjectId) -> CacheView {
        if self.readable(key) {
            let b = self.mem.buffers.at(key);
            CacheView {
                buffers: cache.buffers.put(
                    key,
                    CachedImage { serial: b.content_serial, width: b.width, height: b.height },
                ),
                ..cache
            }
        } else {
            cache
        }
    }
}

fn fits(width: i32, height: i32, shm: &ShmBuffer, mapped: u32) -> (r: bool)
    ensures
        r == fits_mapping(width, height, shm@, mapped),
{
    if width <= 0 || height <= 0 {
        return false;
    }
    let stride = magnitude_of(shm.stride);
    let row: u64 = width as u64 * BYTES_PER_PIXEL;
    if stride < row {
        return false;
    }
    let rows: u64 = height as u64 - 1;
    proof {
        assert(rows * stride <= 0x7fff_ffff * 0x8000_0000) by (nonlinear_arith)
            requires
                rows <= 0x7fff_ffff,
                stride <= 0x8000_0000,
        ;
    }
    magnitude_of(shm.offset) + rows * stride + row <= mapped as u64
}

fn damage_of(b: &Buffer, shm: &ShmBuffer, previous: Option<CachedImage>) -> (r: Vec<TextureRect>)
    ensures
        r@ == damage_since(b@, shm@, previous),
{
    if let Some(p) = previous {
        if p.serial != b.content_serial && p.width == b.width && p.height == b.height {
            if let Some(d) = &shm.damage {
                return copy_vec(d);
            }
        }
    }
    Vec::new()
}

fn base_of(b: &Buffer, previous: Option<CachedImage>) -> (r: Option<u64>)
    ensures
        r == damage_base(b@, previous),
{
    match previous {
        Some(p) => if p.serial != b.content_serial {
            Some(p.serial)
        } else {
            None
        },
        None => None,
    }
}

fn upload_of(key: ClientObjectId, b: &Buffer, shm: &ShmBuffer, previous: Option<CachedImage>) -> (r: TextureImage)
    requires
        b.width > 0,
    ensures
        r@ == uploaded(key, b@, shm@, previous),
{
    let stride = magnitude_of(shm.stride);
    TextureImage {
        id: TextureId::Buffer(key.0, key.1),
        serial: b.content_serial,
        width: b.width,
        height: b.height,
        format: if shm.format == FORMAT_XRGB8888 {
            PixelFormat::Xrgb8888
        } else {
            PixelFormat::Argb8888
        },
        source: TextureSource::Upload(
            Upload {
                offset: magnitude_of(shm.offset),
                stride,
                row_bytes: b.width as u64 * BYTES_PER_PIXEL,
                repack: stride % BYTES_PER_PIXEL != 0,
                previous_serial: base_of(b, previous),
                damage: damage_of(b, shm, previous),
            },
        ),
    }
}

/// Build the texture for a client buffer, however its memory is held.
///
/// The one place the two kinds of buffer part company: an upload has to be
/// bounds-checked and diffed against what the backend already has, while an
/// imported one is handed over as a description and sampled where it lies.
pub fn ensure_image(state: &CompositorState, cache: &mut SceneCache, key: ClientObjectId) -> (r: Option<TextureImage>)
    ensures
        image_view(r) == state@.image_of(old(cache)@, key),
        final(cache)@ == state@.image_cached(old(cache)@, key),
{
    let b = match state.mem.buffers.get(key) {
        Some(b) => b,
        None => {
            return None;
        },
    };
    match &b.kind {
        BufferKind::Shm(shm) => ensure_buffer_image(state, cache, key, b, shm),
        BufferKind::Dmabuf => Some(
            TextureImage {
                id: TextureId::Buffer(key.0, key.1),
                serial: b.content_serial,
                width: b.width,
                height: b.height,
                format: PixelFormat::Imported,
                source: TextureSource::Imported,
            },
        ),
        BufferKind::Failed => None,
    }
}

fn ensure_buffer_image(
    state: &CompositorState,
    cache: &mut SceneCache,
    key: ClientObjectId,
    b: &Buffer,
    shm: &ShmBuffer,
) -> (r: Option<TextureImage>)
    requires
        state@.mem.buffers.has(key),
        state@.mem.buffers.at(key) == b@,
        b@.kind == BufferKindView::Shm(shm@),
    ensures
        image_view(r) == state@.image_of(old(cache)@, key),
        final(cache)@ == state@.image_cached(old(cache)@, key),
{
    let mapped: u32 = match state.mem.buffer_guards.get(key) {
        Some(size) => *size,
        None => {
            return None;
        },
    };
    if !fits(b.width, b.height, shm, mapped) {
        return None;
    }
    let previous: Option<CachedImage> = match cache.buffers.get(key) {
        Some(p) => Some(*p),
        None => None,
    };
    let image = upload_of(key, b, shm, previous);
    cache.buffers.insert(key, CachedImage { serial: b.content_serial, width: b.width, height: b.height });
    Some(image)
}

/// The bytes of rows, packed tightly.
pub open spec fn packed(bytes: Seq<u8>, offset: int, stride: int, row_bytes: int, rows: nat) -> Seq<u8>
    decreases rows,
{
    if rows == 0 {
        Seq::empty()
    } else {
        packed(bytes, offset, stride, row_bytes, (rows - 1) as nat) + bytes.subrange(
            offset + (rows - 1) * stride,
            offset + (rows - 1) * stride + row_bytes,
        )
    }
}

/// Copy a buffer's rows out of its pool, tightly packed. `None` if they do not
/// all lie in it.
///
/// Only for layouts that cannot be read in place; the normal path takes no copy.
pub fn repack_rows(bytes: &[u8], offset: usize, stride: usize, row_bytes: usize, height: usize) -> (r: Option<Vec<u8>>)
    ensures
        match r {
            Some(out) => out@ == packed(bytes@, offset as int, stride as int, row_bytes as int, height as nat),
            None => exists|y: int|
                0 <= y < height && #[trigger] (offset + y * stride) + row_bytes > bytes@.len(),
        },
        r is Some <==> forall|y: int|
            0 <= y < height ==> #[trigger] (offset + y * stride) + row_bytes <= bytes@.len(),
{
    let mut out: Vec<u8> = Vec::new();
    let mut y: usize = 0;
    let mut at: usize = offset;
    proof {
        assert(offset + 0 * stride == offset) by (nonlinear_arith);
    }
    while y < height
        invariant
            y <= height,
            y < height ==> at == offset + y * stride,
            out@ == packed(bytes@, offset as int, stride as int, row_bytes as int, y as nat),
            forall|z: int| 0 <= z < y ==> #[trigger] (offset + z * stride) + row_bytes <= bytes@.len(),
        decreases height - y,
    {
        if at > bytes.len() || bytes.len() - at < row_bytes {
            proof {
                assert(offset + y * stride + row_bytes > bytes@.len());
            }
            return None;
        }
        push_bytes(&mut out, bytes, at, row_bytes);
        y += 1;
        proof {
            assert(offset + (y - 1) * stride + stride == offset + y * stride) by (nonlinear_arith);
            assert(packed(bytes@, offset as int, stride as int, row_bytes as int, y as nat) == packed(
                bytes@,
                offset as int,
                stride as int,
                row_bytes as int,
                (y - 1) as nat,
            ) + bytes@.subrange(at as int, at + row_bytes));
        }
        if y < height {
            if stride > bytes.len() || at > bytes.len() - stride {
                proof {
                    assert((offset + y * stride) + row_bytes > bytes@.len());
                }
                return None;
            }
            at = at + stride;
        }
    }
    Some(out)
}

fn push_bytes(out: &mut Vec<u8>, bytes: &[u8], at: usize, n: usize)
    requires
        at + n <= bytes@.len(),
    ensures
        final(out)@ == old(out)@ + bytes@.subrange(at as int, at + n),
{
    let len: usize = bytes.len();
    let mut i: usize = 0;
    proof {
        assert(out@ =~= old(out)@ + bytes@.subrange(at as int, at as int));
    }
    while i < n
        invariant
            i <= n,
            at + n <= len,
            len == bytes@.len(),
            out@ == old(out)@ + bytes@.subrange(at as int, at + i),
        decreases n - i,
    {
        out.push(bytes[at + i]);
        i += 1;
        proof {
            assert(out@ =~= old(out)@ + bytes@.subrange(at as int, at + i));
        }
    }
}

} // verus!
