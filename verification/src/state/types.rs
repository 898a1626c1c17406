//! The things the compositor keeps state about.
use crate::laws::damage::shows;
use crate::protocol::wl_subsurface::above;
use crate::table::KeySet;
use vstd::prelude::*;

verus! {

/// The furthest a surface may sit from its parent, in either direction
pub const MAX_SURFACE_OFFSET: i32 = 0x10_0000;

/// A client object-id tuple holding a `client_id` paired with an object id.  This pair
/// is needed because object ids are only unique per client, so the `client_id` is paired
/// to make it unique
pub type ClientObjectId = (u32, u32);

/// The backend's name for a display
pub type OutputId = u32;

/// Whether two objects are the same object.
pub fn same_key(a: ClientObjectId, b: ClientObjectId) -> (r: bool)
    ensures
        r == (a == b),
{
    a.0 == b.0 && a.1 == b.1
}

/// Whether two optional objects are the same.
pub fn same_opt_key(a: Option<ClientObjectId>, b: Option<ClientObjectId>) -> (r: bool)
    ensures
        r == (a == b),
{
    match (a, b) {
        (Some(a), Some(b)) => same_key(a, b),
        (None, None) => true,
        _ => false,
    }
}

/// What an optional text says.
pub open spec fn opt_text(s: Option<String>) -> Option<Seq<char>> {
    match s {
        Some(t) => Some(t@),
        None => None,
    }
}

/// What a list of texts says.
pub open spec fn texts(v: Seq<String>) -> Seq<Seq<char>> {
    v.map_values(|s: String| s@)
}

/// A rectangle of pixels.
#[derive(Debug, Clone, Copy, PartialEq, Eq, Structural)]
pub struct TextureRect {
    pub x: i32,
    pub y: i32,
    pub width: i32,
    pub height: i32,
}

impl View for TextureRect {
    type V = TextureRect;

    open spec fn view(&self) -> TextureRect {
        *self
    }
}

/// How a client has already turned or flipped its buffer.
#[derive(Debug, Clone, Copy, PartialEq, Eq, Structural)]
pub enum BufferTransform {
    Normal,
    Rotate90,
    Rotate180,
    Rotate270,
    Flipped,
    FlippedRotate90,
    FlippedRotate180,
    FlippedRotate270,
}

impl View for BufferTransform {
    type V = BufferTransform;

    open spec fn view(&self) -> BufferTransform {
        *self
    }
}

impl BufferTransform {
    /// The transform a number on the wire names.
    pub open spec fn of_wire(value: u32) -> Option<Self> {
        match value {
            0 => Some(Self::Normal),
            1 => Some(Self::Rotate90),
            2 => Some(Self::Rotate180),
            3 => Some(Self::Rotate270),
            4 => Some(Self::Flipped),
            5 => Some(Self::FlippedRotate90),
            6 => Some(Self::FlippedRotate180),
            7 => Some(Self::FlippedRotate270),
            _ => None,
        }
    }

    /// The transform a number on the wire names.
    pub fn from_wire(value: u32) -> (r: Option<Self>)
        ensures
            r == Self::of_wire(value),
    {
        match value {
            0 => Some(Self::Normal),
            1 => Some(Self::Rotate90),
            2 => Some(Self::Rotate180),
            3 => Some(Self::Rotate270),
            4 => Some(Self::Flipped),
            5 => Some(Self::FlippedRotate90),
            6 => Some(Self::FlippedRotate180),
            7 => Some(Self::FlippedRotate270),
            _ => None,
        }
    }

    /// Whether the transform is a quarter turn one way or the other.
    pub open spec fn quarter(self) -> bool {
        self is Rotate90 || self is Rotate270 || self is FlippedRotate90 || self is FlippedRotate270
    }

    /// Whether the transform exchanges width and height.
    pub fn swaps_axes(self) -> (r: bool)
        ensures
            r == self.quarter(),
    {
        matches!(self, Self::Rotate90 | Self::Rotate270 | Self::FlippedRotate90 | Self::FlippedRotate270)
    }
}

/// A shared memory pool
#[derive(Debug, Clone, Copy, PartialEq, Eq, Structural)]
pub struct ShmPool {
    /// Client owning the pool
    pub client_id: u32,
    /// The file descriptor pointing to the shared memory
    pub fd: i32,
    /// The size of the shared memory
    pub size: u32,
    /// Whether the memory is mapped; false if the mapping failed
    pub mapped: bool,
    /// True after `wl_shm_pool.destroy` - the pool will be freed once no buffers reference it
    pub dead: bool,
}

impl View for ShmPool {
    type V = ShmPool;

    open spec fn view(&self) -> ShmPool {
        *self
    }
}

/// The most planes a buffer can have, per `zwp_linux_buffer_params_v1`
pub const MAX_DMABUF_PLANES: usize = 4;

/// One plane of a buffer a client is describing.
#[derive(Debug, Clone, Copy)]
pub struct PendingPlane {
    /// The descriptor this plane's memory lives in
    pub fd: i32,
    /// Byte offset of the plane within the descriptor
    pub offset: u32,
    /// Distance between rows, in bytes
    pub stride: u32,
    /// The modifier the client gave for *this* plane. The protocol carries one
    /// per plane while a buffer has a single layout, so they must all agree.
    pub modifier: u64,
}

/// A `zwp_linux_buffer_params_v1`: a buffer being described one plane at a time.
#[derive(Debug, Clone, Copy)]
pub struct BufferParams {
    /// Planes by index
    pub planes: [Option<PendingPlane>; MAX_DMABUF_PLANES],
    /// Set by `create`/`create_immed`. The object is single-use, so everything
    /// after that is a protocol error, which is why this is set before the import
    /// is dispatched rather than once it lands.
    pub used: bool,
}

/// A buffer being described, as contracts read it.
#[verifier::ext_equal]
pub struct BufferParamsView {
    pub planes: Seq<Option<PendingPlane>>,
    pub used: bool,
}

impl View for BufferParams {
    type V = BufferParamsView;

    open spec fn view(&self) -> BufferParamsView {
        BufferParamsView { planes: self.planes@, used: self.used }
    }
}

impl Default for BufferParams {
    fn default() -> (r: BufferParams)
        ensures
            r@ == (BufferParamsView { planes: Seq::new(MAX_DMABUF_PLANES as nat, |i: int| None), used: false }),
    {
        let r = BufferParams { planes: [None, None, None, None], used: false };
        proof {
            assert(r@.planes =~= Seq::new(MAX_DMABUF_PLANES as nat, |i: int| None));
        }
        r
    }
}

/// A dma-buf import the backend has been asked about and has not answered. The
/// image itself stays with whoever asked.
#[derive(Debug, Clone, Copy)]
pub struct PendingImport {
    /// Client that asked
    pub client_id: u32,
    /// The params object to answer on, if it still exists
    pub params_id: u32,
    /// For `create_immed`, the buffer already registered and the serial it was
    /// registered with. A client may destroy that id and reuse it before the
    /// verdict lands, and the serial is what tells the two buffers apart.
    pub immediate: Option<(u32, u64)>,
    /// Width, for registering the buffer once the verdict is good
    pub width: i32,
    /// Height
    pub height: i32,
}

impl View for PendingImport {
    type V = PendingImport;

    open spec fn view(&self) -> PendingImport {
        *self
    }
}

/// What damage a buffer has: `None` is all of it.
pub open spec fn damage_view(d: Option<Vec<TextureRect>>) -> Option<Seq<TextureRect>> {
    match d {
        Some(v) => Some(v@),
        None => None,
    }
}

/// An individual buffer in some `ShmPool`
pub struct ShmBuffer {
    /// Pool Id that this buffer points into
    pub pool_id: u32,
    /// Offset into the pool where this buffer begins
    pub offset: i32,
    /// Actual byte length of each row in this buffer (includes padding, etc.)
    pub stride: i32,
    /// Format of this buffer, in `wl_shm`'s numbering
    pub format: u32,
    /// What changed since the damage was last consumed, in buffer pixels
    pub damage: Option<Vec<TextureRect>>,
}

/// What is known of a buffer in a pool.
#[verifier::ext_equal]
pub struct ShmBufferView {
    pub pool_id: u32,
    pub offset: i32,
    pub stride: i32,
    pub format: u32,
    pub damage: Option<Seq<TextureRect>>,
}

impl View for ShmBuffer {
    type V = ShmBufferView;

    open spec fn view(&self) -> ShmBufferView {
        ShmBufferView {
            pool_id: self.pool_id,
            offset: self.offset,
            stride: self.stride,
            format: self.format,
            damage: damage_view(self.damage),
        }
    }
}

/// What kind of memory is behind a `wl_buffer`
pub enum BufferKind {
    /// Client shm memory the compositor maps and the backend uploads from
    Shm(ShmBuffer),
    /// A GPU buffer the backend imports and samples in place.
    Dmabuf,
    /// A buffer the compositor could not make good on.  It's invalid, but we
    /// have to present nothing/black because its already negotiated.
    Failed,
}

/// What is known of a buffer's memory.
#[verifier::ext_equal]
pub enum BufferKindView {
    Shm(ShmBufferView),
    Dmabuf,
    Failed,
}

impl View for BufferKind {
    type V = BufferKindView;

    open spec fn view(&self) -> BufferKindView {
        match self {
            BufferKind::Shm(shm) => BufferKindView::Shm(shm@),
            BufferKind::Dmabuf => BufferKindView::Dmabuf,
            BufferKind::Failed => BufferKindView::Failed,
        }
    }
}

/// A client `wl_buffer`, whatever kind of memory is behind it
pub struct Buffer {
    /// Client owning the buffer
    pub client_id: u32,
    /// Width of this buffer in pixels
    pub width: i32,
    /// Height of this buffer in pixels
    pub height: i32,
    /// Identifies the current contents of this buffer
    pub content_serial: u64,
    /// Where the pixels live
    pub kind: BufferKind,
}

/// What is known of a buffer.
#[verifier::ext_equal]
pub struct BufferView {
    pub client_id: u32,
    pub width: i32,
    pub height: i32,
    pub content_serial: u64,
    pub kind: BufferKindView,
}

impl View for Buffer {
    type V = BufferView;

    open spec fn view(&self) -> BufferView {
        BufferView {
            client_id: self.client_id,
            width: self.width,
            height: self.height,
            content_serial: self.content_serial,
            kind: self.kind@,
        }
    }
}

impl BufferView {
    /// The shm details, if the buffer has any.
    pub open spec fn shm(self) -> Option<ShmBufferView> {
        match self.kind {
            BufferKindView::Shm(shm) => Some(shm),
            _ => None,
        }
    }

    /// Whether the buffer lies in a pool.
    pub open spec fn in_pool(self, pool_id: u32) -> bool {
        match self.kind {
            BufferKindView::Shm(shm) => shm.pool_id == pool_id,
            _ => false,
        }
    }
}

impl Buffer {
    /// The shm details, for pool bookkeeping (None if it's not Shm)
    pub fn shm(&self) -> (r: Option<&ShmBuffer>)
        ensures
            match r {
                Some(shm) => self@.shm() == Some(shm@),
                None => self@.shm() is None,
            },
    {
        match &self.kind {
            BufferKind::Shm(shm) => Some(shm),
            BufferKind::Dmabuf | BufferKind::Failed => None,
        }
    }

    /// Mutable shm details, for pool bookkeeping (None if it's not Shm)
    pub fn shm_mut(&mut self) -> (r: Option<&mut ShmBuffer>)
        ensures
            match r {
                Some(shm) => old(self)@.shm() == Some(shm@) && final(self)@ == (BufferView {
                    kind: BufferKindView::Shm(final(shm)@),
                    ..old(self)@
                }),
                None => old(self)@.shm() is None && *final(self) == *old(self),
            },
    {
        match &mut self.kind {
            BufferKind::Shm(shm) => Some(shm),
            BufferKind::Dmabuf | BufferKind::Failed => None,
        }
    }
}

/// Whether a rectangle adds to or subtracts from a region
#[derive(Debug, Clone, Copy, PartialEq, Eq, Structural)]
pub enum RegionOp {
    Add,
    Subtract,
}

impl View for RegionOp {
    type V = RegionOp;

    open spec fn view(&self) -> RegionOp {
        *self
    }
}

/// One add/subtract rectangle from a `wl_region`
#[derive(Debug, Clone, Copy, PartialEq, Eq, Structural)]
pub struct RegionRect {
    /// Is this rectangle part of the region (add) or a hole (subtract)
    pub op: RegionOp,
    /// x coordinate of the top-left corner
    pub x: i32,
    /// y coordinate of the top-left corner
    pub y: i32,
    /// The width of the rectangle
    pub width: i32,
    /// The height of the rectangle
    pub height: i32,
}

impl View for RegionRect {
    type V = RegionRect;

    open spec fn view(&self) -> RegionRect {
        *self
    }
}

impl RegionRect {
    /// Whether a point is in the rectangle, whose far edges stop at the end of
    /// the number range.
    pub open spec fn covers(self, x: i32, y: i32) -> bool {
        &&& self.x <= x < to_i32(self.x + self.width)
        &&& self.y <= y < to_i32(self.y + self.height)
    }

    /// Check if this rectangle contains the point
    pub fn contains(self, x: i32, y: i32) -> (r: bool)
        ensures
            r == self.covers(x, y),
    {
        x >= self.x && y >= self.y && x < plus(self.x, self.width) && y < plus(self.y, self.height)
    }
}

/// Whether a point is in the region that some operations build, replayed in
/// order: the last rectangle that covers the point decides.
pub open spec fn in_region(rects: Seq<RegionRect>, x: i32, y: i32) -> bool
    decreases rects.len(),
{
    if rects.len() == 0 {
        false
    } else if rects.last().covers(x, y) {
        rects.last().op == RegionOp::Add
    } else {
        in_region(rects.drop_last(), x, y)
    }
}

/// Whether a point falls inside the region built from these operations.
///
/// The operations are replayed in order rather than reduced to a set of
/// disjoint rectangles. Order is significant: a rectangle added after a
/// subtraction re-includes the overlapping area.
pub fn region_contains(rects: &[RegionRect], x: i32, y: i32) -> (r: bool)
    ensures
        r == in_region(rects@, x, y),
{
    let mut inside = false;
    let mut i: usize = 0;
    while i < rects.len()
        invariant
            i <= rects@.len(),
            inside == in_region(rects@.take(i as int), x, y),
        decreases rects@.len() - i,
    {
        if rects[i].contains(x, y) {
            inside = rects[i].op == RegionOp::Add;
        }
        i += 1;
        proof {
            assert(rects@.take(i as int).drop_last() =~= rects@.take(i - 1));
        }
    }
    proof {
        assert(rects@.take(i as int) =~= rects@);
    }
    inside
}

/// A number brought within a range.
pub open spec fn clamp(n: int, low: int, high: int) -> int {
    if n < low {
        low
    } else if n > high {
        high
    } else {
        n
    }
}

/// A number brought within the range of a coordinate.
pub open spec fn to_i32(n: int) -> i32 {
    clamp(n, i32::MIN as int, i32::MAX as int) as i32
}

/// Bring a number within the range of a coordinate.
pub fn saturate(n: i64) -> (r: i32)
    ensures
        r == to_i32(n as int),
{
    if n < i32::MIN as i64 {
        i32::MIN
    } else if n > i32::MAX as i64 {
        i32::MAX
    } else {
        n as i32
    }
}

/// The sum of two coordinates, brought within their range.
pub fn plus(a: i32, b: i32) -> (r: i32)
    ensures
        r == to_i32(a + b),
{
    saturate(a as i64 + b as i64)
}

/// The difference of two coordinates, brought within their range.
pub fn minus(a: i32, b: i32) -> (r: i32)
    ensures
        r == to_i32(a - b),
{
    saturate(a as i64 - b as i64)
}

/// Bring a number within a range.
pub fn clamp_i32(n: i32, low: i32, high: i32) -> (r: i32)
    requires
        low <= high,
    ensures
        r == clamp(n as int, low as int, high as int),
{
    if n < low {
        low
    } else if n > high {
        high
    } else {
        n
    }
}

/// An offset brought within [`MAX_SURFACE_OFFSET`] on both axes.
pub open spec fn clamped_offset(x: i32, y: i32) -> (i32, i32) {
    (
        clamp(x as int, -(MAX_SURFACE_OFFSET as int), MAX_SURFACE_OFFSET as int) as i32,
        clamp(y as int, -(MAX_SURFACE_OFFSET as int), MAX_SURFACE_OFFSET as int) as i32,
    )
}

/// Bring a client-chosen surface offset within [`MAX_SURFACE_OFFSET`].
pub fn clamp_surface_offset(x: i32, y: i32) -> (r: (i32, i32))
    ensures
        r == clamped_offset(x, y),
{
    (
        clamp_i32(x, -MAX_SURFACE_OFFSET, MAX_SURFACE_OFFSET),
        clamp_i32(y, -MAX_SURFACE_OFFSET, MAX_SURFACE_OFFSET),
    )
}

/// A region waiting to be applied at the next commit
#[derive(Debug, Clone)]
pub enum PendingRegion {
    /// The client has not set a region since the last commit
    Unchanged,
    /// Default (everything for input regions, nothing for opaque)
    Infinite,
    /// A defined region made up of several add/sub rectangles
    Rects(Vec<RegionRect>),
}

/// What region is waiting.
#[verifier::ext_equal]
pub enum PendingRegionView {
    Unchanged,
    Infinite,
    Rects(Seq<RegionRect>),
}

impl View for PendingRegion {
    type V = PendingRegionView;

    open spec fn view(&self) -> PendingRegionView {
        match self {
            PendingRegion::Unchanged => PendingRegionView::Unchanged,
            PendingRegion::Infinite => PendingRegionView::Infinite,
            PendingRegion::Rects(r) => PendingRegionView::Rects(r@),
        }
    }
}

impl Default for PendingRegion {
    fn default() -> (r: Self)
        ensures
            r == PendingRegion::Unchanged,
    {
        PendingRegion::Unchanged
    }
}

/// A region
pub struct Region {
    /// The client id that owns the region
    pub client_id: u32,
    /// Add/subtract rectangles
    pub rects: Vec<RegionRect>,
}

/// What is known of a region.
#[verifier::ext_equal]
pub struct RegionView {
    pub client_id: u32,
    pub rects: Seq<RegionRect>,
}

impl View for Region {
    type V = RegionView;

    open spec fn view(&self) -> RegionView {
        RegionView {
            client_id: self.client_id,
            rects: self.rects@,
        }
    }
}

/// A pending surface (building, but not yet flipped)
pub struct SurfacePending {
    /// Is the buffer attached
    pub buffer_attached: bool,
    /// The buffer
    pub buffer_id: Option<u32>,
    /// `wl_surface.damage` rectangles, in surface-local coordinates.
    pub damage_surface: Vec<TextureRect>,
    /// `wl_surface.damage_buffer` rectangles, already in buffer coordinates.
    pub damage_buffer: Vec<TextureRect>,
    /// `wl_surface.frame` callbacks requested since the last commit, oldest first.
    pub frame_callbacks: Vec<u32>,
    /// Presentation feedback ids
    pub presentation_feedbacks: Vec<u32>,
    /// Pending input region
    pub input_region: PendingRegion,
    /// Pending opaque region
    pub opaque_region: PendingRegion,
    /// Pending buffer scale
    pub buffer_scale: Option<i32>,
    /// Pending buffer transform
    pub buffer_transform: Option<BufferTransform>,
    /// Pending offset
    pub offset: (i32, i32),
}

/// What a commit would change.
#[verifier::ext_equal]
pub struct SurfacePendingView {
    pub buffer_attached: bool,
    pub buffer_id: Option<u32>,
    pub damage_surface: Seq<TextureRect>,
    pub damage_buffer: Seq<TextureRect>,
    pub frame_callbacks: Seq<u32>,
    pub presentation_feedbacks: Seq<u32>,
    pub input_region: PendingRegionView,
    pub opaque_region: PendingRegionView,
    pub buffer_scale: Option<i32>,
    pub buffer_transform: Option<BufferTransform>,
    pub offset: (i32, i32),
}

impl View for SurfacePending {
    type V = SurfacePendingView;

    open spec fn view(&self) -> SurfacePendingView {
        SurfacePendingView {
            buffer_attached: self.buffer_attached,
            buffer_id: self.buffer_id,
            damage_surface: self.damage_surface@,
            damage_buffer: self.damage_buffer@,
            frame_callbacks: self.frame_callbacks@,
            presentation_feedbacks: self.presentation_feedbacks@,
            input_region: self.input_region@,
            opaque_region: self.opaque_region@,
            buffer_scale: self.buffer_scale,
            buffer_transform: self.buffer_transform,
            offset: self.offset,
        }
    }
}

impl SurfacePendingView {
    /// Nothing to change.
    pub open spec fn nothing() -> Self {
        SurfacePendingView {
            buffer_attached: false,
            buffer_id: None,
            damage_surface: Seq::empty(),
            damage_buffer: Seq::empty(),
            frame_callbacks: Seq::empty(),
            presentation_feedbacks: Seq::empty(),
            input_region: PendingRegionView::Unchanged,
            opaque_region: PendingRegionView::Unchanged,
            buffer_scale: None,
            buffer_transform: None,
            offset: (0, 0),
        }
    }

    /// Two commits as one: what the newer says wins, lists run on, and
    /// offsets add up.
    pub open spec fn merged(self, newer: Self) -> Self {
        SurfacePendingView {
            buffer_attached: self.buffer_attached || newer.buffer_attached,
            buffer_id: if newer.buffer_attached { newer.buffer_id } else { self.buffer_id },
            damage_surface: self.damage_surface + newer.damage_surface,
            damage_buffer: self.damage_buffer + newer.damage_buffer,
            frame_callbacks: self.frame_callbacks + newer.frame_callbacks,
            presentation_feedbacks: self.presentation_feedbacks + newer.presentation_feedbacks,
            input_region: if newer.input_region is Unchanged { self.input_region } else { newer.input_region },
            opaque_region: if newer.opaque_region is Unchanged { self.opaque_region } else { newer.opaque_region },
            buffer_scale: if newer.buffer_scale is Some { newer.buffer_scale } else { self.buffer_scale },
            buffer_transform: if newer.buffer_transform is Some { newer.buffer_transform } else { self.buffer_transform },
            offset: (
                to_i32(self.offset.0 + newer.offset.0),
                to_i32(self.offset.1 + newer.offset.1),
            ),
        }
    }
}

impl Default for SurfacePending {
    fn default() -> (r: Self)
        ensures
            r@ == SurfacePendingView::nothing(),
    {
        let r = SurfacePending {
            buffer_attached: false,
            buffer_id: None,
            damage_surface: Vec::new(),
            damage_buffer: Vec::new(),
            frame_callbacks: Vec::new(),
            presentation_feedbacks: Vec::new(),
            input_region: PendingRegion::Unchanged,
            opaque_region: PendingRegion::Unchanged,
            buffer_scale: None,
            buffer_transform: None,
            offset: (0, 0),
        };
        proof {
            assert(r@ =~= SurfacePendingView::nothing());
        }
        r
    }
}

impl SurfacePending {
    /// Fold a newer commit's state into this one
    pub fn merge(&mut self, newer: Self)
        ensures
            final(self)@ == old(self)@.merged(newer@),
    {
        let mut newer = newer;
        if newer.buffer_attached {
            self.buffer_attached = true;
            self.buffer_id = newer.buffer_id;
        }
        self.damage_surface.append(&mut newer.damage_surface);
        self.damage_buffer.append(&mut newer.damage_buffer);
        self.frame_callbacks.append(&mut newer.frame_callbacks);
        self.presentation_feedbacks.append(&mut newer.presentation_feedbacks);
        if !matches!(newer.input_region, PendingRegion::Unchanged) {
            self.input_region = newer.input_region;
        }
        if !matches!(newer.opaque_region, PendingRegion::Unchanged) {
            self.opaque_region = newer.opaque_region;
        }
        if newer.buffer_scale.is_some() {
            self.buffer_scale = newer.buffer_scale;
        }
        if newer.buffer_transform.is_some() {
            self.buffer_transform = newer.buffer_transform;
        }
        self.offset = (
            plus(self.offset.0, newer.offset.0),
            plus(self.offset.1, newer.offset.1),
        );
    }
}

/// What a cached commit says, if there is one.
pub open spec fn cached_view(c: Option<SurfacePending>) -> Option<SurfacePendingView> {
    match c {
        Some(p) => Some(p@),
        None => None,
    }
}

/// What a region says, if there is one.
pub open spec fn region_view(r: Option<Vec<RegionRect>>) -> Option<Seq<RegionRect>> {
    match r {
        Some(v) => Some(v@),
        None => None,
    }
}

/// A `wl_surface`
pub struct Surface {
    /// The client that owns the surface
    pub client_id: u32,
    /// The id of the buffer for this surface
    pub buffer_id: Option<u32>,
    /// Committed `wl_surface.frame` callbacks awaiting a frame, oldest first
    pub frame_callbacks: Vec<u32>,
    /// Committed presentation feedback ids
    pub presentation_feedbacks: Vec<u32>,
    /// The surface back buffer before flip
    pub pending: SurfacePending,
    /// The parent surface id (for a subsurface or popup, etc.)
    pub parent: Option<u32>,
    /// The direct children surfaces
    pub children: Vec<u32>,
    /// Relative position if this is a subsurface or popup
    pub subsurface_position: (i32, i32),
    /// Whether this surface got its parent from `wl_subcompositor`
    pub is_subsurface: bool,
    /// The commit mode from `wl_subsurface.set_sync`/`set_desync`
    pub subsurface_sync: bool,
    /// Temporary state if this is a subsurface and committed while synchronised,
    /// waiting for the parent to actually commit
    pub cached: Option<SurfacePending>,
    /// Position of this surface
    pub position: (i32, i32),
    /// Input region for this surface
    pub input_region: Option<Vec<RegionRect>>,
    /// Opaque region for this surface
    pub opaque_region: Option<Vec<RegionRect>>,
    /// Buffer pixels to surface-local coordinate
    pub buffer_scale: i32,
    /// How the client has already transformed its buffer
    pub buffer_transform: BufferTransform,
    /// Where the surface's contents sit relative to where they would otherwise,
    /// from `wl_surface.attach`'s `dx`/`dy` and `wl_surface.offset`. (Read only
    /// by the drag icon.)
    pub offset: (i32, i32),
    /// Outputs the client has been told this surface is on
    pub entered_outputs: KeySet<u32>,
    /// Outputs actually showing this surface
    pub visible_on: KeySet<u32>,
}

/// What is known of a surface.
#[verifier::ext_equal]
pub struct SurfaceView {
    pub client_id: u32,
    pub buffer_id: Option<u32>,
    pub frame_callbacks: Seq<u32>,
    pub presentation_feedbacks: Seq<u32>,
    pub pending: SurfacePendingView,
    pub parent: Option<u32>,
    pub children: Seq<u32>,
    pub subsurface_position: (i32, i32),
    pub is_subsurface: bool,
    pub subsurface_sync: bool,
    pub cached: Option<SurfacePendingView>,
    pub position: (i32, i32),
    pub input_region: Option<Seq<RegionRect>>,
    pub opaque_region: Option<Seq<RegionRect>>,
    pub buffer_scale: i32,
    pub buffer_transform: BufferTransform,
    pub offset: (i32, i32),
    pub entered_outputs: Seq<u32>,
    pub visible_on: Seq<u32>,
}

impl View for Surface {
    type V = SurfaceView;

    open spec fn view(&self) -> SurfaceView {
        SurfaceView {
            client_id: self.client_id,
            buffer_id: self.buffer_id,
            frame_callbacks: self.frame_callbacks@,
            presentation_feedbacks: self.presentation_feedbacks@,
            pending: self.pending@,
            parent: self.parent,
            children: self.children@,
            subsurface_position: self.subsurface_position,
            is_subsurface: self.is_subsurface,
            subsurface_sync: self.subsurface_sync,
            cached: cached_view(self.cached),
            position: self.position,
            input_region: region_view(self.input_region),
            opaque_region: region_view(self.opaque_region),
            buffer_scale: self.buffer_scale,
            buffer_transform: self.buffer_transform,
            offset: self.offset,
            entered_outputs: self.entered_outputs@,
            visible_on: self.visible_on@,
        }
    }
}

impl SurfaceView {
    /// A surface as it is created: no role, no buffer, nothing pending.
    pub open spec fn fresh(client_id: u32) -> Self {
        SurfaceView {
            client_id,
            buffer_id: None,
            frame_callbacks: Seq::empty(),
            presentation_feedbacks: Seq::empty(),
            pending: SurfacePendingView::nothing(),
            parent: None,
            children: Seq::empty(),
            subsurface_position: (0, 0),
            is_subsurface: false,
            subsurface_sync: true,
            cached: None,
            position: (0, 0),
            input_region: None,
            opaque_region: None,
            buffer_scale: 1,
            buffer_transform: BufferTransform::Normal,
            offset: (0, 0),
            entered_outputs: Seq::empty(),
            visible_on: Seq::empty(),
        }
    }
}

impl Surface {
    /// A surface as it is created.
    pub fn new(client_id: u32) -> (r: Self)
        ensures
            r@ == SurfaceView::fresh(client_id),
    {
        let r = Surface {
            client_id,
            buffer_id: None,
            frame_callbacks: Vec::new(),
            presentation_feedbacks: Vec::new(),
            pending: SurfacePending::default(),
            parent: None,
            children: Vec::new(),
            subsurface_position: (0, 0),
            is_subsurface: false,
            subsurface_sync: true,
            cached: None,
            position: (0, 0),
            input_region: None,
            opaque_region: None,
            buffer_scale: 1,
            buffer_transform: BufferTransform::Normal,
            offset: (0, 0),
            entered_outputs: KeySet::new(),
            visible_on: KeySet::new(),
        };
        proof {
            assert(r@ =~= SurfaceView::fresh(client_id));
        }
        r
    }
}

/// Layer shell layer
#[derive(Debug, Clone, Copy, PartialEq, Eq, Structural)]
pub enum LayerKind {
    /// Under everything. Wallpapers
    Background,
    /// Under ordinary windows, over the wallpaper. Widgets that windows cover.
    Bottom,
    /// Over ordinary windows. Panels and bars.
    Top,
    /// Over everything. Lock screens, notifications, even fullscreen apps.
    Overlay,
}

impl View for LayerKind {
    type V = LayerKind;

    open spec fn view(&self) -> LayerKind {
        *self
    }
}

impl LayerKind {
    /// The layer's number, which is also its place from the bottom.
    pub open spec fn rank(self) -> int {
        match self {
            Self::Background => 0,
            Self::Bottom => 1,
            Self::Top => 2,
            Self::Overlay => 3,
        }
    }

    /// The layer's number.
    pub fn number(self) -> (r: u32)
        ensures
            r == self.rank(),
    {
        match self {
            Self::Background => 0,
            Self::Bottom => 1,
            Self::Top => 2,
            Self::Overlay => 3,
        }
    }

    /// The layer a number names.
    pub fn from_repr(n: u32) -> (r: Option<Self>)
        ensures
            match r {
                Some(k) => n == k.rank(),
                None => n > 3,
            },
    {
        match n {
            0 => Some(Self::Background),
            1 => Some(Self::Bottom),
            2 => Some(Self::Top),
            3 => Some(Self::Overlay),
            _ => None,
        }
    }

    /// Whether the layer is one of the two over the windows.
    pub open spec fn above(self) -> bool {
        self is Top || self is Overlay
    }

    /// Whether this layer draws over ordinary windows.
    pub fn is_above_windows(self) -> (r: bool)
        ensures
            r == self.above(),
    {
        matches!(self, Self::Top | Self::Overlay)
    }
}

/// Which edges a layer surface is anchored to, as `zwlr_layer_surface_v1` numbers them.
#[derive(Debug, Clone, Copy, PartialEq, Eq, Structural)]
pub struct Anchor(pub u32);

impl View for Anchor {
    type V = Anchor;

    open spec fn view(&self) -> Anchor {
        *self
    }
}

impl Anchor {
    /// Top
    pub const TOP: u32 = 1;

    /// Bottom
    pub const BOTTOM: u32 = 2;

    /// Left
    pub const LEFT: u32 = 4;

    /// Right
    pub const RIGHT: u32 = 8;

    /// All of them
    pub const ALL: u32 = 15;

    /// Whether top is one of the edges
    #[verifier::when_used_as_spec(has_top)]
    pub fn top(self) -> (r: bool)
        ensures
            r == self.has_top(),
    {
        self.0 & 1 != 0
    }

    /// Whether bottom is one of the edges
    #[verifier::when_used_as_spec(has_bottom)]
    pub fn bottom(self) -> (r: bool)
        ensures
            r == self.has_bottom(),
    {
        self.0 & 2 != 0
    }

    /// Whether left is one of the edges
    #[verifier::when_used_as_spec(has_left)]
    pub fn left(self) -> (r: bool)
        ensures
            r == self.has_left(),
    {
        self.0 & 4 != 0
    }

    /// Whether right is one of the edges
    #[verifier::when_used_as_spec(has_right)]
    pub fn right(self) -> (r: bool)
        ensures
            r == self.has_right(),
    {
        self.0 & 8 != 0
    }

    /// The bit of the top edge is set.
    pub open spec fn has_top(self) -> bool {
        self.0 & 1 != 0
    }

    /// The bit of the bottom edge is set.
    pub open spec fn has_bottom(self) -> bool {
        self.0 & 2 != 0
    }

    /// The bit of the left edge is set.
    pub open spec fn has_left(self) -> bool {
        self.0 & 4 != 0
    }

    /// The bit of the right edge is set.
    pub open spec fn has_right(self) -> bool {
        self.0 & 8 != 0
    }

    /// Anchored to both sides of the horizontal axis
    #[verifier::when_used_as_spec(is_wide)]
    pub fn spans_horizontally(self) -> (r: bool)
        ensures
            r == self.is_wide(),
    {
        self.left() && self.right()
    }

    /// Anchored to both sides of the vertical axis
    #[verifier::when_used_as_spec(is_tall)]
    pub fn spans_vertically(self) -> (r: bool)
        ensures
            r == self.is_tall(),
    {
        self.top() && self.bottom()
    }

    /// Both the left and the right edge.
    pub open spec fn is_wide(self) -> bool {
        self.has_left() && self.has_right()
    }

    /// Both the top and the bottom edge.
    pub open spec fn is_tall(self) -> bool {
        self.has_top() && self.has_bottom()
    }
}

/// Whether a layer surface wants the keyboard.
#[derive(Debug, Clone, Copy, PartialEq, Eq, Structural)]
pub enum KeyboardInteractivity {
    /// Never focused. A wallpaper, a bar that is only clicked.
    Never,
    /// Takes the keyboard for as long as it exists, over any window. (e.g. lock screen)
    Exclusive,
    /// Focused when the user clicks it, like an normal window.
    OnDemand,
}

impl View for KeyboardInteractivity {
    type V = KeyboardInteractivity;

    open spec fn view(&self) -> KeyboardInteractivity {
        *self
    }
}

impl KeyboardInteractivity {
    /// The number the protocol gives it.
    pub open spec fn rank(self) -> int {
        match self {
            Self::Never => 0,
            Self::Exclusive => 1,
            Self::OnDemand => 2,
        }
    }

    /// The one a number names.
    pub fn from_repr(n: u32) -> (r: Option<Self>)
        ensures
            match r {
                Some(k) => n == k.rank(),
                None => n > 2,
            },
    {
        match n {
            0 => Some(Self::Never),
            1 => Some(Self::Exclusive),
            2 => Some(Self::OnDemand),
            _ => None,
        }
    }
}

/// The double-buffered state of a layer surface.
#[derive(Debug, Clone, Copy, PartialEq, Eq)]
pub struct LayerSurfaceStatePending {
    /// The size asked for. Zero on an axis means "as big as the anchor makes me"
    pub size: (i32, i32),
    /// The anchor(s)
    pub anchor: Anchor,
    /// How much room to reserve for this surface along the edge it is anchored
    /// to, so windows do not go under it. Negative means the surface wants no
    /// reservation *and* to ignore everyone else's.
    pub exclusive_zone: i32,
    /// Gaps outside the surface, in the order the protocol sends them: top,
    /// right, bottom, left.
    pub margin: (i32, i32, i32, i32),
    /// Keyboard interactivity
    pub keyboard_interactivity: KeyboardInteractivity,
    /// The kind of layer
    pub layer: LayerKind,
}

impl View for LayerSurfaceStatePending {
    type V = LayerSurfaceStatePending;

    open spec fn view(&self) -> LayerSurfaceStatePending {
        *self
    }
}

impl LayerSurfaceStatePending {
    /// What a layer surface starts with.
    pub open spec fn start(layer: LayerKind) -> Self {
        LayerSurfaceStatePending {
            size: (0, 0),
            anchor: Anchor(0),
            exclusive_zone: 0,
            margin: (0, 0, 0, 0),
            keyboard_interactivity: KeyboardInteractivity::Never,
            layer,
        }
    }

    /// What a layer surface on a layer starts with.
    pub fn on_layer(layer: LayerKind) -> (r: Self)
        ensures
            r == Self::start(layer),
    {
        LayerSurfaceStatePending {
            size: (0, 0),
            anchor: Anchor(0),
            exclusive_zone: 0,
            margin: (0, 0, 0, 0),
            keyboard_interactivity: KeyboardInteractivity::Never,
            layer,
        }
    }
}

impl Default for LayerSurfaceStatePending {
    fn default() -> (r: Self)
        ensures
            r == Self::start(LayerKind::Background),
    {
        LayerSurfaceStatePending::on_layer(LayerKind::Background)
    }
}

/// A `zwlr_layer_surface_v1`: a panel, bar, wallpaper or lock screen
pub struct LayerSurfaceState {
    /// Owning client
    pub client_id: u32,
    /// The `wl_surface` this gives a role to
    pub wl_surface_id: u32,
    /// The output it belongs to. `None` means the client let the compositor choose
    /// and there was none to choose
    pub output: Option<u32>,
    /// What the client has asked for and not yet committed
    pub pending: LayerSurfaceStatePending,
    /// What is currently active
    pub current: LayerSurfaceStatePending,
    /// The client's own name for it, for a compositor with per-namespace
    /// policy.
    pub namespace: String,
    /// Whether a configure has been acknowledged. Don't show it before this.
    pub configured: bool,
    /// Serials sent and not yet acknowledged
    pub pending_configures: Vec<u32>,
    /// Highest configure
    pub highest_configure: u32,
    /// The geometry last configured, so an unchanged one sends nothing
    pub configured_size: Option<(i32, i32)>,
}

/// What is known of a layer surface.
#[verifier::ext_equal]
pub struct LayerSurfaceStateView {
    pub client_id: u32,
    pub wl_surface_id: u32,
    pub output: Option<u32>,
    pub pending: LayerSurfaceStatePending,
    pub current: LayerSurfaceStatePending,
    pub namespace: Seq<char>,
    pub configured: bool,
    pub pending_configures: Seq<u32>,
    pub highest_configure: u32,
    pub configured_size: Option<(i32, i32)>,
}

impl View for LayerSurfaceState {
    type V = LayerSurfaceStateView;

    open spec fn view(&self) -> LayerSurfaceStateView {
        LayerSurfaceStateView {
            client_id: self.client_id,
            wl_surface_id: self.wl_surface_id,
            output: self.output,
            pending: self.pending,
            current: self.current,
            namespace: self.namespace@,
            configured: self.configured,
            pending_configures: self.pending_configures@,
            highest_configure: self.highest_configure,
            configured_size: self.configured_size,
        }
    }
}

/// A `zxdg_toplevel_decoration_v1` object, bound to one `xdg_toplevel`
/// 
/// Carries no mode of its own. The answer to that comes straight from the
/// settings, so all this holds is enough to find the object again - to refuse a
/// second one on the same toplevel, and to forget it if the toplevel goes first.
#[derive(Debug, Clone, Copy, PartialEq, Eq, Structural)]
pub struct DecorationState {
    /// The client owning the decoration state
    pub client_id: u32,
    /// The `xdg_toplevel` that this decoration applies to
    pub toplevel_id: u32,
}

impl View for DecorationState {
    type V = DecorationState;

    open spec fn view(&self) -> DecorationState {
        *self
    }
}

/// A rectangle in 24.8 fixed point, as the wire carries it: each number counts
/// 256ths of a pixel.
#[derive(Debug, Clone, Copy, PartialEq, Eq, Structural)]
pub struct FixedRect {
    pub x: i32,
    pub y: i32,
    pub width: i32,
    pub height: i32,
}

impl View for FixedRect {
    type V = FixedRect;

    open spec fn view(&self) -> FixedRect {
        *self
    }
}

/// Viewport state for a surface to crop/scale a surface
#[derive(Debug, Clone, Copy, PartialEq, Eq)]
pub struct ViewportState {
    /// The client owning the viewport state
    pub client_id: u32,
    /// The surface that this applies to
    pub surface_id: u32,
    /// The source rectangle
    pub source: Option<FixedRect>,
    /// The destination rectangle to map onto
    pub destination: Option<(i32, i32)>,
    /// Pending version of the source rectangle
    pub pending_source: Option<FixedRect>,
    /// Pending version of the destination rectangle
    pub pending_destination: Option<(i32, i32)>,
}

impl View for ViewportState {
    type V = ViewportState;

    open spec fn view(&self) -> ViewportState {
        *self
    }
}

/// A rectangle in 256ths of a pixel, wide enough for any buffer.
#[derive(Debug, Clone, Copy, PartialEq, Eq, Structural)]
pub struct FixedRect64 {
    pub x: i64,
    pub y: i64,
    pub width: i64,
    pub height: i64,
}

impl View for FixedRect64 {
    type V = FixedRect64;

    open spec fn view(&self) -> FixedRect64 {
        *self
    }
}

/// How a surface's buffer maps onto the screen.
#[derive(Debug, Clone, Copy, PartialEq, Eq, Structural)]
pub struct BufferMapping {
    /// Source rectangle in 256ths of a buffer pixel.
    pub src: FixedRect64,
    /// Destination width
    pub dest_width: i32,
    /// Destination height
    pub dest_height: i32,
}

impl View for BufferMapping {
    type V = BufferMapping;

    open spec fn view(&self) -> BufferMapping {
        *self
    }
}

/// Which edges of a window an interactive resize is dragging.
///
/// The bit values are `xdg_toplevel.resize_edge`, passed by the client.
#[derive(Debug, Clone, Copy, PartialEq, Eq, Structural)]
pub struct ResizeEdges(pub u32);

impl View for ResizeEdges {
    type V = ResizeEdges;

    open spec fn view(&self) -> ResizeEdges {
        *self
    }
}

impl ResizeEdges {
    /// Top
    pub const TOP: u32 = 1;

    /// Bottom
    pub const BOTTOM: u32 = 2;

    /// Left
    pub const LEFT: u32 = 4;

    /// Right
    pub const RIGHT: u32 = 8;

    /// Whether top is one of the edges
    #[verifier::when_used_as_spec(has_top)]
    pub fn top(self) -> (r: bool)
        ensures
            r == self.has_top(),
    {
        self.0 & 1 != 0
    }

    /// Whether bottom is one of the edges
    #[verifier::when_used_as_spec(has_bottom)]
    pub fn bottom(self) -> (r: bool)
        ensures
            r == self.has_bottom(),
    {
        self.0 & 2 != 0
    }

    /// Whether left is one of the edges
    #[verifier::when_used_as_spec(has_left)]
    pub fn left(self) -> (r: bool)
        ensures
            r == self.has_left(),
    {
        self.0 & 4 != 0
    }

    /// Whether right is one of the edges
    #[verifier::when_used_as_spec(has_right)]
    pub fn right(self) -> (r: bool)
        ensures
            r == self.has_right(),
    {
        self.0 & 8 != 0
    }

    /// The bit of the top edge is set.
    pub open spec fn has_top(self) -> bool {
        self.0 & 1 != 0
    }

    /// The bit of the bottom edge is set.
    pub open spec fn has_bottom(self) -> bool {
        self.0 & 2 != 0
    }

    /// The bit of the left edge is set.
    pub open spec fn has_left(self) -> bool {
        self.0 & 4 != 0
    }

    /// The bit of the right edge is set.
    pub open spec fn has_right(self) -> bool {
        self.0 & 8 != 0
    }
}

/// What an interactive grab is doing to the window it holds with state
#[derive(Debug, Clone, Copy, PartialEq, Eq)]
pub enum GrabKind {
    /// Moving the window
    Move { offset_x: i32, offset_y: i32 },
    /// Resizing the window
    Resize {
        /// Edges grabbed
        edges: ResizeEdges,
        /// The initial size before the grab/resize
        start_size: (i32, i32),
        /// Last size sent to the client, so an unchanged size sends nothing.
        last_sent: (i32, i32),
    },
}

/// The fixed edges of a window mid-resize, and the size it was last asked to become
#[derive(Debug, Clone, Copy, PartialEq, Eq)]
pub struct ResizeAnchor {
    /// The toplevel's `wl_surface` key
    pub surface: ClientObjectId,
    /// Which edges the drag moves - the opposite ones are the anchor
    pub edges: ResizeEdges,
    /// Global x of the right edge when the grab started
    pub right: i32,
    /// Global y of the bottom edge when the grab started
    pub bottom: i32,
}

impl View for ResizeAnchor {
    type V = ResizeAnchor;

    open spec fn view(&self) -> ResizeAnchor {
        *self
    }
}

/// An interactive move or resize the compositor is driving
/// 
/// While one is held the compositor owns the pointer: motion and buttons drive
/// the grab instead of reaching the client, which is what "grab" means.
#[derive(Debug, Clone, Copy, PartialEq, Eq)]
pub struct PointerGrab {
    /// The toplevel's `wl_surface`
    pub surface: ClientObjectId,
    /// The `xdg_toplevel` object, needed to configure a resize
    pub toplevel: ClientObjectId,
    /// What kind of grab (move or resize)
    pub kind: GrabKind,
}

impl View for PointerGrab {
    type V = PointerGrab;

    open spec fn view(&self) -> PointerGrab {
        *self
    }
}

/// A role for an Xdg wrapped surface
#[derive(Debug, Clone, Copy, PartialEq, Eq, Structural)]
pub enum XdgRole {
    /// A top-level window
    Toplevel(u32),
    /// A popup menu
    Popup(u32),
}

impl View for XdgRole {
    type V = XdgRole;

    open spec fn view(&self) -> XdgRole {
        *self
    }
}

/// The state of a xdg wrapped surface
pub struct XdgSurfaceState {
    /// Owning client
    pub client_id: u32,
    /// The surface id that is wrapped
    pub wl_surface_id: u32,
    /// The xdg role
    pub role: Option<XdgRole>,
    /// Whether the client has ever acknowledged a configure
    pub configured: bool,
    /// Geometry of the top-level wrapper
    pub geometry: Option<(i32, i32, i32, i32)>,
    /// Pending `xdg_surface.configure` serials
    pub pending_configures: Vec<u32>,
    /// The highest serial ever sent to this surface
    pub highest_configure: u32,
}

/// What is known of an xdg surface.
#[verifier::ext_equal]
pub struct XdgSurfaceStateView {
    pub client_id: u32,
    pub wl_surface_id: u32,
    pub role: Option<XdgRole>,
    pub configured: bool,
    pub geometry: Option<(i32, i32, i32, i32)>,
    pub pending_configures: Seq<u32>,
    pub highest_configure: u32,
}

impl View for XdgSurfaceState {
    type V = XdgSurfaceStateView;

    open spec fn view(&self) -> XdgSurfaceStateView {
        XdgSurfaceStateView {
            client_id: self.client_id,
            wl_surface_id: self.wl_surface_id,
            role: self.role,
            configured: self.configured,
            geometry: self.geometry,
            pending_configures: self.pending_configures@,
            highest_configure: self.highest_configure,
        }
    }
}

/// The state of an xdg top-level window
pub struct XdgToplevelState {
    /// Owning client
    pub client_id: u32,
    /// Wrapped surface Id
    pub xdg_surface_id: u32,
    /// Title of this window
    pub title: Option<String>,
    /// App Id String for this window
    pub app_id: Option<String>,
    /// Smallest size the client says it can work at, from `set_min_size`
    pub min_size: (i32, i32),
    /// Largest size the client says it wants, from `set_max_size`
    pub max_size: (i32, i32),
    /// Is it maximized
    pub maximized: bool,
    /// Is it full-screened
    pub fullscreen: bool,
    /// Where the window was before it was maximized or made fullscreen
    pub restore: Option<(i32, i32, i32, i32)>,
    /// The toplevel this one hangs off, from `set_parent`.  (E.g. a dialog)
    pub parent: Option<u32>,
    /// The bounds last sent as `configure_bounds`
    pub sent_bounds: Option<(i32, i32)>,
}

/// What is known of a top-level window.
#[verifier::ext_equal]
pub struct XdgToplevelStateView {
    pub client_id: u32,
    pub xdg_surface_id: u32,
    pub title: Option<Seq<char>>,
    pub app_id: Option<Seq<char>>,
    pub min_size: (i32, i32),
    pub max_size: (i32, i32),
    pub maximized: bool,
    pub fullscreen: bool,
    pub restore: Option<(i32, i32, i32, i32)>,
    pub parent: Option<u32>,
    pub sent_bounds: Option<(i32, i32)>,
}

impl View for XdgToplevelState {
    type V = XdgToplevelStateView;

    open spec fn view(&self) -> XdgToplevelStateView {
        XdgToplevelStateView {
            client_id: self.client_id,
            xdg_surface_id: self.xdg_surface_id,
            title: opt_text(self.title),
            app_id: opt_text(self.app_id),
            min_size: self.min_size,
            max_size: self.max_size,
            maximized: self.maximized,
            fullscreen: self.fullscreen,
            restore: self.restore,
            parent: self.parent,
            sent_bounds: self.sent_bounds,
        }
    }
}

/// Xdg popup state
#[derive(Debug, Clone, Copy, PartialEq, Eq, Structural)]
pub struct XdgPopupState {
    /// Owning client
    pub client_id: u32,
    /// Wrapped surface
    pub xdg_surface_id: u32,
    /// Owning xdg wrapped top window or other popup
    pub parent_xdg_surface_id: u32,
    /// The positioner id it was created with
    pub positioner: u32,
    /// X position for the popup
    pub x: i32,
    /// Y position for the popup
    pub y: i32,
    /// Width
    pub width: i32,
    /// Height
    pub height: i32,
}

impl View for XdgPopupState {
    type V = XdgPopupState;

    open spec fn view(&self) -> XdgPopupState {
        *self
    }
}

/// The edge or corner of the anchor rectangle a popup hangs off.
#[derive(Debug, Clone, Copy, PartialEq, Eq, Structural)]
pub enum XdgPositionerAnchor {
    Unset,
    Top,
    Bottom,
    Left,
    Right,
    TopLeft,
    BottomLeft,
    TopRight,
    BottomRight,
}

impl View for XdgPositionerAnchor {
    type V = XdgPositionerAnchor;

    open spec fn view(&self) -> XdgPositionerAnchor {
        *self
    }
}

impl XdgPositionerAnchor {
    /// The number the protocol gives it.
    pub open spec fn rank(self) -> int {
        match self {
            Self::Unset => 0,
            Self::Top => 1,
            Self::Bottom => 2,
            Self::Left => 3,
            Self::Right => 4,
            Self::TopLeft => 5,
            Self::BottomLeft => 6,
            Self::TopRight => 7,
            Self::BottomRight => 8,
        }
    }

    /// The one a number names.
    pub fn from_repr(n: u32) -> (r: Option<Self>)
        ensures
            match r {
                Some(k) => n == k.rank(),
                None => n > 8,
            },
    {
        match n {
            0 => Some(Self::Unset),
            1 => Some(Self::Top),
            2 => Some(Self::Bottom),
            3 => Some(Self::Left),
            4 => Some(Self::Right),
            5 => Some(Self::TopLeft),
            6 => Some(Self::BottomLeft),
            7 => Some(Self::TopRight),
            8 => Some(Self::BottomRight),
            _ => None,
        }
    }
}

/// Which way a popup grows from its anchor point.
#[derive(Debug, Clone, Copy, PartialEq, Eq, Structural)]
pub enum XdgPositionerGravity {
    Unset,
    Top,
    Bottom,
    Left,
    Right,
    TopLeft,
    BottomLeft,
    TopRight,
    BottomRight,
}

impl View for XdgPositionerGravity {
    type V = XdgPositionerGravity;

    open spec fn view(&self) -> XdgPositionerGravity {
        *self
    }
}

impl XdgPositionerGravity {
    /// The number the protocol gives it.
    pub open spec fn rank(self) -> int {
        match self {
            Self::Unset => 0,
            Self::Top => 1,
            Self::Bottom => 2,
            Self::Left => 3,
            Self::Right => 4,
            Self::TopLeft => 5,
            Self::BottomLeft => 6,
            Self::TopRight => 7,
            Self::BottomRight => 8,
        }
    }

    /// The one a number names.
    pub fn from_repr(n: u32) -> (r: Option<Self>)
        ensures
            match r {
                Some(k) => n == k.rank(),
                None => n > 8,
            },
    {
        match n {
            0 => Some(Self::Unset),
            1 => Some(Self::Top),
            2 => Some(Self::Bottom),
            3 => Some(Self::Left),
            4 => Some(Self::Right),
            5 => Some(Self::TopLeft),
            6 => Some(Self::BottomLeft),
            7 => Some(Self::TopRight),
            8 => Some(Self::BottomRight),
            _ => None,
        }
    }
}

/// What may be done to a popup to keep it on screen.
#[derive(Debug, Clone, Copy, PartialEq, Eq, Structural)]
pub enum XdgPositionerConstraintAdjustment {
    SlideX,
    SlideY,
    FlipX,
    FlipY,
    ResizeX,
    ResizeY,
}

impl View for XdgPositionerConstraintAdjustment {
    type V = XdgPositionerConstraintAdjustment;

    open spec fn view(&self) -> XdgPositionerConstraintAdjustment {
        *self
    }
}

impl XdgPositionerConstraintAdjustment {
    /// The bit the protocol gives it.
    pub open spec fn mask(self) -> u32 {
        match self {
            Self::SlideX => 1,
            Self::SlideY => 2,
            Self::FlipX => 4,
            Self::FlipY => 8,
            Self::ResizeX => 16,
            Self::ResizeY => 32,
        }
    }

    /// The bit the protocol gives it.
    pub fn bit(self) -> (r: u32)
        ensures
            r == self.mask(),
    {
        match self {
            Self::SlideX => 1,
            Self::SlideY => 2,
            Self::FlipX => 4,
            Self::FlipY => 8,
            Self::ResizeX => 16,
            Self::ResizeY => 32,
        }
    }
}

/// How a client wants a popup placed.
#[derive(Debug, Clone, Copy, PartialEq, Eq)]
pub struct XdgPositionerState {
    pub client_id: u32,
    pub width: i32,
    pub height: i32,
    pub anchor_rect: (i32, i32, i32, i32),
    pub anchor: XdgPositionerAnchor,
    pub gravity: XdgPositionerGravity,
    pub offset: (i32, i32),
    /// The bits of every [`XdgPositionerConstraintAdjustment`] allowed.
    pub constraint_adjustment: u32,
    /// From `set_reactive`: the popup wants to be re-placed whenever what it is
    /// anchored to moves, rather than only when the client asks.
    pub reactive: bool,
    /// From `set_parent_size`: the size the client believes its parent window
    /// will be. Constraining happens against this when it is given, which lets
    /// a client that is about to resize get a popup placed for the size it is
    /// heading to rather than the one it is leaving.
    pub parent_size: Option<(i32, i32)>,
}

impl View for XdgPositionerState {
    type V = XdgPositionerState;

    open spec fn view(&self) -> XdgPositionerState {
        *self
    }
}

impl XdgPositionerState {
    /// A positioner as it is created.
    pub open spec fn fresh(client_id: u32) -> Self {
        XdgPositionerState {
            client_id,
            width: 0,
            height: 0,
            anchor_rect: (0, 0, 0, 0),
            anchor: XdgPositionerAnchor::Unset,
            gravity: XdgPositionerGravity::Unset,
            offset: (0, 0),
            constraint_adjustment: 0,
            reactive: false,
            parent_size: None,
        }
    }

    /// A positioner as it is created.
    pub fn new(client_id: u32) -> (r: Self)
        ensures
            r == Self::fresh(client_id),
    {
        XdgPositionerState {
            client_id,
            width: 0,
            height: 0,
            anchor_rect: (0, 0, 0, 0),
            anchor: XdgPositionerAnchor::Unset,
            gravity: XdgPositionerGravity::Unset,
            offset: (0, 0),
            constraint_adjustment: 0,
            reactive: false,
            parent_size: None,
        }
    }
}

/// A `wl_pointer`.
#[derive(Debug, Clone, Copy, PartialEq, Eq, Structural)]
pub struct PointerBinding {
    pub client_id: u32,
    pub object_id: u32,
}

impl View for PointerBinding {
    type V = PointerBinding;

    open spec fn view(&self) -> PointerBinding {
        *self
    }
}

/// A `wl_keyboard`.
#[derive(Debug, Clone, Copy, PartialEq, Eq, Structural)]
pub struct KeyboardBinding {
    pub client_id: u32,
    pub object_id: u32,
}

impl View for KeyboardBinding {
    type V = KeyboardBinding;

    open spec fn view(&self) -> KeyboardBinding {
        *self
    }
}

/// A `wl_touch`.
#[derive(Debug, Clone, Copy, PartialEq, Eq, Structural)]
pub struct TouchBinding {
    pub client_id: u32,
    pub object_id: u32,
}

impl View for TouchBinding {
    type V = TouchBinding;

    open spec fn view(&self) -> TouchBinding {
        *self
    }
}

/// A `wl_data_device`.
#[derive(Debug, Clone, Copy, PartialEq, Eq, Structural)]
pub struct DataDeviceBinding {
    pub client_id: u32,
    pub object_id: u32,
}

impl View for DataDeviceBinding {
    type V = DataDeviceBinding;

    open spec fn view(&self) -> DataDeviceBinding {
        *self
    }
}

/// A `zwp_primary_selection_device_v1`.
#[derive(Debug, Clone, Copy, PartialEq, Eq, Structural)]
pub struct PrimaryDeviceBinding {
    pub client_id: u32,
    pub object_id: u32,
}

impl View for PrimaryDeviceBinding {
    type V = PrimaryDeviceBinding;

    open spec fn view(&self) -> PrimaryDeviceBinding {
        *self
    }
}

/// A `zwlr_data_control_device_v1`, the one told about every selection rather
/// than only the focused client's.
#[derive(Debug, Clone, Copy, PartialEq, Eq, Structural)]
pub struct DataControlDeviceBinding {
    pub client_id: u32,
    pub object_id: u32,
}

impl View for DataControlDeviceBinding {
    type V = DataControlDeviceBinding;

    open spec fn view(&self) -> DataControlDeviceBinding {
        *self
    }
}

/// The four masks `wl_keyboard.modifiers` carries.
#[derive(Debug, Clone, Copy, PartialEq, Eq, Structural)]
pub struct ModifierState {
    pub depressed: u32,
    pub latched: u32,
    pub locked: u32,
    pub group: u32,
}

impl View for ModifierState {
    type V = ModifierState;

    open spec fn view(&self) -> ModifierState {
        *self
    }
}

/// What input devices there are.
#[derive(Debug, Clone, Copy, PartialEq, Eq, Structural)]
pub struct SeatState {
    pub has_pointer: bool,
    pub has_keyboard: bool,
    pub has_touch: bool,
}

impl View for SeatState {
    type V = SeatState;

    open spec fn view(&self) -> SeatState {
        *self
    }
}

/// What a `wl_data_source` has been spent on.
/// 
/// A source is single-use by protocol: offering the same one as a selection and
/// then as a drag would leave two unrelated transfers sharing one set of mime
/// types and one `cancelled`. A source cancelled and replaced is still used.
#[derive(Debug, Clone, Copy, PartialEq, Eq, Structural)]
pub enum DataSourceRole {
    Unused,
    Selection,
    Drag,
}

impl View for DataSourceRole {
    type V = DataSourceRole;

    open spec fn view(&self) -> DataSourceRole {
        *self
    }
}

/// Which interface a source or an offer speaks.
#[derive(Debug, Clone, Copy, PartialEq, Eq, Structural)]
pub enum DataInterface {
    /// `wl_data_source` / `wl_data_offer` - the clipboard, and drag and drop.
    WlData,
    /// `zwp_primary_selection_*_v1` - the middle-click clipboard.
    PrimarySelection,
    /// `zwlr_data_control_*_v1` - what a clipboard manager binds.
    DataControl,
}

impl View for DataInterface {
    type V = DataInterface;

    open spec fn view(&self) -> DataInterface {
        *self
    }
}

/// A source: content one client is offering to another.
pub struct DataSource {
    /// Which interface this source speaks, and so how it is told to send and
    /// told it has been cancelled.
    pub interface: DataInterface,
    /// Mime types in the order the client offered them, which is the order of
    /// its own preference and is passed on to the receiver unchanged.
    pub mime_types: Vec<String>,
    /// The `dnd_action` mask from `set_actions`. Zero means the client never
    /// called it.
    pub actions: u32,
    /// What this source has been spent on, if anything.
    pub role: DataSourceRole,
    /// Whether the compositor has told this source it is cancelled.
    pub cancelled: bool,
}

/// What is known of a source.
#[verifier::ext_equal]
pub struct DataSourceView {
    pub interface: DataInterface,
    pub mime_types: Seq<Seq<char>>,
    pub actions: u32,
    pub role: DataSourceRole,
    pub cancelled: bool,
}

impl View for DataSource {
    type V = DataSourceView;

    open spec fn view(&self) -> DataSourceView {
        DataSourceView {
            interface: self.interface,
            mime_types: texts(self.mime_types@),
            actions: self.actions,
            role: self.role,
            cancelled: self.cancelled,
        }
    }
}

impl DataSourceView {
    /// A source as it is created.
    pub open spec fn fresh(interface: DataInterface) -> Self {
        DataSourceView {
            interface,
            mime_types: Seq::empty(),
            actions: 0,
            role: DataSourceRole::Unused,
            cancelled: false,
        }
    }
}

impl DataSource {
    /// A source as it is created.
    pub fn new(interface: DataInterface) -> (r: Self)
        ensures
            r@ == DataSourceView::fresh(interface),
    {
        let r = DataSource {
            interface,
            mime_types: Vec::new(),
            actions: 0,
            role: DataSourceRole::Unused,
            cancelled: false,
        };
        proof {
            assert(r@.mime_types =~= Seq::<Seq<char>>::empty());
        }
        r
    }
}

/// Which of the three lives an offer is leading.
#[derive(Debug, Clone, Copy, PartialEq, Eq, Structural)]
pub enum OfferKind {
    /// A clipboard offer, handed out on focus change.
    Selection,
    /// The offer for a drag still under the pointer.
    Drag,
    /// A drag offer that has been dropped on. The pointer is free again, but
    /// the offer outlives the drag so the target can still read from it and
    /// say when it is done.
    Dropped,
}

impl View for OfferKind {
    type V = OfferKind;

    open spec fn view(&self) -> OfferKind {
        *self
    }
}

/// An offer: the compositor's handle on a source, held by the receiver.
pub struct DataOffer {
    /// The client this offer was given to.
    pub client_id: u32,
    /// The source behind this offer, or `None` once that source has gone.
    pub source: Option<ClientObjectId>,
    /// Which half of the protocol this offer belongs to.
    pub kind: OfferKind,
    /// The mime type last passed to `accept`. `None` means the receiver will
    /// take nothing.
    pub accepted: Option<String>,
    /// The `dnd_action` mask from `set_actions`.
    pub actions: u32,
    /// The one action within it the receiver would rather have.
    pub preferred_action: u32,
    /// The action last settled between the two sides, so an `action` event goes
    /// out only when it changes.
    pub resolved_action: u32,
}

/// What is known of an offer.
#[verifier::ext_equal]
pub struct DataOfferView {
    pub client_id: u32,
    pub source: Option<ClientObjectId>,
    pub kind: OfferKind,
    pub accepted: Option<Seq<char>>,
    pub actions: u32,
    pub preferred_action: u32,
    pub resolved_action: u32,
}

impl View for DataOffer {
    type V = DataOfferView;

    open spec fn view(&self) -> DataOfferView {
        DataOfferView {
            client_id: self.client_id,
            source: self.source,
            kind: self.kind,
            accepted: opt_text(self.accepted),
            actions: self.actions,
            preferred_action: self.preferred_action,
            resolved_action: self.resolved_action,
        }
    }
}

impl DataOfferView {
    /// An offer as it is handed out.
    pub open spec fn fresh(client_id: u32, source: ClientObjectId, kind: OfferKind) -> Self {
        DataOfferView {
            client_id,
            source: Some(source),
            kind,
            accepted: None,
            actions: 0,
            preferred_action: 0,
            resolved_action: 0,
        }
    }

    /// An offer cut loose from its source.
    pub open spec fn cut(self) -> Self {
        DataOfferView { source: None, accepted: None, ..self }
    }
}

impl DataOffer {
    /// An offer as it is handed out.
    pub fn new(client_id: u32, source: ClientObjectId, kind: OfferKind) -> (r: Self)
        ensures
            r@ == DataOfferView::fresh(client_id, source, kind),
    {
        DataOffer {
            client_id,
            source: Some(source),
            kind,
            accepted: None,
            actions: 0,
            preferred_action: 0,
            resolved_action: 0,
        }
    }
}

/// A `wp_fractional_scale_v1`: one surface's standing question about what scale
/// to draw at, and the last answer it was given.
#[derive(Debug, Clone, Copy, PartialEq, Eq, Structural)]
pub struct FractionalScaleBinding {
    /// The `wl_surface` this is about, in the same client's id space.
    pub surface_id: u32,
    /// The scale last sent, in 120ths, so an unchanged one is not repeated.
    pub sent: Option<u32>,
}

impl View for FractionalScaleBinding {
    type V = FractionalScaleBinding;

    open spec fn view(&self) -> FractionalScaleBinding {
        *self
    }
}

/// A drag the compositor is carrying between clients.
pub struct Drag {
    /// The content being dragged, or `None` for a client dragging within itself
    /// with nothing to hand anyone else.
    pub source: Option<ClientObjectId>,
    /// The client that started the drag, which owns the pointer until it ends.
    pub origin_client: u32,
    /// The `wl_surface` the drag started from.
    pub origin: ClientObjectId,
    /// The drag icon, if the client gave one. Follows the pointer.
    pub icon: Option<ClientObjectId>,
    /// The surface under the pointer. `None` between surfaces, and once a
    /// target has gone away.
    pub focus: Option<ClientObjectId>,
    /// The offers the focus's client was given, one per data device it holds.
    pub focus_offers: Vec<ClientObjectId>,
}

/// What is known of a drag.
#[verifier::ext_equal]
pub struct DragView {
    pub source: Option<ClientObjectId>,
    pub origin_client: u32,
    pub origin: ClientObjectId,
    pub icon: Option<ClientObjectId>,
    pub focus: Option<ClientObjectId>,
    pub focus_offers: Seq<ClientObjectId>,
}

impl View for Drag {
    type V = DragView;

    open spec fn view(&self) -> DragView {
        DragView {
            source: self.source,
            origin_client: self.origin_client,
            origin: self.origin,
            icon: self.icon,
            focus: self.focus,
            focus_offers: self.focus_offers@,
        }
    }
}

/// A cursor image.
pub struct DefaultCursor {
    /// One word per pixel, `0xAARRGGBB`
    pub pixels: Vec<u32>,
    pub width: i32,
    pub height: i32,
    pub hotspot_x: i32,
    pub hotspot_y: i32,
}

/// What a cursor image is.
#[verifier::ext_equal]
pub struct DefaultCursorView {
    pub pixels: Seq<u32>,
    pub width: i32,
    pub height: i32,
    pub hotspot_x: i32,
    pub hotspot_y: i32,
}

impl View for DefaultCursor {
    type V = DefaultCursorView;

    open spec fn view(&self) -> DefaultCursorView {
        DefaultCursorView {
            pixels: self.pixels@,
            width: self.width,
            height: self.height,
            hotspot_x: self.hotspot_x,
            hotspot_y: self.hotspot_y,
        }
    }
}

/// A mode a display can be in.
#[derive(Debug, Clone, Copy, PartialEq, Eq, Structural)]
pub struct OutputMode {
    pub flags: u32,
    pub width: i32,
    pub height: i32,
    pub refresh_mhz: i32,
}

impl View for OutputMode {
    type V = OutputMode;

    open spec fn view(&self) -> OutputMode {
        *self
    }
}

/// Where a display is and what it is.
pub struct OutputGeometry {
    pub x: i32,
    pub y: i32,
    /// In `wl_output`'s numbering
    pub subpixel: i32,
    pub make: String,
    pub model: String,
    /// In `wl_output`'s numbering
    pub transform: i32,
}

/// Where a display is and what it is, as contracts read it.
#[verifier::ext_equal]
pub struct OutputGeometryView {
    pub x: i32,
    pub y: i32,
    pub subpixel: i32,
    pub make: Seq<char>,
    pub model: Seq<char>,
    pub transform: i32,
}

impl View for OutputGeometry {
    type V = OutputGeometryView;

    open spec fn view(&self) -> OutputGeometryView {
        OutputGeometryView {
            x: self.x,
            y: self.y,
            subpixel: self.subpixel,
            make: self.make@,
            model: self.model@,
            transform: self.transform,
        }
    }
}

/// A scale factor, counted in 120ths.
#[derive(Debug, Clone, Copy, PartialEq, Eq, Structural)]
pub struct Scale(pub u32);

impl Scale {
    /// The number of 120ths.
    #[verifier::when_used_as_spec(ths)]
    pub fn as_120ths(self) -> (r: u32)
        ensures
            r == self.0,
    {
        self.0
    }

    /// The number of 120ths.
    pub open spec fn ths(self) -> u32 {
        self.0
    }

    /// The whole number at or above the scale.
    pub open spec fn rounded_up(self) -> i32 {
        ((self.0 + 119) / 120) as i32
    }

    /// The whole scale `wl_output` carries, rounded up.
    pub fn wl_output_scale(self) -> (r: i32)
        ensures
            r == self.rounded_up(),
    {
        ((self.0 as u64 + 119) / 120) as i32
    }
}

/// A display.
pub struct Output {
    pub id: u32,
    pub geometry: OutputGeometry,
    pub modes: Vec<OutputMode>,
    pub scale: Scale,
    pub name: String,
    pub description: String,
    /// Width in logical pixels, the space windows are laid out in
    pub width: i32,
    /// Height in logical pixels
    pub height: i32,
}

/// What is known of a display.
#[verifier::ext_equal]
pub struct OutputView {
    pub id: u32,
    pub geometry: OutputGeometryView,
    pub modes: Seq<OutputMode>,
    pub scale: Scale,
    pub name: Seq<char>,
    pub description: Seq<char>,
    pub width: i32,
    pub height: i32,
}

impl View for Output {
    type V = OutputView;

    open spec fn view(&self) -> OutputView {
        OutputView {
            id: self.id,
            geometry: self.geometry@,
            modes: self.modes@,
            scale: self.scale,
            name: self.name@,
            description: self.description@,
            width: self.width,
            height: self.height,
        }
    }
}

impl OutputView {
    /// Whether a point is on the display.
    pub open spec fn shows(self, x: int, y: int) -> bool {
        &&& self.geometry.x <= x < self.geometry.x + self.width
        &&& self.geometry.y <= y < self.geometry.y + self.height
    }
}

impl Output {
    /// Width and height in logical pixels.
    pub fn logical_size(&self) -> (r: (i32, i32))
        ensures
            r == (self@.width, self@.height),
    {
        (self.width, self.height)
    }

    /// Whether a point is on the display.
    pub fn contains(&self, x: i32, y: i32) -> (r: bool)
        ensures
            r == self@.shows(x as int, y as int),
    {
        let (left, top): (i64, i64) = (self.geometry.x as i64, self.geometry.y as i64);
        left <= x as i64 && (x as i64) < left + self.width as i64 && top <= y as i64 && (y as i64) < top
            + self.height as i64
    }
}

/// What is known of several displays.
pub open spec fn outputs_view(v: Seq<Output>) -> Seq<OutputView> {
    v.map_values(|o: Output| o@)
}

/// The mechanism's knobs, set once at startup.
#[derive(Debug, Clone, Copy, PartialEq, Eq, Structural)]
pub struct Settings {
    /// Whether touchpad scrolling is "natural" - content follows the fingers.
    pub natural_scrolling: bool,
    /// Override the scale every output is reported at, in 120ths; `None` means
    /// whatever the backend says.
    pub output_scale: Option<Scale>,
    /// Whether a client should draw its own window decorations. This crate
    /// never draws decorations, so `false` means borderless.
    pub client_side_decorations: bool,
    /// What every output is cleared to before its elements draw.
    pub background_color: u32,
}

impl Settings {
    /// The knobs as they are unless set otherwise.
    pub open spec fn usual() -> Self {
        Settings {
            natural_scrolling: true,
            output_scale: None,
            client_side_decorations: true,
            background_color: 0xff1a_1a2e,
        }
    }
}

impl Default for Settings {
    fn default() -> (r: Self)
        ensures
            r == Settings::usual(),
    {
        Settings {
            natural_scrolling: true,
            output_scale: None,
            client_side_decorations: true,
            background_color: 0xff1a_1a2e,
        }
    }
}

/// Something the window-management policy is to be told of, once the change
/// that caused it is made.
#[derive(Debug, Clone, Copy, PartialEq, Eq)]
pub enum Hook {
    /// A toplevel is gone.
    ToplevelDestroyed(ClientObjectId),
    /// A client's connection ended.
    ClientRemoved(u32),
    /// The set of outputs changed.
    OutputsChanged,
    /// An interactive move carried a toplevel onto an output.
    ToplevelDraggedToOutput(ClientObjectId, OutputId),
    /// A toplevel is to be put on top of what it shares a stack with.
    Raise(ClientObjectId),
    /// Focus has been left empty by a client that disconnected.
    Refocus,
}

} // verus!
