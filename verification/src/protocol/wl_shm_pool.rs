//! `wl_shm_pool` protocol handler.
//!
//! A pool represents an mmap-able region of shared memory. Clients create
//! buffers from pools (specifying offset, dimensions, stride, format),
//! resize pools, and destroy them when done.
use crate::protocol::{ObjectType, reject_malformed_request, reject_unknown_request};
use crate::protocol::wire_utils::ClientMessage;
use crate::state::compositor_state::{CompositorState, StateView};
use crate::text::{decimal, with_number};
use vstd::prelude::*;
use vstd::string::*;

verus! {

/// The pixel format is not one the compositor advertised.
pub const ERROR_INVALID_FORMAT: u32 = 0;

/// The geometry does not describe a buffer that fits its pool.
pub const ERROR_INVALID_STRIDE: u32 = 1;

/// The pool's file cannot back the pool the client asked for.
pub const ERROR_INVALID_FD: u32 = 2;

/// Alpha, red, green and blue, a byte each.
pub const FORMAT_ARGB8888: u32 = 0;

/// Red, green and blue, a byte each, and one that is not looked at.
pub const FORMAT_XRGB8888: u32 = 1;

/// Bytes per pixel. Every format advertised is 32-bit.
pub const BYTES_PER_PIXEL: i64 = 4;

/// Where a buffer ends in its pool. The last row needs no stride padding, so
/// the extent stops at the end of its pixels rather than a full stride later.
pub open spec fn buffer_extent(offset: int, width: int, height: int, stride: int) -> int {
    offset + (height - 1) * stride + width * 4
}

/// What is wrong with a buffer, if anything: the error code and what it says.
pub open spec fn geometry_fault(
    pool_size: u32,
    offset: i32,
    width: i32,
    height: i32,
    stride: i32,
    format: u32,
) -> Option<(u32, Seq<char>)> {
    let extent = buffer_extent(offset as int, width as int, height as int, stride as int);
    if format != FORMAT_ARGB8888 && format != FORMAT_XRGB8888 {
        Some(
            (
                ERROR_INVALID_FORMAT,
                "wl_shm_pool.create_buffer: format "@ + decimal(format as int) + " was never advertised"@,
            ),
        )
    } else if width <= 0 || height <= 0 {
        Some(
            (
                ERROR_INVALID_STRIDE,
                "wl_shm_pool.create_buffer: "@ + decimal(width as int) + "x"@ + (decimal(height as int)
                    + " is not a rectangle"@),
            ),
        )
    } else if offset < 0 {
        Some(
            (
                ERROR_INVALID_STRIDE,
                "wl_shm_pool.create_buffer: offset "@ + decimal(offset as int) + " is before the pool"@,
            ),
        )
    } else if stride < width * 4 {
        Some(
            (
                ERROR_INVALID_STRIDE,
                "wl_shm_pool.create_buffer: stride "@ + decimal(stride as int) + " is shorter than a "@ + (decimal(
                    width as int,
                ) + "px row"@),
            ),
        )
    } else if extent > pool_size {
        Some(
            (
                ERROR_INVALID_STRIDE,
                "wl_shm_pool.create_buffer: buffer ends at "@ + decimal(extent) + ", past the "@ + (decimal(
                    pool_size as int,
                ) + "-byte pool"@),
            ),
        )
    } else {
        None
    }
}

fn two_numbers(head: &str, a: i64, middle: &str, b: i64, tail: &str) -> (r: String)
    ensures
        r@ == head@ + decimal(a as int) + middle@ + (decimal(b as int) + tail@),
{
    let mut text = with_number(head, a, middle);
    let end = with_number("", b, tail);
    text.append(end.as_str());
    proof {
        reveal_strlit("");
        assert(""@ =~= Seq::<char>::empty());
        assert(""@ + decimal(b as int) + tail@ =~= decimal(b as int) + tail@);
    }
    text
}

/// Check a `create_buffer` against the pool it draws from.
///
/// A buffer is a rectangle inside a mapping, described entirely by the client:
/// where it starts, how long its rows are, and how many there are. None of
/// that has to be true, and the compositor reads the pixels out directly, so
/// every one of these is a bound on what a client can make it read.
///
/// Returns the `wl_shm.error` code and a message, or `Ok` if the geometry
/// describes a rectangle that fits.
pub fn check_geometry(pool_size: u32, offset: i32, width: i32, height: i32, stride: i32, format: u32) -> (r: Result<
    (),
    (u32, String),
>)
    ensures
        match r {
            Ok(()) => geometry_fault(pool_size, offset, width, height, stride, format) is None,
            Err((code, text)) => geometry_fault(pool_size, offset, width, height, stride, format) == Some(
                (code, text@),
            ),
        },
{
    if format != FORMAT_ARGB8888 && format != FORMAT_XRGB8888 {
        return Err(
            (
                ERROR_INVALID_FORMAT,
                with_number("wl_shm_pool.create_buffer: format ", format as i64, " was never advertised"),
            ),
        );
    }
    if width <= 0 || height <= 0 {
        return Err(
            (
                ERROR_INVALID_STRIDE,
                two_numbers("wl_shm_pool.create_buffer: ", width as i64, "x", height as i64, " is not a rectangle"),
            ),
        );
    }
    if offset < 0 {
        return Err(
            (
                ERROR_INVALID_STRIDE,
                with_number("wl_shm_pool.create_buffer: offset ", offset as i64, " is before the pool"),
            ),
        );
    }
    let row_bytes: i64 = width as i64 * BYTES_PER_PIXEL;
    if (stride as i64) < row_bytes {
        return Err(
            (
                ERROR_INVALID_STRIDE,
                two_numbers(
                    "wl_shm_pool.create_buffer: stride ",
                    stride as i64,
                    " is shorter than a ",
                    width as i64,
                    "px row",
                ),
            ),
        );
    }
    proof {
        assert(0 <= (height as int - 1) * (stride as int) <= 0x7fff_ffff * 0x7fff_ffff) by (nonlinear_arith)
            requires
                0 < height <= 0x7fff_ffff,
                0 <= stride <= 0x7fff_ffff,
        ;
    }
    let extent: i64 = offset as i64 + (height as i64 - 1) * (stride as i64) + row_bytes;
    if extent > pool_size as i64 {
        return Err(
            (
                ERROR_INVALID_STRIDE,
                two_numbers(
                    "wl_shm_pool.create_buffer: buffer ends at ",
                    extent,
                    ", past the ",
                    pool_size as i64,
                    "-byte pool",
                ),
            ),
        );
    }
    Ok(())
}

/// A pool that is to be mapped again at another size.
#[derive(Debug, Clone, Copy, PartialEq, Eq, Structural)]
pub struct ResizeRequest {
    pub client_id: u32,
    pub pool_id: u32,
    /// The descriptor behind the pool
    pub fd: i32,
    pub new_size: u32,
}

impl StateView {
    /// `create_buffer`: of a pool there is, within that pool.
    pub open spec fn pool_create_buffer(self, msg: ClientMessage) -> Self {
        let c = msg.client_id;
        if !self.clients.has(c) {
            self
        } else {
            match (msg.word(0), msg.number(1), msg.number(2), msg.number(3), msg.number(4), msg.word(5)) {
                (Some(id), Some(offset), Some(width), Some(height), Some(stride), Some(format)) => if !self.mem.shm_pools.has(
                    (c, msg.object_id),
                ) {
                    self
                } else {
                    match geometry_fault(
                        self.mem.shm_pools.at((c, msg.object_id)).size,
                        offset,
                        width,
                        height,
                        stride,
                        format,
                    ) {
                        Some((code, text)) => self.fail(c, msg.object_id, code, text),
                        None => {
                            let named = self.register(c, id, ObjectType::WlBuffer);
                            if self.may_register(c, id) {
                                named.register_buffer(c, id, msg.object_id, offset, width, height, stride, format)
                            } else {
                                named
                            }
                        },
                    }
                },
                _ => self.reject_malformed(msg, "wl_shm_pool"@),
            }
        }
    }

    /// The resize a request asks for: of a pool there is, to no less than it
    /// has.
    pub open spec fn resize_asked(self, msg: ClientMessage) -> Option<ResizeRequest> {
        let key = (msg.client_id, msg.object_id);
        match msg.number(0) {
            Some(n) => if self.mem.shm_pools.has(key) && n >= self.mem.shm_pools.at(key).size {
                Some(
                    ResizeRequest {
                        client_id: msg.client_id,
                        pool_id: msg.object_id,
                        fd: self.mem.shm_pools.at(key).fd,
                        new_size: n as u32,
                    },
                )
            } else {
                None
            },
            None => None,
        }
    }

    /// After a `resize` as far as it can be answered without mapping anything.
    /// A pool may only grow.
    pub open spec fn resize_checked(self, msg: ClientMessage) -> Self {
        let key = (msg.client_id, msg.object_id);
        match msg.number(0) {
            Some(n) => if self.mem.shm_pools.has(key) && n < self.mem.shm_pools.at(key).size {
                self.fail(
                    msg.client_id,
                    msg.object_id,
                    ERROR_INVALID_FD,
                    "wl_shm_pool.resize: "@ + decimal(n as int) + " does not grow a pool of "@ + (decimal(
                        self.mem.shm_pools.at(key).size as int,
                    ) + " bytes"@),
                )
            } else {
                self
            },
            None => self.reject_malformed(msg, "wl_shm_pool"@),
        }
    }

    /// With a pool grown, or its client told that its file is too small.
    pub open spec fn finish_resize(self, q: ResizeRequest, mapped: bool) -> Self {
        let grown = self.resize_shm_pool(q.client_id, q.pool_id, q.new_size, mapped);
        if mapped && self.mem.shm_pools.has((q.client_id, q.pool_id)) {
            grown
        } else {
            grown.fail(
                q.client_id,
                q.pool_id,
                ERROR_INVALID_FD,
                "wl_shm_pool.resize: pool file is smaller than the new size"@,
            )
        }
    }

    /// Any request on a pool but a resize.
    pub open spec fn pool_request(self, msg: ClientMessage) -> Self {
        if msg.op_code == 0 {
            self.pool_create_buffer(msg)
        } else if msg.op_code == 1 {
            self.destroy_shm_pool(msg.client_id, msg.object_id).unregister(msg.client_id, msg.object_id)
        } else {
            self.reject_unknown(msg, "wl_shm_pool"@)
        }
    }
}

fn handle_create_buffer(state: &mut CompositorState, msg: &ClientMessage)
    ensures
        final(state)@ == old(state)@.pool_create_buffer(*msg),
{
    let c: u32 = msg.client_id;
    if state.clients.peek(c).is_none() {
        return;
    }
    match (
        msg.unsigned(0),
        msg.signed(1),
        msg.signed(2),
        msg.signed(3),
        msg.signed(4),
        msg.unsigned(5),
    ) {
        (Some(id), Some(offset), Some(width), Some(height), Some(stride), Some(format)) => {
            let size: u32 = match state.mem.shm_pools.get((c, msg.object_id)) {
                Some(pool) => pool.size,
                None => {
                    return;
                },
            };
            match check_geometry(size, offset, width, height, stride, format) {
                Err((code, text)) => {
                    state.fail(c, msg.object_id, code, text);
                },
                Ok(()) => {
                    if state.register(c, id, ObjectType::WlBuffer) {
                        state.register_buffer(c, id, msg.object_id, offset, width, height, stride, format);
                    }
                },
            }
        },
        _ => {
            reject_malformed_request(state, msg, "wl_shm_pool");
        },
    }
}

/// Look at a request to resize a pool: whether it is in order, and what is to
/// be mapped.
///
/// A pool may only grow: buffers already carved out of it keep their offsets,
/// and shrinking would leave some of them describing memory the pool no longer
/// covers. The size is signed on the wire, and a negative one is refused rather
/// than reinterpreted.
pub fn start_resize(state: &mut CompositorState, msg: &ClientMessage) -> (r: Option<ResizeRequest>)
    ensures
        r == old(state)@.resize_asked(*msg),
        final(state)@ == old(state)@.resize_checked(*msg),
{
    let n: i32 = match msg.signed(0) {
        Some(n) => n,
        None => {
            reject_malformed_request(state, msg, "wl_shm_pool");
            return None;
        },
    };
    let (size, fd): (u32, i32) = match state.mem.shm_pools.get((msg.client_id, msg.object_id)) {
        Some(pool) => (pool.size, pool.fd),
        None => {
            return None;
        },
    };
    if (n as i64) < size as i64 {
        let text = two_numbers("wl_shm_pool.resize: ", n as i64, " does not grow a pool of ", size as i64, " bytes");
        state.fail(msg.client_id, msg.object_id, ERROR_INVALID_FD, text);
        return None;
    }
    Some(ResizeRequest { client_id: msg.client_id, pool_id: msg.object_id, fd, new_size: n as u32 })
}

/// Take the outcome of mapping a pool at its new size.
pub fn finish_resize(state: &mut CompositorState, q: &ResizeRequest, mapped: bool)
    ensures
        final(state)@ == old(state)@.finish_resize(*q, mapped),
{
    if !state.resize_shm_pool(q.client_id, q.pool_id, q.new_size, mapped) {
        state.fail(
            q.client_id,
            q.pool_id,
            ERROR_INVALID_FD,
            String::from_str("wl_shm_pool.resize: pool file is smaller than the new size"),
        );
    }
}

/// Handle any request. A resize that is in order is returned, for the pool to
/// be mapped again and [`finish_resize`] to be told.
pub fn handle(state: &mut CompositorState, msg: &ClientMessage) -> (r: Option<ResizeRequest>)
    ensures
        msg.op_code != 2 ==> r is None && final(state)@ == old(state)@.pool_request(*msg),
        msg.op_code == 2 ==> r == old(state)@.resize_asked(*msg) && final(state)@ == old(state)@.resize_checked(*msg),
{
    match msg.op_code {
        0 => handle_create_buffer(state, msg),
        1 => {
            state.destroy_shm_pool(msg.client_id, msg.object_id);
            state.unregister(msg.client_id, msg.object_id);
        },
        2 => {
            return start_resize(state, msg);
        },
        _ => reject_unknown_request(state, msg, "wl_shm_pool"),
    }
    None
}

} // verus!
