//! The buffer that request and response bodies are read into.

use vstd::prelude::*;

verus! {

/// The smallest buffer that is allocated.
pub const MIN_BODY_RECV_BUF_SIZE: usize = 4096;

/// The largest buffer that is allocated.
pub const MAX_BUF_SIZE: usize = 65_536;

/// How large a buffer to allocate for `readable` bytes: as large as they need,
/// within the two bounds.
pub open spec fn recv_buf_size(readable: int) -> int {
    if readable < MIN_BODY_RECV_BUF_SIZE {
        MIN_BODY_RECV_BUF_SIZE as int
    } else if readable > MAX_BUF_SIZE {
        MAX_BUF_SIZE as int
    } else {
        readable
    }
}

/// How large a buffer to allocate for `readable` bytes.
pub fn body_recv_buf_size(readable: usize) -> (size: usize)
    ensures
        size == recv_buf_size(readable as int),
{
    if readable < MIN_BODY_RECV_BUF_SIZE {
        MIN_BODY_RECV_BUF_SIZE
    } else if readable > MAX_BUF_SIZE {
        MAX_BUF_SIZE
    } else {
        readable
    }
}

/// The room that is left in the current buffer, or nothing while no buffer is
/// allocated.
#[derive(Clone, Copy, Debug, PartialEq, Eq, Structural)]
pub struct BodyRecvBuf {
    pub room: Option<usize>,
}

impl BodyRecvBuf {
    /// The room that a read of `len` bytes finds: what the current buffer has
    /// left where that is enough, and a new buffer otherwise.
    pub open spec fn room_for(self, len: int) -> int {
        match self.room {
            Some(room) => if room >= len {
                room as int
            } else {
                recv_buf_size(len)
            },
            None => recv_buf_size(len),
        }
    }

    /// The buffer after `len` bytes were read into it. One without room left
    /// is given up.
    pub open spec fn after_read(self, len: int) -> BodyRecvBuf {
        if self.room_for(len) <= len {
            BodyRecvBuf { room: None }
        } else {
            BodyRecvBuf { room: Some((self.room_for(len) - len) as usize) }
        }
    }

    /// No buffer.
    pub fn unallocated() -> (buf: Self)
        ensures
            buf.room is None,
    {
        BodyRecvBuf { room: None }
    }

    /// Reads `len` bytes into the buffer.
    pub fn read(&mut self, len: usize)
        ensures
            *final(self) == old(self).after_read(len as int),
    {
        let size: usize = body_recv_buf_size(len);
        let room: usize = match self.room {
            Some(room) => if room >= len {
                room
            } else {
                size
            },
            None => size,
        };
        self.room = if room <= len {
            None
        } else {
            Some(room - len)
        };
    }

    /// Gives the buffer up.
    pub fn release(&mut self)
        ensures
            final(self).room is None,
    {
        self.room = None;
    }
}

/// A buffer size stays within its bounds, never falls as more becomes readable,
/// and holds what is readable up to the largest buffer.
pub proof fn lemma_recv_buf_size_bounds(a: int, b: int)
    requires
        0 <= a <= b,
    ensures
        MIN_BODY_RECV_BUF_SIZE <= recv_buf_size(a) <= recv_buf_size(b) <= MAX_BUF_SIZE,
        b <= MAX_BUF_SIZE ==> recv_buf_size(b) >= b,
{
}

/// A buffer that is in use always has room, and never more than the largest
/// buffer.
pub proof fn lemma_buffer_in_use_has_room(buf: BodyRecvBuf, len: int)
    requires
        buf.room matches Some(room) ==> 0 < room <= MAX_BUF_SIZE,
        0 <= len,
    ensures
        buf.after_read(len).room matches Some(room) ==> 0 < room <= MAX_BUF_SIZE,
        len == MAX_BUF_SIZE ==> buf.after_read(len).room is None,
{
}

} // verus!
