//! Socket files: the file-side adapter of a local socket, moving bytes
//! and ancillary control messages in and out of its buffer.
//!
//! The adapter is a synchronous step machine: a send or receive performs
//! one pass over the socket and reports `EAGAIN` where a blocking file
//! would wait and retry, leaving the caller's scheduler to watch for
//! readiness.

use crate::errno::Errno;
use vstd::prelude::*;

verus! {

/// Connection state of a socket.
#[derive(Debug, Clone, Copy, PartialEq, Eq, Structural)]
pub enum SocketState {
    /// Connected to a peer.
    Active,
    /// Listening, not yet connected.
    Passive,
    /// Closed; writes fail and reads return what is buffered.
    Shutdown,
}

/// A local socket: its state, a bounded byte buffer and at most one
/// pending ancillary (control) message.
#[derive(Debug, PartialEq, Eq)]
pub struct Socket {
    pub state: SocketState,
    pub buffer: Vec<u8>,
    pub capacity: usize,
    pub ancillary: Option<Vec<u8>>,
}

impl Socket {
    /// The buffer never exceeds the socket's capacity.
    pub open spec fn wf(self) -> bool {
        self.buffer@.len() <= self.capacity
    }

    /// An empty socket of the given state and capacity.
    pub fn new(state: SocketState, capacity: usize) -> (s: Socket)
        ensures
            s.wf(),
            s.state == state,
            s.capacity == capacity,
            s.buffer@.len() == 0,
            s.ancillary is None,
    {
        Socket { state, buffer: Vec::new(), capacity, ancillary: None }
    }
}

/// The file wrapped around a socket.
#[derive(Debug, PartialEq, Eq)]
pub struct SocketFile {
    socket: Socket,
}

impl SocketFile {
    /// The wrapped socket.
    pub closed spec fn socket(&self) -> Socket {
        self.socket
    }

    /// Wrap a socket in a file.
    pub fn new(socket: Socket) -> (f: Box<SocketFile>)
        ensures
            f.socket() == socket,
    {
        Box::new(SocketFile { socket })
    }

    /// Write `data` into the socket, attaching `control_bytes` as the
    /// ancillary message once the data is fully written.  One pass: what
    /// fits is appended; a shut-down socket fails with `EPIPE` before
    /// anything is written, and a full buffer with data left over reports
    /// `EAGAIN` (the caller blocks and retries with the rest).
    pub fn sendmsg(&mut self, data: &Vec<u8>, control_bytes: Option<Vec<u8>>) -> (r: Result<
        usize,
        Errno,
    >)
        requires
            old(self).socket().wf(),
        ensures
            final(self).socket().wf(),
            old(self).socket().state is Shutdown ==> r == Err::<usize, Errno>(Errno::EPIPE)
                && *final(self) == *old(self),
            !(old(self).socket().state is Shutdown) ==> ({
                let space = old(self).socket().capacity - old(self).socket().buffer@.len();
                let written = if data@.len() <= space {
                    data@.len() as int
                } else {
                    space
                };
                &&& final(self).socket().buffer@ == old(self).socket().buffer@ + data@.take(
                    written,
                )
                &&& final(self).socket().state == old(self).socket().state
                &&& final(self).socket().capacity == old(self).socket().capacity
                &&& (written == data@.len() ==> r == Ok::<usize, Errno>(data.len())
                    && final(self).socket().ancillary == control_bytes)
                &&& (written < data@.len() ==> r == Err::<usize, Errno>(Errno::EAGAIN)
                    && final(self).socket().ancillary == old(self).socket().ancillary)
            }),
    {
        match self.socket.state {
            SocketState::Shutdown => Err(Errno::EPIPE),
            _ => {
                let space = self.socket.capacity - self.socket.buffer.len();
                let written = if data.len() <= space {
                    data.len()
                } else {
                    space
                };
                let ghost before = self.socket.buffer@;
                let mut i: usize = 0;
                while i < written
                    invariant
                        0 <= i <= written <= data@.len(),
                        self.socket.buffer@ == before + data@.take(i as int),
                        self.socket.state == old(self).socket().state,
                        self.socket.capacity == old(self).socket().capacity,
                        self.socket.ancillary == old(self).socket().ancillary,
                        before.len() + written <= self.socket.capacity,
                    decreases written - i,
                {
                    let b = data[i];
                    self.socket.buffer.push(b);
                    proof {
                        assert(self.socket.buffer@ =~= before + data@.take(i as int + 1));
                    }
                    i = i + 1;
                }
                if written == data.len() {
                    self.socket.ancillary = control_bytes;
                    Ok(written)
                } else {
                    Err(Errno::EAGAIN)
                }
            },
        }
    }

    /// Read up to `max` bytes from the socket, together with any pending
    /// ancillary message.  One pass: when nothing is buffered, space was
    /// requested and the socket is still connected or listening, the read
    /// reports `EAGAIN` (the caller blocks and retries); a shut-down
    /// socket yields what remains, down to nothing.
    pub fn recvmsg(&mut self, max: usize) -> (r: Result<(Vec<u8>, Option<Vec<u8>>), Errno>)
        requires
            old(self).socket().wf(),
        ensures
            final(self).socket().wf(),
            ({
                let avail = old(self).socket().buffer@.len() as int;
                let read = if avail <= max {
                    avail
                } else {
                    max as int
                };
                if read == 0 && max > 0 && !(old(self).socket().state is Shutdown) {
                    r == Err::<(Vec<u8>, Option<Vec<u8>>), Errno>(Errno::EAGAIN) && *final(self)
                        == *old(self)
                } else {
                    &&& r matches Ok((bytes, anc)) && bytes@ == old(self).socket().buffer@.take(
                        read,
                    ) && anc == old(self).socket().ancillary
                    &&& final(self).socket().buffer@ == old(self).socket().buffer@.skip(read)
                    &&& final(self).socket().ancillary is None
                    &&& final(self).socket().state == old(self).socket().state
                    &&& final(self).socket().capacity == old(self).socket().capacity
                }
            }),
    {
        let avail = self.socket.buffer.len();
        let read = if avail <= max {
            avail
        } else {
            max
        };
        if read == 0 && max > 0 {
            match self.socket.state {
                SocketState::Active => {
                    return Err(Errno::EAGAIN);
                },
                SocketState::Passive => {
                    return Err(Errno::EAGAIN);
                },
                SocketState::Shutdown => {},
            }
        }
        let mut bytes: Vec<u8> = Vec::new();
        let mut i: usize = 0;
        while i < read
            invariant
                0 <= i <= read <= self.socket.buffer@.len(),
                *self == *old(self),
                bytes@ == self.socket.buffer@.take(i as int),
            decreases read - i,
        {
            let b = self.socket.buffer[i];
            bytes.push(b);
            proof {
                assert(bytes@ =~= self.socket.buffer@.take(i as int + 1));
            }
            i = i + 1;
        }
        let ghost before = self.socket.buffer@;
        let mut j: usize = 0;
        while j < read
            invariant
                0 <= j <= read <= before.len(),
                self.socket.buffer@ == before.skip(j as int),
                self.socket.state == old(self).socket().state,
                self.socket.capacity == old(self).socket().capacity,
                self.socket.ancillary == old(self).socket().ancillary,
                read <= before.len(),
            decreases read - j,
        {
            self.socket.buffer.remove(0);
            proof {
                assert(before.skip(j as int).remove(0) =~= before.skip(j as int + 1));
            }
            j = j + 1;
        }
        let anc = self.socket.ancillary.take();
        Ok((bytes, anc))
    }
}

} // verus!
