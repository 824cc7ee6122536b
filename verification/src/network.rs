//! An in-memory socket for tests: bytes written queue up on the writing
//! side and are handed over by an explicit transfer step.

use crate::disseminator::SendError;
use vstd::prelude::*;
use vstd::slice::slice_to_vec;

verus! {

/// An in-memory stand-in for a socket. Reads drain `read_buffer`; writes
/// append to `write_buffer`; `transfer` moves one socket's written bytes
/// into another's read buffer, standing in for the wire between them.
#[derive(Debug)]
pub struct MockSocket {
    /// bytes waiting to be read
    pub read_buffer: Vec<u8>,
    /// bytes written and not yet transferred
    pub write_buffer: Vec<u8>,
    /// whether writes are destined for a connected peer
    pub output_connected: bool,
    /// a closed socket refuses reads and writes
    pub closed: bool,
}

impl MockSocket {
    pub fn new() -> (r: MockSocket)
        ensures
            r.read_buffer@ == Seq::<u8>::empty(),
            r.write_buffer@ == Seq::<u8>::empty(),
            !r.output_connected,
            !r.closed,
    {
        MockSocket {
            read_buffer: Vec::new(),
            write_buffer: Vec::new(),
            output_connected: false,
            closed: false,
        }
    }

    /// Marks the writes on this socket as destined for a peer; the bytes
    /// land in the peer's read buffer on the next `transfer`.
    pub fn connect_output(&mut self)
        ensures
            *final(self) == (MockSocket { output_connected: true, ..*old(self) }),
    {
        self.output_connected = true;
    }

    /// Closes the socket. No more reads or writes are allowed, and
    /// subsequent calls to them fail.
    pub fn close(&mut self)
        ensures
            *final(self) == (MockSocket { closed: true, ..*old(self) }),
    {
        self.closed = true;
    }

    /// Writes bytes: they queue on this socket until transferred.
    pub fn write(&mut self, buf: &[u8]) -> (r: Result<usize, SendError>)
        ensures
            old(self).closed ==> r is Err && *final(self) == *old(self),
            !old(self).closed ==> r == Ok::<usize, SendError>(buf@.len() as usize) && *final(self)
                == (MockSocket { write_buffer: final(self).write_buffer, ..*old(self) }) && final(self).write_buffer@ == old(self).write_buffer@ + buf@,
    {
        if self.closed {
            return Err(SendError);
        }
        self.write_buffer.extend_from_slice(buf);
        Ok(buf.len())
    }

    /// Reads up to `max` bytes from the front of the read buffer.
    pub fn read(&mut self, max: usize) -> (r: Result<Vec<u8>, SendError>)
        ensures
            old(self).closed ==> r is Err && *final(self) == *old(self),
            !old(self).closed ==> ({
                let n = if max <= old(self).read_buffer@.len() {
                    max as int
                } else {
                    old(self).read_buffer@.len() as int
                };
                &&& (match r {
                    Ok(v) => v@ == old(self).read_buffer@.subrange(0, n),
                    Err(_) => false,
                })
                &&& final(self).read_buffer@ == old(self).read_buffer@.skip(n)
                &&& *final(self) == (MockSocket {
                    read_buffer: final(self).read_buffer,
                    ..*old(self)
                })
            }),
    {
        if self.closed {
            return Err(SendError);
        }
        let n = if max <= self.read_buffer.len() {
            max
        } else {
            self.read_buffer.len()
        };
        let mut rest = self.read_buffer.split_off(n);
        std::mem::swap(&mut rest, &mut self.read_buffer);
        proof {
            assert(self.read_buffer@ =~= old(self).read_buffer@.skip(n as int));
            assert(rest@ =~= old(self).read_buffer@.subrange(0, n as int));
        }
        Ok(rest)
    }

    /// Moves everything written on `from` into `to`'s read buffer: the
    /// wire between two connected mock sockets.
    pub fn transfer(from: &mut MockSocket, to: &mut MockSocket)
        ensures
            final(from).write_buffer@ == Seq::<u8>::empty(),
            *final(from) == (MockSocket {
                write_buffer: final(from).write_buffer,
                ..*old(from)
            }),
            final(to).read_buffer@ == old(to).read_buffer@ + old(from).write_buffer@,
            *final(to) == (MockSocket { read_buffer: final(to).read_buffer, ..*old(to) }),
    {
        let mut moved: Vec<u8> = Vec::new();
        std::mem::swap(&mut moved, &mut from.write_buffer);
        to.read_buffer.extend_from_slice(moved.as_slice());
        proof {
            assert(from.write_buffer@ =~= Seq::<u8>::empty());
            assert(to.read_buffer@ =~= old(to).read_buffer@ + old(from).write_buffer@);
        }
    }
}

} // verus!
