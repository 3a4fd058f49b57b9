//! A connection held in memory: the lines that the server sends, in order,
//! and the bytes that the client has written.

use crate::error::ConnectionError;
use crate::text::lines_of;
use vstd::prelude::*;
use vstd::string::*;

verus! {

/// One connection, serving one call. Reading hands out the server's lines one
/// by one and reports `Closed` after the last; writing appends, and flushes
/// in the same step.
pub struct Transcript {
    incoming: Vec<String>,
    cursor: usize,
    outgoing: Vec<u8>,
}

impl Transcript {
    /// The lines that the server has sent and the client has not read yet.
    pub closed spec fn pending(&self) -> Seq<Seq<char>> {
        if self.cursor <= self.incoming.len() {
            lines_of(self.incoming@).skip(self.cursor as int)
        } else {
            Seq::empty()
        }
    }

    /// The bytes that the client has written so far.
    pub closed spec fn written(&self) -> Seq<u8> {
        self.outgoing@
    }

    /// Opens a connection on which the server will send `incoming`.
    pub fn new(incoming: Vec<String>) -> (conn: Transcript)
        ensures
            conn.pending() == lines_of(incoming@),
            conn.written() == Seq::<u8>::empty(),
    {
        let conn = Transcript { incoming, cursor: 0, outgoing: Vec::new() };
        assert(conn.pending() =~= lines_of(incoming@));
        conn
    }

    /// Reads the next line, or reports that the stream has ended.
    pub fn read_line(&mut self) -> (r: Result<String, ConnectionError>)
        ensures
            final(self).written() == old(self).written(),
            match r {
                Ok(line) => old(self).pending().len() > 0 && line@ == old(self).pending()[0]
                    && final(self).pending() == old(self).pending().skip(1),
                Err(e) => e == ConnectionError::Closed && old(self).pending().len() == 0
                    && final(self).pending() == old(self).pending(),
            },
    {
        if self.cursor < self.incoming.len() {
            let line = self.incoming[self.cursor].clone();
            self.cursor = self.cursor + 1;
            assert(final(self).pending() =~= old(self).pending().skip(1));
            Ok(line)
        } else {
            Err(ConnectionError::Closed)
        }
    }

    /// Writes `bytes` and flushes.
    pub fn write_line(&mut self, bytes: &Vec<u8>)
        ensures
            final(self).written() == old(self).written() + bytes@,
            final(self).pending() == old(self).pending(),
    {
        let mut i: usize = 0;
        while i < bytes.len()
            invariant
                i <= bytes.len(),
                self.outgoing@ == old(self).outgoing@ + bytes@.take(i as int),
                self.incoming == old(self).incoming,
                self.cursor == old(self).cursor,
            decreases bytes.len() - i,
        {
            self.outgoing.push(bytes[i]);
            assert(bytes@.take(i + 1) =~= bytes@.take(i as int).push(bytes@[i as int]));
            i = i + 1;
        }
        assert(bytes@.take(bytes.len() as int) =~= bytes@);
    }

    /// The bytes written so far.
    pub fn sent(&self) -> (bytes: &Vec<u8>)
        ensures
            bytes@ == self.written(),
    {
        &self.outgoing
    }

    /// How many lines are still to be read.
    pub fn unread(&self) -> (n: usize)
        ensures
            n == self.pending().len(),
    {
        if self.cursor <= self.incoming.len() {
            self.incoming.len() - self.cursor
        } else {
            0
        }
    }
}

} // verus!
