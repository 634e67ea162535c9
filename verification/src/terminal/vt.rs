//! State that the emulator's callbacks fill between frames: replies to send
//! back to the shell, a pending bell, a changed title, and the grid size
//! that size reports answer with.

use vstd::prelude::*;

verus! {

/// Shared state filled by the terminal's callbacks.
pub struct CallbackState {
    /// PTY response bytes accumulated by PTY-write callbacks.
    pub pty_responses: Vec<u8>,
    /// Set when BEL (0x07) is received.
    pub bell_pending: bool,
    /// Set when the window title changes (OSC 0 / OSC 2).
    pub title: Option<String>,
    /// Current grid columns (updated on resize).
    pub cols: u16,
    /// Current grid rows (updated on resize).
    pub rows: u16,
}

impl CallbackState {
    /// Fresh state for a grid of `cols` x `rows`: nothing pending.
    pub fn new(cols: u16, rows: u16) -> (s: CallbackState)
        ensures
            s.pty_responses@ == Seq::<u8>::empty(),
            !s.bell_pending,
            s.title is None,
            s.cols == cols,
            s.rows == rows,
    {
        CallbackState { pty_responses: Vec::new(), bell_pending: false, title: None, cols, rows }
    }

    /// Append bytes the emulator wants written back to the shell.
    pub fn record_pty_write(&mut self, data: &[u8])
        ensures
            final(self).pty_responses@ == old(self).pty_responses@ + data@,
            final(self).bell_pending == old(self).bell_pending,
            final(self).title == old(self).title,
            final(self).cols == old(self).cols,
            final(self).rows == old(self).rows,
    {
        let mut i: usize = 0;
        while i < data.len()
            invariant
                i <= data@.len(),
                self.pty_responses@ == old(self).pty_responses@ + data@.subrange(0, i as int),
                self.bell_pending == old(self).bell_pending,
                self.title == old(self).title,
                self.cols == old(self).cols,
                self.rows == old(self).rows,
            decreases data@.len() - i,
        {
            self.pty_responses.push(data[i]);
            assert(data@.subrange(0, i as int + 1) =~= data@.subrange(0, i as int).push(data@[i as int]));
            i = i + 1;
        }
        assert(data@.subrange(0, data@.len() as int) =~= data@);
    }

    /// Note that a bell was received.
    pub fn record_bell(&mut self)
        ensures
            final(self).bell_pending,
            final(self).pty_responses@ == old(self).pty_responses@,
            final(self).title == old(self).title,
            final(self).cols == old(self).cols,
            final(self).rows == old(self).rows,
    {
        self.bell_pending = true;
    }

    /// Note a new window title.
    pub fn record_title(&mut self, title: String)
        ensures
            final(self).title == Some(title),
            final(self).pty_responses@ == old(self).pty_responses@,
            final(self).bell_pending == old(self).bell_pending,
            final(self).cols == old(self).cols,
            final(self).rows == old(self).rows,
    {
        self.title = Some(title);
    }

    /// Note the grid's new size after a resize.
    pub fn set_size(&mut self, cols: u16, rows: u16)
        ensures
            final(self).cols == cols,
            final(self).rows == rows,
            final(self).pty_responses@ == old(self).pty_responses@,
            final(self).bell_pending == old(self).bell_pending,
            final(self).title == old(self).title,
    {
        self.cols = cols;
        self.rows = rows;
    }

    /// Take accumulated PTY response bytes, leaving the buffer empty.
    pub fn take_pty_responses(&mut self) -> (r: Vec<u8>)
        ensures
            r@ == old(self).pty_responses@,
            final(self).pty_responses@ == Seq::<u8>::empty(),
            final(self).bell_pending == old(self).bell_pending,
            final(self).title == old(self).title,
            final(self).cols == old(self).cols,
            final(self).rows == old(self).rows,
    {
        let mut out: Vec<u8> = Vec::new();
        core::mem::swap(&mut out, &mut self.pty_responses);
        out
    }

    /// Check and clear the bell-pending flag.
    pub fn take_bell(&mut self) -> (b: bool)
        ensures
            b == old(self).bell_pending,
            !final(self).bell_pending,
            final(self).pty_responses@ == old(self).pty_responses@,
            final(self).title == old(self).title,
            final(self).cols == old(self).cols,
            final(self).rows == old(self).rows,
    {
        let b = self.bell_pending;
        self.bell_pending = false;
        b
    }

    /// Take the latest title if it changed, leaving `None`.
    pub fn take_title(&mut self) -> (t: Option<String>)
        ensures
            t == old(self).title,
            final(self).title is None,
            final(self).pty_responses@ == old(self).pty_responses@,
            final(self).bell_pending == old(self).bell_pending,
            final(self).cols == old(self).cols,
            final(self).rows == old(self).rows,
    {
        self.title.take()
    }
}

} // verus!
