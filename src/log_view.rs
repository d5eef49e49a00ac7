//! The log viewer: wrapped log rows, a scroll position, and the follow mode
//! that keeps the end of the log in view.
use vstd::prelude::*;
use crate::events::{Event, Key};
use crate::text::{views, wrap_log, wrapped};

verus! {

/// Rows of overlap kept by PageUp and PageDown.
pub const JUMP_MARGIN: u16 = 3;

/// Milliseconds after which the log is fetched again.
pub const FETCH_AFTER_MS: i64 = 10000;

/// What the viewer's loop does after an event.
#[derive(Clone, Copy, Debug, PartialEq, Eq, Structural)]
pub enum LogAction {
    Stay,
    /// Clear the screen and go back to the caller.
    Exit,
}

/// A log viewer. `cursor` is the first row shown; while `following`, it is
/// moved to the end of the log on each redraw.
pub struct LogViewer {
    pub lines: Vec<String>,
    pub cursor: usize,
    pub following: bool,
    pub dirty: bool,
    /// When the log was last fetched, in milliseconds since the epoch.
    pub last_fetch: Option<i64>,
}

/// Rows that PageUp and PageDown move on a screen `height` rows tall.
pub open spec fn jump_of(height: u16) -> nat {
    if height > JUMP_MARGIN { (height - JUMP_MARGIN) as nat } else { 0 }
}

/// The first row of a window of `shown` rows that ends on the last row of a
/// log of `len` rows.
pub open spec fn bottom(len: nat, shown: nat) -> nat {
    if len > shown { (len - shown) as nat } else { 0 }
}

/// `cursor + k`, held at the largest `usize`.
pub open spec fn advance(cursor: nat, k: nat) -> nat {
    if cursor + k > usize::MAX { usize::MAX as nat } else { cursor + k }
}

/// Rows drawn on a screen `height` rows tall: one is kept back.
pub open spec fn rows_drawn(height: u16) -> nat {
    if height > 0 { (height - 1) as nat } else { 0 }
}

/// Wrap width on a terminal `width` columns wide: one column is kept back,
/// and a row holds at least one character.
pub open spec fn wrap_width(width: u16) -> nat {
    if width > 1 { (width - 1) as nat } else { 1 }
}

/// Scroll position and mode after `key`, for a log of `len` rows on a
/// screen `height` rows tall. `G` moves to the last `height` rows and
/// leaves the mode as it is.
pub open spec fn scroll_after(cursor: nat, following: bool, len: nat, key: Key, height: u16) -> (nat, bool) {
    match key {
        Key::Up => ((cursor - if cursor >= 1 { 1nat } else { 0nat }) as nat, false),
        Key::PageUp => ((cursor - if cursor >= jump_of(height) { jump_of(height) } else { cursor }) as nat, false),
        Key::Down => (advance(cursor, 1), cursor + 1 >= len),
        Key::PageDown => (advance(cursor, jump_of(height)), cursor + jump_of(height) >= len),
        Key::Char('g') => (0, false),
        Key::Char('G') => (bottom(len, height as nat), following),
        _ => (cursor, following),
    }
}

/// The keys that move the view and so call for a redraw.
pub open spec fn scrolls(key: Key) -> bool {
    match key {
        Key::Up | Key::PageUp | Key::Down | Key::PageDown => true,
        Key::Char(c) => c == 'g' || c == 'G',
        _ => false,
    }
}

impl LogViewer {
    /// The log is due to be fetched at `now`: never fetched, or fetched at
    /// least the fetch period before.
    pub open spec fn fetch_due_at(&self, now: i64) -> bool {
        match self.last_fetch {
            None => true,
            Some(t) => now - t >= FETCH_AFTER_MS,
        }
    }

    /// A viewer with no log yet, following, its first fetch due.
    pub fn new() -> (r: Self)
        ensures
            r.lines@.len() == 0,
            r.cursor == 0,
            r.following,
            !r.dirty,
            r.last_fetch is None,
    {
        LogViewer { lines: Vec::new(), cursor: 0, following: true, dirty: false, last_fetch: None }
    }

    /// Applies one event on a screen `height` rows tall: the arrows, page
    /// keys, `g` (top) and `G` (end) scroll and mark the view for a redraw;
    /// Esc leaves.
    pub fn on_event(&mut self, event: Event, height: u16) -> (r: LogAction)
        ensures
            final(self).lines@ == old(self).lines@,
            final(self).last_fetch == old(self).last_fetch,
            r == (if event == Event::Key(Key::Esc) { LogAction::Exit } else { LogAction::Stay }),
            match event {
                Event::Key(k) => if scrolls(k) {
                    (final(self).cursor as nat, final(self).following)
                        == scroll_after(old(self).cursor as nat, old(self).following, old(self).lines@.len(), k, height)
                    && final(self).dirty
                } else {
                    final(self).cursor == old(self).cursor && final(self).following == old(self).following
                    && final(self).dirty == old(self).dirty
                },
                Event::Tick => final(self).cursor == old(self).cursor && final(self).following == old(self).following
                    && final(self).dirty == old(self).dirty,
            },
    {
        let key = match event {
            Event::Tick => return LogAction::Stay,
            Event::Key(k) => k,
        };
        let len = self.lines.len();
        let jump: usize = if height > JUMP_MARGIN { (height - JUMP_MARGIN) as usize } else { 0 };
        match key {
            Key::Esc => return LogAction::Exit,
            Key::Up => {
                if self.cursor >= 1 {
                    self.cursor = self.cursor - 1;
                }
                self.following = false;
            },
            Key::PageUp => {
                if self.cursor >= jump {
                    self.cursor = self.cursor - jump;
                } else {
                    self.cursor = 0;
                }
                self.following = false;
            },
            Key::Down | Key::PageDown => {
                let k: usize = if key == Key::Down { 1 } else { jump };
                self.following = self.cursor as u128 + k as u128 >= len as u128;
                if self.cursor > usize::MAX - k {
                    self.cursor = usize::MAX;
                } else {
                    self.cursor = self.cursor + k;
                }
            },
            Key::Char(c) => {
                if c == 'g' {
                    self.cursor = 0;
                    self.following = false;
                } else if c == 'G' {
                    let h = height as usize;
                    self.cursor = if len > h { len - h } else { 0 };
                } else {
                    return LogAction::Stay;
                }
            },
            _ => return LogAction::Stay,
        }
        self.dirty = true;
        LogAction::Stay
    }

    /// Whether the log is due to be fetched again at `now`.
    pub fn fetch_due(&self, now: i64) -> (r: bool)
        ensures
            r == self.fetch_due_at(now),
    {
        match self.last_fetch {
            None => true,
            Some(t) => (now as i128) - (t as i128) >= FETCH_AFTER_MS as i128,
        }
    }

    /// Records that the log was fetched at `now`.
    pub fn mark_fetched(&mut self, now: i64)
        ensures
            final(self).last_fetch == Some(now),
            final(self).lines@ == old(self).lines@,
            final(self).cursor == old(self).cursor,
            final(self).following == old(self).following,
            final(self).dirty == old(self).dirty,
    {
        self.last_fetch = Some(now);
    }

    /// Replaces the rows by the fetched log text, wrapped for a terminal
    /// `width` columns wide, and marks the view for a redraw.
    pub fn load_log(&mut self, text: &str, width: u16)
        ensures
            views(final(self).lines@) == wrapped(text@, wrap_width(width)),
            final(self).cursor == old(self).cursor,
            final(self).following == old(self).following,
            final(self).dirty,
            final(self).last_fetch == old(self).last_fetch,
    {
        let w: usize = if width > 1 { (width - 1) as usize } else { 1 };
        self.lines = wrap_log(text, w);
        self.dirty = true;
    }

    /// If the view is marked, unmarks it, moves the cursor to the end of
    /// the log while following, and returns the rows to draw on a screen
    /// `height` rows tall, as a range `(start, end)`; the last screen row is
    /// kept back. While following, the rows drawn end with the last row of
    /// the log.
    pub fn redraw(&mut self, height: u16) -> (r: Option<(usize, usize)>)
        ensures
            final(self).lines@ == old(self).lines@,
            final(self).following == old(self).following,
            final(self).last_fetch == old(self).last_fetch,
            !final(self).dirty,
            old(self).dirty && old(self).following && old(self).lines@.len() >= rows_drawn(height)
                ==> (r matches Some((s, e)) && e == old(self).lines@.len()),
            !old(self).dirty ==> r is None && final(self).cursor == old(self).cursor,
            old(self).dirty ==> {
                let len = old(self).lines@.len();
                let c = final(self).cursor as nat;
                &&& c == (if old(self).following { bottom(len, rows_drawn(height)) } else { old(self).cursor as nat })
                &&& r matches Some((s, e)) && s as nat == (if c < len { c } else { len })
                    && e as int == (if s + rows_drawn(height) < len { s + rows_drawn(height) } else { len as int })
            },
    {
        if !self.dirty {
            return None;
        }
        self.dirty = false;
        let len = self.lines.len();
        let shown: usize = if height > 0 { (height - 1) as usize } else { 0 };
        if self.following {
            self.cursor = if len > shown { len - shown } else { 0 };
        }
        let start = if self.cursor < len { self.cursor } else { len };
        let end = if shown < len - start { start + shown } else { len };
        Some((start, end))
    }
}

} // verus!
