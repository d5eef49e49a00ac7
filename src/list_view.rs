//! State of a screen that lists records: the selected row, the help pane,
//! when to refresh, and the merge of timestamped snapshots.
use vstd::prelude::*;
use crate::events::{Event, Key};

verus! {

/// Milliseconds after which the data of a list is refreshed unasked.
pub const REFRESH_AFTER_MS: i64 = 30000;

/// Share of the screen's height that the open help pane takes, in percent.
pub const HELP_PERCENT: u16 = 50;

/// What the screen's loop does after an event.
#[derive(Clone, Copy, Debug, PartialEq, Eq, Structural)]
pub enum ListAction {
    Stay,
    /// Back to the caller.
    Exit,
    /// Open the record at this row.
    Open(usize),
}

/// A list screen. Timestamps are milliseconds since the epoch.
pub struct ListView<T> {
    pub items: Vec<T>,
    pub selected: usize,
    /// Timestamp of the last snapshot merged.
    pub last_seen: Option<i64>,
    /// When the last refresh was started.
    pub last_refresh: Option<i64>,
    pub refresh_requested: bool,
    pub help_percent: u16,
    /// Whether PageUp and PageDown move the selection.
    pub paged: bool,
}

/// The state of a list screen, with its records as a sequence.
pub struct ListModel<T> {
    pub items: Seq<T>,
    pub selected: nat,
    pub last_seen: Option<i64>,
    pub last_refresh: Option<i64>,
    pub refresh_requested: bool,
    pub help_percent: u16,
    pub paged: bool,
}

impl<T> View for ListView<T> {
    type V = ListModel<T>;

    open spec fn view(&self) -> ListModel<T> {
        ListModel {
            items: self.items@,
            selected: self.selected as nat,
            last_seen: self.last_seen,
            last_refresh: self.last_refresh,
            refresh_requested: self.refresh_requested,
            help_percent: self.help_percent,
            paged: self.paged,
        }
    }
}

/// A selection is a row of the list, or row 0 of an empty one.
pub open spec fn selection_ok(sel: nat, n: nat) -> bool {
    if n == 0 {
        sel == 0
    } else {
        sel < n
    }
}

/// The nearest row to `sel` in a list of `n` rows.
pub open spec fn clamp(sel: nat, n: nat) -> nat {
    if n == 0 {
        0
    } else if sel < n {
        sel
    } else {
        (n - 1) as nat
    }
}

/// The selection after `key` in a list of `n` rows, with pages of `page`
/// rows where `paged` holds.
pub open spec fn select_after(sel: nat, n: nat, key: Key, page: nat, paged: bool) -> nat {
    if n == 0 {
        0
    } else {
        match key {
            Key::Up => if sel > 0 { clamp((sel - 1) as nat, n) } else { clamp(0, n) },
            Key::Down => clamp(sel + 1, n),
            Key::PageDown => if paged { clamp(sel + page, n) } else { clamp(sel, n) },
            Key::PageUp => if paged { if sel > page { clamp((sel - page) as nat, n) } else { clamp(0, n) } } else { clamp(sel, n) },
            _ => clamp(sel, n),
        }
    }
}

/// The selection after each key in turn.
pub open spec fn select_after_all(sel: nat, n: nat, keys: Seq<Key>, page: nat, paged: bool) -> nat
    decreases keys.len(),
{
    if keys.len() == 0 {
        sel
    } else {
        select_after(select_after_all(sel, n, keys.drop_last(), page, paged), n, keys.last(), page, paged)
    }
}

/// Rows that PageUp and PageDown move on a screen `height` rows tall.
pub open spec fn page_of(height: u16) -> nat {
    (height / 2) as nat
}

/// A snapshot stamped `ts` is newer than what was merged last.
pub open spec fn is_fresh(last_seen: Option<i64>, ts: i64) -> bool {
    match last_seen {
        None => true,
        Some(t) => ts > t,
    }
}

impl<T> ListModel<T> {
    pub open spec fn wf(self) -> bool {
        selection_ok(self.selected, self.items.len())
    }

    /// The state after a snapshot `(ts, data)` is offered: taken, with the
    /// selection kept on the list, only if it is newer than the last one.
    pub open spec fn merged(self, ts: i64, data: Seq<T>) -> ListModel<T> {
        if is_fresh(self.last_seen, ts) {
            ListModel {
                items: data,
                selected: clamp(self.selected, data.len()),
                last_seen: Some(ts),
                ..self
            }
        } else {
            self
        }
    }

    /// A refresh is due at `now`: asked for, never made, or older than the
    /// refresh period.
    pub open spec fn refresh_due(self, now: i64) -> bool {
        match self.last_refresh {
            None => true,
            Some(t) => self.refresh_requested || now - t > REFRESH_AFTER_MS,
        }
    }
}

impl<T> ListView<T> {
    pub open spec fn wf(&self) -> bool {
        self@.wf()
    }

    /// A screen with no records yet, its first refresh due.
    pub fn new(paged: bool) -> (r: Self)
        ensures
            r.wf(),
            r@.items.len() == 0,
            r@.selected == 0,
            r@.last_seen is None,
            r@.last_refresh is None,
            r@.refresh_requested,
            r@.help_percent == 0,
            r@.paged == paged,
    {
        ListView {
            items: Vec::new(),
            selected: 0,
            last_seen: None,
            last_refresh: None,
            refresh_requested: true,
            help_percent: 0,
            paged,
        }
    }

    /// The selected row; none while the list is empty.
    pub fn selection(&self) -> (r: Option<usize>)
        requires
            self.wf(),
        ensures
            r == (if self@.items.len() == 0 { None } else { Some(self.selected) }),
    {
        if self.items.len() == 0 {
            None
        } else {
            Some(self.selected)
        }
    }

    fn move_selection(&mut self, key: Key, height: u16)
        requires
            old(self).wf(),
        ensures
            final(self).wf(),
            final(self)@ == (ListModel {
                selected: select_after(old(self)@.selected, old(self)@.items.len(), key, page_of(height), old(self).paged),
                ..old(self)@
            }),
    {
        let n = self.items.len();
        if n == 0 {
            return;
        }
        let sel = self.selected;
        let page = (height / 2) as usize;
        let last = n - 1;
        match key {
            Key::Up => {
                if sel > 0 {
                    self.selected = sel - 1;
                }
            },
            Key::Down => {
                if sel < last {
                    self.selected = sel + 1;
                }
            },
            Key::PageDown => {
                if self.paged {
                    if page >= last - sel {
                        self.selected = last;
                    } else {
                        self.selected = sel + page;
                    }
                }
            },
            Key::PageUp => {
                if self.paged {
                    if sel > page {
                        self.selected = sel - page;
                    } else {
                        self.selected = 0;
                    }
                }
            },
            _ => {},
        }
    }

    /// Applies one event: the arrows and page keys move the selection,
    /// `h` shows or hides the help pane, `R` asks for a refresh, Enter opens
    /// the selected record and Esc leaves the screen.
    pub fn on_event(&mut self, event: Event, height: u16) -> (r: ListAction)
        requires
            old(self).wf(),
        ensures
            final(self).wf(),
            final(self)@.items == old(self)@.items,
            final(self)@.last_seen == old(self)@.last_seen,
            final(self)@.last_refresh == old(self)@.last_refresh,
            final(self)@.paged == old(self)@.paged,
            final(self)@.selected == match event {
                Event::Key(k) => select_after(old(self)@.selected, old(self)@.items.len(), k, page_of(height), old(self).paged),
                Event::Tick => old(self)@.selected,
            },
            final(self)@.refresh_requested == (old(self)@.refresh_requested || event == Event::Key(Key::Char('R'))),
            final(self)@.help_percent == (if event == Event::Key(Key::Char('h')) {
                if old(self)@.help_percent != 0 { 0 } else { HELP_PERCENT }
            } else {
                old(self)@.help_percent
            }),
            r == (if event == Event::Key(Key::Esc) {
                ListAction::Exit
            } else if event == Event::Key(Key::Enter) && old(self)@.items.len() > 0 {
                ListAction::Open(old(self).selected)
            } else {
                ListAction::Stay
            }),
    {
        match event {
            Event::Tick => ListAction::Stay,
            Event::Key(k) => {
                match k {
                    Key::Esc => ListAction::Exit,
                    Key::Enter => {
                        if self.items.len() > 0 {
                            ListAction::Open(self.selected)
                        } else {
                            ListAction::Stay
                        }
                    },
                    Key::Char(c) => {
                        if c == 'h' {
                            if self.help_percent != 0 {
                                self.help_percent = 0;
                            } else {
                                self.help_percent = HELP_PERCENT;
                            }
                        } else if c == 'R' {
                            self.refresh_requested = true;
                        }
                        ListAction::Stay
                    },
                    _ => {
                        self.move_selection(k, height);
                        ListAction::Stay
                    },
                }
            },
        }
    }

    /// Whether a refresh is due at `now`.
    pub fn refresh_due(&self, now: i64) -> (r: bool)
        ensures
            r == self@.refresh_due(now),
    {
        match self.last_refresh {
            None => true,
            Some(t) => self.refresh_requested || (now as i128) - (t as i128) > REFRESH_AFTER_MS as i128,
        }
    }

    /// Records that a refresh was started at `now`.
    pub fn mark_refreshed(&mut self, now: i64)
        requires
            old(self).wf(),
        ensures
            final(self).wf(),
            final(self)@ == (ListModel { refresh_requested: false, last_refresh: Some(now), ..old(self)@ }),
    {
        self.refresh_requested = false;
        self.last_refresh = Some(now);
    }

    /// Offers the snapshot `(ts, data)`: it replaces the records only if it
    /// is newer than the last one merged. Returns whether it was taken.
    pub fn merge(&mut self, ts: i64, data: Vec<T>) -> (r: bool)
        requires
            old(self).wf(),
        ensures
            final(self).wf(),
            final(self)@ == old(self)@.merged(ts, data@),
            r == is_fresh(old(self)@.last_seen, ts),
    {
        let fresh = match self.last_seen {
            None => true,
            Some(t) => ts > t,
        };
        if fresh {
            let n = data.len();
            self.items = data;
            self.last_seen = Some(ts);
            if n == 0 {
                self.selected = 0;
            } else if self.selected >= n {
                self.selected = n - 1;
            }
        }
        fresh
    }
}

/// The records of the fetches that succeeded, in order.
pub open spec fn gathered<T>(rs: Seq<Option<Vec<T>>>) -> Seq<T>
    decreases rs.len(),
{
    if rs.len() == 0 {
        seq![]
    } else {
        gathered(rs.drop_last()) + match rs.last() {
            Some(v) => v@,
            None => seq![],
        }
    }
}

/// Some fetch succeeded.
pub open spec fn some_succeeded<T>(rs: Seq<Option<Vec<T>>>) -> bool {
    exists|i: int| 0 <= i < rs.len() && #[trigger] rs[i] is Some
}

/// What a refresh that made several fetches publishes: the records of the
/// fetches that succeeded (`Some`), in order. Where every fetch failed,
/// nothing is published and the last data stays on screen.
pub fn collect_fetches<T>(results: Vec<Option<Vec<T>>>) -> (r: Option<Vec<T>>)
    ensures
        (results@.len() == 0 || some_succeeded(results@)) ==> (r matches Some(v) && v@ == gathered(results@)),
        !(results@.len() == 0 || some_succeeded(results@)) ==> r is None,
{
    let ghost all = results@;
    let mut rest = results;
    let mut out: Vec<T> = Vec::new();
    let mut ok = false;
    let n = rest.len();
    let mut k: usize = 0;
    while k < n
        invariant
            n == all.len(),
            k <= n,
            rest@ == all.skip(k as int),
            out@ == gathered(all.take(k as int)),
            ok == some_succeeded(all.take(k as int)),
        decreases n - k,
    {
        assert(all.take(k + 1).drop_last() =~= all.take(k as int));
        assert(rest@[0] == all[k as int]);
        let item = rest.remove(0);
        assert(rest@ =~= all.skip(k + 1));
        match item {
            Some(v) => {
                let mut v = v;
                out.append(&mut v);
                ok = true;
                assert(all.take(k + 1)[k as int] is Some);
            },
            None => {
                assert(out@ =~= out@ + Seq::<T>::empty());
                proof {
                    if some_succeeded(all.take(k + 1)) {
                        let i = choose|i: int| 0 <= i < k + 1 && #[trigger] all.take(k + 1)[i] is Some;
                        assert(all.take(k as int)[i] is Some);
                    }
                }
            },
        }
        proof {
            if ok && some_succeeded(all.take(k as int)) {
                let i = choose|i: int| 0 <= i < k && #[trigger] all.take(k as int)[i] is Some;
                assert(all.take(k + 1)[i] is Some);
            }
        }
        k = k + 1;
    }
    assert(all.take(n as int) =~= all);
    if ok || n == 0 {
        Some(out)
    } else {
        None
    }
}

/// Whatever keys come, the selection stays on a row of the list (row 0 of
/// an empty one) after each of them.
pub proof fn lemma_selection_stays_in_list(sel: nat, n: nat, keys: Seq<Key>, page: nat, paged: bool)
    requires
        selection_ok(sel, n),
    ensures
        forall|k: int| 0 <= k <= keys.len() ==> selection_ok(#[trigger] select_after_all(sel, n, keys.take(k), page, paged), n),
    decreases keys.len(),
{
    if keys.len() > 0 {
        lemma_selection_stays_in_list(sel, n, keys.drop_last(), page, paged);
        assert forall|k: int| 0 <= k <= keys.len() implies selection_ok(#[trigger] select_after_all(sel, n, keys.take(k), page, paged), n) by {
            if k < keys.len() {
                assert(keys.drop_last().take(k) =~= keys.take(k));
            } else {
                assert(keys.take(k).drop_last() =~= keys.drop_last().take(k - 1));
                assert(keys.drop_last().take(k - 1) =~= keys.drop_last());
            }
        }
    } else {
        assert(keys.take(0) =~= keys);
    }
}

/// Offering the same snapshot twice changes nothing after the first time.
pub proof fn lemma_merge_idempotent<T>(m: ListModel<T>, ts: i64, data: Seq<T>)
    ensures
        m.merged(ts, data).merged(ts, data) == m.merged(ts, data),
{
}

/// A snapshot no newer than the last one merged is never taken.
pub proof fn lemma_stale_snapshot_ignored<T>(m: ListModel<T>, ts: i64, data: Seq<T>)
    requires
        m.last_seen matches Some(t) && ts <= t,
    ensures
        m.merged(ts, data) == m,
{
}

/// Merging keeps the selection on a row of the list.
pub proof fn lemma_merge_keeps_selection<T>(m: ListModel<T>, ts: i64, data: Seq<T>)
    requires
        m.wf(),
    ensures
        m.merged(ts, data).wf(),
{
}

} // verus!
