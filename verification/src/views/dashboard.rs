//! The dashboard: the work queues of the server, one row each.

use vstd::prelude::*;
use vstd::string::*;
use crate::catalog::Catalog;
use crate::keys::KeyCode;
use crate::models::resource_queues::{
    content, parse_resource_queues, queues_of, ResourceQueue, ResourceQueueContent,
};
use crate::request::Request;

verus! {

/// Rows that the frame of the table takes.
pub const FRAME_ROWS: u16 = 4;

/// The dashboard.
pub struct DashboardView {
    pub model: Catalog<ResourceQueue>,
    /// Number of queues above the first row shown.
    pub scroll: u16,
}

/// One less, but not below zero.
pub open spec fn scrolled_up(scroll: u16) -> u16 {
    if scroll > 0 {
        (scroll - 1) as u16
    } else {
        scroll
    }
}

/// One more, but not beyond the greatest number of the type.
pub open spec fn scrolled_down(scroll: u16) -> u16 {
    if scroll < u16::MAX {
        (scroll + 1) as u16
    } else {
        scroll
    }
}

/// The scroll position after a key.
pub open spec fn scroll_after_key(scroll: u16, key: KeyCode) -> u16 {
    match key {
        KeyCode::Up => scrolled_up(scroll),
        KeyCode::Down => scrolled_down(scroll),
        _ => scroll,
    }
}

/// The scroll position that a table of `height` rows allows for `queues`
/// queues: none where everything fits, and else no further than to the
/// point where the last queue is on the last row.
pub open spec fn clamped_scroll(scroll: u16, height: u16, queues: nat) -> int {
    if height >= queues + FRAME_ROWS {
        0
    } else if scroll + height >= queues + FRAME_ROWS {
        if queues + FRAME_ROWS - height <= u16::MAX {
            queues + FRAME_ROWS - height
        } else {
            u16::MAX as int
        }
    } else {
        scroll as int
    }
}

/// First and one past the last of the queues that are shown.
pub open spec fn shown_range(scroll: u16, height: u16, queues: nat) -> (int, int) {
    let first = if scroll <= queues {
        scroll as int
    } else {
        queues as int
    };
    let last = if first + height <= queues {
        first + height
    } else {
        queues as int
    };
    (first, last)
}

/// The keys that the dashboard reacts to, with what they do.
pub open spec fn bindings() -> Seq<(&'static str, &'static str)> {
    seq![("↑", "Scroll up"), ("↓", "Scroll down")]
}

impl DashboardView {
    /// A dashboard without queues.
    pub fn new() -> (v: Self)
        ensures
            v.model.wf(),
            v.model@.len() == 0,
            v.scroll == 0,
    {
        DashboardView { model: Catalog::new(), scroll: 0 }
    }

    /// Leaves the tab. The dashboard keeps what it shows.
    pub fn unload(&mut self)
        ensures
            *final(self) == *old(self),
    {
    }

    /// Takes in a poll's statistics: the queues are built anew from the
    /// mapping, and nothing of the queues before stays.
    pub fn refresh(&mut self, mapping: Vec<(String, String)>)
        ensures
            final(self).model.wf(),
            content(final(self).model) == queues_of(mapping@),
            final(self).scroll == old(self).scroll,
    {
        self.model = parse_resource_queues(mapping);
    }

    /// How the dashboard reacts to a key: `q` asks to leave, the arrows
    /// scroll, and the queues stay as they are.
    pub open spec fn reacts(before: Self, after: Self, key: KeyCode, request: Request) -> bool {
        &&& request == if key.is_quit() {
            Request::Exit
        } else {
            Request::Noop
        }
        &&& after.scroll == scroll_after_key(before.scroll, key)
        &&& after.model == before.model
    }

    /// Reacts to a key.
    pub fn on_key_pressed(&mut self, key: KeyCode) -> (request: Request)
        ensures
            Self::reacts(*old(self), *final(self), key, request),
    {
        if key.quits() {
            return Request::Exit;
        }
        match key {
            KeyCode::Up => {
                if self.scroll > 0 {
                    self.scroll = self.scroll - 1;
                }
            },
            KeyCode::Down => {
                if self.scroll < u16::MAX {
                    self.scroll = self.scroll + 1;
                }
            },
            _ => {},
        }
        Request::Noop
    }

    /// The keys that the dashboard reacts to, with what they do.
    pub fn keybindings(&self) -> (b: Vec<(&'static str, &'static str)>)
        ensures
            b@ == bindings(),
    {
        let b = vec![("↑", "Scroll up"), ("↓", "Scroll down")];
        assert(b@ =~= bindings());
        b
    }

    /// Fits the scroll position to a table of `height` rows, and tells which
    /// queues the table shows: the first of them and one past the last.
    pub fn layout(&mut self, height: u16) -> (range: (usize, usize))
        ensures
            final(self).scroll == clamped_scroll(old(self).scroll, height, old(self).model@.len()),
            final(self).model == old(self).model,
            range.0 == shown_range(final(self).scroll, height, old(self).model@.len()).0,
            range.1 == shown_range(final(self).scroll, height, old(self).model@.len()).1,
            range.0 <= range.1 <= old(self).model@.len(),
    {
        let queues: u128 = self.model.len() as u128;
        let needed: u128 = queues + FRAME_ROWS as u128;
        if height as u128 >= needed {
            self.scroll = 0;
        } else if self.scroll as u128 + height as u128 >= needed {
            let target: u128 = needed - height as u128;
            self.scroll = if target <= u16::MAX as u128 {
                target as u16
            } else {
                u16::MAX
            };
        }
        let first: usize = if (self.scroll as usize) <= self.model.len() {
            self.scroll as usize
        } else {
            self.model.len()
        };
        let last: usize = if height as usize <= self.model.len() - first {
            first + height as usize
        } else {
            self.model.len()
        };
        (first, last)
    }
}

/// The cells of a queue's row: name, current and peak length, rate, idle
/// time, items processed, and the message in progress with the last one.
pub open spec fn cells_of(q: ResourceQueueContent) -> Seq<Seq<char>> {
    seq![
        q.name,
        q.length_current_try_peak + " | "@ + q.length_lifetime_peak,
        q.avg_items_per_second,
        match q.current_idle_time {
            Some(t) => t,
            None => "N/A"@,
        },
        q.total_items_processed,
        q.in_progress_message + " / "@ + q.last_processed_message,
    ]
}

/// The cells of a queue's row.
pub fn queue_cells(queue: &ResourceQueue) -> (cells: Vec<String>)
    ensures
        cells.deep_view() == cells_of(queue@),
{
    let mut length = queue.length_current_try_peak.clone();
    length.append(" | ");
    length.append(queue.length_lifetime_peak.as_str());
    let idle = match &queue.current_idle_time {
        Some(t) => t.clone(),
        None => "N/A".to_owned(),
    };
    let mut message = queue.in_progress_message.clone();
    message.append(" / ");
    message.append(queue.last_processed_message.as_str());
    let cells = vec![
        queue.name.clone(),
        length,
        queue.avg_items_per_second.clone(),
        idle,
        queue.total_items_processed.clone(),
        message,
    ];
    assert(cells.deep_view() =~= cells_of(queue@));
    cells
}

impl Default for DashboardView {
    /// A dashboard without queues.
    fn default() -> (v: Self)
        ensures
            v.model.wf(),
            v.model@.len() == 0,
            v.scroll == 0,
    {
        DashboardView::new()
    }
}

} // verus!
