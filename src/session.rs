//! The interactive remapping session, one frame at a time.
//!
//! The session shows the senders with the contact each maps to (`Main`).
//! Confirming on a sender opens a picker over the roster (`Picking`);
//! confirming there maps the sender to the hovered contact, the clear key
//! unmaps it, and cancel leaves it as it was. The start key ends the session:
//! from `Main` as `Done`, from the picker as `Cancelled`, in which case the
//! pick in progress is dropped.
//!
//! Each list keeps a cursor that stops at the list's ends. A first press of a
//! direction moves one step and waits `REPEAT_DELAY` frames; while the key
//! stays held, the cursor then moves one step every `REPEAT_RATE` frames.
//! Any change the operator can see sets `dirty`, which the caller takes once
//! per frame to know whether to redraw.

use vstd::prelude::*;

use crate::avatar::AvatarMap;
use crate::mapping::{auto_match, auto_match_of, clear_mapping, mapping_valid, set_mapping, Mapping};

verus! {

/// Frames to wait after a first press before the cursor repeats.
pub const REPEAT_DELAY: u8 = 20;

/// Frames between repeated steps while a direction stays held.
pub const REPEAT_RATE: u8 = 5;

/// Rows shown on one page of a list.
pub const PAGE_ROWS: usize = 28;

/// The keys of one frame: `*_pressed` went down this frame, `*_held` are
/// down now; confirm, cancel, clear and start went down this frame.
#[derive(PartialEq, Eq, Structural, Debug, Clone, Copy)]
pub struct Keys {
    pub up_pressed: bool,
    pub down_pressed: bool,
    pub up_held: bool,
    pub down_held: bool,
    pub confirm: bool,
    pub cancel: bool,
    pub clear: bool,
    pub start: bool,
}

/// The hovered row of a list, and the frames left before a held direction
/// moves it again.
#[derive(PartialEq, Eq, Structural, Debug, Clone, Copy)]
pub struct Cursor {
    pub hover: usize,
    pub wait: u8,
}

/// A cursor at the top of its list, with nothing pending.
pub open spec fn cursor_start() -> Cursor {
    Cursor { hover: 0, wait: 0 }
}

/// The hovered row lies in the list; on an empty list it is 0.
pub open spec fn cursor_in_bounds(c: Cursor, len: nat) -> bool {
    if len == 0 {
        c.hover == 0
    } else {
        c.hover < len
    }
}

/// One row up, stopping at the top.
pub open spec fn row_up(hover: usize) -> usize {
    if hover > 0 {
        (hover - 1) as usize
    } else {
        hover
    }
}

/// One row down, stopping at the last row.
pub open spec fn row_down(hover: usize, len: nat) -> usize {
    if hover + 1 < len {
        (hover + 1) as usize
    } else {
        hover
    }
}

/// The cursor after a frame's wait has run down by one.
pub open spec fn tick_spec(c: Cursor) -> Cursor {
    Cursor { hover: c.hover, wait: if c.wait > 0 { (c.wait - 1) as u8 } else { 0 } }
}

/// The cursor after the frame's direction keys, on a list of `len` rows.
pub open spec fn navigate_spec(c: Cursor, len: nat, keys: Keys) -> Cursor {
    if len == 0 {
        c
    } else if keys.up_pressed {
        Cursor { hover: row_up(c.hover), wait: REPEAT_DELAY }
    } else if keys.down_pressed {
        Cursor { hover: row_down(c.hover, len), wait: REPEAT_DELAY }
    } else if keys.up_held && c.wait == 0 {
        Cursor { hover: row_up(c.hover), wait: REPEAT_RATE }
    } else if keys.down_held && c.wait == 0 {
        Cursor { hover: row_down(c.hover, len), wait: REPEAT_RATE }
    } else {
        c
    }
}

/// The cursor after one frame: the wait runs down, then the keys act.
pub open spec fn frame_cursor(c: Cursor, len: nat, keys: Keys) -> Cursor {
    navigate_spec(tick_spec(c), len, keys)
}

impl Cursor {
    /// A cursor at the top of its list.
    pub fn new() -> (r: Cursor)
        ensures
            r == cursor_start(),
    {
        Cursor { hover: 0, wait: 0 }
    }

    /// Runs one frame on a list of `len` rows; tells whether the hovered
    /// row changed.
    pub fn step(&mut self, len: usize, keys: &Keys) -> (moved: bool)
        requires
            cursor_in_bounds(*old(self), len as nat),
        ensures
            *final(self) == frame_cursor(*old(self), len as nat, *keys),
            cursor_in_bounds(*final(self), len as nat),
            moved == (final(self).hover != old(self).hover),
    {
        let before = self.hover;
        if self.wait > 0 {
            self.wait = self.wait - 1;
        }
        if len > 0 {
            if keys.up_pressed {
                if self.hover > 0 {
                    self.hover = self.hover - 1;
                }
                self.wait = REPEAT_DELAY;
            } else if keys.down_pressed {
                if self.hover + 1 < len {
                    self.hover = self.hover + 1;
                }
                self.wait = REPEAT_DELAY;
            } else if keys.up_held && self.wait == 0 {
                if self.hover > 0 {
                    self.hover = self.hover - 1;
                }
                self.wait = REPEAT_RATE;
            } else if keys.down_held && self.wait == 0 {
                if self.hover + 1 < len {
                    self.hover = self.hover + 1;
                }
                self.wait = REPEAT_RATE;
            }
        }
        self.hover != before
    }
}

/// The hovered row stays within its list whatever the keys, and on an empty
/// list the direction keys change nothing.
pub proof fn cursor_stays_in_bounds(c: Cursor, len: nat, keys: Keys)
    requires
        cursor_in_bounds(c, len),
    ensures
        cursor_in_bounds(frame_cursor(c, len, keys), len),
        len > 0 ==> 0 <= frame_cursor(c, len, keys).hover <= len - 1,
        len == 0 ==> navigate_spec(c, len, keys) == c,
{
}

/// How the picker ended.
#[derive(PartialEq, Eq, Structural, Debug, Clone, Copy)]
pub enum PickOutcome {
    /// The operator chose this contact.
    Selected(u32),
    /// The operator asked for the sender to be unmapped.
    Cleared,
    /// The operator left the picker without a choice.
    Cancelled,
}

/// The mapping after a pick for `sender` ended with `outcome`.
pub open spec fn apply_pick_spec(mapping: Map<u32, u32>, sender: u32, outcome: PickOutcome) -> Map<
    u32,
    u32,
> {
    match outcome {
        PickOutcome::Selected(c) => mapping.insert(sender, c),
        PickOutcome::Cleared => mapping.remove(sender),
        PickOutcome::Cancelled => mapping,
    }
}

/// Applies the end of a pick for `sender` to the mapping.
pub fn apply_pick(mapping: &mut Mapping, sender: u32, outcome: PickOutcome)
    requires
        old(mapping).wf(),
    ensures
        final(mapping).wf(),
        final(mapping)@ == apply_pick_spec(old(mapping)@, sender, outcome),
{
    match outcome {
        PickOutcome::Selected(c) => set_mapping(mapping, sender, c),
        PickOutcome::Cleared => clear_mapping(mapping, sender),
        PickOutcome::Cancelled => {},
    }
}

/// Where the session stands.
#[derive(PartialEq, Eq, Structural, Debug, Clone, Copy)]
pub enum Phase {
    /// Browsing the senders and their contacts.
    Main,
    /// Choosing the contact of `sender`.
    Picking { sender: u32 },
    /// Ended by the operator from the sender list.
    Done,
    /// Ended while a pick was open, or by the platform.
    Cancelled,
}

/// The state of a remapping session.
pub struct Session {
    pub roster: AvatarMap,
    pub senders: AvatarMap,
    pub mapping: Mapping,
    pub phase: Phase,
    /// Cursor over the senders.
    pub main_cursor: Cursor,
    /// Cursor over the roster, while picking.
    pub pick_cursor: Cursor,
    /// Whether the screen needs to be drawn again.
    pub dirty: bool,
}

/// How the picker ends on a frame whose cursor ends at `c`, if it does.
pub open spec fn pick_outcome_spec(roster: AvatarMap, c: Cursor, keys: Keys) -> Option<PickOutcome> {
    if keys.confirm && roster.entries@.len() > 0 {
        Some(PickOutcome::Selected(roster.entries@[c.hover as int].0))
    } else if keys.cancel {
        Some(PickOutcome::Cancelled)
    } else if keys.clear {
        Some(PickOutcome::Cleared)
    } else {
        None
    }
}


/// The rows of a list shown on one page: `start..end`, with `more` when rows
/// follow the page.
#[derive(PartialEq, Eq, Structural, Debug, Clone, Copy)]
pub struct PageWindow {
    pub start: usize,
    pub end: usize,
    pub more: bool,
}

/// The first row of the page that holds `hover`.
pub open spec fn page_start(hover: int) -> int {
    (hover / PAGE_ROWS as int) * PAGE_ROWS as int
}

/// The page of a list of `len` rows that holds the hovered row.
pub fn page_window(len: usize, hover: usize) -> (r: PageWindow)
    requires
        hover < len || hover == 0,
    ensures
        r.start == page_start(hover as int),
        r.start <= hover,
        r.more == (r.start + PAGE_ROWS < len),
        r.end == if r.more {
            r.start + PAGE_ROWS
        } else {
            len as int
        },
        r.start <= r.end <= len,
{
    let start = (hover / PAGE_ROWS) * PAGE_ROWS;
    assert(start <= hover) by (nonlinear_arith)
        requires
            start == (hover / PAGE_ROWS) * PAGE_ROWS,
            PAGE_ROWS == 28,
    ;
    if len - start > PAGE_ROWS {
        PageWindow { start, end: start + PAGE_ROWS, more: true }
    } else {
        PageWindow { start, end: len, more: false }
    }
}

/// A row of the sender list: the sender, the contact it maps to, and
/// whether the cursor is on it.
#[derive(PartialEq, Eq, Structural, Debug, Clone, Copy)]
pub struct MappingRow {
    pub sender: u32,
    pub contact: Option<u32>,
    pub hovered: bool,
}

/// A row of the picker: the contact, and whether the cursor is on it.
#[derive(PartialEq, Eq, Structural, Debug, Clone, Copy)]
pub struct PickerRow {
    pub contact: u32,
    pub hovered: bool,
}

/// The page of the sender list to draw.
pub struct MappingPage {
    pub rows: Vec<MappingRow>,
    pub more: bool,
}

/// The page of the picker to draw.
pub struct PickerPage {
    pub rows: Vec<PickerRow>,
    pub more: bool,
}

/// What a key maps to in a mapping, if anything.
pub open spec fn mapped_to(mapping: Map<u32, u32>, sender: u32) -> Option<u32> {
    if mapping.contains_key(sender) {
        Some(mapping[sender])
    } else {
        None
    }
}

impl Session {
    /// The tables are well formed, the mapping only maps senders to
    /// contacts, the cursors lie in their lists, and a pick is for a sender.
    pub open spec fn wf(&self) -> bool {
        &&& self.roster.wf()
        &&& self.senders.wf()
        &&& self.mapping.wf()
        &&& mapping_valid(self.mapping@, self.senders@, self.roster@)
        &&& cursor_in_bounds(self.main_cursor, self.senders.entries@.len())
        &&& cursor_in_bounds(self.pick_cursor, self.roster.entries@.len())
        &&& (self.phase matches Phase::Picking { sender } ==> self.senders@.contains_key(sender))
    }

    /// Opens a session on the loaded roster and senders, with the mapping
    /// that automatic matching proposes.
    pub fn new(roster: AvatarMap, senders: AvatarMap) -> (r: Session)
        requires
            roster.wf(),
            senders.wf(),
        ensures
            r.wf(),
            r.roster == roster,
            r.senders == senders,
            r.mapping@ == auto_match_of(roster@, senders@),
            r.phase == Phase::Main,
            r.main_cursor == cursor_start(),
            r.pick_cursor == cursor_start(),
            r.dirty,
    {
        let mapping = auto_match(&roster, &senders);
        Session {
            roster,
            senders,
            mapping,
            phase: Phase::Main,
            main_cursor: Cursor::new(),
            pick_cursor: Cursor::new(),
            dirty: true,
        }
    }

    /// Whether the session has ended.
    pub fn finished(&self) -> (r: bool)
        ensures
            r == (self.phase is Done || self.phase is Cancelled),
    {
        match self.phase {
            Phase::Done | Phase::Cancelled => true,
            _ => false,
        }
    }

    /// Ends the session without a pick in progress being applied, as when
    /// the platform asks the program to close.
    pub fn abort(&mut self)
        requires
            old(self).wf(),
        ensures
            final(self).wf(),
            final(self).phase == Phase::Cancelled,
            final(self).mapping == old(self).mapping,
            final(self).roster == old(self).roster,
            final(self).senders == old(self).senders,
    {
        self.phase = Phase::Cancelled;
    }

    /// Tells whether the screen needs drawing, and clears the request.
    pub fn take_redraw(&mut self) -> (r: bool)
        ensures
            r == old(self).dirty,
            !final(self).dirty,
            final(self).phase == old(self).phase,
            final(self).mapping == old(self).mapping,
            final(self).roster == old(self).roster,
            final(self).senders == old(self).senders,
            final(self).main_cursor == old(self).main_cursor,
            final(self).pick_cursor == old(self).pick_cursor,
    {
        let r = self.dirty;
        self.dirty = false;
        r
    }

    /// The page of the sender list that holds the cursor.
    pub fn mapping_page(&self) -> (r: MappingPage)
        requires
            self.wf(),
        ensures
            ({
                let len = self.senders.entries@.len();
                let start = page_start(self.main_cursor.hover as int);
                let rows = r.rows@;
                &&& r.more == (start + PAGE_ROWS < len)
                &&& rows.len() == (if r.more {
                    PAGE_ROWS as int
                } else {
                    len - start
                })
                &&& forall|k: int|
                    0 <= k < rows.len() ==> {
                        &&& (#[trigger] rows[k]).sender == self.senders.entries@[start + k].0
                        &&& rows[k].contact == mapped_to(self.mapping@, rows[k].sender)
                        &&& rows[k].hovered == (start + k == self.main_cursor.hover)
                    }
            }),
    {
        let w = page_window(self.senders.len(), self.main_cursor.hover);
        let mut rows: Vec<MappingRow> = Vec::new();
        let mut i: usize = w.start;
        while i < w.end
            invariant
                self.wf(),
                w.start <= i <= w.end,
                w.end <= self.senders.entries@.len(),
                w.start == page_start(self.main_cursor.hover as int),
                rows@.len() == i - w.start,
                forall|k: int|
                    0 <= k < rows@.len() ==> {
                        &&& (#[trigger] rows@[k]).sender == self.senders.entries@[w.start + k].0
                        &&& rows@[k].contact == mapped_to(self.mapping@, rows@[k].sender)
                        &&& rows@[k].hovered == (w.start + k == self.main_cursor.hover)
                    },
            decreases w.end - i,
        {
            let sender = self.senders.id_at(i);
            let contact = match self.mapping.get(sender) {
                Some(c) => Some(*c),
                None => None,
            };
            rows.push(MappingRow { sender, contact, hovered: i == self.main_cursor.hover });
            i = i + 1;
        }
        MappingPage { rows, more: w.more }
    }

    /// The page of the picker that holds its cursor.
    pub fn picker_page(&self) -> (r: PickerPage)
        requires
            self.wf(),
        ensures
            ({
                let len = self.roster.entries@.len();
                let start = page_start(self.pick_cursor.hover as int);
                let rows = r.rows@;
                &&& r.more == (start + PAGE_ROWS < len)
                &&& rows.len() == (if r.more {
                    PAGE_ROWS as int
                } else {
                    len - start
                })
                &&& forall|k: int|
                    0 <= k < rows.len() ==> {
                        &&& (#[trigger] rows[k]).contact == self.roster.entries@[start + k].0
                        &&& rows[k].hovered == (start + k == self.pick_cursor.hover)
                    }
            }),
    {
        let w = page_window(self.roster.len(), self.pick_cursor.hover);
        let mut rows: Vec<PickerRow> = Vec::new();
        let mut i: usize = w.start;
        while i < w.end
            invariant
                self.wf(),
                w.start <= i <= w.end,
                w.end <= self.roster.entries@.len(),
                w.start == page_start(self.pick_cursor.hover as int),
                rows@.len() == i - w.start,
                forall|k: int|
                    0 <= k < rows@.len() ==> {
                        &&& (#[trigger] rows@[k]).contact == self.roster.entries@[w.start + k].0
                        &&& rows@[k].hovered == (w.start + k == self.pick_cursor.hover)
                    },
            decreases w.end - i,
        {
            rows.push(PickerRow { contact: self.roster.id_at(i), hovered: i == self.pick_cursor.hover });
            i = i + 1;
        }
        PickerPage { rows, more: w.more }
    }

    /// Runs one frame with the keys of that frame.
    pub fn frame(&mut self, keys: &Keys)
        requires
            old(self).wf(),
        ensures
            final(self).wf(),
            final(self).roster == old(self).roster,
            final(self).senders == old(self).senders,
            old(self).phase is Done || old(self).phase is Cancelled ==> *final(self) == *old(self),
            old(self).phase is Main && keys.start ==> {
                &&& final(self).phase == Phase::Done
                &&& final(self).mapping == old(self).mapping
            },
            old(self).phase is Main && !keys.start ==> ({
                let c = frame_cursor(old(self).main_cursor, old(self).senders.entries@.len(), *keys);
                &&& final(self).main_cursor == c
                &&& final(self).mapping == old(self).mapping
                &&& if keys.confirm && old(self).senders.entries@.len() > 0 {
                    &&& final(self).phase == (Phase::Picking {
                        sender: old(self).senders.entries@[c.hover as int].0,
                    })
                    &&& final(self).pick_cursor == cursor_start()
                    &&& final(self).dirty
                } else {
                    &&& final(self).phase == Phase::Main
                    &&& final(self).pick_cursor == old(self).pick_cursor
                    &&& final(self).dirty == (old(self).dirty || c.hover != old(
                        self,
                    ).main_cursor.hover)
                }
            }),
            old(self).phase is Picking && keys.start ==> {
                &&& final(self).phase == Phase::Cancelled
                &&& final(self).mapping == old(self).mapping
            },
            old(self).phase is Picking && !keys.start ==> ({
                let sender = old(self).phase->sender;
                let c = frame_cursor(old(self).pick_cursor, old(self).roster.entries@.len(), *keys);
                &&& final(self).pick_cursor == c
                &&& final(self).main_cursor == old(self).main_cursor
                &&& match pick_outcome_spec(old(self).roster, c, *keys) {
                    Some(outcome) => {
                        &&& final(self).phase == Phase::Main
                        &&& final(self).mapping@ == apply_pick_spec(
                            old(self).mapping@,
                            sender,
                            outcome,
                        )
                        &&& final(self).dirty
                    },
                    None => {
                        &&& final(self).phase == old(self).phase
                        &&& final(self).mapping == old(self).mapping
                        &&& final(self).dirty == (old(self).dirty || c.hover != old(
                            self,
                        ).pick_cursor.hover)
                    },
                }
            }),
    {
        match self.phase {
            Phase::Main => {
                if keys.start {
                    self.phase = Phase::Done;
                    return ;
                }
                let len = self.senders.len();
                let mut c = self.main_cursor;
                let moved = c.step(len, keys);
                self.main_cursor = c;
                if moved {
                    self.dirty = true;
                }
                if keys.confirm && len > 0 {
                    let sender = self.senders.id_at(c.hover);
                    proof {
                        crate::table::lemma_value_at(self.senders.entries@, c.hover as int);
                    }
                    self.phase = Phase::Picking { sender };
                    self.pick_cursor = Cursor::new();
                    self.dirty = true;
                }
            },
            Phase::Picking { sender } => {
                if keys.start {
                    self.phase = Phase::Cancelled;
                    return ;
                }
                let len = self.roster.len();
                let mut c = self.pick_cursor;
                let moved = c.step(len, keys);
                self.pick_cursor = c;
                if moved {
                    self.dirty = true;
                }
                let outcome = if keys.confirm && len > 0 {
                    proof {
                        crate::table::lemma_value_at(self.roster.entries@, c.hover as int);
                    }
                    Some(PickOutcome::Selected(self.roster.id_at(c.hover)))
                } else if keys.cancel {
                    Some(PickOutcome::Cancelled)
                } else if keys.clear {
                    Some(PickOutcome::Cleared)
                } else {
                    None
                };
                match outcome {
                    Some(o) => {
                        apply_pick(&mut self.mapping, sender, o);
                        self.phase = Phase::Main;
                        self.dirty = true;
                    },
                    None => {},
                }
            },
            _ => {},
        }
    }
}

} // verus!
