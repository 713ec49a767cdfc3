//! The console as a whole: its face, its lock, the panel that has the keyboard, and the
//! window that it comes back in.

use vstd::prelude::*;

use crate::choices::Contest;
use crate::numbers::spell_padded;
use crate::settings::{Station, WindowSize, is_positive};
use crate::text::{append, string_of, to_uppercase};
use crate::types::{ContestProfile, Selection, StationConfig};

verus! {

/// How long the window must hold still before its place is kept, in milliseconds.
pub const WINDOW_SAVE_DEBOUNCE_MS: u64 = 700;

/// In which frame a screenshot is asked for.
pub const SHOT_FRAME: u64 = 4;

/// A panel.
#[derive(Clone, Copy, Debug, PartialEq, Eq, Structural)]
pub enum PanelId {
    Waterfall,
    Log,
    Band,
    CallSign,
    Contacts,
}

/// The panel of a number key.
pub fn by_number(n: usize) -> (r: Option<PanelId>)
    ensures
        r == (if n == 1 {
            Some(PanelId::Waterfall)
        } else if n == 2 {
            Some(PanelId::Log)
        } else if n == 3 {
            Some(PanelId::Band)
        } else if n == 4 {
            Some(PanelId::CallSign)
        } else if n == 5 {
            Some(PanelId::Contacts)
        } else {
            None
        }),
{
    if n == 1 {
        Some(PanelId::Waterfall)
    } else if n == 2 {
        Some(PanelId::Log)
    } else if n == 3 {
        Some(PanelId::Band)
    } else if n == 4 {
        Some(PanelId::CallSign)
    } else if n == 5 {
        Some(PanelId::Contacts)
    } else {
        None
    }
}

/// Whether a click gives a panel the keyboard. The map and the panels that only show
/// something leave it where it is.
pub fn takes_keyboard_focus(p: PanelId) -> (r: bool)
    ensures
        r == (p == PanelId::Waterfall || p == PanelId::Log),
{
    match p {
        PanelId::Waterfall | PanelId::Log => true,
        PanelId::Band | PanelId::CallSign | PanelId::Contacts => false,
    }
}

/// The title of a panel.
pub open spec fn title_of(p: PanelId) -> Seq<char> {
    match p {
        PanelId::Waterfall => "Waterfall"@,
        PanelId::Log => "Log Book"@,
        PanelId::Band => "Band Status"@,
        PanelId::CallSign => "Call Sign"@,
        PanelId::Contacts => "Contacts"@,
    }
}

/// The title of a panel.
pub fn title(p: PanelId) -> (s: &'static str)
    ensures
        s@ == title_of(p),
{
    match p {
        PanelId::Waterfall => "Waterfall",
        PanelId::Log => "Log Book",
        PanelId::Band => "Band Status",
        PanelId::CallSign => "Call Sign",
        PanelId::Contacts => "Contacts",
    }
}

/// The time of day at so many milliseconds since the epoch: hours, minutes and seconds with
/// two digits each.
pub open spec fn time_of_day(ms: int) -> Seq<char> {
    let s = ms / 1_000 % 86_400;
    crate::numbers::padded((s / 3_600) as nat, 2) + seq![':'] + crate::numbers::padded(
        (s / 60 % 60) as nat,
        2,
    ) + seq![':'] + crate::numbers::padded((s % 60) as nat, 2)
}

/// What a clock shows at so many milliseconds since the epoch: `07:04:05`.
pub fn clock_text(ms: u64) -> (r: String)
    ensures
        r@ == time_of_day(ms as int),
{
    let s: u64 = ms / 1_000 % 86_400;
    let mut v: Vec<char> = spell_padded(s / 3_600, 2);
    v.push(':');
    append(&mut v, &spell_padded(s / 60 % 60, 2));
    v.push(':');
    append(&mut v, &spell_padded(s % 60, 2));
    string_of(&v)
}

/// Whether two bit patterns of 32-bit floats stand for equal numbers: the two zeros are
/// equal, and what is no number equals nothing.
pub open spec fn equal_numbers(a: u32, b: u32) -> bool {
    let m = 0x8000_0000u32;
    if a % m > 0x7F80_0000 || b % m > 0x7F80_0000 {
        false
    } else {
        a == b || (a % m == 0 && b % m == 0)
    }
}

/// Whether two bit patterns stand for equal numbers.
pub(crate) fn numbers_equal(a: u32, b: u32) -> (r: bool)
    ensures
        r == equal_numbers(a, b),
{
    if a % 0x8000_0000 > 0x7F80_0000 || b % 0x8000_0000 > 0x7F80_0000 {
        false
    } else {
        a == b || (a % 0x8000_0000 == 0 && b % 0x8000_0000 == 0)
    }
}

/// Whether two windows are equal.
pub open spec fn equal_windows(a: WindowSize, b: WindowSize) -> bool {
    &&& equal_numbers(a.width, b.width)
    &&& equal_numbers(a.height, b.height)
    &&& a.fullscreen == b.fullscreen
    &&& match (a.pos, b.pos) {
        (Some(p), Some(q)) => equal_numbers(p.0, q.0) && equal_numbers(p.1, q.1),
        (None, None) => true,
        _ => false,
    }
}

fn windows_equal(a: &WindowSize, b: &WindowSize) -> (r: bool)
    ensures
        r == equal_windows(*a, *b),
{
    let places: bool = match (a.pos, b.pos) {
        (Some(p), Some(q)) => numbers_equal(p.0, q.0) && numbers_equal(p.1, q.1),
        (None, None) => true,
        _ => false,
    };
    numbers_equal(a.width, b.width) && numbers_equal(a.height, b.height) && a.fullscreen
        == b.fullscreen && places
}

/// The window to keep. A window that fills the screen keeps the size that it had before,
/// so that it comes back from the full screen to it.
pub open spec fn window_to_keep(
    live: WindowSize,
    fullscreen: bool,
    last: Option<WindowSize>,
    kept: Option<WindowSize>,
) -> WindowSize {
    let w = WindowSize { fullscreen: false, ..live };
    if fullscreen {
        let from = match (last, kept) {
            (Some(l), _) => l,
            (None, Some(k)) => k,
            _ => w,
        };
        WindowSize { fullscreen: true, ..from }
    } else {
        w
    }
}

/// What to do about the window's place.
#[derive(Clone, Copy, Debug)]
pub enum KeepStep {
    Nothing,
    /// Look again after [`WINDOW_SAVE_DEBOUNCE_MS`].
    Wait,
    /// Keep it.
    Save(WindowSize),
}

/// What comes of a change of the lock.
#[derive(Debug)]
pub enum LockAction {
    /// The contact engine takes on the station's identity and its contest.
    SetStation(StationConfig),
    /// The identity and the contest are written to the configuration file.
    SaveStation,
}

/// What comes of the end of the program.
#[derive(Clone, Copy, Debug, PartialEq, Eq, Structural)]
pub enum CloseAction {
    /// The rig stops transmitting.
    Unkey,
    /// The window and its tiles are kept.
    SaveWindow,
    /// The program ends.
    Exit,
}

/// The console.
pub struct Console {
    /// Whether the dark face is shown.
    pub dark: bool,
    /// Whether the face follows the system's at the start.
    pub follow_system: bool,
    /// Whether the face has been settled, from the system or by the operator.
    pub seeded: bool,
    /// Whether the console is unlocked.
    pub edit_mode: bool,
    pub station: Station,
    pub contest: Contest,
    /// The panel that has the keyboard.
    pub focused: PanelId,
    /// Whether a screenshot is wanted, and how many frames were drawn for it.
    pub shot: bool,
    pub frame: u64,
    /// Whether every run must look the same: nothing is kept then.
    pub deterministic: bool,
    /// The window when it last did not fill the screen.
    pub last_windowed: Option<WindowSize>,
    /// The window that was kept last.
    pub persisted: Option<WindowSize>,
    /// A window that is to be kept if it holds still, and since when it has.
    pub pending: Option<(WindowSize, u64)>,
    /// The call of the selected station.
    pub selected: Option<String>,
}

impl Console {
    /// The console at its start: unlocked where the station has no call yet, so that the
    /// operator is asked for it.
    pub fn new(
        station: Station,
        contest: Contest,
        forced_light: bool,
        shot: bool,
        saved: Option<WindowSize>,
    ) -> (r: Self)
        ensures
            r.station == station,
            r.contest == contest,
            r.dark == !forced_light,
            r.follow_system == !forced_light,
            !r.seeded,
            r.edit_mode == (crate::text::trim(station.call@).len() == 0),
            r.focused == PanelId::Waterfall,
            r.shot == shot,
            r.frame == 0,
            r.deterministic == (shot || forced_light),
            r.last_windowed is None,
            r.persisted == saved,
            r.pending is None,
            r.selected is None,
    {
        let edit_mode: bool = !station.is_set();
        Console {
            dark: !forced_light,
            follow_system: !forced_light,
            seeded: false,
            edit_mode,
            station,
            contest,
            focused: PanelId::Waterfall,
            shot,
            frame: 0,
            deterministic: shot || forced_light,
            last_windowed: None,
            persisted: saved,
            pending: None,
            selected: None,
        }
    }

    /// Takes the face of the system on, once, as soon as it is known.
    pub fn seed_theme(&mut self, system_dark: Option<bool>)
        ensures
            *final(self) == (if old(self).seeded || !old(self).follow_system {
                *old(self)
            } else {
                match system_dark {
                    Some(d) => Console { dark: d, seeded: true, ..*old(self) },
                    None => *old(self),
                }
            }),
    {
        if self.seeded || !self.follow_system {
            return;
        }
        match system_dark {
            Some(d) => {
                self.dark = d;
                self.seeded = true;
            },
            None => {},
        }
    }

    /// The operator chooses a face. What was chosen is kept, and the system's counts no
    /// more.
    pub fn choose_theme(&mut self, dark_clicked: bool, light_clicked: bool) -> (save: Option<bool>)
        ensures
            *final(self) == (if dark_clicked || light_clicked {
                Console { dark: dark_clicked, seeded: true, ..*old(self) }
            } else {
                *old(self)
            }),
            save == (if dark_clicked || light_clicked {
                Some(dark_clicked)
            } else {
                None
            }),
    {
        if dark_clicked || light_clicked {
            self.dark = dark_clicked;
            self.seeded = true;
            Some(self.dark)
        } else {
            None
        }
    }

    /// The operator locks or unlocks the console. To lock it puts the identity and the
    /// contest in force, and keeps them where there is a call.
    pub fn switch_lock(&mut self, lock_clicked: bool, edit_clicked: bool) -> (r: Vec<LockAction>)
        ensures
            *final(self) == (Console {
                edit_mode: edit_clicked || (!lock_clicked && old(self).edit_mode),
                ..*old(self)
            }),
            !lock_clicked ==> r@.len() == 0,
            lock_clicked ==> {
                &&& r@.len() == (if crate::text::trim(old(self).station.call@).len() > 0 {
                    2int
                } else {
                    1
                })
                &&& r@[0] matches LockAction::SetStation(c) && is_identity(
                    c,
                    old(self).station,
                    old(self).contest,
                )
                &&& r@.len() == 2 ==> r@[1] matches LockAction::SaveStation
            },
    {
        let mut r: Vec<LockAction> = Vec::new();
        if lock_clicked {
            self.edit_mode = false;
            r.push(LockAction::SetStation(self.contest.station_config(&self.station)));
            if self.station.is_set() {
                r.push(LockAction::SaveStation);
            }
        }
        if edit_clicked {
            self.edit_mode = true;
        }
        r
    }

    /// The operator has typed a call: it is held in upper case.
    pub fn type_call(&mut self, text: &str)
        ensures
            final(self).station.call@ == crate::text::uppercase(text@),
            crate::text::ascii(text@) ==> final(self).station.call@ == crate::text::ascii_upper(
                text@,
            ),
            *final(self) == (Console {
                station: Station { call: final(self).station.call, ..old(self).station },
                ..*old(self)
            }),
    {
        self.station.call = to_uppercase(text);
    }

    /// The operator has typed a grid: it is held in upper case.
    pub fn type_grid(&mut self, text: &str)
        ensures
            final(self).station.grid@ == crate::text::uppercase(text@),
            crate::text::ascii(text@) ==> final(self).station.grid@ == crate::text::ascii_upper(
                text@,
            ),
            *final(self) == (Console {
                station: Station { grid: final(self).station.grid, ..old(self).station },
                ..*old(self)
            }),
    {
        self.station.grid = to_uppercase(text);
    }

    /// The operator chooses a contest, or none.
    pub fn choose_contest(&mut self, profile: ContestProfile)
        ensures
            *final(self) == (Console {
                contest: Contest { profile, ..old(self).contest },
                ..*old(self)
            }),
    {
        self.contest.profile = profile;
    }

    /// The operator has typed a class: it is held in upper case.
    pub fn type_class(&mut self, text: &str)
        ensures
            final(self).contest.class@ == crate::text::uppercase(text@),
            crate::text::ascii(text@) ==> final(self).contest.class@ == crate::text::ascii_upper(
                text@,
            ),
            *final(self) == (Console {
                contest: Contest { class: final(self).contest.class, ..old(self).contest },
                ..*old(self)
            }),
    {
        self.contest.class = to_uppercase(text);
    }

    /// The operator has typed a section: it is held in upper case.
    pub fn type_section(&mut self, text: &str)
        ensures
            final(self).contest.section@ == crate::text::uppercase(text@),
            crate::text::ascii(text@) ==> final(self).contest.section@
                == crate::text::ascii_upper(text@),
            *final(self) == (Console {
                contest: Contest { section: final(self).contest.section, ..old(self).contest },
                ..*old(self)
            }),
    {
        self.contest.section = to_uppercase(text);
    }

    /// A number key with the command key gives a panel the keyboard.
    pub fn focus_number(&mut self, n: Option<usize>)
        ensures
            *final(self) == (Console {
                focused: match n {
                    Some(k) => if k == 1 {
                        PanelId::Waterfall
                    } else if k == 2 {
                        PanelId::Log
                    } else if k == 3 {
                        PanelId::Band
                    } else if k == 4 {
                        PanelId::CallSign
                    } else if k == 5 {
                        PanelId::Contacts
                    } else {
                        old(self).focused
                    },
                    None => old(self).focused,
                },
                ..*old(self)
            }),
    {
        match n {
            Some(k) => match by_number(k) {
                Some(p) => {
                    self.focused = p;
                },
                None => {},
            },
            None => {},
        }
    }

    /// A click on a panel gives it the keyboard, where it takes it.
    pub fn focus_click(&mut self, p: PanelId)
        ensures
            *final(self) == (Console {
                focused: if p == PanelId::Waterfall || p == PanelId::Log {
                    p
                } else {
                    old(self).focused
                },
                ..*old(self)
            }),
    {
        if takes_keyboard_focus(p) {
            self.focused = p;
        }
    }

    /// Takes the call of the selected station from the selection, for all panels to show.
    pub fn observe_selection(&mut self, selection: &Option<Selection>)
        ensures
            *final(self) == (Console {
                selected: match *selection {
                    Some(s) => match s.target {
                        Some(t) => match t.call {
                            Some(c) => Some(c.0),
                            None => None,
                        },
                        None => None,
                    },
                    None => None,
                },
                ..*old(self)
            }),
    {
        self.selected = match selection {
            Some(s) => match &s.target {
                Some(t) => match &t.call {
                    Some(c) => Some(c.0.clone()),
                    None => None,
                },
                None => None,
            },
            None => None,
        };
    }

    /// The window to keep.
    pub fn current_window(&self, live: WindowSize, fullscreen: bool) -> (r: WindowSize)
        ensures
            r == window_to_keep(live, fullscreen, self.last_windowed, self.persisted),
    {
        let w: WindowSize = WindowSize {
            width: live.width,
            height: live.height,
            pos: live.pos,
            fullscreen: false,
        };
        if fullscreen {
            let from: WindowSize = match (self.last_windowed, self.persisted) {
                (Some(l), _) => l,
                (None, Some(k)) => k,
                (None, None) => w,
            };
            WindowSize {
                width: from.width,
                height: from.height,
                pos: from.pos,
                fullscreen: true,
            }
        } else {
            w
        }
    }

    /// Notes the window while it does not fill the screen.
    pub fn observe_window(&mut self, live: WindowSize, fullscreen: bool)
        ensures
            *final(self) == (if fullscreen {
                *old(self)
            } else {
                Console {
                    last_windowed: Some(WindowSize { fullscreen: false, ..live }),
                    ..*old(self)
                }
            }),
    {
        if !fullscreen {
            self.last_windowed = Some(
                WindowSize {
                    width: live.width,
                    height: live.height,
                    pos: live.pos,
                    fullscreen: false,
                },
            );
        }
    }

    /// Keeps the window once it holds still after a change, so that a drag is kept once
    /// and every way to end the program finds it kept.
    pub fn keep_window(&mut self, live: WindowSize, fullscreen: bool, now_ms: u64) -> (r: KeepStep)
        ensures
            ({
                let w = window_to_keep(
                    live,
                    fullscreen,
                    old(self).last_windowed,
                    old(self).persisted,
                );
                let known = old(self).persisted matches Some(k) && equal_windows(k, w);
                let (held, since) = match old(self).pending {
                    Some((p, t)) => if equal_windows(p, w) {
                        (p, t)
                    } else {
                        (w, now_ms)
                    },
                    None => (w, now_ms),
                };
                if old(self).deterministic || !crate::settings::positive(w.width)
                    || !crate::settings::positive(w.height) {
                    r matches KeepStep::Nothing && *final(self) == *old(self)
                } else if known {
                    r matches KeepStep::Nothing && *final(self) == (Console {
                        pending: None,
                        ..*old(self)
                    })
                } else if now_ms - since >= WINDOW_SAVE_DEBOUNCE_MS {
                    r matches KeepStep::Save(k) && k == held && *final(self) == (Console {
                        pending: None,
                        persisted: Some(held),
                        ..*old(self)
                    })
                } else {
                    r matches KeepStep::Wait && *final(self) == (Console {
                        pending: Some((held, since)),
                        ..*old(self)
                    })
                }
            }),
            r matches KeepStep::Save(_) ==> (old(self).pending matches Some((_, t)) && t + 700
                <= now_ms),
    {
        if self.deterministic {
            return KeepStep::Nothing;
        }
        let w: WindowSize = self.current_window(live, fullscreen);
        if !is_positive(w.width) || !is_positive(w.height) {
            return KeepStep::Nothing;
        }
        let known: bool = match self.persisted {
            Some(k) => windows_equal(&k, &w),
            None => false,
        };
        if known {
            self.pending = None;
            return KeepStep::Nothing;
        }
        let (held, since): (WindowSize, u64) = match self.pending {
            Some((p, t)) => if windows_equal(&p, &w) {
                (p, t)
            } else {
                (w, now_ms)
            },
            None => (w, now_ms),
        };
        if now_ms >= since && now_ms - since >= WINDOW_SAVE_DEBOUNCE_MS {
            self.persisted = Some(held);
            self.pending = None;
            KeepStep::Save(held)
        } else {
            self.pending = Some((held, since));
            KeepStep::Wait
        }
    }

    /// What happens when the window is closed: the rig stops transmitting before anything
    /// else.
    pub fn close(&self) -> (r: Vec<CloseAction>)
        ensures
            r@ == (if self.deterministic {
                seq![CloseAction::Unkey, CloseAction::Exit]
            } else {
                seq![CloseAction::Unkey, CloseAction::SaveWindow, CloseAction::Exit]
            }),
    {
        let mut r: Vec<CloseAction> = Vec::new();
        r.push(CloseAction::Unkey);
        if !self.deterministic {
            r.push(CloseAction::SaveWindow);
        }
        r.push(CloseAction::Exit);
        r
    }

    /// Counts a frame towards the screenshot. True where it is to be taken.
    pub fn shot_frame(&mut self) -> (r: bool)
        requires
            old(self).frame < u64::MAX,
        ensures
            *final(self) == (Console {
                frame: if old(self).shot {
                    (old(self).frame + 1) as u64
                } else {
                    old(self).frame
                },
                ..*old(self)
            }),
            r == (old(self).shot && final(self).frame == SHOT_FRAME),
            r == (old(self).shot && old(self).frame == 3),
    {
        if !self.shot {
            return false;
        }
        self.frame = self.frame + 1;
        self.frame == SHOT_FRAME
    }
}

/// Whether a configuration of the contact engine is that of a station in a contest.
pub open spec fn is_identity(c: StationConfig, s: Station, contest: Contest) -> bool {
    &&& c.call.0@ == s.call@
    &&& c.grid.0@ == s.grid@
    &&& c.fd_class@ == contest.class@
    &&& c.fd_section.0@ == contest.section@
    &&& c.contest == contest.profile
}

/// A window that fills the screen is kept with a size that it had before, whenever it
/// had one: to leave the full screen gives a window of that size.
pub proof fn law_fullscreen_keeps_window(
    live: WindowSize,
    last: WindowSize,
    kept: Option<WindowSize>,
)
    ensures
        window_to_keep(live, true, Some(last), kept).width == last.width,
        window_to_keep(live, true, Some(last), kept).height == last.height,
        window_to_keep(live, true, Some(last), kept).pos == last.pos,
        window_to_keep(live, true, Some(last), kept).fullscreen,
        kept matches Some(k) ==> window_to_keep(live, true, None, kept) == (WindowSize {
            fullscreen: true,
            ..k
        }),
{
}

} // verus!
