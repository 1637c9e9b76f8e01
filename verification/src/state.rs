//! The render loop's state and its transitions: which instruments are
//! watched, each one's price band, the quit flag, and the border pulse.
//!
//! The surrounding loop draws a frame, waits for the next key, tick or
//! application event, and feeds it through here; all decisions are made
//! by these functions. Key presses map to application events; events
//! adjust the active pane's price band within fixed clamps or stop the
//! loop; every animation tick moves the pulse one step between its
//! bounds, reversing direction at each bound.

use vstd::prelude::*;
use vstd::string::StringExecFns;

verus! {

/// The pulse's brightest value.
pub const UPPER_COLOR_BOUND: u8 = 255;

/// The pulse's darkest value.
pub const LOWER_COLOR_BOUND: u8 = 150;

/// The pulse step; it divides the distance between the bounds evenly, so
/// the pulse lands exactly on each bound and never leaves the range.
pub const CHANGE_COLOR_BY: u8 = 5;

/// Price bands are hundredths of a percent.
pub const BAND_DEFAULT: u32 = 50;

pub const BAND_MIN: u32 = 1;

pub const BAND_MAX: u32 = 5000;

pub const BAND_STEP_FINE: u32 = 1;

pub const BAND_STEP_COARSE: u32 = 10;

/// A key, already freed of the terminal backend's encoding.
#[derive(Clone, Copy, Debug)]
pub enum KeyCode {
    Esc,
    Up,
    Down,
    Char(char),
    Other,
}

/// One key press with its modifiers.
#[derive(Clone, Copy, Debug)]
pub struct KeyPress {
    pub code: KeyCode,
    pub shift: bool,
    pub ctrl: bool,
    pub alt: bool,
}

/// What a key press asks the application to do.
#[derive(Clone, Copy, Debug, PartialEq, Eq, Structural)]
pub enum AppEvent {
    Quit,
    /// Widen the active pane's price band; `true` for the fine step.
    IncMult(bool),
    /// Narrow the active pane's price band; `true` for the fine step.
    DecMult(bool),
}

/// The application state owned by the render loop.
#[derive(Debug)]
pub struct App {
    /// Is the application running?
    pub running: bool,
    /// Which instruments are watched, in pane order.
    pub watching: Vec<String>,
    /// When the application started, seconds since the Unix epoch; the
    /// runner stamps it at startup.
    pub start_time: u64,
    /// Should the chart borders pulse?
    pub border_animation: bool,
    /// The pulse's current value.
    pub color: u8,
    /// Whether the pulse is currently rising.
    pub color_add: bool,
    /// Each watched instrument's price band, hundredths of a percent,
    /// parallel to `watching`.
    pub bands: Vec<u32>,
    /// The pane whose band the arrow keys adjust.
    pub active_window: usize,
}

/// The state is sound: one band per watched instrument, every band within
/// the clamps, and the pulse on-grid between its bounds.
pub open spec fn app_wf(a: App) -> bool {
    &&& a.bands@.len() == a.watching@.len()
    &&& (forall|i: int|
        0 <= i < a.bands@.len() ==> BAND_MIN <= #[trigger] a.bands@[i] <= BAND_MAX)
    &&& LOWER_COLOR_BOUND <= a.color <= UPPER_COLOR_BOUND
    &&& (a.color - LOWER_COLOR_BOUND) % (CHANGE_COLOR_BY as int) == 0
}

/// One pulse step: reverse direction at a bound, then move one step.
pub open spec fn spec_pulse(color: u8, add: bool) -> (u8, bool) {
    let dir = if color <= LOWER_COLOR_BOUND {
        true
    } else if color >= UPPER_COLOR_BOUND {
        false
    } else {
        add
    };
    if dir {
        ((color + CHANGE_COLOR_BY) as u8, dir)
    } else {
        ((color - CHANGE_COLOR_BY) as u8, dir)
    }
}

/// The pulse never leaves its bounds and never stands still: it rises by
/// exactly one step while the direction is up and falls by one step while
/// it is down, reversing only at the bounds.
pub proof fn lemma_pulse_step(color: u8, add: bool)
    requires
        LOWER_COLOR_BOUND <= color <= UPPER_COLOR_BOUND,
        (color - LOWER_COLOR_BOUND) % (CHANGE_COLOR_BY as int) == 0,
    ensures
        LOWER_COLOR_BOUND <= spec_pulse(color, add).0 <= UPPER_COLOR_BOUND,
        (spec_pulse(color, add).0 - LOWER_COLOR_BOUND) % (CHANGE_COLOR_BY as int) == 0,
        spec_pulse(color, add).1 ==> spec_pulse(color, add).0 == color + CHANGE_COLOR_BY,
        !spec_pulse(color, add).1 ==> spec_pulse(color, add).0 == color - CHANGE_COLOR_BY,
        spec_pulse(color, add).1 == (color <= LOWER_COLOR_BOUND || (add && color
            < UPPER_COLOR_BOUND)),
{
    let c = color as int;
    let l = LOWER_COLOR_BOUND as int;
    let s = CHANGE_COLOR_BY as int;
    if l < color < UPPER_COLOR_BOUND {
        // On-grid and strictly inside the bounds: one step stays inside.
        vstd::arithmetic::div_mod::lemma_fundamental_div_mod(c - l, s);
        vstd::arithmetic::div_mod::lemma_mod_division_less_than_divisor(c - l, s);
        let q = (c - l) / s;
        assert(q >= 1) by (nonlinear_arith)
            requires
                c - l == s * q,
                c - l >= 1,
                s == 5,
        ;
        assert(s * q + s <= 105) by (nonlinear_arith)
            requires
                c - l == s * q,
                c - l <= 100,
                s == 5,
        ;
        assert((c + s - l) % s == 0 && (c - s - l) % s == 0) by {
            vstd::arithmetic::div_mod::lemma_mod_add_multiples_vanish(c - l, s);
            vstd::arithmetic::div_mod::lemma_mod_sub_multiples_vanish(c - l, s);
        }
    } else {
        assert((105int) % 5 == 0 && (0int) % 5 == 0 && (5int) % 5 == 0 && (100int) % 5 == 0);
    }
}

/// The event a key press maps to: quit on Escape, `q` or Ctrl-C; widen or
/// narrow the band on the arrow keys, finely with Shift held.
pub open spec fn spec_key_event(key: KeyPress) -> Option<AppEvent> {
    match key.code {
        KeyCode::Esc => Some(AppEvent::Quit),
        KeyCode::Char(c) => {
            if c == 'q' {
                Some(AppEvent::Quit)
            } else if (c == 'c' || c == 'C') && key.ctrl {
                Some(AppEvent::Quit)
            } else {
                None
            }
        },
        KeyCode::Up => Some(AppEvent::IncMult(key.shift)),
        KeyCode::Down => Some(AppEvent::DecMult(key.shift)),
        KeyCode::Other => None,
    }
}

/// A band widened by one step, clamped to the ceiling.
pub open spec fn spec_band_inc(b: u32, fine: bool) -> u32 {
    let s = if fine {
        BAND_STEP_FINE
    } else {
        BAND_STEP_COARSE
    };
    if b + s <= BAND_MAX {
        (b + s) as u32
    } else {
        BAND_MAX
    }
}

/// A band narrowed by one step, clamped to the floor.
pub open spec fn spec_band_dec(b: u32, fine: bool) -> u32 {
    let s = if fine {
        BAND_STEP_FINE
    } else {
        BAND_STEP_COARSE
    };
    if b >= BAND_MIN + s {
        (b - s) as u32
    } else {
        BAND_MIN
    }
}

/// First position of an instrument in the watch list, or `-1`.
pub open spec fn watch_idx(ws: Seq<String>, id: Seq<char>) -> int
    decreases ws.len(),
{
    if ws.len() == 0 {
        -1
    } else if ws[0]@ == id {
        0
    } else {
        let r = watch_idx(ws.drop_first(), id);
        if r == -1 {
            -1
        } else {
            1 + r
        }
    }
}

proof fn lemma_watch_idx(ws: Seq<String>, id: Seq<char>)
    ensures
        -1 <= watch_idx(ws, id) < ws.len(),
        watch_idx(ws, id) != -1 ==> ws[watch_idx(ws, id)]@ == id,
        forall|j: int| 0 <= j < watch_idx(ws, id) ==> (#[trigger] ws[j])@ != id,
        watch_idx(ws, id) == -1 ==> (forall|j: int| 0 <= j < ws.len() ==> (#[trigger] ws[j])@
            != id),
    decreases ws.len(),
{
    if ws.len() > 0 && ws[0]@ != id {
        let t = ws.drop_first();
        lemma_watch_idx(t, id);
        let r = watch_idx(t, id);
        if r != -1 {
            assert(ws[1 + r] == t[r]);
            assert forall|j: int| 0 <= j < watch_idx(ws, id) implies (#[trigger] ws[j])@
                != id by {
                if j >= 1 {
                    assert(ws[j] == t[j - 1]);
                }
            }
        } else {
            assert forall|j: int| 0 <= j < ws.len() implies (#[trigger] ws[j])@ != id by {
                if j >= 1 {
                    assert(ws[j] == t[j - 1]);
                }
            }
        }
    }
}

/// The band used for an instrument: its entry in the watch list, or one
/// percent for an instrument not watched.
pub open spec fn spec_band_of(a: App, id: Seq<char>) -> u32 {
    let i = watch_idx(a.watching@, id);
    if i == -1 || i >= a.bands@.len() {
        100u32
    } else {
        a.bands@[i]
    }
}

impl Default for App {
    /// The state before any configuration: one default instrument at the
    /// default band, running, pulse at its brightest and about to fall.
    fn default() -> (a: App)
        ensures
            app_wf(a),
            a.running,
            a.watching@.len() == 1,
            a.watching@[0]@ == "SOL-USD"@,
            a.start_time == 0,
            a.border_animation,
            a.color == UPPER_COLOR_BOUND,
            !a.color_add,
            a.bands@ =~= seq![BAND_DEFAULT],
            a.active_window == 0,
    {
        proof {
            reveal_strlit("SOL-USD");
        }
        let mut watching: Vec<String> = Vec::new();
        watching.push(String::from_str("SOL-USD"));
        let mut bands: Vec<u32> = Vec::new();
        bands.push(BAND_DEFAULT);
        App {
            running: true,
            watching,
            start_time: 0,
            border_animation: true,
            color: UPPER_COLOR_BOUND,
            color_add: false,
            bands,
            active_window: 0,
        }
    }
}

impl App {
    /// A state watching the given instruments, or the default one when
    /// none are given; every pane starts at the default band.
    pub fn new(watching: Option<Vec<String>>) -> (a: App)
        ensures
            app_wf(a),
            a.running,
            a.start_time == 0,
            a.border_animation,
            a.color == UPPER_COLOR_BOUND,
            !a.color_add,
            a.active_window == 0,
            (match watching {
                Some(v) => a.watching == v && a.bands@ =~= Seq::new(
                    v@.len(),
                    |i: int| BAND_DEFAULT,
                ),
                None => a.watching@.len() == 1 && a.watching@[0]@ == "SOL-USD"@ && a.bands@
                    =~= seq![BAND_DEFAULT],
            }),
    {
        match watching {
            Some(v) => {
                let mut bands: Vec<u32> = Vec::new();
                let n = v.len();
                let mut i: usize = 0;
                while i < n
                    invariant
                        i <= n,
                        bands@ =~= Seq::new(i as nat, |k: int| BAND_DEFAULT),
                    decreases n - i,
                {
                    bands.push(BAND_DEFAULT);
                    i = i + 1;
                    assert(bands@ =~= Seq::new(i as nat, |k: int| BAND_DEFAULT));
                }
                App {
                    running: true,
                    watching: v,
                    start_time: 0,
                    border_animation: true,
                    color: UPPER_COLOR_BOUND,
                    color_add: false,
                    bands,
                    active_window: 0,
                }
            },
            None => App::default(),
        }
    }

    /// Stops the render loop; nothing else changes.
    pub fn quit(&mut self)
        ensures
            *final(self) == (App { running: false, ..*old(self) }),
    {
        self.running = false;
    }

    /// One animation frame: move the pulse one step when the borders are
    /// animated, otherwise change nothing.
    pub fn tick(&mut self)
        requires
            app_wf(*old(self)),
        ensures
            app_wf(*final(self)),
            old(self).border_animation ==> *final(self) == (App {
                color: spec_pulse(old(self).color, old(self).color_add).0,
                color_add: spec_pulse(old(self).color, old(self).color_add).1,
                ..*old(self)
            }),
            !old(self).border_animation ==> *final(self) == *old(self),
    {
        if self.border_animation {
            self.calc_color();
        }
    }

    /// Moves the pulse one step, reversing direction at the bounds.
    pub fn calc_color(&mut self)
        requires
            app_wf(*old(self)),
        ensures
            app_wf(*final(self)),
            *final(self) == (App {
                color: spec_pulse(old(self).color, old(self).color_add).0,
                color_add: spec_pulse(old(self).color, old(self).color_add).1,
                ..*old(self)
            }),
    {
        proof {
            lemma_pulse_step(self.color, self.color_add);
        }
        if self.color <= LOWER_COLOR_BOUND {
            self.color_add = true;
        }
        if self.color >= UPPER_COLOR_BOUND {
            self.color_add = false;
        }
        if self.color_add {
            self.color = self.color + CHANGE_COLOR_BY;
        } else {
            self.color = self.color - CHANGE_COLOR_BY;
        }
    }

    /// Maps a key press to its application event; the state is untouched.
    pub fn handle_key_events(&mut self, key: KeyPress) -> (r: Option<AppEvent>)
        ensures
            *final(self) == *old(self),
            r == spec_key_event(key),
    {
        match key.code {
            KeyCode::Esc => Some(AppEvent::Quit),
            KeyCode::Char(c) => {
                if c == 'q' {
                    Some(AppEvent::Quit)
                } else if (c == 'c' || c == 'C') && key.ctrl {
                    Some(AppEvent::Quit)
                } else {
                    None
                }
            },
            KeyCode::Up => Some(AppEvent::IncMult(key.shift)),
            KeyCode::Down => Some(AppEvent::DecMult(key.shift)),
            KeyCode::Other => None,
        }
    }

    /// Applies one application event: quit stops the loop; the band
    /// events move the active pane's band one step within the clamps, and
    /// change nothing when no pane is active (the watch list is empty).
    pub fn apply_event(&mut self, ev: AppEvent)
        requires
            app_wf(*old(self)),
        ensures
            app_wf(*final(self)),
            (match ev {
                AppEvent::Quit => *final(self) == (App { running: false, ..*old(self) }),
                AppEvent::IncMult(fine) => {
                    if old(self).active_window < old(self).bands@.len() {
                        *final(self) == (App {
                            bands: final(self).bands,
                            ..*old(self)
                        }) && final(self).bands@ == old(self).bands@.update(
                            old(self).active_window as int,
                            spec_band_inc(old(self).bands@[old(self).active_window as int], fine),
                        )
                    } else {
                        *final(self) == *old(self)
                    }
                },
                AppEvent::DecMult(fine) => {
                    if old(self).active_window < old(self).bands@.len() {
                        *final(self) == (App {
                            bands: final(self).bands,
                            ..*old(self)
                        }) && final(self).bands@ == old(self).bands@.update(
                            old(self).active_window as int,
                            spec_band_dec(old(self).bands@[old(self).active_window as int], fine),
                        )
                    } else {
                        *final(self) == *old(self)
                    }
                },
            }),
    {
        match ev {
            AppEvent::Quit => {
                self.running = false;
            },
            AppEvent::IncMult(fine) => {
                if self.active_window < self.bands.len() {
                    let b = self.bands[self.active_window];
                    let s: u32 = if fine {
                        BAND_STEP_FINE
                    } else {
                        BAND_STEP_COARSE
                    };
                    let nb: u32 = if b + s <= BAND_MAX {
                        b + s
                    } else {
                        BAND_MAX
                    };
                    self.bands.set(self.active_window, nb);
                }
            },
            AppEvent::DecMult(fine) => {
                if self.active_window < self.bands.len() {
                    let b = self.bands[self.active_window];
                    let s: u32 = if fine {
                        BAND_STEP_FINE
                    } else {
                        BAND_STEP_COARSE
                    };
                    let nb: u32 = if b >= BAND_MIN + s {
                        b - s
                    } else {
                        BAND_MIN
                    };
                    self.bands.set(self.active_window, nb);
                }
            },
        }
    }

    /// The band used for an instrument's pane: its entry in the watch
    /// list, or one percent for an instrument not watched.
    pub fn get_coin_mult(&self, coin: &String) -> (b: u32)
        requires
            app_wf(*self),
        ensures
            b == spec_band_of(*self, coin@),
    {
        proof {
            lemma_watch_idx(self.watching@, coin@);
        }
        let n = self.watching.len();
        let mut i: usize = 0;
        while i < n
            invariant
                n == self.watching@.len(),
                i <= n,
                forall|j: int| 0 <= j < i ==> (#[trigger] self.watching@[j])@ != coin@,
            ensures
                i <= n,
                i < n ==> self.watching@[i as int]@ == coin@,
                forall|j: int| 0 <= j < i ==> (#[trigger] self.watching@[j])@ != coin@,
            decreases n - i,
        {
            if self.watching[i] == *coin {
                break ;
            }
            i = i + 1;
        }
        proof {
            lemma_watch_idx(self.watching@, coin@);
            if i < n {
                assert(watch_idx(self.watching@, coin@) == i);
            } else {
                assert(watch_idx(self.watching@, coin@) == -1);
            }
        }
        if i < n {
            self.bands[i]
        } else {
            100
        }
    }
}

} // verus!
