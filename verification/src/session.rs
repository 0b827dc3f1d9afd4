//! The drawing session: instrument state, the rolling sample history, and
//! the per-event transition that turns digitizer events into actions —
//! tap-through, or a tessellated stroke segment ready to rasterize.

use vstd::prelude::*;

use crate::geometry::canvas_contains;
use crate::raster::Segment;

verus! {

/// One digitizer report taken while the instrument touches the drawable
/// region: a pixel position and a pressure reading.
#[derive(Clone, Copy, Debug, PartialEq, Eq, Structural)]
pub struct Sample {
    pub x: i32,
    pub y: i32,
    pub pressure: u16,
}

/// Which end of the instrument an `InstrumentChange` event reports on.
#[derive(Clone, Copy, Debug, PartialEq, Eq, Structural)]
pub enum Tool {
    /// The pen tip is in or out of range.
    Pen,
    /// The eraser end is in or out of range.
    Rubber,
    /// The instrument makes or breaks contact with the surface.
    Touch,
}

/// A digitizer event, one per report.
#[derive(Clone, Copy, Debug, PartialEq, Eq, Structural)]
pub enum Event {
    Draw { x: i32, y: i32, pressure: u16 },
    InstrumentChange { tool: Tool, state: bool },
    Hover { distance: u16 },
    Other,
}

/// The two ink colors the display supports.
#[derive(Clone, Copy, Debug, PartialEq, Eq, Structural)]
pub enum Color {
    Black,
    White,
}

/// What the caller owes after one event: nothing, a widget hit-test at the
/// reported position, or the rasterization of one stroke segment.
#[derive(Clone, Copy, Debug, PartialEq, Eq, Structural)]
pub enum Action {
    Nothing,
    TapThrough { x: i32, y: i32 },
    Paint { seg: Segment, color: Color },
}

/// Hover distances above this threshold mean the instrument is clearly
/// detached from the surface; smaller readings are sensor noise.
pub const HOVER_THRESHOLD: u16 = 1;

/// Nib radius multiplier: wide for the eraser end, narrow for the pen tip.
pub open spec fn mult_of(eraser: bool) -> int {
    if eraser {
        50
    } else {
        3
    }
}

/// The other one of the two supported colors.
pub open spec fn toggle(c: Color) -> Color {
    match c {
        Color::White => Color::Black,
        Color::Black => Color::White,
    }
}

/// Ink color for the active nib. The eraser does not restore background
/// content: it paints the color that cancels the foreground, the toggle of
/// black, since the system has only two colors.
pub open spec fn effective_color(eraser: bool) -> Color {
    if eraser {
        toggle(Color::Black)
    } else {
        Color::Black
    }
}

/// Pressure-modulated nib radius, scaled by 4096: the on-screen radius in
/// pixels is `mult * pressure / 2048 / 2`.
pub open spec fn radius_scaled(mult: int, pressure: int) -> int {
    mult * pressure
}

/// The nib radius grows with pressure.
pub proof fn lemma_radius_monotonic(mult: int, p0: int, p1: int)
    requires
        0 <= mult,
        0 <= p0 <= p1,
    ensures
        radius_scaled(mult, p0) <= radius_scaled(mult, p1),
{
    vstd::arithmetic::mul::lemma_mul_inequality(p0, p1, mult);
    vstd::arithmetic::mul::lemma_mul_is_commutative(p0, mult);
    vstd::arithmetic::mul::lemma_mul_is_commutative(p1, mult);
}

/// The curve segment tessellated from three consecutive samples, oldest
/// first: a quadratic through the midpoints of consecutive samples with the
/// middle raw sample as control point, and widths tapered by the flanking
/// radii. Coordinates are doubled so midpoints stay exact; widths carry the
/// 4096 scale of `radius_scaled`.
pub open spec fn segment_spec(s0: Sample, s1: Sample, s2: Sample, mult: int) -> Segment {
    Segment {
        sx2: (s2.x + s1.x) as i32,
        sy2: (s2.y + s1.y) as i32,
        cx2: (2 * s1.x) as i32,
        cy2: (2 * s1.y) as i32,
        ex2: (s1.x + s0.x) as i32,
        ey2: (s1.y + s0.y) as i32,
        ws: (radius_scaled(mult, s2.pressure as int) + radius_scaled(
            mult,
            s1.pressure as int,
        )) as i32,
        wc: (2 * radius_scaled(mult, s1.pressure as int)) as i32,
        we: (radius_scaled(mult, s1.pressure as int) + radius_scaled(
            mult,
            s0.pressure as int,
        )) as i32,
    }
}

/// A sample the tracker may keep: its position lies in the drawable region.
pub open spec fn sample_in_canvas(s: Sample) -> bool {
    canvas_contains(s.x as int, s.y as int)
}

/// Tessellate one segment from three consecutive in-canvas samples, oldest
/// first. Start and end widths are the sums of the two flanking radii, so
/// the drawn width tapers linearly between them.
pub fn tessellate(s0: Sample, s1: Sample, s2: Sample, eraser: bool) -> (seg: Segment)
    requires
        sample_in_canvas(s0),
        sample_in_canvas(s1),
        sample_in_canvas(s2),
    ensures
        seg == segment_spec(s0, s1, s2, mult_of(eraser)),
        seg.valid(),
{
    let mult: i32 = if eraser {
        50
    } else {
        3
    };
    let r0 = mult * s0.pressure as i32;
    let r1 = mult * s1.pressure as i32;
    let r2 = mult * s2.pressure as i32;
    Segment {
        sx2: s2.x + s1.x,
        sy2: s2.y + s1.y,
        cx2: 2 * s1.x,
        cy2: 2 * s1.y,
        ex2: s1.x + s0.x,
        ey2: s1.y + s0.y,
        ws: r2 + r1,
        wc: 2 * r1,
        we: r1 + r0,
    }
}

/// The tracker's state between events, as mathematical values.
#[verifier::ext_equal]
pub struct SessionView {
    pub history: Seq<Sample>,
    pub in_range: bool,
    pub eraser: bool,
    pub unpress_observed: bool,
}

/// The session invariant: the rolling history never holds more than two
/// samples between events (a third triggers tessellation within the same
/// event), and every kept sample lies in the drawable region.
pub open spec fn inv(v: SessionView) -> bool {
    &&& v.history.len() <= 2
    &&& forall|i: int| 0 <= i < v.history.len() ==> sample_in_canvas(#[trigger] v.history[i])
}

/// The state after one event.
pub open spec fn step_state(v: SessionView, ev: Event) -> SessionView {
    match ev {
        Event::Draw { x, y, pressure } => {
            if !canvas_contains(x as int, y as int) {
                SessionView { history: Seq::empty(), unpress_observed: false, ..v }
            } else {
                let h = v.history.push(Sample { x, y, pressure });
                if h.len() >= 3 {
                    SessionView { history: h.drop_first(), ..v }
                } else {
                    SessionView { history: h, ..v }
                }
            }
        },
        Event::InstrumentChange { tool, state } => match tool {
            Tool::Pen => SessionView { in_range: state, eraser: false, ..v },
            Tool::Rubber => SessionView { in_range: state, eraser: true, ..v },
            Tool::Touch => {
                if !state {
                    SessionView { history: Seq::empty(), ..v }
                } else {
                    v
                }
            },
        },
        Event::Hover { distance } => {
            if distance > HOVER_THRESHOLD {
                SessionView { history: Seq::empty(), unpress_observed: true, ..v }
            } else {
                v
            }
        },
        Event::Other => v,
    }
}

/// The action owed after one event.
pub open spec fn step_action(v: SessionView, ev: Event) -> Action {
    match ev {
        Event::Draw { x, y, pressure } => {
            if !canvas_contains(x as int, y as int) {
                if v.unpress_observed {
                    Action::TapThrough { x, y }
                } else {
                    Action::Nothing
                }
            } else {
                let h = v.history.push(Sample { x, y, pressure });
                if h.len() >= 3 {
                    Action::Paint {
                        seg: segment_spec(h[0], h[1], h[2], mult_of(v.eraser)),
                        color: effective_color(v.eraser),
                    }
                } else {
                    Action::Nothing
                }
            }
        },
        _ => Action::Nothing,
    }
}

/// One event never grows the history past the bound and keeps every stored
/// sample inside the drawable region.
pub proof fn lemma_step_preserves_inv(v: SessionView, ev: Event)
    requires
        inv(v),
    ensures
        inv(step_state(v, ev)),
{
}

/// The history is bounded by the window size: it always holds 0 to 3
/// samples, and between events at most 2.
pub proof fn lemma_history_bounded(v: SessionView)
    requires
        inv(v),
    ensures
        v.history.len() <= 3,
{
}

/// A draw outside the drawable region abandons the stroke: the history is
/// cleared in one step, nothing is painted, and a tap-through fires exactly
/// when a hover-exit armed it.
pub proof fn lemma_out_of_canvas_draw_abandons(v: SessionView, x: i32, y: i32, pressure: u16)
    requires
        inv(v),
        !canvas_contains(x as int, y as int),
    ensures
        step_state(v, Event::Draw { x, y, pressure }).history.len() == 0,
        !(step_action(v, Event::Draw { x, y, pressure }) is Paint),
        v.unpress_observed ==> step_action(v, Event::Draw { x, y, pressure })
            == (Action::TapThrough { x, y }),
        !v.unpress_observed ==> step_action(v, Event::Draw { x, y, pressure }) == Action::Nothing,
{
}

/// A stroke abandoned as a tap fires its tap-through exactly once: the
/// event consumes the armed flag, so repeating the same draw yields nothing.
pub proof fn lemma_tap_through_fires_once(v: SessionView, x: i32, y: i32, pressure: u16)
    requires
        inv(v),
        v.unpress_observed,
        !canvas_contains(x as int, y as int),
    ensures
        step_action(v, Event::Draw { x, y, pressure }) == (Action::TapThrough { x, y }),
        step_action(step_state(v, Event::Draw { x, y, pressure }), Event::Draw { x, y, pressure })
            == Action::Nothing,
{
}

/// Toggling to the eraser nib takes effect on the very next draw: with a
/// full window, the painted segment uses the eraser multiplier and the
/// eraser color, with no stale state from the previous stroke.
pub proof fn lemma_eraser_takes_effect(v: SessionView, state: bool, x: i32, y: i32, pressure: u16)
    requires
        inv(v),
        v.history.len() == 2,
        canvas_contains(x as int, y as int),
    ensures
        ({
            let v1 = step_state(v, Event::InstrumentChange { tool: Tool::Rubber, state });
            let h = v1.history.push(Sample { x, y, pressure });
            &&& v1.eraser
            &&& step_action(v1, Event::Draw { x, y, pressure }) == (Action::Paint {
                seg: segment_spec(h[0], h[1], h[2], 50),
                color: Color::White,
            })
        }),
{
}

/// The drawing session: instrument flags and the rolling sample history,
/// owned by the input loop and updated once per digitizer event.
pub struct Session {
    history: Vec<Sample>,
    in_range: bool,
    eraser: bool,
    unpress_observed: bool,
}

impl View for Session {
    type V = SessionView;

    closed spec fn view(&self) -> SessionView {
        SessionView {
            history: self.history@,
            in_range: self.in_range,
            eraser: self.eraser,
            unpress_observed: self.unpress_observed,
        }
    }
}

impl Session {
    /// A fresh session: empty history, pen nib, not in range, no hover-exit
    /// observed.
    pub fn new() -> (s: Session)
        ensures
            inv(s@),
            s@ == (SessionView {
                history: Seq::<Sample>::empty(),
                in_range: false,
                eraser: false,
                unpress_observed: false,
            }),
    {
        let s = Session { history: Vec::new(), in_range: false, eraser: false, unpress_observed: false };
        proof {
            assert(s@ =~= SessionView {
                history: Seq::<Sample>::empty(),
                in_range: false,
                eraser: false,
                unpress_observed: false,
            });
        }
        s
    }

    /// Number of samples currently held by the rolling history.
    pub fn history_len(&self) -> (n: usize)
        ensures
            n == self@.history.len(),
    {
        self.history.len()
    }

    /// Whether the eraser end is the active nib.
    pub fn is_eraser(&self) -> (r: bool)
        ensures
            r == self@.eraser,
    {
        self.eraser
    }

    /// Whether the instrument is in range of the surface.
    pub fn is_in_range(&self) -> (r: bool)
        ensures
            r == self@.in_range,
    {
        self.in_range
    }

    /// Whether a hover-exit has armed the tap-through path.
    pub fn tap_armed(&self) -> (r: bool)
        ensures
            r == self@.unpress_observed,
    {
        self.unpress_observed
    }

    /// Consume one digitizer event: update the instrument state and the
    /// rolling history, and return what the caller owes — nothing, a widget
    /// hit-test, or one segment to rasterize.
    pub fn handle_event(&mut self, ev: Event) -> (a: Action)
        requires
            inv(old(self)@),
        ensures
            inv(final(self)@),
            final(self)@ == step_state(old(self)@, ev),
            a == step_action(old(self)@, ev),
            a matches Action::Paint { seg, color } ==> seg.valid(),
    {
        proof {
            lemma_step_preserves_inv(old(self)@, ev);
        }
        match ev {
            Event::Draw { x, y, pressure } => {
                if !crate::geometry::in_canvas(x, y) {
                    self.history.clear();
                    let armed = self.unpress_observed;
                    self.unpress_observed = false;
                    proof {
                        assert(self@ =~= step_state(old(self)@, ev));
                    }
                    if armed {
                        Action::TapThrough { x, y }
                    } else {
                        Action::Nothing
                    }
                } else {
                    self.history.push(Sample { x, y, pressure });
                    if self.history.len() >= 3 {
                        let s0 = self.history.remove(0);
                        let s1 = self.history[0];
                        let s2 = self.history[1];
                        let seg = tessellate(s0, s1, s2, self.eraser);
                        proof {
                            let h = old(self)@.history.push(Sample { x, y, pressure });
                            assert(self@.history =~= h.drop_first());
                            assert(self@ =~= step_state(old(self)@, ev));
                        }
                        Action::Paint { seg, color: self.color_for_nib() }
                    } else {
                        proof {
                            assert(self@ =~= step_state(old(self)@, ev));
                        }
                        Action::Nothing
                    }
                }
            },
            Event::InstrumentChange { tool, state } => {
                match tool {
                    Tool::Pen => {
                        self.in_range = state;
                        self.eraser = false;
                    },
                    Tool::Rubber => {
                        self.in_range = state;
                        self.eraser = true;
                    },
                    Tool::Touch => {
                        if !state {
                            self.history.clear();
                        }
                    },
                }
                proof {
                    assert(self@ =~= step_state(old(self)@, ev));
                }
                Action::Nothing
            },
            Event::Hover { distance } => {
                if distance > HOVER_THRESHOLD {
                    self.history.clear();
                    self.unpress_observed = true;
                }
                proof {
                    assert(self@ =~= step_state(old(self)@, ev));
                }
                Action::Nothing
            },
            Event::Other => {
                proof {
                    assert(self@ =~= step_state(old(self)@, ev));
                }
                Action::Nothing
            },
        }
    }

    /// Ink color for the active nib.
    fn color_for_nib(&self) -> (c: Color)
        ensures
            c == effective_color(self@.eraser),
    {
        if self.eraser {
            Color::White
        } else {
            Color::Black
        }
    }
}

} // verus!
