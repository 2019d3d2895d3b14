//! State of the control panel: window flags, the highlighted orb, and the
//! fixed time step.
//!
//! The panel's drawing and hit-testing live with the rendering front end;
//! the state itself and the selection logic are plain values kept here.

use vstd::prelude::*;

verus! {

/// The time step the panel starts with: `0.015` seconds in fixed-point
/// units.
pub const DEFAULT_DELTA_TIME: i64 = 15_000;

/// Which orb the control panel highlights.
#[derive(Debug, PartialEq, Eq, Structural, Clone, Copy)]
pub enum OrbOption {
    Orb1,
    Orb2,
    Orb3,
}

/// The number the panel reports for a selection: `1`, `2` or `3`, or `0`
/// for no selection.
pub open spec fn orb_number(selected: Option<OrbOption>) -> int {
    match selected {
        Option::None => 0,
        Option::Some(OrbOption::Orb1) => 1,
        Option::Some(OrbOption::Orb2) => 2,
        Option::Some(OrbOption::Orb3) => 3,
    }
}

/// The control panel's state.  Using a fixed time step, rather than the
/// frame's elapsed time, keeps the integration error from compounding with
/// the frame rate.
#[derive(Debug, Clone, Copy)]
pub struct Store {
    pub close_window: bool,
    pub minimize: bool,
    pub selected_orb: Option<OrbOption>,
    pub fixed_delta_time: i64,
}

impl Store {
    pub fn new() -> (r: Self)
        ensures
            !r.close_window,
            r.minimize,
            r.selected_orb == Option::<OrbOption>::None,
            r.fixed_delta_time == DEFAULT_DELTA_TIME,
    {
        Self {
            close_window: false,
            minimize: true,
            selected_orb: None,
            fixed_delta_time: DEFAULT_DELTA_TIME,
        }
    }

    /// The number of the selected orb: `1`, `2` or `3`, or `0` when none is
    /// selected.
    pub fn get_selected_orb_number(&self) -> (r: u8)
        ensures
            r as int == orb_number(self.selected_orb),
    {
        match &self.selected_orb {
            Some(o) => match o {
                OrbOption::Orb1 => 1,
                OrbOption::Orb2 => 2,
                OrbOption::Orb3 => 3,
            },
            None => 0,
        }
    }
}

} // verus!
