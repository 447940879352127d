//! Decision and bookkeeping logic of a GNSS/INS real-time-kinematic
//! processing engine: engine modes and errors, satellite identifiers,
//! ambiguity-state bookkeeping between epochs, the factor-graph layout,
//! filter rejection and reset control, the backward smoother's state
//! selection, time-differenced carrier-phase pairing, multi-base
//! selection and agreement, and sliding windows.
pub mod ambiguity;
pub mod control;
pub mod dispatch;
pub mod epoch;
pub mod factor;
pub mod multibase;
pub mod orbit;
pub mod sat;
pub mod smoothing;
pub mod tcar;
pub mod tdcp;
pub mod tracking;
pub mod types;
pub mod window;
