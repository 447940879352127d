# gneiss_rtk

Verified decision and bookkeeping logic of a GNSS/INS real-time-kinematic
(RTK) positioning engine, written in Verus.

The engine fuses satellite observations with inertial data in an extended
Kalman filter, resolves carrier-phase ambiguities, validates fixes against a
two-epoch factor graph and smooths trajectories backwards. The numerical
parts work in floating point; this crate holds the discrete logic around
them, each function with a contract proved by Verus:

| module      | contents |
|-------------|----------|
| `types`     | engine modes and their classes, dynamics and ionosphere models, engine errors |
| `sat`       | constellations, satellite identifiers, SP3 identifiers, clock-bias state columns, reference satellites |
| `dispatch`  | solver per mode, epoch error handling and coasting, observation masks |
| `epoch`     | state creation, single-point routing, inertial and constraint gating, alignment gating |
| `control`   | rejection counters and resets, re-seeding, ambiguity-fix validation cascade |
| `ambiguity` | ambiguity maps between epochs, matched ambiguities, measurement-row layouts |
| `factor`    | two-epoch factor-graph layout and factor planning |
| `tracking`  | last-observed record of tracked signals, pseudorange windows |
| `smoothing` | backward-pass frozen states, transition entries, inversion plan, shape checks |
| `tdcp`      | pairing of time-differenced carrier phases |
| `multibase` | base routing, primary base, cross-base agreement |
| `orbit`     | precise-orbit sample window |
| `tcar`      | cascade ambiguity recovery |
| `window`    | sliding window |

`app/` holds the floating-point numerics (combiners, interpolation, matrix
work of the smoother, factor residuals) and serialisable copies of the
configuration enums; where it makes a decision it calls the verified
function for it.

The processors that drive the filter are not part of this crate: the
processing engine's per-mode epoch loops (RTK, multi-base RTK, SPP, the
loosely coupled variants), the TDCP velocity solver, the two-epoch
factor-graph run and the TCAR resolvers. They need the filter state, the
single-point solver, the measurement updater and the core and parser
crates of the GNSS workspace (ephemerides, time, satellite geometry),
whose sources are not available to this build, so they can be neither
verified nor compiled here. What those processors decide stands in the
library as functions that take what the numerics produce as plain values
and return the next step.
