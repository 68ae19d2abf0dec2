//! Rolling telemetry buffers and the engine that keeps a chart's vertical
//! range steady while the readings jump, drift or spike.
//!
//! Each channel owns a bounded window of recent points and a longer bounded
//! history (`graph::data`), and a view whose bounds follow the data:
//! expansion is immediate, shrinking waits for a run of calm frames, and a
//! lock freezes the view (`graph::shared`, `graph::bounds`). Channels are
//! driven from three sides: ingestion pushes readings parsed from telemetry
//! lines (`telemetry`), the renderer advances the view once per frame, and
//! operators send control commands over a line protocol (`net::remote`) or
//! from the keyboard (`controls`).
//!
//! All values are fixed-point numbers (`fixed`), so every operation has an
//! exact meaning. Each type has a mathematical model as its view, each
//! operation states its result over that model, and `graph::theorems`
//! proves what holds under every sequence of operations. The library takes
//! no lock itself: a caller that shares a channel between threads guards
//! it, and since every operation leaves a consistent channel consistent,
//! so does every interleaving of them.

pub mod controls;
pub mod fixed;
pub mod graph;
pub mod net;
pub mod panels;
pub mod telemetry;
pub mod text;
