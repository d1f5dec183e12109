//! Layout, rendering and frame-loop rules of a terminal dashboard that shows
//! per-core CPU utilisation.
//!
//! The crate computes; it never touches a terminal. A caller hands it the size
//! of the viewport and the current metric samples and gets back the list of
//! things to draw, and it asks the frame loop what to do next after each step.
//!
//! - `geometry`: rectangles of terminal cells, and the area inside a border.
//! - `layout`: cutting a rectangle into slots along one axis.
//! - `layout_lemmas`: the arithmetic behind the partition.
//! - `grid`: the grid of gauges, two columns wide.
//! - `gauge`: from a utilisation value to the fill and the label of a gauge.
//! - `panel`: panels and the commands that draw them.
//! - `dashboard`: the panels of a frame and where they stand.
//! - `frame_loop`: the state machine of setup, ticks and teardown.

pub mod dashboard;
pub mod frame_loop;
pub mod gauge;
pub mod geometry;
pub mod grid;
pub mod layout;
pub mod layout_lemmas;
pub mod panel;
