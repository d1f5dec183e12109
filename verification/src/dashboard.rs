//! The dashboard: which panels stand where, and what is drawn for a frame.
//!
//! The viewport is framed by the root panel. Inside it, the left half lists
//! deployments and the right half is the system overview. The overview is cut
//! into an upper and a lower half; the upper half holds the CPU panel on the
//! left and the memory panel on the right, the lower half holds the storage
//! panel. Inside the CPU panel stands the grid of gauges, one for each sample.
//! Deployments, memory and storage are reserved: they are drawn as titled,
//! empty boxes.
//!
//! Nothing is kept from one frame to the next: every frame is computed from
//! the size of the viewport and the samples of that moment.

use crate::gauge::MetricSample;
use crate::geometry::{interior_of, Axis, Rectangle};
use crate::grid::{
    cell_area, cpu_grid, grid_cells_lie_within, grid_shape, is_grid, row_count, GridRow,
};
use crate::layout::{halve, halves, slot_geometry, slot_rect};
use crate::panel::{gauge_title, render, rendered, ContentView, DrawCommand, Panel, PanelView};
use vstd::prelude::*;

verus! {

/// Number of panels that do not depend on the samples.
pub const FIXED_PANELS: usize = 6;

/// Place of the first gauge among the panels of a frame: behind the root
/// panel, the deployments and the system overview.
pub const FIRST_GAUGE: usize = 3;

/// The areas of the dashboard.
#[derive(Clone, Copy, Debug, PartialEq, Eq, Structural)]
pub struct Regions {
    /// The root panel: the whole viewport.
    pub root: Rectangle,
    /// The list of deployments: the left half inside the root panel.
    pub deployments: Rectangle,
    /// The system overview: the right half inside the root panel.
    pub system: Rectangle,
    /// The CPU panel: upper left inside the system overview.
    pub cpu: Rectangle,
    /// The memory panel: upper right inside the system overview.
    pub memory: Rectangle,
    /// The storage panel: the lower half inside the system overview.
    pub storage: Rectangle,
    /// The grid of gauges: what is inside the CPU panel.
    pub gauges: Rectangle,
}

/// The left half of an area.
pub open spec fn left_of(area: Rectangle) -> Rectangle {
    slot_rect(area, Axis::Horizontal, halves(), 0)
}

/// The right half of an area.
pub open spec fn right_of(area: Rectangle) -> Rectangle {
    slot_rect(area, Axis::Horizontal, halves(), 1)
}

/// The upper half of an area.
pub open spec fn upper_of(area: Rectangle) -> Rectangle {
    slot_rect(area, Axis::Vertical, halves(), 0)
}

/// The lower half of an area.
pub open spec fn lower_of(area: Rectangle) -> Rectangle {
    slot_rect(area, Axis::Vertical, halves(), 1)
}

/// The areas of the dashboard on a viewport.
pub open spec fn regions_of(viewport: Rectangle) -> Regions {
    let system = right_of(interior_of(viewport));
    let cpu = left_of(upper_of(interior_of(system)));
    Regions {
        root: viewport,
        deployments: left_of(interior_of(viewport)),
        system,
        cpu,
        memory: right_of(upper_of(interior_of(system))),
        storage: lower_of(interior_of(system)),
        gauges: interior_of(cpu),
    }
}

/// A placeholder panel as a mathematical value.
pub open spec fn placeholder_view(title: Seq<char>, area: Rectangle) -> PanelView {
    PanelView { title, area, content: ContentView::Empty }
}

/// The panel at place `k` of a frame, in the order of drawing: the root
/// panel, the deployments, the system overview, one gauge for each sample, the
/// CPU panel that frames the gauges, memory and storage. All but the gauges
/// are placeholders: nothing is bound to them yet.
pub open spec fn panel_at(viewport: Rectangle, samples: Seq<MetricSample>, k: int) -> PanelView {
    let regions = regions_of(viewport);
    let n = samples.len() as int;
    if k == 0 {
        placeholder_view("Deployment Manager"@, regions.root)
    } else if k == 1 {
        placeholder_view("Deployments"@, regions.deployments)
    } else if k == 2 {
        placeholder_view("System Overview"@, regions.system)
    } else if k < FIRST_GAUGE + n {
        let i = k - FIRST_GAUGE;
        PanelView {
            title: gauge_title(samples[i].name@),
            area: cell_area(regions.gauges, n, i / 2, i % 2),
            content: ContentView::Gauge(samples[i].tenths as int),
        }
    } else if k == FIRST_GAUGE + n {
        placeholder_view("CPU"@, regions.cpu)
    } else if k == FIRST_GAUGE + n + 1 {
        placeholder_view("MEM"@, regions.memory)
    } else {
        placeholder_view("Storage"@, regions.storage)
    }
}

/// `panels` are the panels of the frame for `samples` on `viewport`.
pub open spec fn is_composition(
    panels: Seq<Panel>,
    viewport: Rectangle,
    samples: Seq<MetricSample>,
) -> bool {
    &&& panels.len() == samples.len() + FIXED_PANELS
    &&& forall|k: int|
        0 <= k < panels.len() ==> (#[trigger] panels[k])@ == panel_at(viewport, samples, k)
}

/// `commands` draw the frame for `samples` on `viewport`: one command for
/// each panel, in the order of the panels.
pub open spec fn is_frame(
    commands: Seq<DrawCommand>,
    viewport: Rectangle,
    samples: Seq<MetricSample>,
) -> bool {
    &&& commands.len() == samples.len() + FIXED_PANELS
    &&& forall|k: int|
        0 <= k < commands.len() ==> (#[trigger] commands[k])@ == rendered(
            panel_at(viewport, samples, k),
        )
}

/// The commands that draw a frame: what `render` gives for each panel of the
/// frame, in the order of the panels.
pub fn draw_frame(viewport: Rectangle, samples: &[MetricSample]) -> (commands: Vec<DrawCommand>)
    requires
        viewport.wf(),
    ensures
        is_frame(commands@, viewport, samples@),
{
    let panels: Vec<Panel> = compose(viewport, samples);
    let mut commands: Vec<DrawCommand> = Vec::new();
    let mut k: usize = 0;
    while k < panels.len()
        invariant
            is_composition(panels@, viewport, samples@),
            k <= panels@.len(),
            commands@.len() == k,
            forall|j: int|
                0 <= j < k ==> (#[trigger] commands@[j])@ == rendered(
                    panel_at(viewport, samples@, j),
                ),
        decreases panels@.len() - k,
    {
        commands.push(render(&panels[k]));
        k = k + 1;
    }
    commands
}

/// The panels of a frame, in the order in which they are drawn.
pub fn compose(viewport: Rectangle, samples: &[MetricSample]) -> (panels: Vec<Panel>)
    requires
        viewport.wf(),
    ensures
        is_composition(panels@, viewport, samples@),
{
    let areas: Regions = regions(viewport);
    let n: usize = samples.len();
    proof {
        lemma_regions_within(viewport);
        grid_shape(n as int);
    }
    let grid: Vec<GridRow> = cpu_grid(areas.gauges, n);
    let mut panels: Vec<Panel> = Vec::new();
    panels.push(Panel::placeholder("Deployment Manager", areas.root));
    panels.push(Panel::placeholder("Deployments", areas.deployments));
    panels.push(Panel::placeholder("System Overview", areas.system));
    let mut i: usize = 0;
    while i < n
        invariant
            n == samples@.len(),
            areas == regions_of(viewport),
            is_grid(grid@, areas.gauges, n as int),
            i <= n,
            panels@.len() == i + FIRST_GAUGE,
            forall|k: int|
                0 <= k < panels@.len() ==> (#[trigger] panels@[k])@ == panel_at(
                    viewport,
                    samples@,
                    k,
                ),
        decreases n - i,
    {
        let row: usize = i / 2;
        let column: usize = i % 2;
        proof {
            grid_shape(n as int);
        }
        let area: Rectangle = grid[row].cells[column].area;
        panels.push(Panel::gauge(&samples[i], area));
        i = i + 1;
    }
    panels.push(Panel::placeholder("CPU", areas.cpu));
    panels.push(Panel::placeholder("MEM", areas.memory));
    panels.push(Panel::placeholder("Storage", areas.storage));
    panels
}

/// The areas of the dashboard on `viewport`.
pub fn regions(viewport: Rectangle) -> (areas: Regions)
    requires
        viewport.wf(),
    ensures
        areas == regions_of(viewport),
{
    let (deployments, system) = calculate_layout(viewport.interior());
    let (upper, lower) = halve(system.interior(), Axis::Vertical);
    let (cpu, memory) = halve(upper, Axis::Horizontal);
    Regions {
        root: viewport,
        deployments,
        system,
        cpu,
        memory,
        storage: lower,
        gauges: cpu.interior(),
    }
}

/// Cuts the area inside the root panel into the half of the deployments, on
/// the left, and the half of the system overview, on the right.
pub fn calculate_layout(area: Rectangle) -> (sides: (Rectangle, Rectangle))
    requires
        area.wf(),
    ensures
        sides.0 == left_of(area),
        sides.1 == right_of(area),
        sides.0 == (Rectangle {
            x: area.x,
            y: area.y,
            width: (area.width / 2) as u16,
            height: area.height,
        }),
        sides.1 == (Rectangle {
            x: (area.x + area.width / 2) as u16,
            y: area.y,
            width: (area.width - area.width / 2) as u16,
            height: area.height,
        }),
        sides.0.wf(),
        sides.1.wf(),
{
    halve(area, Axis::Horizontal)
}

/// A frame depends on the viewport and the samples alone: nothing is carried
/// over from an earlier frame, so two frames for the same viewport and samples
/// that name the same units with the same values are alike, command by
/// command.
pub proof fn frame_depends_on_inputs_alone(
    viewport: Rectangle,
    samples: Seq<MetricSample>,
    again: Seq<MetricSample>,
    first: Seq<DrawCommand>,
    second: Seq<DrawCommand>,
)
    requires
        samples.len() == again.len(),
        forall|i: int|
            0 <= i < samples.len() ==> (#[trigger] samples[i]).name@ == again[i].name@
                && samples[i].tenths == again[i].tenths,
        is_frame(first, viewport, samples),
        is_frame(second, viewport, again),
    ensures
        first.len() == second.len(),
        forall|k: int| 0 <= k < first.len() ==> (#[trigger] first[k])@ == second[k]@,
{
    assert forall|k: int| 0 <= k < first.len() implies (#[trigger] first[k])@ == second[k]@ by {
        if FIRST_GAUGE <= k < FIRST_GAUGE + samples.len() {
            let i: int = k - FIRST_GAUGE;
            assert(samples[i].name@ == again[i].name@);
        }
        assert(panel_at(viewport, samples, k) == panel_at(viewport, again, k));
        assert(second[k]@ == rendered(panel_at(viewport, again, k)));
    }
}

/// Every panel of a frame lies within the viewport, whatever the samples
/// report: no gauge is drawn outside the CPU panel, and no panel outside the
/// root panel.
pub proof fn panels_lie_within(viewport: Rectangle, samples: Seq<MetricSample>, k: int)
    requires
        viewport.wf(),
        0 <= k < samples.len() + FIXED_PANELS,
    ensures
        panel_at(viewport, samples, k).area.wf(),
        viewport.encloses(panel_at(viewport, samples, k).area),
        FIRST_GAUGE <= k < FIRST_GAUGE + samples.len() ==> regions_of(viewport).gauges.encloses(
            panel_at(viewport, samples, k).area,
        ),
{
    let n: int = samples.len() as int;
    let regions = regions_of(viewport);
    lemma_regions_within(viewport);
    if FIRST_GAUGE <= k < FIRST_GAUGE + n {
        let row: int = (k - FIRST_GAUGE) / 2;
        let column: int = (k - FIRST_GAUGE) % 2;
        assert(row < row_count(n)) by {
            grid_shape(n);
        }
        grid_cells_lie_within(regions.gauges, n, row, column);
    }
}

/// Every area of the dashboard lies within the viewport.
pub proof fn lemma_regions_within(viewport: Rectangle)
    requires
        viewport.wf(),
    ensures
        ({
            let regions = regions_of(viewport);
            &&& regions.deployments.wf() && viewport.encloses(regions.deployments)
            &&& regions.system.wf() && viewport.encloses(regions.system)
            &&& regions.cpu.wf() && regions.system.encloses(regions.cpu)
            &&& regions.memory.wf() && regions.system.encloses(regions.memory)
            &&& regions.storage.wf() && regions.system.encloses(regions.storage)
            &&& regions.gauges.wf() && regions.cpu.encloses(regions.gauges)
        }),
{
    let inside = interior_of(viewport);
    lemma_interior_within(viewport);
    lemma_half_within(inside, Axis::Horizontal, 0);
    lemma_half_within(inside, Axis::Horizontal, 1);
    let system = right_of(inside);
    let overview = interior_of(system);
    lemma_interior_within(system);
    lemma_half_within(overview, Axis::Vertical, 0);
    lemma_half_within(overview, Axis::Vertical, 1);
    let upper = upper_of(overview);
    lemma_half_within(upper, Axis::Horizontal, 0);
    lemma_half_within(upper, Axis::Horizontal, 1);
    let cpu = left_of(upper);
    lemma_interior_within(cpu);
    assert(system.encloses(upper));
    assert(system.encloses(cpu));
    assert(system.encloses(right_of(upper)));
    assert(system.encloses(lower_of(overview)));
}

/// What is inside the border of an area lies within the area.
pub proof fn lemma_interior_within(area: Rectangle)
    requires
        area.wf(),
    ensures
        interior_of(area).wf(),
        area.encloses(interior_of(area)),
{
}

/// Each half of an area lies within the area.
pub proof fn lemma_half_within(area: Rectangle, axis: Axis, half: int)
    requires
        area.wf(),
        0 <= half < 2,
    ensures
        slot_rect(area, axis, halves(), half).wf(),
        area.encloses(slot_rect(area, axis, halves(), half)),
{
    slot_geometry(area, axis, halves(), half);
}

} // verus!
