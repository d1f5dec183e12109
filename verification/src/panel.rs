//! Panels and what is drawn for them.
//!
//! A panel is a titled, bordered region. It is empty, holds a static text, or
//! shows the value of a sample as a gauge. Rendering turns a panel into a draw
//! command, which says all that the display surface needs to know; it reads
//! the panel and changes nothing.

use crate::gauge::{
    fill_of, gauge_fill, percent_label, percent_text, MetricSample, FULL_SCALE,
};
use crate::geometry::Rectangle;
use vstd::prelude::*;
use vstd::string::*;

verus! {

/// What a panel shows inside its border.
#[derive(Clone, Debug, PartialEq, Eq)]
pub enum PanelContent {
    /// Nothing: a placeholder.
    Empty,
    /// A static text.
    Text(String),
    /// A gauge for a utilisation, given in tenths of a percent.
    Gauge(i64),
}

/// A titled, bordered region of the display.
#[derive(Clone, Debug, PartialEq, Eq)]
pub struct Panel {
    /// The title, written into the top border.
    pub title: String,
    /// The terminal cells that the panel covers, border included.
    pub area: Rectangle,
    /// What stands inside the border.
    pub content: PanelContent,
}

/// An instruction to the display surface: draw a bordered box on `area` with
/// `title` in its top border, fill a bar to `fill` thousandths of its width if
/// there is a fill, and write `label` inside if there is a label.
#[derive(Clone, Debug, PartialEq, Eq)]
pub struct DrawCommand {
    /// The terminal cells of the box, border included.
    pub area: Rectangle,
    /// The title of the box.
    pub title: String,
    /// Fill of the gauge bar in thousandths, from 0 to 1000.
    pub fill: Option<u16>,
    /// The text inside the box: the label of the gauge, or the static text.
    pub label: Option<String>,
}

/// The content of a panel as a mathematical value.
pub enum ContentView {
    Empty,
    Text(Seq<char>),
    Gauge(int),
}

/// A panel as a mathematical value.
pub struct PanelView {
    pub title: Seq<char>,
    pub area: Rectangle,
    pub content: ContentView,
}

/// A draw command as a mathematical value.
pub struct DrawCommandView {
    pub area: Rectangle,
    pub title: Seq<char>,
    pub fill: Option<int>,
    pub label: Option<Seq<char>>,
}

impl View for PanelContent {
    type V = ContentView;

    open spec fn view(&self) -> ContentView {
        match self {
            PanelContent::Empty => ContentView::Empty,
            PanelContent::Text(text) => ContentView::Text(text@),
            PanelContent::Gauge(tenths) => ContentView::Gauge(*tenths as int),
        }
    }
}

impl View for Panel {
    type V = PanelView;

    open spec fn view(&self) -> PanelView {
        PanelView { title: self.title@, area: self.area, content: self.content@ }
    }
}

impl View for DrawCommand {
    type V = DrawCommandView;

    open spec fn view(&self) -> DrawCommandView {
        DrawCommandView {
            area: self.area,
            title: self.title@,
            fill: match self.fill {
                Some(fill) => Some(fill as int),
                None => None,
            },
            label: match self.label {
                Some(text) => Some(text@),
                None => None,
            },
        }
    }
}

/// The title of the gauge for the unit called `name`.
pub open spec fn gauge_title(name: Seq<char>) -> Seq<char> {
    "-- "@ + name + " --"@
}

/// What is drawn for a panel: the box with its title on the panel's area; for
/// a gauge the fill, held to the bar, and the value as its label; for a text
/// the text; for a placeholder neither.
pub open spec fn rendered(panel: PanelView) -> DrawCommandView {
    DrawCommandView {
        area: panel.area,
        title: panel.title,
        fill: match panel.content {
            ContentView::Gauge(tenths) => Some(fill_of(tenths)),
            _ => None,
        },
        label: match panel.content {
            ContentView::Gauge(tenths) => Some(percent_text(tenths)),
            ContentView::Text(text) => Some(text),
            ContentView::Empty => None,
        },
    }
}

/// Renders a panel into the command that draws it.
pub fn render(panel: &Panel) -> (command: DrawCommand)
    ensures
        command@ == rendered(panel@),
{
    let title: String = panel.title.clone();
    match &panel.content {
        PanelContent::Empty => DrawCommand { area: panel.area, title, fill: None, label: None },
        PanelContent::Text(text) => DrawCommand {
            area: panel.area,
            title,
            fill: None,
            label: Some(text.clone()),
        },
        PanelContent::Gauge(tenths) => DrawCommand {
            area: panel.area,
            title,
            fill: Some(gauge_fill(*tenths)),
            label: Some(percent_label(*tenths)),
        },
    }
}

impl Panel {
    /// A placeholder: a titled, empty box.
    pub fn placeholder(title: &str, area: Rectangle) -> (panel: Panel)
        ensures
            panel@ == (PanelView { title: title@, area, content: ContentView::Empty }),
    {
        Panel { title: String::from_str(title), area, content: PanelContent::Empty }
    }

    /// A box that holds a static text.
    pub fn text(title: &str, area: Rectangle, text: &str) -> (panel: Panel)
        ensures
            panel@ == (PanelView { title: title@, area, content: ContentView::Text(text@) }),
    {
        Panel {
            title: String::from_str(title),
            area,
            content: PanelContent::Text(String::from_str(text)),
        }
    }

    /// The gauge for a sample: titled with the name of the unit, showing its
    /// value.
    pub fn gauge(sample: &MetricSample, area: Rectangle) -> (panel: Panel)
        ensures
            panel@ == (PanelView {
                title: gauge_title(sample.name@),
                area,
                content: ContentView::Gauge(sample.tenths as int),
            }),
    {
        let mut title: String = String::from_str("-- ");
        title.append(sample.name.as_str());
        title.append(" --");
        assert(title@ =~= gauge_title(sample.name@));
        Panel { title, area, content: PanelContent::Gauge(sample.tenths) }
    }
}

/// Rendering is idempotent: two commands rendered from panels that are alike
/// are alike, character for character.
pub proof fn render_is_idempotent(
    first: Panel,
    second: Panel,
    once: DrawCommand,
    twice: DrawCommand,
)
    requires
        first@ == second@,
        once@ == rendered(first@),
        twice@ == rendered(second@),
    ensures
        once@ == twice@,
        once.area == twice.area,
        once.title@ == twice.title@,
        once.fill == twice.fill,
        once.label is Some <==> twice.label is Some,
        once.label is Some ==> once.label->0@ == twice.label->0@,
{
}

/// The fill of a rendered gauge lies on the gauge, whatever the value.
pub proof fn rendered_fill_is_clamped(panel: PanelView)
    ensures
        rendered(panel).fill matches Some(fill) ==> 0 <= fill <= FULL_SCALE,
        panel.content matches ContentView::Gauge(tenths) ==> rendered(panel).fill == Some(
            if tenths <= 0 {
                0int
            } else if tenths >= FULL_SCALE {
                FULL_SCALE as int
            } else {
                tenths
            },
        ),
{
}

} // verus!
