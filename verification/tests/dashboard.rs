use deployment_manager::dashboard::{
    calculate_layout, compose, draw_frame, regions, Regions, FIRST_GAUGE, FIXED_PANELS,
};
use deployment_manager::gauge::MetricSample;
use deployment_manager::geometry::Rectangle;
use deployment_manager::panel::{DrawCommand, PanelContent};

fn rect(x: u16, y: u16, width: u16, height: u16) -> Rectangle {
    Rectangle { x, y, width, height }
}

fn samples(values: &[i64]) -> Vec<MetricSample> {
    let mut list = Vec::new();
    for (index, tenths) in values.iter().enumerate() {
        list.push(MetricSample { name: format!("cpu{}", index), tenths: *tenths });
    }
    list
}

fn titles(commands: &[DrawCommand]) -> Vec<String> {
    commands.iter().map(|command| command.title.clone()).collect()
}

#[test]
fn calculate_layout_cuts_left_and_right() {
    assert_eq!(
        calculate_layout(rect(1, 1, 78, 22)),
        (rect(1, 1, 39, 22), rect(40, 1, 39, 22))
    );
    assert_eq!(calculate_layout(rect(0, 0, 5, 1)), (rect(0, 0, 2, 1), rect(2, 0, 3, 1)));
}

#[test]
fn regions_of_a_viewport_of_80_by_24() {
    assert_eq!(
        regions(rect(0, 0, 80, 24)),
        Regions {
            root: rect(0, 0, 80, 24),
            deployments: rect(1, 1, 39, 22),
            system: rect(40, 1, 39, 22),
            cpu: rect(41, 2, 18, 10),
            memory: rect(59, 2, 19, 10),
            storage: rect(41, 12, 37, 10),
            gauges: rect(42, 3, 16, 8),
        }
    );
}

#[test]
fn four_samples_on_80_by_24() {
    let commands = draw_frame(rect(0, 0, 80, 24), &samples(&[100, 200, 300, 400]));
    assert_eq!(commands.len(), 10);
    assert_eq!(
        titles(&commands),
        vec![
            "Deployment Manager",
            "Deployments",
            "System Overview",
            "-- cpu0 --",
            "-- cpu1 --",
            "-- cpu2 --",
            "-- cpu3 --",
            "CPU",
            "MEM",
            "Storage",
        ]
    );
    let gauges = &commands[3..7];
    let labels: Vec<Option<String>> = gauges.iter().map(|gauge| gauge.label.clone()).collect();
    assert_eq!(
        labels,
        vec![
            Some("10.0%".to_string()),
            Some("20.0%".to_string()),
            Some("30.0%".to_string()),
            Some("40.0%".to_string()),
        ]
    );
    let fills: Vec<Option<u16>> = gauges.iter().map(|gauge| gauge.fill).collect();
    assert_eq!(fills, vec![Some(100), Some(200), Some(300), Some(400)]);
    let areas: Vec<Rectangle> = gauges.iter().map(|gauge| gauge.area).collect();
    assert_eq!(
        areas,
        vec![rect(42, 3, 8, 4), rect(50, 3, 8, 4), rect(42, 7, 8, 4), rect(50, 7, 8, 4)]
    );
    assert_eq!(areas[0].y, areas[1].y);
    assert_eq!(areas[2].y, areas[3].y);
    assert!(areas[0].x < areas[1].x);
    assert!(areas[0].y < areas[2].y);
}

#[test]
fn three_samples_on_80_by_24() {
    let commands = draw_frame(rect(0, 0, 80, 24), &samples(&[100, 200, 300]));
    assert_eq!(commands.len(), 9);
    let gauges = &commands[3..6];
    let areas: Vec<Rectangle> = gauges.iter().map(|gauge| gauge.area).collect();
    assert_eq!(areas, vec![rect(42, 3, 8, 4), rect(50, 3, 8, 4), rect(42, 7, 8, 4)]);
    assert_eq!(commands[6].title, "CPU");
    for command in &commands {
        assert_ne!(command.area, rect(50, 7, 8, 4));
    }
}

#[test]
fn fixed_panels_stand_where_the_regions_are() {
    let viewport = rect(0, 0, 80, 24);
    let areas = regions(viewport);
    let commands = draw_frame(viewport, &samples(&[]));
    assert_eq!(commands.len(), FIXED_PANELS);
    assert_eq!(
        commands,
        vec![
            DrawCommand {
                area: areas.root,
                title: "Deployment Manager".to_string(),
                fill: None,
                label: None,
            },
            DrawCommand {
                area: areas.deployments,
                title: "Deployments".to_string(),
                fill: None,
                label: None,
            },
            DrawCommand {
                area: areas.system,
                title: "System Overview".to_string(),
                fill: None,
                label: None,
            },
            DrawCommand { area: areas.cpu, title: "CPU".to_string(), fill: None, label: None },
            DrawCommand { area: areas.memory, title: "MEM".to_string(), fill: None, label: None },
            DrawCommand {
                area: areas.storage,
                title: "Storage".to_string(),
                fill: None,
                label: None,
            },
        ]
    );
}

#[test]
fn compose_gives_the_panels_that_draw_frame_renders() {
    let viewport = rect(0, 0, 100, 40);
    let list = samples(&[0, 1500, -100]);
    let panels = compose(viewport, &list);
    let commands = draw_frame(viewport, &list);
    assert_eq!(panels.len(), commands.len());
    for (panel, command) in panels.iter().zip(commands.iter()) {
        assert_eq!(deployment_manager::panel::render(panel), *command);
    }
    assert_eq!(panels[3].content, PanelContent::Gauge(0));
    assert_eq!(panels[4].content, PanelContent::Gauge(1500));
    assert_eq!(commands[4].fill, Some(1000));
    assert_eq!(commands[4].label, Some("150.0%".to_string()));
    assert_eq!(commands[5].fill, Some(0));
    assert_eq!(commands[5].label, Some("-10.0%".to_string()));
}

#[test]
fn a_viewport_of_one_cell_is_laid_out_too() {
    let commands = draw_frame(rect(0, 0, 1, 1), &samples(&[500, 500]));
    assert_eq!(commands.len(), 8);
    assert_eq!(commands[0].area, rect(0, 0, 1, 1));
    for command in &commands[1..] {
        assert!(command.area.is_empty());
        assert!(command.area.x <= 1 && command.area.y <= 1);
    }
}

#[test]
fn an_empty_viewport_is_laid_out_too() {
    let commands = draw_frame(rect(0, 0, 0, 0), &samples(&[500]));
    assert_eq!(commands.len(), 7);
    for command in &commands {
        assert_eq!(command.area, rect(0, 0, 0, 0));
    }
}

#[test]
fn the_frame_follows_the_size_of_the_viewport() {
    let list = samples(&[100, 200]);
    let small = draw_frame(rect(0, 0, 80, 24), &list);
    let large = draw_frame(rect(0, 0, 120, 40), &list);
    assert_eq!(small[3].area, rect(42, 3, 8, 8));
    assert_eq!(large[3].area, rect(62, 3, 13, 16));
    assert_eq!(draw_frame(rect(0, 0, 80, 24), &list), small);
}

#[test]
fn the_frame_follows_the_number_of_samples() {
    let viewport = rect(0, 0, 80, 24);
    for n in 0..12usize {
        let values: Vec<i64> = (0..n).map(|index| index as i64 * 10).collect();
        let commands = draw_frame(viewport, &samples(&values));
        assert_eq!(commands.len(), n + FIXED_PANELS);
        assert_eq!(commands[FIRST_GAUGE + n].title, "CPU");
        for index in 0..n {
            assert_eq!(commands[FIRST_GAUGE + index].title, format!("-- cpu{} --", index));
        }
    }
}

#[test]
fn every_panel_lies_within_the_viewport() {
    let viewport = rect(3, 2, 97, 31);
    let commands = draw_frame(viewport, &samples(&[1, 2, 3, 4, 5, 6, 7]));
    for command in &commands {
        let area = command.area;
        assert!(area.x >= viewport.x && area.y >= viewport.y);
        assert!(area.x + area.width <= viewport.x + viewport.width);
        assert!(area.y + area.height <= viewport.y + viewport.height);
    }
}
