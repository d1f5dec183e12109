use deployment_manager::geometry::{Axis, Rectangle};
use deployment_manager::layout::{
    even_split, half_split, halve, partition, within_budget, Constraint,
};

fn rect(x: u16, y: u16, width: u16, height: u16) -> Rectangle {
    Rectangle { x, y, width, height }
}

fn widths(slots: &[Rectangle]) -> Vec<u16> {
    slots.iter().map(|slot| slot.width).collect()
}

fn heights(slots: &[Rectangle]) -> Vec<u16> {
    slots.iter().map(|slot| slot.height).collect()
}

/// Checks that `slots` lie side by side along `axis` from the start of `area`,
/// are as large as `area` across, and leave `gap` cells at the end.
fn assert_tiles(area: Rectangle, axis: Axis, slots: &[Rectangle], gap: u16) {
    let mut at: u32 = match axis {
        Axis::Horizontal => u32::from(area.x),
        Axis::Vertical => u32::from(area.y),
    };
    let mut total: u32 = 0;
    for slot in slots {
        match axis {
            Axis::Horizontal => {
                assert_eq!(u32::from(slot.x), at);
                assert_eq!(slot.y, area.y);
                assert_eq!(slot.height, area.height);
                at += u32::from(slot.width);
                total += u32::from(slot.width);
            }
            Axis::Vertical => {
                assert_eq!(u32::from(slot.y), at);
                assert_eq!(slot.x, area.x);
                assert_eq!(slot.width, area.width);
                at += u32::from(slot.height);
                total += u32::from(slot.height);
            }
        }
    }
    let extent = match axis {
        Axis::Horizontal => area.width,
        Axis::Vertical => area.height,
    };
    assert_eq!(total + u32::from(gap), u32::from(extent));
}

#[test]
fn halves_of_an_even_width() {
    let slots = partition(
        rect(0, 0, 80, 24),
        Axis::Horizontal,
        &[Constraint::Proportional(50), Constraint::Remainder],
    );
    assert_eq!(slots, vec![rect(0, 0, 40, 24), rect(40, 0, 40, 24)]);
}

#[test]
fn halves_of_an_odd_width_round_the_first_down() {
    let slots = partition(
        rect(2, 3, 81, 24),
        Axis::Horizontal,
        &[Constraint::Proportional(50), Constraint::Remainder],
    );
    assert_eq!(slots, vec![rect(2, 3, 40, 24), rect(42, 3, 41, 24)]);
}

#[test]
fn vertical_cut_copies_the_width() {
    let slots = partition(
        rect(5, 10, 30, 9),
        Axis::Vertical,
        &[Constraint::Proportional(50), Constraint::Remainder],
    );
    assert_eq!(slots, vec![rect(5, 10, 30, 4), rect(5, 14, 30, 5)]);
}

#[test]
fn proportional_slots_are_rounded_down() {
    let area = rect(0, 0, 10, 1);
    let list = [
        Constraint::Proportional(33),
        Constraint::Proportional(33),
        Constraint::Remainder,
    ];
    let slots = partition(area, Axis::Horizontal, &list);
    assert_eq!(widths(&slots), vec![3, 3, 4]);
    assert_tiles(area, Axis::Horizontal, &slots, 0);
}

#[test]
fn proportional_share_of_a_large_extent() {
    let area = rect(0, 0, 65535, 1);
    let slots = partition(
        area,
        Axis::Horizontal,
        &[Constraint::Proportional(99), Constraint::Remainder],
    );
    assert_eq!(widths(&slots), vec![64879, 656]);
}

#[test]
fn remainder_slots_share_evenly_and_the_first_take_the_spare_cells() {
    let area = rect(0, 0, 10, 1);
    let list = [Constraint::Remainder, Constraint::Remainder, Constraint::Remainder];
    let slots = partition(area, Axis::Horizontal, &list);
    assert_eq!(widths(&slots), vec![4, 3, 3]);
    assert_eq!(slots[1].x, 4);
    assert_eq!(slots[2].x, 7);
    let four = [
        Constraint::Remainder,
        Constraint::Remainder,
        Constraint::Remainder,
        Constraint::Remainder,
    ];
    assert_eq!(widths(&partition(rect(0, 0, 11, 1), Axis::Horizontal, &four)), vec![3, 3, 3, 2]);
}

#[test]
fn remainders_around_a_proportional_slot() {
    let area = rect(0, 0, 1, 9);
    let list = [Constraint::Remainder, Constraint::Proportional(50), Constraint::Remainder];
    let slots = partition(area, Axis::Vertical, &list);
    assert_eq!(heights(&slots), vec![3, 4, 2]);
    assert_tiles(area, Axis::Vertical, &slots, 0);
}

#[test]
fn a_single_remainder_takes_everything() {
    let area = rect(4, 5, 17, 3);
    assert_eq!(partition(area, Axis::Horizontal, &[Constraint::Remainder]), vec![area]);
    assert_eq!(partition(area, Axis::Vertical, &[Constraint::Remainder]), vec![area]);
}

#[test]
fn the_whole_weight_takes_everything() {
    let area = rect(4, 5, 17, 3);
    assert_eq!(partition(area, Axis::Horizontal, &[Constraint::Proportional(100)]), vec![area]);
}

#[test]
fn without_a_remainder_slot_the_leftover_stays_unused() {
    let area = rect(0, 0, 10, 2);
    let slots = partition(area, Axis::Horizontal, &[Constraint::Proportional(50)]);
    assert_eq!(slots, vec![rect(0, 0, 5, 2)]);
    assert_tiles(area, Axis::Horizontal, &slots, 5);
    let thirds = [
        Constraint::Proportional(33),
        Constraint::Proportional(33),
        Constraint::Proportional(33),
    ];
    let slots = partition(area, Axis::Horizontal, &thirds);
    assert_eq!(widths(&slots), vec![3, 3, 3]);
    assert_tiles(area, Axis::Horizontal, &slots, 1);
}

#[test]
fn no_constraint_gives_no_slot() {
    assert_eq!(partition(rect(0, 0, 80, 24), Axis::Horizontal, &[]), vec![]);
}

#[test]
fn an_empty_area_gives_empty_slots() {
    let area = rect(7, 8, 0, 0);
    let list = [Constraint::Proportional(50), Constraint::Remainder, Constraint::Remainder];
    assert_eq!(partition(area, Axis::Horizontal, &list), vec![area, area, area]);
}

#[test]
fn a_single_cell_goes_to_the_first_remainder() {
    let area = rect(0, 0, 1, 1);
    let list = [Constraint::Proportional(50), Constraint::Remainder, Constraint::Remainder];
    let slots = partition(area, Axis::Horizontal, &list);
    assert_eq!(slots, vec![rect(0, 0, 0, 1), rect(0, 0, 1, 1), rect(1, 0, 0, 1)]);
}

#[test]
fn a_zero_weight_gets_no_cell() {
    let slots = partition(
        rect(0, 0, 10, 1),
        Axis::Horizontal,
        &[Constraint::Proportional(0), Constraint::Remainder],
    );
    assert_eq!(widths(&slots), vec![0, 10]);
}

#[test]
fn weights_beyond_the_whole_are_held_to_the_whole() {
    let area = rect(0, 0, 100, 1);
    let list = [
        Constraint::Proportional(80),
        Constraint::Proportional(80),
        Constraint::Proportional(10),
        Constraint::Remainder,
    ];
    let slots = partition(area, Axis::Horizontal, &list);
    assert_eq!(widths(&slots), vec![80, 20, 0, 0]);
    assert_tiles(area, Axis::Horizontal, &slots, 0);
    let huge = [Constraint::Proportional(u16::MAX), Constraint::Proportional(u16::MAX)];
    assert_eq!(widths(&partition(area, Axis::Horizontal, &huge)), vec![100, 0]);
}

#[test]
fn slots_reach_the_last_coordinate() {
    let area = rect(65000, 0, 535, 1);
    let slots = partition(
        area,
        Axis::Horizontal,
        &[Constraint::Proportional(50), Constraint::Remainder],
    );
    assert_eq!(slots, vec![rect(65000, 0, 267, 1), rect(65267, 0, 268, 1)]);
}

#[test]
fn slots_tile_the_area_for_many_lists() {
    let lists: Vec<Vec<Constraint>> = vec![
        vec![Constraint::Remainder],
        vec![Constraint::Proportional(50), Constraint::Remainder],
        vec![Constraint::Proportional(10), Constraint::Proportional(25), Constraint::Remainder],
        vec![Constraint::Remainder, Constraint::Proportional(99), Constraint::Remainder],
        vec![Constraint::Remainder; 7],
        vec![
            Constraint::Proportional(1),
            Constraint::Remainder,
            Constraint::Proportional(1),
            Constraint::Remainder,
            Constraint::Proportional(98),
        ],
    ];
    for list in &lists {
        for extent in [0u16, 1, 2, 3, 7, 24, 79, 80, 81, 1000, 65535] {
            let wide = rect(0, 3, extent, 5);
            assert_tiles(wide, Axis::Horizontal, &partition(wide, Axis::Horizontal, list), 0);
            let tall = rect(3, 0, 5, extent);
            assert_tiles(tall, Axis::Vertical, &partition(tall, Axis::Vertical, list), 0);
        }
    }
}

#[test]
fn one_slot_for_each_constraint_in_their_order() {
    let list = [
        Constraint::Proportional(20),
        Constraint::Remainder,
        Constraint::Proportional(30),
    ];
    let slots = partition(rect(0, 0, 50, 1), Axis::Horizontal, &list);
    assert_eq!(slots.len(), 3);
    assert_eq!(widths(&slots), vec![10, 25, 15]);
    assert_eq!(slots[0].x, 0);
    assert_eq!(slots[1].x, 10);
    assert_eq!(slots[2].x, 35);
}

#[test]
fn even_split_asks_for_remainders_only() {
    assert_eq!(even_split(0), vec![]);
    assert_eq!(even_split(3), vec![Constraint::Remainder; 3]);
}

#[test]
fn half_split_asks_for_half_and_the_rest() {
    assert_eq!(half_split(), [Constraint::Proportional(50), Constraint::Remainder]);
}

#[test]
fn halve_cuts_in_two() {
    assert_eq!(
        halve(rect(1, 1, 78, 22), Axis::Horizontal),
        (rect(1, 1, 39, 22), rect(40, 1, 39, 22))
    );
    assert_eq!(
        halve(rect(41, 2, 37, 21), Axis::Vertical),
        (rect(41, 2, 37, 10), rect(41, 12, 37, 11))
    );
    assert_eq!(halve(rect(0, 0, 1, 1), Axis::Horizontal), (rect(0, 0, 0, 1), rect(0, 0, 1, 1)));
}

#[test]
fn within_budget_up_to_the_whole() {
    assert!(within_budget(&[]));
    assert!(within_budget(&[Constraint::Remainder, Constraint::Remainder]));
    assert!(within_budget(&[Constraint::Proportional(50), Constraint::Remainder]));
    assert!(within_budget(&[Constraint::Proportional(100)]));
    assert!(within_budget(&[
        Constraint::Proportional(60),
        Constraint::Remainder,
        Constraint::Proportional(40),
        Constraint::Proportional(0),
    ]));
    assert!(!within_budget(&[Constraint::Proportional(101)]));
    assert!(!within_budget(&[Constraint::Proportional(60), Constraint::Proportional(41)]));
    assert!(!within_budget(&[Constraint::Proportional(u16::MAX), Constraint::Proportional(u16::MAX)]));
}
