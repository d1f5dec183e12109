use deployment_manager::geometry::Rectangle;

fn rect(x: u16, y: u16, width: u16, height: u16) -> Rectangle {
    Rectangle { x, y, width, height }
}

#[test]
fn new_keeps_a_rectangle_that_fits() {
    assert_eq!(Rectangle::new(3, 4, 80, 24), rect(3, 4, 80, 24));
}

#[test]
fn new_cuts_back_what_reaches_beyond_the_last_coordinate() {
    assert_eq!(Rectangle::new(65530, 65535, 10, 7), rect(65530, 65535, 5, 0));
    assert_eq!(Rectangle::new(0, 0, u16::MAX, u16::MAX), rect(0, 0, u16::MAX, u16::MAX));
    assert_eq!(Rectangle::new(1, 2, u16::MAX, u16::MAX), rect(1, 2, u16::MAX - 1, u16::MAX - 2));
}

#[test]
fn is_empty_when_either_side_is_zero() {
    assert!(rect(0, 0, 0, 5).is_empty());
    assert!(rect(0, 0, 5, 0).is_empty());
    assert!(rect(7, 7, 0, 0).is_empty());
    assert!(!rect(0, 0, 1, 1).is_empty());
}

#[test]
fn interior_steps_in_by_one_cell_on_every_side() {
    assert_eq!(rect(0, 0, 80, 24).interior(), rect(1, 1, 78, 22));
    assert_eq!(rect(40, 1, 39, 22).interior(), rect(41, 2, 37, 20));
}

#[test]
fn interior_is_not_the_area_itself() {
    let area = rect(5, 6, 10, 10);
    assert_ne!(area.interior(), area);
    assert_eq!(area.interior(), rect(6, 7, 8, 8));
}

#[test]
fn interior_of_a_box_of_two_cells_is_empty() {
    assert_eq!(rect(3, 3, 2, 2).interior(), rect(4, 4, 0, 0));
    assert!(rect(3, 3, 2, 2).interior().is_empty());
}

#[test]
fn interior_of_a_single_cell_is_empty() {
    assert_eq!(rect(0, 0, 1, 1).interior(), rect(1, 1, 0, 0));
}

#[test]
fn interior_of_nothing_stays_in_place() {
    assert_eq!(rect(9, 9, 0, 0).interior(), rect(9, 9, 0, 0));
    assert_eq!(rect(9, 9, 0, 4).interior(), rect(9, 10, 0, 2));
}

#[test]
fn interior_at_the_last_coordinate_does_not_wrap() {
    assert_eq!(rect(u16::MAX, u16::MAX, 0, 0).interior(), rect(u16::MAX, u16::MAX, 0, 0));
    assert_eq!(rect(u16::MAX - 1, 0, 1, 3).interior(), rect(u16::MAX, 1, 0, 1));
}

#[test]
fn interior_saturates_for_a_rectangle_beyond_the_range() {
    assert_eq!(rect(u16::MAX, 0, 10, 10).interior(), rect(u16::MAX, 1, 8, 8));
}

#[test]
fn well_formed_means_that_the_far_edges_are_coordinates() {
    assert!(rect(0, 0, 80, 24).is_well_formed());
    assert!(rect(0, 0, u16::MAX, u16::MAX).is_well_formed());
    assert!(rect(u16::MAX, u16::MAX, 0, 0).is_well_formed());
    assert!(rect(65530, 0, 5, 1).is_well_formed());
    assert!(!rect(65530, 0, 6, 1).is_well_formed());
    assert!(!rect(0, 1, 1, u16::MAX).is_well_formed());
    assert!(Rectangle::new(65530, 7, 600, u16::MAX).is_well_formed());
}

#[test]
fn interior_follows_its_rule_on_many_rectangles() {
    let coordinates = [0u16, 1, 2, 7, 40, 65533, 65534, 65535];
    let sizes = [0u16, 1, 2, 3, 24, 80, 65534, 65535];
    for x in coordinates {
        for y in coordinates {
            for width in sizes {
                for height in sizes {
                    let area = rect(x, y, width, height);
                    let expected = rect(
                        x.saturating_add(1).min(x.saturating_add(width)),
                        y.saturating_add(1).min(y.saturating_add(height)),
                        width.saturating_sub(2),
                        height.saturating_sub(2),
                    );
                    assert_eq!(area.interior(), expected);
                }
            }
        }
    }
}

#[test]
fn interior_of_a_well_formed_rectangle_lies_within_it() {
    for (x, y, width, height) in [(0u16, 0u16, 80u16, 24u16), (10, 20, 1, 1), (65000, 65000, 535, 535)] {
        let area = rect(x, y, width, height);
        assert!(area.is_well_formed());
        let inner = area.interior();
        assert!(inner.is_well_formed());
        assert!(inner.x >= x && inner.y >= y);
        assert!(inner.x + inner.width <= x + width);
        assert!(inner.y + inner.height <= y + height);
    }
}
