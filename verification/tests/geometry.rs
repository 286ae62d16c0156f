//! Neighbour-index geometry: the per-direction accept/reject decisions
//! on a fixed 5x5 grid, for a corner, an edge and an interior cell, and
//! the resolvable-direction counts that follow from them.

use conway_life::game::{Cell, Neighbourhood};

fn cell_at(x: isize, y: isize) -> Cell {
    Cell::new(x, y, false, 0)
}

fn all_indices(c: &Cell, w: isize, h: isize) -> Vec<Option<isize>> {
    let mut r = Vec::new();
    for d in Neighbourhood::iterator() {
        r.push(c.get_neighbours_index(w, h, &d));
    }
    r
}

#[test]
fn corner_top_left_5x5() {
    let c = cell_at(0, 0);
    let r = all_indices(&c, 5, 5);
    // order: TopLeft, Top, TopRight, Left, Right, BottomLeft, Bottom, BottomRight
    assert_eq!(r[0], None);
    assert_eq!(r[1], None);
    assert_eq!(r[2], None);
    assert_eq!(r[3], None);
    assert_eq!(r[4], Some(1));
    assert_eq!(r[5], None);
    assert_eq!(r[6], Some(5));
    assert_eq!(r[7], Some(6));
}

#[test]
fn corner_bottom_right_5x5() {
    let c = cell_at(4, 4);
    let r = all_indices(&c, 5, 5);
    assert_eq!(r[0], Some(18));
    assert_eq!(r[1], Some(19));
    assert_eq!(r[2], None);
    assert_eq!(r[3], Some(23));
    assert_eq!(r[4], None);
    assert_eq!(r[5], None);
    assert_eq!(r[6], None);
    assert_eq!(r[7], None);
}

#[test]
fn edge_top_5x5() {
    let c = cell_at(2, 0);
    let r = all_indices(&c, 5, 5);
    assert_eq!(r[0], None);
    assert_eq!(r[1], None);
    assert_eq!(r[2], None);
    assert_eq!(r[3], Some(1));
    assert_eq!(r[4], Some(3));
    assert_eq!(r[5], Some(6));
    assert_eq!(r[6], Some(7));
    assert_eq!(r[7], Some(8));
}

#[test]
fn edge_left_5x5() {
    let c = cell_at(0, 2);
    let r = all_indices(&c, 5, 5);
    assert_eq!(r[0], None);
    assert_eq!(r[1], Some(5));
    assert_eq!(r[2], Some(6));
    assert_eq!(r[3], None);
    assert_eq!(r[4], Some(11));
    assert_eq!(r[5], None);
    assert_eq!(r[6], Some(15));
    assert_eq!(r[7], Some(16));
}

#[test]
fn interior_5x5() {
    let c = cell_at(2, 2);
    let r = all_indices(&c, 5, 5);
    assert_eq!(r[0], Some(6));
    assert_eq!(r[1], Some(7));
    assert_eq!(r[2], Some(8));
    assert_eq!(r[3], Some(11));
    assert_eq!(r[4], Some(13));
    assert_eq!(r[5], Some(16));
    assert_eq!(r[6], Some(17));
    assert_eq!(r[7], Some(18));
}

#[test]
fn single_cell_grid_has_no_neighbours() {
    let c = cell_at(0, 0);
    for r in all_indices(&c, 1, 1) {
        assert_eq!(r, None);
    }
}

#[test]
fn resolvable_counts_5x5() {
    let count = |x: isize, y: isize| -> usize {
        all_indices(&cell_at(x, y), 5, 5).iter().filter(|r| r.is_some()).count()
    };
    // corners resolve 3 directions
    assert_eq!(count(0, 0), 3);
    assert_eq!(count(4, 0), 3);
    assert_eq!(count(0, 4), 3);
    assert_eq!(count(4, 4), 3);
    // non-corner edge cells resolve 5
    assert_eq!(count(2, 0), 5);
    assert_eq!(count(0, 2), 5);
    assert_eq!(count(4, 2), 5);
    assert_eq!(count(2, 4), 5);
    // interior cells resolve all 8
    assert_eq!(count(1, 1), 8);
    assert_eq!(count(2, 2), 8);
    assert_eq!(count(3, 3), 8);
}

#[test]
fn iterator_order_is_fixed() {
    let dirs = Neighbourhood::iterator();
    assert_eq!(dirs.len(), 8);
    assert!(matches!(dirs[0], Neighbourhood::TopLeft));
    assert!(matches!(dirs[1], Neighbourhood::Top));
    assert!(matches!(dirs[2], Neighbourhood::TopRight));
    assert!(matches!(dirs[3], Neighbourhood::Left));
    assert!(matches!(dirs[4], Neighbourhood::Right));
    assert!(matches!(dirs[5], Neighbourhood::BottomLeft));
    assert!(matches!(dirs[6], Neighbourhood::Bottom));
    assert!(matches!(dirs[7], Neighbourhood::BottomRight));
}
