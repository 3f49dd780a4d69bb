use tilegrid::Grid;
use tilegrid::GridItem;
use tilegrid::IVec2;
use tilegrid::Vector;

#[test]
fn test_push_and_tile() {
    // a cell pushed at (x, y) in row-major order is retrievable at (x, y)
    let mut grid: Grid<&str> = Grid::new(IVec2::new(2, 2));
    grid.push(GridItem::new(IVec2::new(0, 0), "a"));
    grid.push(GridItem::new(IVec2::new(1, 0), "b"));
    grid.push(GridItem::new(IVec2::new(0, 1), "c"));
    grid.push(GridItem::new(IVec2::new(1, 1), "d"));
    assert_eq!(*grid.tile(&IVec2::new(0, 0)).unwrap().contents(), "a");
    assert_eq!(*grid.tile(&IVec2::new(1, 0)).unwrap().contents(), "b");
    assert_eq!(*grid.tile(&IVec2::new(0, 1)).unwrap().contents(), "c");
    assert_eq!(*grid.tile(&IVec2::new(1, 1)).unwrap().contents(), "d");
    assert_eq!(*grid.tile(&IVec2::new(1, 1)).unwrap().pos(), IVec2::new(1, 1));
}

#[test]
fn test_fill_completeness() {
    // fill on a (3, 2) grid yields six cells with distinct positions
    // covering every slot, each holding a duplicate of the fill value
    let mut grid: Grid<u8> = Grid::new(IVec2::new(3, 2));
    grid.fill(7);
    let cells = grid.tiles();
    assert_eq!(cells.len(), 6);
    let mut seen = [[false; 2]; 3];
    for c in cells {
        assert_eq!(*c.contents(), 7);
        let p = *c.pos();
        let x: usize = p.x as usize;
        let y: usize = p.y as usize;
        assert!(x < 3 && y < 2);
        assert!(!seen[x][y]);
        seen[x][y] = true;
    }
    for col in seen {
        for covered in col {
            assert!(covered);
        }
    }
}

#[test]
fn test_out_of_range_lookup() {
    let mut grid: Grid<u8> = Grid::new(IVec2::new(3, 2));
    grid.fill(0);
    assert!(grid.tile(&IVec2::new(-1, 0)).is_none());
    assert!(grid.tile(&IVec2::new(0, -1)).is_none());
    assert!(grid.tile(&IVec2::new(3, 0)).is_none());
    assert!(grid.tile(&IVec2::new(0, 2)).is_none());
    assert!(grid.tile(&IVec2::new(3, 2)).is_none());
    // on an empty grid every lookup misses
    let empty: Grid<u8> = Grid::new(IVec2::new(2, 2));
    assert!(empty.tile(&IVec2::new(0, 0)).is_none());
    assert!(empty.tile(&IVec2::new(-5, -5)).is_none());
}

#[test]
fn test_adjacent_counts() {
    // on a fully filled grid: four results at an interior position, fewer
    // at edges and corners, each one unit step away
    let mut grid: Grid<u8> = Grid::new(IVec2::new(3, 3));
    grid.fill(0);
    let around_center = grid.adjacent(&IVec2::new(1, 1));
    assert_eq!(around_center.len(), 4);
    for c in &around_center {
        let p = *c.pos();
        let dx: i32 = p.x - 1;
        let dy: i32 = p.y - 1;
        assert_eq!(dx * dx + dy * dy, 1);
    }
    let at_corner = grid.adjacent(&IVec2::new(0, 0));
    assert_eq!(at_corner.len(), 2);
    let at_edge = grid.adjacent(&IVec2::new(1, 0));
    assert_eq!(at_edge.len(), 3);
}

#[test]
fn test_scenario_three_by_two() {
    let mut grid: Grid<i32> = Grid::new(IVec2::new(3, 2));
    grid.fill(0);
    *grid.tile_mut(&IVec2::new(1, 0)).unwrap().contents_mut() = 9;
    assert_eq!(*grid.tile(&IVec2::new(1, 0)).unwrap().contents(), 9);
    let near = grid.adjacent(&IVec2::new(1, 0));
    // no cell above row 0, so only three of the four candidates exist
    assert_eq!(near.len(), 3);
    let positions: Vec<IVec2> = near.iter().map(|c| *c.pos()).collect();
    assert!(positions.contains(&IVec2::new(0, 0)));
    assert!(positions.contains(&IVec2::new(2, 0)));
    assert!(positions.contains(&IVec2::new(1, 1)));
    for c in &near {
        assert_eq!(*c.contents(), 0);
    }
}

#[test]
fn test_adjacent_mut_updates() {
    let mut grid: Grid<i32> = Grid::new(IVec2::new(3, 3));
    grid.fill(0);
    {
        let mut handles = grid.adjacent_mut(&IVec2::new(1, 1));
        assert_eq!(handles.len(), 4);
        for h in handles.iter_mut() {
            *h.contents_mut() = 5;
        }
    }
    assert_eq!(*grid.tile(&IVec2::new(1, 0)).unwrap().contents(), 5);
    assert_eq!(*grid.tile(&IVec2::new(0, 1)).unwrap().contents(), 5);
    assert_eq!(*grid.tile(&IVec2::new(2, 1)).unwrap().contents(), 5);
    assert_eq!(*grid.tile(&IVec2::new(1, 2)).unwrap().contents(), 5);
    assert_eq!(*grid.tile(&IVec2::new(1, 1)).unwrap().contents(), 0);
    assert_eq!(*grid.tile(&IVec2::new(0, 0)).unwrap().contents(), 0);
}

#[test]
fn test_adjacent_diagonal_quirk() {
    // the offset list omits the up-left diagonal and repeats the down-left
    // entry, so seven cells come back, each once
    let mut grid: Grid<u8> = Grid::new(IVec2::new(3, 3));
    grid.fill(1);
    let around = grid.adjacent_diagonal(&IVec2::new(1, 1));
    assert_eq!(around.len(), 7);
    let positions: Vec<IVec2> = around.iter().map(|c| *c.pos()).collect();
    assert!(!positions.contains(&IVec2::new(0, 0)));
    assert!(positions.contains(&IVec2::new(0, 2)));
    let down_left: usize = positions.iter().filter(|p| **p == IVec2::new(0, 2)).count();
    assert_eq!(down_left, 1);
}

#[test]
fn test_adjacent_diagonal_mut_updates() {
    let mut grid: Grid<i32> = Grid::new(IVec2::new(3, 3));
    grid.fill(0);
    {
        let mut handles = grid.adjacent_diagonal_mut(&IVec2::new(1, 1));
        assert_eq!(handles.len(), 7);
        for h in handles.iter_mut() {
            *h.contents_mut() = 2;
        }
    }
    assert_eq!(*grid.tile(&IVec2::new(0, 0)).unwrap().contents(), 0);
    assert_eq!(*grid.tile(&IVec2::new(2, 2)).unwrap().contents(), 2);
    assert_eq!(*grid.tile(&IVec2::new(1, 1)).unwrap().contents(), 0);
}

#[test]
fn test_accessors() {
    let grid: Grid<u8> = Grid::new(IVec2::new(4, 5));
    assert_eq!(*grid.width(), 4);
    assert_eq!(*grid.height(), 5);
    assert_eq!(*grid.size(), IVec2::new(4, 5));
    let mut item = GridItem::new(IVec2::new(2, 3), 42u8);
    assert_eq!(*item.pos(), IVec2::new(2, 3));
    assert_eq!(*item.contents(), 42);
    *item.contents_mut() = 43;
    assert_eq!(*item.contents(), 43);
}

#[test]
fn test_tiles_mut() {
    let mut grid: Grid<i32> = Grid::new(IVec2::new(2, 1));
    grid.fill(3);
    for c in grid.tiles_mut().iter_mut() {
        *c.contents_mut() *= 2;
    }
    assert_eq!(*grid.tile(&IVec2::new(0, 0)).unwrap().contents(), 6);
    assert_eq!(*grid.tile(&IVec2::new(1, 0)).unwrap().contents(), 6);
}

#[test]
fn test_fill_appends_on_nonempty() {
    // filling a populated grid appends another full round of cells
    let mut grid: Grid<u8> = Grid::new(IVec2::new(2, 1));
    grid.fill(1);
    grid.fill(2);
    assert_eq!(grid.tiles().len(), 4);
    assert_eq!(*grid.tile(&IVec2::new(0, 0)).unwrap().contents(), 1);
}

#[test]
fn test_degenerate_sizes() {
    let mut flat: Grid<u8> = Grid::new(IVec2::new(0, 5));
    flat.fill(1);
    assert_eq!(flat.tiles().len(), 0);
    let mut neg: Grid<u8> = Grid::new(IVec2::new(-3, 4));
    neg.fill(1);
    assert_eq!(neg.tiles().len(), 0);
    assert!(neg.tile(&IVec2::new(0, 0)).is_none());
}
