//! Tests of the size-constraint algebra, the distribution algorithm and
//! the row and grid solvers.

use kas::geom::{Coord, Rect, Size};
use kas::layout::size_rules::margin_between;
use kas::layout::sizer::{
    distribute_sizes, row_total, GridChildInfo, GridSetter, GridSolver, GridStorage, RowSetter,
    RowSolver, RowStorage, RulesSetter, RulesSolver,
};
use kas::layout::{SizeRules, Stretch};

fn rules(min: u32, ideal: u32, margins: (u16, u16), stretch: Stretch) -> SizeRules {
    SizeRules::new(min, ideal, margins, stretch)
}

#[test]
fn empty_rules_are_zero() {
    let e = SizeRules::empty();
    assert_eq!(e.min, 0);
    assert_eq!(e.ideal, 0);
    assert_eq!(e.margins, (0, 0));
    assert_eq!(e.stretch, Stretch::Fixed);
}

#[test]
fn appended_sums_sizes() {
    let a = rules(10, 20, (1, 2), Stretch::Low);
    let b = rules(5, 7, (3, 4), Stretch::High);
    let c = a.appended(b);
    assert_eq!(c.min, 15);
    assert_eq!(c.ideal, 27);
    assert_eq!(c.margins, (1, 4));
    assert_eq!(c.stretch, Stretch::High);
}

#[test]
fn appended_saturates() {
    let a = rules(u32::MAX - 1, u32::MAX - 1, (0, 0), Stretch::Fixed);
    let b = rules(10, 10, (0, 0), Stretch::Fixed);
    let c = a.appended(b);
    assert_eq!(c.min, u32::MAX);
    assert_eq!(c.ideal, u32::MAX);
}

#[test]
fn max_with_takes_maxima() {
    let a = rules(10, 20, (1, 5), Stretch::Low);
    let b = rules(15, 18, (2, 3), Stretch::Fixed);
    let c = a.max_with(b);
    assert_eq!(c.min, 15);
    assert_eq!(c.ideal, 20);
    assert_eq!(c.margins, (2, 5));
    assert_eq!(c.stretch, Stretch::Low);
}

#[test]
fn surrounded_by_on_empty_is_frame() {
    let frame = rules(6, 8, (2, 3), Stretch::Low);
    let r = SizeRules::empty().surrounded_by(frame, true);
    assert_eq!(r, frame);
}

#[test]
fn surrounded_by_adds_frame_and_margins() {
    let content = rules(10, 20, (2, 4), Stretch::Filler);
    let frame = rules(6, 6, (1, 1), Stretch::Fixed);
    let r = content.surrounded_by(frame, true);
    // Content size, frame size, and the content's own margins absorbed.
    assert_eq!(r.min, 10 + 6 + 6);
    assert_eq!(r.ideal, 20 + 6 + 6);
    assert_eq!(r.margins, (1, 1));
    assert_eq!(r.stretch, Stretch::Filler);
}

#[test]
fn margins_collapse_to_maximum() {
    let a = rules(1, 1, (1, 7), Stretch::Fixed);
    let b = rules(1, 1, (3, 2), Stretch::Fixed);
    assert_eq!(margin_between(&a, &b), 7);
    assert_eq!(margin_between(&b, &a), 2);
}

#[test]
fn distribute_below_minimum_clamps() {
    let rs = vec![
        rules(10, 20, (0, 0), Stretch::Fixed),
        rules(30, 40, (0, 0), Stretch::Fixed),
    ];
    let ws = distribute_sizes(&rs, 25);
    assert_eq!(ws, vec![10, 30]);
}

#[test]
fn distribute_between_min_and_ideal_assigns_all() {
    let rs = vec![
        rules(10, 20, (0, 0), Stretch::Fixed),
        rules(10, 20, (0, 0), Stretch::Fixed),
    ];
    let ws = distribute_sizes(&rs, 25);
    assert_eq!(ws.iter().sum::<u32>(), 25);
    // Earlier children reach their ideal first: the 5 units above the
    // minima all go to the first child.
    assert_eq!(ws, vec![15, 10]);
}

#[test]
fn distribute_at_ideal_gives_ideal() {
    let rs = vec![
        rules(5, 10, (0, 0), Stretch::Low),
        rules(0, 30, (0, 0), Stretch::Filler),
    ];
    let ws = distribute_sizes(&rs, 40);
    assert_eq!(ws, vec![10, 30]);
}

#[test]
fn slack_goes_to_filler() {
    // Three children with priorities Fixed (none), Low and Filler and
    // ideals 10/10/10 in a 40-wide container: all 10 units of slack go
    // to the Filler child.
    let rs = vec![
        rules(10, 10, (0, 0), Stretch::Fixed),
        rules(10, 10, (0, 0), Stretch::Low),
        rules(10, 10, (0, 0), Stretch::Filler),
    ];
    let ws = distribute_sizes(&rs, 40);
    assert_eq!(ws, vec![10, 10, 20]);
}

#[test]
fn slack_shared_proportionally_within_tier() {
    let rs = vec![
        rules(10, 10, (0, 0), Stretch::Filler),
        rules(30, 30, (0, 0), Stretch::Filler),
        rules(10, 10, (0, 0), Stretch::Fixed),
    ];
    let ws = distribute_sizes(&rs, 90);
    // 40 units of slack: 10 to the first (10/40 of it), 30 to the second.
    assert_eq!(ws, vec![20, 60, 10]);
}

#[test]
fn row_total_includes_gaps() {
    let rs = vec![
        rules(10, 12, (1, 4), Stretch::Fixed),
        rules(20, 22, (2, 3), Stretch::Low),
    ];
    let t = row_total(&rs);
    // Sizes sum plus the collapsed gap of max(4, 2) = 4.
    assert_eq!(t.min, 10 + 20 + 4);
    assert_eq!(t.ideal, 12 + 22 + 4);
    assert_eq!(t.margins, (1, 3));
    assert_eq!(t.stretch, Stretch::Low);
}

#[test]
fn row_solver_collects_in_order() {
    let mut storage = RowStorage::new();
    let mut solver = RowSolver::new(&mut storage);
    solver.for_child(&mut storage, (), rules(10, 10, (0, 0), Stretch::Fixed));
    solver.for_child(&mut storage, (), rules(20, 25, (0, 0), Stretch::Fixed));
    let total = solver.finish(&mut storage);
    assert_eq!(total.min, 30);
    assert_eq!(total.ideal, 35);
}

#[test]
fn row_solver_empty_yields_empty() {
    let mut storage = RowStorage::new();
    let solver = RowSolver::new(&mut storage);
    let total = solver.finish(&mut storage);
    assert_eq!(total, SizeRules::empty());
}

#[test]
fn solve_then_set_at_ideal_round_trips() {
    // Solve three children, then distribute the solved ideal size:
    // every child receives exactly its ideal, at exactly its position.
    let mut storage = RowStorage::new();
    let mut solver = RowSolver::new(&mut storage);
    solver.for_child(&mut storage, (), rules(5, 10, (0, 2), Stretch::Fixed));
    solver.for_child(&mut storage, (), rules(5, 20, (1, 0), Stretch::Low));
    solver.for_child(&mut storage, (), rules(5, 30, (3, 0), Stretch::Filler));
    let total = solver.finish(&mut storage);
    assert_eq!(total.ideal, 10 + 20 + 30 + 2 + 3);

    let rect = Rect {
        pos: Coord { x: 100, y: 50 },
        size: Size { w: total.ideal, h: 40 },
    };
    let mut setter = RowSetter::new(rect, false, &storage);
    let r0 = setter.child_rect(0);
    let r1 = setter.child_rect(1);
    let r2 = setter.child_rect(2);
    assert_eq!(r0, Rect { pos: Coord { x: 100, y: 50 }, size: Size { w: 10, h: 40 } });
    assert_eq!(r1, Rect { pos: Coord { x: 112, y: 50 }, size: Size { w: 20, h: 40 } });
    assert_eq!(r2, Rect { pos: Coord { x: 135, y: 50 }, size: Size { w: 30, h: 40 } });
}

#[test]
fn setter_clamps_when_underfull() {
    let mut storage = RowStorage::new();
    let mut solver = RowSolver::new(&mut storage);
    solver.for_child(&mut storage, (), rules(10, 20, (0, 0), Stretch::Fixed));
    solver.for_child(&mut storage, (), rules(10, 20, (0, 0), Stretch::Fixed));
    let _ = solver.finish(&mut storage);

    let rect = Rect { pos: Coord { x: 0, y: 0 }, size: Size { w: 5, h: 10 } };
    let mut setter = RowSetter::new(rect, false, &storage);
    let r0 = setter.child_rect(0);
    let r1 = setter.child_rect(1);
    // Children are clamped to their minima and overflow is accepted.
    assert_eq!(r0.size.w, 10);
    assert_eq!(r1.size.w, 10);
    assert_eq!(r1.pos.x, 10);
}

fn cell(col: usize, col_end: usize, row: usize) -> GridChildInfo {
    GridChildInfo { col, col_end, row, row_end: row + 1 }
}

#[test]
fn grid_span_raises_minimum() {
    // Two columns individually solved to width 10 each; a cell spanning
    // both with min width 50 must raise the combined minimum to 50.
    let mut storage = GridStorage::new();
    let mut solver = GridSolver::new(false, 2, &mut storage);
    solver.for_child(&mut storage, cell(0, 1, 0), rules(10, 10, (0, 0), Stretch::Fixed));
    solver.for_child(&mut storage, cell(1, 2, 0), rules(10, 10, (0, 0), Stretch::Fixed));
    solver.for_child(&mut storage, cell(0, 2, 1), rules(50, 50, (0, 0), Stretch::Fixed));
    let total = solver.finish(&mut storage);
    assert!(total.min >= 50);
    assert_eq!(total.min, 50);
    // The deficit went to the last spanned column.
    assert_eq!(storage.lines[0].min, 10);
    assert_eq!(storage.lines[1].min, 40);
}

#[test]
fn grid_without_spans_sums_lines() {
    let mut storage = GridStorage::new();
    let mut solver = GridSolver::new(false, 2, &mut storage);
    solver.for_child(&mut storage, cell(0, 1, 0), rules(10, 15, (0, 0), Stretch::Fixed));
    solver.for_child(&mut storage, cell(1, 2, 0), rules(20, 25, (0, 0), Stretch::Low));
    solver.for_child(&mut storage, cell(0, 1, 1), rules(12, 12, (0, 0), Stretch::Fixed));
    let total = solver.finish(&mut storage);
    // Column 0 is the parallel maximum of its cells.
    assert_eq!(storage.lines[0].min, 12);
    assert_eq!(total.min, 12 + 20);
    assert_eq!(total.ideal, 15 + 25);
}

#[test]
fn grid_satisfied_span_changes_nothing() {
    let mut storage = GridStorage::new();
    let mut solver = GridSolver::new(false, 2, &mut storage);
    solver.for_child(&mut storage, cell(0, 1, 0), rules(30, 30, (0, 0), Stretch::Fixed));
    solver.for_child(&mut storage, cell(1, 2, 0), rules(30, 30, (0, 0), Stretch::Fixed));
    solver.for_child(&mut storage, cell(0, 2, 1), rules(50, 50, (0, 0), Stretch::Fixed));
    let total = solver.finish(&mut storage);
    assert_eq!(storage.lines[1].min, 30);
    assert_eq!(total.min, 60);
}

#[test]
fn grid_setter_positions_cells_and_spans() {
    // Columns 10 and 20 wide; rows 5 and 7 high; no margins.
    let mut cols = GridStorage::new();
    let mut csolver = GridSolver::new(false, 2, &mut cols);
    csolver.for_child(&mut cols, cell(0, 1, 0), rules(10, 10, (0, 0), Stretch::Fixed));
    csolver.for_child(&mut cols, cell(1, 2, 0), rules(20, 20, (0, 0), Stretch::Fixed));
    let ctotal = csolver.finish(&mut cols);

    let mut rows = GridStorage::new();
    let mut rsolver = GridSolver::new(true, 2, &mut rows);
    rsolver.for_child(&mut rows, cell(0, 1, 0), rules(5, 5, (0, 0), Stretch::Fixed));
    rsolver.for_child(&mut rows, cell(0, 1, 1), rules(7, 7, (0, 0), Stretch::Fixed));
    let rtotal = rsolver.finish(&mut rows);

    let rect = Rect {
        pos: Coord { x: 0, y: 0 },
        size: Size { w: ctotal.ideal, h: rtotal.ideal },
    };
    let mut setter = GridSetter::new(rect, &cols, &rows);

    // Single cells land on their lines.
    let c00 = setter.child_rect(GridChildInfo { col: 0, col_end: 1, row: 0, row_end: 1 });
    assert_eq!(c00, Rect { pos: Coord { x: 0, y: 0 }, size: Size { w: 10, h: 5 } });
    let c11 = setter.child_rect(GridChildInfo { col: 1, col_end: 2, row: 1, row_end: 2 });
    assert_eq!(c11, Rect { pos: Coord { x: 10, y: 5 }, size: Size { w: 20, h: 7 } });

    // A spanning cell covers both columns.
    let span = setter.child_rect(GridChildInfo { col: 0, col_end: 2, row: 0, row_end: 1 });
    assert_eq!(span, Rect { pos: Coord { x: 0, y: 0 }, size: Size { w: 30, h: 5 } });
}
