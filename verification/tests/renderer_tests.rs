use rustray::renderer::{build_cells, cell_pixels, CellRange, RenderProgress, BLOCK_SIZE};

fn key(c: &CellRange) -> (i32, i32, i32, i32) {
    (c.x0, c.x1, c.y0, c.y1)
}

#[test]
fn cells_of_a_small_image() {
    let cells: Vec<CellRange> = build_cells(5, 3).into_iter().collect();
    assert_eq!(BLOCK_SIZE, 2);
    let keys: Vec<_> = cells.iter().map(key).collect();
    assert_eq!(
        keys,
        vec![(0, 1, 0, 1), (0, 1, 2, 2), (2, 3, 0, 1), (2, 3, 2, 2), (4, 4, 0, 1), (4, 4, 2, 2)]
    );
    assert!(build_cells(0, 10).is_empty());
    assert_eq!(CellRange::new(), CellRange { x0: 0, x1: 0, y0: 0, y1: 0 });
}

#[test]
fn every_pixel_in_exactly_one_cell() {
    for (w, h) in [(1, 1), (5, 3), (4, 4), (7, 2)] {
        let cells = build_cells(w, h);
        let mut seen = vec![0u32; (w * h) as usize];
        for c in &cells {
            for (x, y) in cell_pixels(*c) {
                assert!(x >= 0 && x < w && y >= 0 && y < h);
                seen[(y * w + x) as usize] += 1;
            }
        }
        assert!(seen.iter().all(|&n| n == 1));
    }
}

#[test]
fn pixels_of_a_cell_row_by_row() {
    let c = CellRange { x0: 2, x1: 3, y0: 4, y1: 5 };
    assert_eq!(cell_pixels(c), vec![(2, 4), (3, 4), (2, 5), (3, 5)]);
    let empty = CellRange { x0: 3, x1: 2, y0: 0, y1: 0 };
    assert!(cell_pixels(empty).is_empty());
}

#[test]
fn a_pass_queues_every_cell_once() {
    let mut p = RenderProgress::new(7, 5);
    assert!(!p.is_running());
    p.start();
    assert!(p.is_running());
    let mut queued: Vec<_> = p.cells.iter().map(key).collect();
    let mut expected: Vec<_> = build_cells(7, 5).iter().map(key).collect();
    queued.sort();
    expected.sort();
    assert_eq!(queued, expected);
    assert_eq!(p.get_rendered_pixels(), 0);
}

#[test]
fn workers_take_cells_until_none_are_left() {
    let mut p = RenderProgress::new(3, 3);
    p.start();
    let n = p.cells.len();
    assert_eq!(n, 4);
    let first = p.cells[0];
    assert_eq!(p.next_cell(), Some(first));
    for _ in 1..n {
        assert!(p.has_cells_left());
        assert!(p.next_cell().is_some());
    }
    assert!(!p.has_cells_left());
    assert_eq!(p.next_cell(), None);
}

#[test]
fn done_when_every_pixel_counted() {
    let mut p = RenderProgress::new(2, 3);
    p.start();
    for _ in 0..5 {
        p.pixel_rendered();
    }
    assert!(!p.is_done());
    assert_eq!(p.check_and_get_elapsed_time(100), 100);
    assert_eq!(p.done_time_ms, 0);
    p.pixel_rendered();
    assert!(p.is_done());
    assert_eq!(p.get_rendered_pixels(), 6);
    assert_eq!(p.check_and_get_elapsed_time(250), 250);
    assert_eq!(p.check_and_get_elapsed_time(900), 250);
}

#[test]
fn stopping_reports_whether_running() {
    let mut p = RenderProgress::new(2, 2);
    assert!(!p.stop());
    p.start();
    assert!(p.stop());
    assert!(!p.is_running());
    p.update_resolution(4, 4);
    assert_eq!((p.width, p.height), (4, 4));
}
