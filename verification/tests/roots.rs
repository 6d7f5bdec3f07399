use js_debugger::trace::{Roots, TracedBox};

#[test]
fn every_box_is_traced_once_and_no_root_outlives_its_box() {
    let handles: Vec<u64> = vec![101, 202, 303, 404, 505];
    let mut roots: Roots<u64> = Roots::new();
    let mut boxes: Vec<TracedBox<u64>> = vec![];
    for h in &handles {
        assert!(roots.can_register());
        boxes.push(TracedBox::new(&mut roots, *h));
    }
    assert_eq!(roots.len(), handles.len());
    let visited: Vec<u64> = roots.trace().into_iter().copied().collect();
    assert_eq!(visited, handles);
    // released in an order of its own
    for index in [3usize, 0, 2, 0, 0] {
        let b = boxes.remove(index);
        assert!(b.is_rooted(&roots));
        b.release(&mut roots);
    }
    assert_eq!(roots.len(), 0);
    assert!(roots.trace().is_empty());
}

#[test]
fn releasing_a_box_leaves_the_others_traced_in_order() {
    let mut roots: Roots<u64> = Roots::new();
    let a = TracedBox::new(&mut roots, 1);
    let b = TracedBox::new(&mut roots, 2);
    let c = TracedBox::new(&mut roots, 3);
    assert_eq!(b.release(&mut roots), 2);
    let visited: Vec<u64> = roots.trace().into_iter().copied().collect();
    assert_eq!(visited, vec![1, 3]);
    assert_eq!(*a.get(&roots), 1);
    assert_eq!(*c.handle(&roots), 3);
}

#[test]
fn a_trace_shows_what_a_cell_holds_at_that_moment() {
    let mut roots: Roots<u64> = Roots::new();
    let mut a = TracedBox::new(&mut roots, 1);
    let b = TracedBox::new(&mut roots, 2);
    a.set(&mut roots, 10);
    assert_eq!(*a.get(&roots), 10);
    assert_eq!(*b.get(&roots), 2);
    let visited: Vec<u64> = roots.trace().into_iter().copied().collect();
    assert_eq!(visited, vec![10, 2]);
}

#[test]
fn two_boxes_over_one_handle_are_two_roots() {
    let mut roots: Roots<u64> = Roots::new();
    let a = TracedBox::new(&mut roots, 7);
    let b = TracedBox::new(&mut roots, 7);
    assert_eq!(roots.len(), 2);
    a.release(&mut roots);
    assert_eq!(roots.len(), 1);
    assert!(b.is_rooted(&roots));
    b.release(&mut roots);
    assert_eq!(roots.len(), 0);
}

#[test]
fn a_key_is_not_given_twice() {
    let mut roots: Roots<u64> = Roots::new();
    let a = TracedBox::new(&mut roots, 1);
    a.release(&mut roots);
    let b = TracedBox::new(&mut roots, 2);
    let c = TracedBox::new(&mut roots, 3);
    assert_eq!(*b.get(&roots), 2);
    assert_eq!(*c.get(&roots), 3);
    b.release(&mut roots);
    assert!(c.is_rooted(&roots));
    assert_eq!(*c.get(&roots), 3);
}

#[test]
fn a_table_with_room_takes_a_box() {
    let mut roots: Roots<u64> = Roots::new();
    match TracedBox::try_new(&mut roots, 5) {
        Ok(made) => {
            assert!(made.is_rooted(&roots));
            assert_eq!(*made.get(&roots), 5);
            assert_eq!(made.release(&mut roots), 5);
        }
        Err(_) => panic!(),
    }
    assert_eq!(roots.len(), 0);
}
