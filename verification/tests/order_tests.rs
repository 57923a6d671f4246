use lust_termina::order;

fn moved(from: usize, target: usize) -> (Vec<char>, Option<usize>) {
    let mut v = vec!['a', 'b', 'c', 'd'];
    let at = order::move_item(&mut v, from, target);
    (v, at)
}

#[test]
fn moves_down_to_the_boundary() {
    assert_eq!(moved(0, 3), (vec!['b', 'c', 'a', 'd'], Some(2)));
    assert_eq!(moved(0, 4), (vec!['b', 'c', 'd', 'a'], Some(3)));
}

#[test]
fn moves_up_to_the_boundary() {
    assert_eq!(moved(3, 0), (vec!['d', 'a', 'b', 'c'], Some(0)));
    assert_eq!(moved(2, 1), (vec!['a', 'c', 'b', 'd'], Some(1)));
}

#[test]
fn its_own_boundaries_are_no_move() {
    assert_eq!(moved(1, 1), (vec!['a', 'b', 'c', 'd'], Some(1)));
    assert_eq!(moved(1, 2), (vec!['a', 'b', 'c', 'd'], Some(1)));
}

#[test]
fn boundaries_behind_the_end_are_the_end() {
    assert_eq!(moved(1, 99), (vec!['a', 'c', 'd', 'b'], Some(3)));
    assert_eq!(moved(3, usize::MAX), (vec!['a', 'b', 'c', 'd'], Some(3)));
}

#[test]
fn a_missing_item_does_not_move() {
    assert_eq!(moved(4, 0), (vec!['a', 'b', 'c', 'd'], None));
}

#[test]
fn every_move_keeps_the_items_and_can_be_undone() {
    for from in 0..4 {
        for target in 0..6 {
            let (mut v, at) = moved(from, target);
            let at = at.unwrap();
            assert_eq!(v[at], ['a', 'b', 'c', 'd'][from]);
            let mut sorted = v.clone();
            sorted.sort();
            assert_eq!(sorted, vec!['a', 'b', 'c', 'd']);
            let back = if from <= at { from } else { from + 1 };
            order::move_item(&mut v, at, back);
            assert_eq!(v, vec!['a', 'b', 'c', 'd']);
        }
    }
}

#[test]
fn the_boundary_counts_what_was_passed() {
    assert_eq!(order::boundary(&vec![]), 0);
    assert_eq!(order::boundary(&vec![true, true, false]), 2);
    assert_eq!(order::boundary(&vec![true, true, true]), 3);
}
