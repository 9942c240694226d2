use zpass::safe::collection::List;

#[test]
fn new_list_is_empty() {
    let list: List<u32> = List::new();
    assert!(list.is_empty());
    assert!(!list.has(|_| true));
    assert_eq!(list.get(|_| true), None);
}

#[test]
fn from_keeps_the_items_in_order() {
    let list = List::from(vec![3u32, 5, 8]);
    assert!(!list.is_empty());
    assert_eq!(list, {
        let mut other = List::new();
        other.add(3u32);
        other.add(5);
        other.add(8);
        other
    });
}

#[test]
fn add_puts_the_item_last() {
    let mut list = List::from(vec![1u32, 2]);
    list.add(2);
    list.add(7);
    assert_eq!(list, List::from(vec![1u32, 2, 2, 7]));
}

#[test]
fn has_tells_whether_an_item_satisfies_the_predicate() {
    let list = List::from(vec![1u32, 4, 9]);
    assert!(list.has(|x| *x == 4));
    assert!(list.has(|x| *x > 1));
    assert!(!list.has(|x| *x == 5));
}

#[test]
fn get_returns_the_first_item_that_satisfies_the_predicate() {
    let list = List::from(vec![(1u32, 'a'), (2, 'b'), (2, 'c'), (3, 'd')]);
    assert_eq!(list.get(|x| x.0 == 2), Some(&(2, 'b')));
    assert_eq!(list.get(|x| x.0 > 2), Some(&(3, 'd')));
    assert_eq!(list.get(|x| x.0 == 0), None);
}

#[test]
fn get_mut_changes_the_first_match_only() {
    let mut list = List::from(vec![(1u32, 'a'), (2, 'b'), (2, 'c')]);
    match list.get_mut(|x| x.0 == 2) {
        Some(item) => item.1 = 'z',
        None => panic!("an item with 2 is in the list"),
    }
    assert_eq!(list, List::from(vec![(1u32, 'a'), (2, 'z'), (2, 'c')]));
    assert!(list.get_mut(|x| x.0 == 9).is_none());
    assert_eq!(list, List::from(vec![(1u32, 'a'), (2, 'z'), (2, 'c')]));
}

#[test]
fn apply_runs_the_closure_on_every_item_in_order() {
    let mut list = List::from(vec![1u32, 2, 3]);
    let mut seen = Vec::new();
    list.apply(|x| {
        seen.push(*x);
        *x *= 10;
    });
    assert_eq!(seen, vec![1, 2, 3]);
    assert_eq!(list, List::from(vec![10u32, 20, 30]));
}
