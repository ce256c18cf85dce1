use edge_rules::errors::RuntimeErrorEnum;
use edge_rules::list_ops::{
    eval_all, eval_any, eval_append, eval_concatenate, eval_insert_before, eval_partition, eval_remove, eval_sublist,
    reverse_items, Truth,
};
use edge_rules::types::ValueType;

#[test]
fn sublist_cuts_by_one_based_positions() {
    let items = vec![10, 20, 30, 40, 50];
    assert_eq!(eval_sublist(items.clone(), 2, Some(2)), vec![20, 30]);
    assert_eq!(eval_sublist(items.clone(), 2, None), vec![20, 30, 40, 50]);
    assert_eq!(eval_sublist(items.clone(), 1, None), items.clone());
    assert_eq!(eval_sublist(items.clone(), 0, Some(2)), vec![10, 20]);
    assert_eq!(eval_sublist(items.clone(), -7, Some(1)), vec![10]);
    assert_eq!(eval_sublist(items.clone(), 4, Some(10)), vec![40, 50]);
    assert_eq!(eval_sublist(items.clone(), 6, None), Vec::<i32>::new());
    assert_eq!(eval_sublist(items.clone(), 99, Some(1)), Vec::<i32>::new());
    assert_eq!(eval_sublist(items.clone(), 3, Some(-1)), Vec::<i32>::new());
    assert_eq!(eval_sublist(items, 3, Some(0)), Vec::<i32>::new());
}

#[test]
fn insert_before_places_the_value() {
    let items = vec!['a', 'b', 'c'];
    assert_eq!(eval_insert_before(items.clone(), 1, 'x'), vec!['x', 'a', 'b', 'c']);
    assert_eq!(eval_insert_before(items.clone(), 2, 'x'), vec!['a', 'x', 'b', 'c']);
    assert_eq!(eval_insert_before(items.clone(), 4, 'x'), vec!['a', 'b', 'c', 'x']);
    assert_eq!(eval_insert_before(items.clone(), 40, 'x'), vec!['a', 'b', 'c', 'x']);
    assert_eq!(eval_insert_before(items, -3, 'x'), vec!['x', 'a', 'b', 'c']);
}

#[test]
fn remove_takes_out_one_item() {
    let items = vec![1, 2, 3];
    assert_eq!(eval_remove(items.clone(), 1), vec![2, 3]);
    assert_eq!(eval_remove(items.clone(), 3), vec![1, 2]);
    assert_eq!(eval_remove(items.clone(), 0), vec![1, 2, 3]);
    assert_eq!(eval_remove(items.clone(), 4), vec![1, 2, 3]);
    assert_eq!(eval_remove(Vec::<i32>::new(), 1), Vec::<i32>::new());
}

#[test]
fn remove_undoes_insert_before() {
    let items = vec![1, 2, 3];
    for position in 1..=4 {
        let inserted = eval_insert_before(items.clone(), position, 9);
        assert_eq!(eval_remove(inserted, position), items);
    }
    // Before the first position the value goes first, but removing at that position
    // removes nothing.
    let inserted = eval_insert_before(items.clone(), 0, 9);
    assert_eq!(eval_remove(inserted, 0), vec![9, 1, 2, 3]);
}

#[test]
fn reverse_items_reverses_and_twice_gives_back() {
    let items = vec![1, 2, 3, 4];
    assert_eq!(reverse_items(items.clone()), vec![4, 3, 2, 1]);
    assert_eq!(reverse_items(reverse_items(items.clone())), items);
    assert_eq!(reverse_items(Vec::<u8>::new()), Vec::<u8>::new());
}

#[test]
fn partition_cuts_runs() {
    let items = vec![1, 2, 3, 4, 5];
    assert_eq!(eval_partition(items.clone(), 2), vec![vec![1, 2], vec![3, 4], vec![5]]);
    assert_eq!(eval_partition(items.clone(), 5), vec![vec![1, 2, 3, 4, 5]]);
    assert_eq!(eval_partition(items.clone(), 9), vec![vec![1, 2, 3, 4, 5]]);
    assert_eq!(eval_partition(items.clone(), 1).len(), 5);
    assert_eq!(eval_partition(items.clone(), 0), vec![Vec::<i32>::new()]);
    assert_eq!(eval_partition(items.clone(), -2), vec![Vec::<i32>::new()]);
    assert_eq!(eval_partition(Vec::<i32>::new(), 3), Vec::<Vec<i32>>::new());
    let joined: Vec<i32> = eval_partition(items.clone(), 3).into_iter().flatten().collect();
    assert_eq!(joined, items);
}

#[test]
fn all_and_any_on_booleans() {
    assert_eq!(eval_all(&vec![Truth::Boolean(true), Truth::Boolean(true)]).unwrap(), true);
    assert_eq!(eval_all(&vec![Truth::Boolean(true), Truth::Boolean(false)]).unwrap(), false);
    assert_eq!(eval_all(&Vec::new()).unwrap(), true);
    assert_eq!(eval_any(&vec![Truth::Boolean(false), Truth::Boolean(true)]).unwrap(), true);
    assert_eq!(eval_any(&vec![Truth::Boolean(false), Truth::Boolean(false)]).unwrap(), false);
    assert_eq!(eval_any(&Vec::new()).unwrap(), false);

    // the first item that decides wins over a later value of another type
    assert_eq!(
        eval_all(&vec![Truth::Boolean(false), Truth::Other(ValueType::NumberType)]).unwrap(),
        false
    );
    let e = eval_all(&vec![Truth::Boolean(true), Truth::Other(ValueType::NumberType)]).unwrap_err();
    assert_eq!(e.error, RuntimeErrorEnum::TypeNotSupported(ValueType::NumberType));
    let e = eval_any(&vec![Truth::Boolean(false), Truth::Other(ValueType::StringType)]).unwrap_err();
    assert_eq!(e.error, RuntimeErrorEnum::TypeNotSupported(ValueType::StringType));
}

#[test]
fn append_and_concatenate_keep_order() {
    assert_eq!(eval_append(vec![1, 2], vec![3, 4]), vec![1, 2, 3, 4]);
    assert_eq!(eval_append(Vec::new(), vec!['a']), vec!['a']);
    assert_eq!(eval_concatenate(vec![vec![1, 2], vec![], vec![3], vec![4, 5]]), vec![1, 2, 3, 4, 5]);
    assert_eq!(eval_concatenate(Vec::<Vec<u8>>::new()), Vec::<u8>::new());
}
