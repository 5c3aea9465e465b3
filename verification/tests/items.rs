use std::collections::HashMap;
use tileview::items::{contains_uid, difference_of, item_lines_string, push_display_name};
use tileview::model::ItemUid;

fn uids(numbers: &[u64]) -> Vec<ItemUid> {
    numbers.iter().map(|n| ItemUid { uid: *n }).collect()
}

#[test]
fn contains_uid_finds_what_is_there() {
    let list = uids(&[4, 9, 2]);
    assert!(contains_uid(&list, ItemUid { uid: 9 }));
    assert!(contains_uid(&list, ItemUid { uid: 2 }));
    assert!(!contains_uid(&list, ItemUid { uid: 3 }));
    assert!(!contains_uid(&Vec::new(), ItemUid { uid: 3 }));
}

#[test]
fn prim_count_removed_and_added() {
    let (a, b, c, d) = (10, 20, 30, 40);
    let old = uids(&[a, b, c]);
    let new = uids(&[b, c, d]);
    assert_eq!(difference_of(&old, &new), uids(&[a]));
    assert_eq!(difference_of(&new, &old), uids(&[d]));
}

#[test]
fn difference_keeps_the_order_of_the_first_list() {
    let old = uids(&[5, 1, 4, 2, 3]);
    let new = uids(&[4, 9]);
    assert_eq!(difference_of(&old, &new), uids(&[5, 1, 2, 3]));
}

#[test]
fn difference_keeps_repeated_items() {
    let old = uids(&[7, 7, 8, 7]);
    let new = uids(&[8]);
    assert_eq!(difference_of(&old, &new), uids(&[7, 7, 7]));
}

#[test]
fn difference_with_itself_is_empty() {
    let list = uids(&[1, 2, 3]);
    assert_eq!(difference_of(&list, &list), Vec::new());
}

#[test]
fn difference_with_nothing_is_the_list() {
    let list = uids(&[1, 2, 3]);
    assert_eq!(difference_of(&list, &Vec::new()), list);
    assert_eq!(difference_of(&Vec::new(), &list), Vec::new());
}

#[test]
fn difference_of_two_parts_is_the_two_differences() {
    let a = uids(&[1, 2, 3]);
    let c = uids(&[4, 2, 5]);
    let b = uids(&[2, 4]);
    let mut both = a.clone();
    both.extend(c.iter().copied());
    let mut expected = difference_of(&a, &b);
    expected.extend(difference_of(&c, &b));
    assert_eq!(difference_of(&both, &b), expected);
    assert_eq!(expected, uids(&[1, 3, 5]));
}

#[test]
fn missing_display_name_is_empty() {
    let mut names = HashMap::new();
    names.insert(1u64, String::from("one"));
    let mut buf = String::from(">");
    push_display_name(&mut buf, &names, ItemUid { uid: 1 });
    assert_eq!(buf, ">one");
    push_display_name(&mut buf, &names, ItemUid { uid: 2 });
    assert_eq!(buf, ">one");
}

#[test]
fn item_lines_in_list_order() {
    let mut names = HashMap::new();
    names.insert(2u64, String::from("two"));
    let lines = item_lines_string(&names, &uids(&[3, 2]));
    assert_eq!(lines, "<li>3...</li>\n<li>2...two</li>\n");
    assert_eq!(item_lines_string(&names, &Vec::new()), "");
}
