use std::rc::Rc;

use cookbook::convert::DoubleVec;
use cookbook::defaults::{CrustType, PizzaConfig};
use cookbook::names::NameLength;
use cookbook::shared::{share_ball, spawn_kid_with_new_ball, Kid};
use cookbook::tree::Node;

#[test]
fn double_vec_doubles_every_element() {
    let double_vec = DoubleVec::from(vec![1, 2, 3]);
    assert_eq!(double_vec.as_ref(), &vec![2, 4, 6]);

    let from_slice = DoubleVec::from_slice(&[4, -5]);
    assert_eq!(from_slice.as_ref(), &vec![8, -10]);
}

#[test]
fn pizza_defaults_are_the_standard_order() {
    let pizza = PizzaConfig::default();
    assert!(!pizza.wants_cheese);
    assert_eq!(pizza.number_of_olives, 0);
    assert_eq!(pizza.special_message, "");
    assert_eq!(pizza.crust_type, CrustType::Thin);

    let custom_pizza = PizzaConfig { number_of_olives: 12, ..Default::default() };
    assert_eq!(custom_pizza.number_of_olives, 12);
    assert!(!custom_pizza.wants_cheese);
}

#[test]
fn name_length_counts_the_characters() {
    let name_length = NameLength::new_("John");
    assert_eq!(name_length.length, 4);
    assert_eq!(name_length.name, "John");
}

#[test]
fn child_nodes_are_grafted_onto_a_leaf() {
    let mut root = Node::new(12);
    assert!(root.is_leaf());
    root.add_child_nodes(Node::new(3), Node::new(-24));
    assert!(!root.is_leaf());
    let (left, right) = root.child_nodes.as_mut().expect("the root has children");
    assert_eq!(left._data, 3);
    assert_eq!(right._data, -24);
    left.add_child_nodes(Node::new(0), Node::new(1803));
    assert!(!left.is_leaf());
    assert!(right.is_leaf());
}

#[test]
fn the_ball_outlives_all_but_the_last_handle() {
    let kid_one = spawn_kid_with_new_ball();
    assert_eq!(Rc::strong_count(&kid_one.ball), 1);
    let kid_two = Kid { ball: share_ball(&kid_one.ball) };
    let kid_three = Kid { ball: share_ball(&kid_one.ball) };
    assert_eq!(Rc::strong_count(&kid_one.ball), 3);
    drop(kid_one);
    drop(kid_two);
    assert_eq!(Rc::strong_count(&kid_three.ball), 1);
}
