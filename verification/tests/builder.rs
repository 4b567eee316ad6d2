use cookbook::builder::BurgerBuilder;

#[test]
fn standard_burger_builds_with_defaults() {
    let burger = BurgerBuilder::new().build().expect("the standard burger builds");
    assert_eq!(burger.patty_count, 1);
    assert!(!burger.vegetarian);
    assert!(!burger.cheese);
    assert!(!burger.bacon);
    assert!(burger.salad);
}

#[test]
fn configured_options_end_up_in_the_burger() {
    let burger = BurgerBuilder::new()
        .cheese(true)
        .salad(false)
        .patty_count(2)
        .build()
        .expect("a cheese burger builds");
    assert_eq!(burger.patty_count, 2);
    assert!(burger.cheese);
    assert!(!burger.salad);
}

#[test]
fn vegetarian_bacon_is_refused() {
    let invalid = BurgerBuilder::new().vegetarian(true).bacon(true).build();
    match invalid {
        Err(message) => {
            assert_eq!(message, "Sorry, but we don't server vegetarian bacon yet")
        }
        Ok(_) => panic!("vegetarian bacon must not build"),
    }
}

#[test]
fn a_builder_can_be_reused() {
    let builder = BurgerBuilder::new().vegetarian(true).patty_count(2);
    for _ in 1..10 {
        let burger = builder.build().expect("the veggie burger builds");
        assert!(burger.vegetarian);
        assert_eq!(burger.patty_count, 2);
    }
}
