use parcel_pricing::dimensions::Dimensions;
use parcel_pricing::discount::nth_parcel_free;
use parcel_pricing::order::Order;
use parcel_pricing::parcel::{Parcel, ParcelType};
use parcel_pricing::shipping_speed::ShippingSpeed;
use parcel_pricing::weight::Weight;

fn parcel(length: i32, width: i32, height: i32, grams: i32) -> Parcel {
    Parcel::new(
        Dimensions::new(length, width, height).unwrap(),
        Weight::new(grams).unwrap(),
    )
}

fn small(grams: i32) -> Parcel {
    parcel(1_000, 1_000, 1_000, grams)
}

fn medium(grams: i32) -> Parcel {
    parcel(20_000, 1_000, 1_000, grams)
}

fn large(grams: i32) -> Parcel {
    parcel(60_000, 1_000, 1_000, grams)
}

fn xl(grams: i32) -> Parcel {
    parcel(200_000, 1_000, 1_000, grams)
}

#[test]
fn a_parcel_costs_double_with_speedy_shipping() {
    let parcels = vec![
        Parcel::new(
            Dimensions::new(4_000, 3_000, 26_000).unwrap(),
            Weight::new(500).unwrap(),
        ),
        Parcel::new(
            Dimensions::new(4_000, 3_000, 8_000).unwrap(),
            Weight::new(500).unwrap(),
        ),
    ];
    let order = Order::new(parcels, ShippingSpeed::Speedy);
    assert_eq!(order.partial_total_cost(), 1100);
    assert_eq!(order.total_cost(), 2200);
}

#[test]
fn a_parcel_costs_the_the_same_with_normal_shipping() {
    let parcels = vec![
        Parcel::new(
            Dimensions::new(4_000, 3_000, 26_000).unwrap(),
            Weight::new(500).unwrap(),
        ),
        Parcel::new(
            Dimensions::new(4_000, 3_000, 8_000).unwrap(),
            Weight::new(500).unwrap(),
        ),
    ];
    let order = Order::new(parcels, ShippingSpeed::Normal);
    assert_eq!(order.partial_total_cost(), 1100);
    assert_eq!(order.total_cost(), 1100);
}

#[test]
fn the_speed_factors_are_one_and_two() {
    assert_eq!(ShippingSpeed::Normal.cost_multiplier(), 1);
    assert_eq!(ShippingSpeed::Speedy.cost_multiplier(), 2);
}

#[test]
fn an_order_keeps_its_parcels_in_their_order() {
    let parcels = vec![medium(500), small(500), xl(500), small(2_000)];
    let order = Order::new(parcels.clone(), ShippingSpeed::Speedy);
    assert_eq!(order.parcels, parcels);
    assert_eq!(order.shipping_speed, ShippingSpeed::Speedy);
}

#[test]
fn an_empty_order_costs_nothing() {
    let order = Order::new(vec![], ShippingSpeed::Speedy);
    assert_eq!(order.partial_total_cost(), 0);
    assert_eq!(order.discount(), 0);
    assert_eq!(order.total_cost(), 0);
}

#[test]
fn the_partial_total_is_the_sum_of_the_costs() {
    let order = Order::new(
        vec![small(500), medium(500), large(500), xl(500), small(50_000), small(4_230)],
        ShippingSpeed::Normal,
    );
    assert_eq!(order.partial_total_cost(), 300 + 800 + 1500 + 2500 + 5000 + 900);
}

#[test]
fn small_and_medium_parcels_have_a_volume_rule() {
    assert_eq!(nth_parcel_free(ParcelType::Small), Some(4));
    assert_eq!(nth_parcel_free(ParcelType::Medium), Some(3));
    assert_eq!(nth_parcel_free(ParcelType::Large), None);
    assert_eq!(nth_parcel_free(ParcelType::XL), None);
    assert_eq!(nth_parcel_free(ParcelType::Heavy), None);
}

#[test]
fn too_few_parcels_earn_no_discount() {
    let order = Order::new(vec![small(500), small(500), small(500)], ShippingSpeed::Normal);
    assert_eq!(order.discount(), 0);
    let order = Order::new(vec![medium(500), medium(500)], ShippingSpeed::Normal);
    assert_eq!(order.discount(), 0);
    let order = Order::new(
        vec![small(500), small(500), small(500), medium(500), medium(500)],
        ShippingSpeed::Normal,
    );
    assert_eq!(order.discount(), 0);
    assert_eq!(order.total_cost(), order.partial_total_cost());
}

#[test]
fn the_fourth_small_parcel_frees_the_dearest() {
    let order = Order::new(
        vec![small(500), small(2_000), small(500), small(3_500)],
        ShippingSpeed::Normal,
    );
    // costs 300, 500, 300, 700
    assert_eq!(order.partial_total_cost(), 1800);
    assert_eq!(order.discount(), -700);
    assert_eq!(order.total_cost(), 1100);
}

#[test]
fn the_third_medium_parcel_frees_the_dearest() {
    let order = Order::new(vec![medium(500), medium(8_000), medium(4_000)], ShippingSpeed::Normal);
    // costs 800, 1800, 1000
    assert_eq!(order.discount(), -1800);
}

#[test]
fn every_full_group_frees_one_more_parcel() {
    let mut parcels = vec![];
    for grams in [500, 4_000, 5_000, 6_000, 7_000, 8_000, 9_000, 10_000] {
        parcels.push(medium(grams));
    }
    // costs 800, 1000, 1200, 1400, 1600, 1800, 2000, 2200; eight parcels free two
    let order = Order::new(parcels, ShippingSpeed::Normal);
    assert_eq!(order.discount(), -(2200 + 2000));
    let mut parcels = vec![];
    for grams in [500, 4_000, 5_000, 6_000, 7_000, 8_000, 9_000, 10_000, 500] {
        parcels.push(medium(grams));
    }
    // a ninth parcel frees a third
    let order = Order::new(parcels, ShippingSpeed::Normal);
    assert_eq!(order.discount(), -(2200 + 2000 + 1800));
}

#[test]
fn large_xl_and_heavy_parcels_earn_no_discount() {
    let order = Order::new(
        vec![large(500), large(500), large(500), large(500), large(500), large(500)],
        ShippingSpeed::Normal,
    );
    assert_eq!(order.discount(), 0);
    let order = Order::new(
        vec![xl(500), xl(500), xl(500), xl(500), xl(500), xl(500)],
        ShippingSpeed::Normal,
    );
    assert_eq!(order.discount(), 0);
    let order = Order::new(
        vec![small(50_000), small(50_000), small(50_000), small(50_000), medium(60_000)],
        ShippingSpeed::Normal,
    );
    assert_eq!(order.discount(), 0);
}

#[test]
fn each_class_is_discounted_by_itself() {
    let order = Order::new(
        vec![
            small(500),
            medium(500),
            small(2_000),
            medium(4_000),
            large(500),
            small(500),
            medium(3_000),
            small(500),
            xl(500),
        ],
        ShippingSpeed::Normal,
    );
    // small: 300, 500, 300, 300 frees 500; medium: 800, 1000, 800 frees 1000
    assert_eq!(order.discount(), -(500 + 1000));
    assert_eq!(
        order.total_cost(),
        300 + 800 + 500 + 1000 + 1500 + 300 + 800 + 300 + 2500 - 1500
    );
}

#[test]
fn six_parcels_of_mixed_sizes_are_discounted_by_group() {
    let order = Order::new(
        vec![small(500), medium(500), small(500), medium(8_000), small(500), medium(500)],
        ShippingSpeed::Normal,
    );
    assert_eq!(order.discount(), -1800);
}

#[test]
fn equal_prices_may_be_freed_in_any_order() {
    let order = Order::new(
        vec![medium(500), medium(1_000), medium(2_999), medium(3_000), medium(3_999), medium(1)],
        ShippingSpeed::Normal,
    );
    assert_eq!(order.discount(), -1600);
}

#[test]
fn the_order_of_the_parcels_does_not_change_the_prices() {
    let one = Order::new(
        vec![small(500), medium(4_000), small(2_000), medium(500), small(3_000), medium(8_000), small(500)],
        ShippingSpeed::Speedy,
    );
    let other = Order::new(
        vec![medium(8_000), small(500), small(500), medium(500), small(3_000), small(2_000), medium(4_000)],
        ShippingSpeed::Speedy,
    );
    assert_eq!(one.partial_total_cost(), other.partial_total_cost());
    assert_eq!(one.discount(), other.discount());
    assert_eq!(one.total_cost(), other.total_cost());
    assert_eq!(one.discount(), -(700 + 1800));
}

#[test]
fn the_speed_factor_applies_after_the_discount() {
    let parcels = vec![medium(500), medium(8_000), medium(4_000), small(500)];
    // costs 800, 1800, 1000, 300; the dearest medium parcel is free
    let normal = Order::new(parcels.clone(), ShippingSpeed::Normal);
    assert_eq!(normal.partial_total_cost(), 3900);
    assert_eq!(normal.discount(), -1800);
    assert_eq!(normal.total_cost(), 2100);
    let speedy = Order::new(parcels, ShippingSpeed::Speedy);
    assert_eq!(speedy.partial_total_cost(), 3900);
    assert_eq!(speedy.discount(), -1800);
    assert_eq!(speedy.total_cost(), 4200);
}

#[test]
fn the_discount_is_never_positive_and_never_more_than_the_parcels_cost() {
    let mut parcels = vec![];
    for round in 0..40 {
        parcels.push(small(1 + 977 * round));
        parcels.push(medium(1 + 1_913 * round));
        let order = Order::new(parcels.clone(), ShippingSpeed::Speedy);
        assert!(order.discount() <= 0);
        assert!(order.partial_total_cost() + order.discount() >= 0);
        assert_eq!(
            order.total_cost(),
            2 * (order.partial_total_cost() + order.discount())
        );
    }
}

#[test]
fn asking_an_order_twice_gives_the_same_answers() {
    let order = Order::new(
        vec![medium(500), medium(8_000), medium(4_000), small(500)],
        ShippingSpeed::Speedy,
    );
    assert_eq!(order.partial_total_cost(), order.partial_total_cost());
    assert_eq!(order.discount(), order.discount());
    assert_eq!(order.total_cost(), order.total_cost());
    assert_eq!(order.total_cost(), 4200);
}

#[test]
fn many_dear_parcels_do_not_overflow_the_total() {
    let mut parcels = vec![];
    for _ in 0..12 {
        parcels.push(small(i32::MAX));
    }
    let each: i128 = 5000 + 100 * 2_147_433;
    let order = Order::new(parcels, ShippingSpeed::Speedy);
    assert_eq!(order.partial_total_cost(), 12 * each);
    assert_eq!(order.discount(), 0);
    assert_eq!(order.total_cost(), 24 * each);
    assert!(order.total_cost() > i32::MAX as i128);
}

#[test]
fn many_medium_parcels_are_discounted_appropriately() {
    let parcels = vec![
        Parcel::new(
            Dimensions::new(4_000, 3_000, 26_000).unwrap(),
            Weight::new(3_000).unwrap(),
        ),
        Parcel::new(
            Dimensions::new(4_000, 3_000, 32_000).unwrap(),
            Weight::new(3_000).unwrap(),
        ),
        Parcel::new(
            Dimensions::new(4_000, 3_000, 32_000).unwrap(),
            Weight::new(3_000).unwrap(),
        ),
        Parcel::new(
            Dimensions::new(4_000, 3_000, 45_000).unwrap(),
            Weight::new(4_000).unwrap(),
        ),
        Parcel::new(
            Dimensions::new(4_000, 3_000, 27_000).unwrap(),
            Weight::new(4_000).unwrap(),
        ),
        Parcel::new(
            Dimensions::new(4_000, 19_000, 5_000).unwrap(),
            Weight::new(4_000).unwrap(),
        ),
    ];
    // three parcels cost 800 and three cost 1000; two full groups of three
    // free the two dearest
    let order = Order::new(parcels, ShippingSpeed::Normal);
    assert_eq!(order.discount(), -2000);
}
