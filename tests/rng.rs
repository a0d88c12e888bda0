use runeforge::dice::parse_dice;
use runeforge::rng::{roll_dice_notation, roll_dice_notation_seeded, Rng};

#[test]
fn test_range() {
    let mut rng = Rng::new().unwrap();
    for _ in 0..100 {
        let value = rng.range(1, 6);
        assert!((1..=6).contains(&value));
    }
}

#[test]
fn test_seeded_determinism() {
    let mut rng1 = Rng::with_seed(42);
    let mut rng2 = Rng::with_seed(42);
    for _ in 0..100 {
        assert_eq!(rng1.range(1, 1000), rng2.range(1, 1000));
    }
}

#[test]
fn test_different_seeds_different_results() {
    let mut rng1 = Rng::with_seed(1);
    let mut rng2 = Rng::with_seed(2);
    let results1: Vec<_> = (0..10).map(|_| rng1.range(1, 1000)).collect();
    let results2: Vec<_> = (0..10).map(|_| rng2.range(1, 1000)).collect();
    assert_ne!(results1, results2);
}

#[test]
fn test_roll_dice() {
    let mut rng = Rng::new().unwrap();
    let result = rng.roll_dice(3, 6);
    assert!((3..=18).contains(&result));
}

#[test]
fn test_roll_dice_seeded() {
    let mut rng1 = Rng::with_seed(12345);
    let mut rng2 = Rng::with_seed(12345);
    assert_eq!(rng1.roll_dice(3, 6), rng2.roll_dice(3, 6));
}

#[test]
fn test_parse_dice() {
    assert_eq!(parse_dice("3d6").unwrap(), (3, 6, 0));
    assert_eq!(parse_dice("1d20+5").unwrap(), (1, 20, 5));
    assert_eq!(parse_dice("d8-2").unwrap(), (1, 8, -2));
    assert_eq!(parse_dice("2d10+3").unwrap(), (2, 10, 3));
}

#[test]
fn test_parse_dice_errors() {
    assert!(parse_dice("invalid").is_err());
    assert!(parse_dice("3x6").is_err());
    assert!(parse_dice("d0").is_err());
}

#[test]
fn parse_dice_edge_cases() {
    assert_eq!(parse_dice("  2D6  ").unwrap(), (2, 6, 0));
    assert_eq!(parse_dice("+2d6+-1").unwrap(), (2, 6, -1));
    assert!(parse_dice("2d+6").is_err());
    assert_eq!(parse_dice("4294967295d1").unwrap(), (4294967295, 1, 0));
    assert!(parse_dice("4294967296d1").is_err());
    assert_eq!(parse_dice("1d2147483647").unwrap(), (1, 2147483647, 0));
    assert!(parse_dice("1d2147483648").is_err());
    assert_eq!(parse_dice("1d6-2147483647").unwrap(), (1, 6, -2147483647));
    assert!(parse_dice("1d6--2147483648").is_err());
    assert!(parse_dice("").is_err());
    assert!(parse_dice("d").is_err());
    assert!(parse_dice("1d6+").is_err());
    assert!(parse_dice("1 d6").is_err());
    assert!(parse_dice("xd6").is_err());
    assert!(parse_dice("d-3").is_err());
}

#[test]
fn test_weighted_choose() {
    let mut rng = Rng::new().unwrap();
    let items = vec!["a", "b", "c"];
    let weights = vec![100, 0, 0];
    for _ in 0..10 {
        assert_eq!(rng.weighted_choose(&items, &weights), Some(&"a"));
    }
}

#[test]
fn weighted_choose_refuses_bad_input() {
    let mut rng = Rng::with_seed(3);
    let items = vec![1, 2];
    assert_eq!(rng.weighted_choose(&items, &[0, 0]), None);
    assert_eq!(rng.weighted_choose(&items, &[1]), None);
    let empty: Vec<i32> = Vec::new();
    assert_eq!(rng.weighted_choose(&empty, &[]), None);
    for _ in 0..20 {
        assert_eq!(rng.weighted_choose(&items, &[0, 7]), Some(&2));
    }
}

#[test]
fn test_shuffle_seeded() {
    let mut rng1 = Rng::with_seed(42);
    let mut rng2 = Rng::with_seed(42);
    let mut items1 = vec![1, 2, 3, 4, 5];
    let mut items2 = vec![1, 2, 3, 4, 5];
    rng1.shuffle(&mut items1);
    rng2.shuffle(&mut items2);
    assert_eq!(items1, items2);
}

#[test]
fn shuffle_keeps_the_items() {
    let mut rng = Rng::with_seed(9);
    let mut items: Vec<u32> = (0..50).collect();
    rng.shuffle(&mut items);
    let mut sorted = items.clone();
    sorted.sort();
    assert_eq!(sorted, (0..50).collect::<Vec<u32>>());
    assert_ne!(items, sorted);
}

#[test]
fn test_choose_seeded() {
    let mut rng1 = Rng::with_seed(42);
    let mut rng2 = Rng::with_seed(42);
    let items = vec!["a", "b", "c", "d", "e"];
    for _ in 0..10 {
        assert_eq!(rng1.choose_item(&items), rng2.choose_item(&items));
    }
}

#[test]
fn choose_item_on_no_items() {
    let mut rng = Rng::with_seed(1);
    let empty: Vec<u8> = Vec::new();
    assert_eq!(rng.choose_item(&empty), None);
    assert_eq!(rng.choose_item(&[7u8]), Some(&7));
}

#[test]
fn test_rng_roll_method() {
    let mut rng = Rng::with_seed(123);
    let val1 = rng.roll("1d6").unwrap();
    let mut rng2 = Rng::with_seed(123);
    let val2 = rng2.roll("1d6").unwrap();
    assert_eq!(val1, val2);
}

#[test]
fn rolls_stay_within_their_bounds() {
    let mut rng = Rng::with_seed(5);
    for _ in 0..50 {
        let v = rng.roll("2d4+3").unwrap();
        assert!((5..=11).contains(&v));
    }
    assert_eq!(rng.roll("0d6+4").unwrap(), 4);
    assert_eq!(rng.roll_dice(0, 6), 0);
    assert!(rng.roll("3x6").is_err());
    assert!(rng.roll("2d2147483647").is_err());
    let a = roll_dice_notation_seeded("3d8-1", 77).unwrap();
    let b = roll_dice_notation_seeded("3d8-1", 77).unwrap();
    assert_eq!(a, b);
    assert!((2..=23).contains(&a));
    let c = roll_dice_notation("1d1+1").unwrap();
    assert_eq!(c, 2);
    assert!(roll_dice_notation("d0").is_err());
}
