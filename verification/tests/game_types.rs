use wavebreaker::game_types::{AccountType, Character, League};
use wavebreaker::numbers::{join_x_separated, split_comma_separated, split_x_separated};
use wavebreaker::skill::skill_points;

#[test]
fn test_split_x_separated() {
    // Test case 1: Valid input
    let input1 = "1x2x3x4x";
    let expected1 = vec![1, 2, 3, 4];
    assert_eq!(split_x_separated(input1).unwrap(), expected1);

    // Test case 2: Empty input
    let input2 = "";
    let expected2: Vec<i32> = vec![];
    assert_eq!(split_x_separated(input2).unwrap(), expected2);

    // Test case 3: Invalid input
    let input3 = "1x2x3xAAAx";
    assert!(split_x_separated(input3).is_err());
}

#[test]
fn test_join_x_separated() {
    // Test case 1: Valid input
    let input1 = vec![1, 2, 3, 4];
    let expected1 = "1x2x3x4x";
    assert_eq!(join_x_separated(&input1), expected1);

    // Test case 2: Empty input
    let input2: Vec<i32> = vec![];
    let expected2 = "x";
    assert_eq!(join_x_separated(&input2), expected2);
}

#[test]
fn split_accepts_signs_and_no_trailing_separator() {
    assert_eq!(split_x_separated("-5x+3").unwrap(), vec![-5, 3]);
    assert_eq!(split_x_separated("2147483647x").unwrap(), vec![i32::MAX]);
    assert_eq!(split_x_separated("-2147483648x").unwrap(), vec![i32::MIN]);
    // out of range
    assert!(split_x_separated("2147483648x").is_err());
    // the lone separator is the join of the empty list
    assert_eq!(split_x_separated("x").unwrap(), Vec::<i32>::new());
    // but an empty piece before a separator is still refused
    assert!(split_x_separated("xx").is_err());
    assert!(split_x_separated("1xx").is_err());
}

#[test]
fn roundtrip_join_then_split() {
    let v = vec![68, -65, 0, 2147483647, -2147483648];
    let joined = join_x_separated(&v);
    assert_eq!(split_x_separated(&joined).unwrap(), v);
    // the empty list round-trips through "x"
    let empty: Vec<i32> = vec![];
    assert_eq!(split_x_separated(&join_x_separated(&empty)).unwrap(), empty);
}

#[test]
fn split_comma_separated_basics() {
    assert_eq!(split_comma_separated("1,2,3").unwrap(), vec![1, 2, 3]);
    assert_eq!(split_comma_separated("7").unwrap(), vec![7]);
    assert!(split_comma_separated("").is_err());
    assert!(split_comma_separated("1,,3").is_err());
    assert!(split_comma_separated("1,a").is_err());
}

#[test]
fn skill_points_formula() {
    // round((508143 / 84490) * 300) = round(1804.27) = 1804
    assert_eq!(skill_points(508143, 84490, League::Elite), 1804);
    // round((600000 / 84490) * 300) = round(2130.43) = 2130
    assert_eq!(skill_points(600000, 84490, League::Elite), 2130);
    // round((550000 / 84490) * 300) = round(1952.89) = 1953
    assert_eq!(skill_points(550000, 84490, League::Elite), 1953);
    assert_eq!(skill_points(400000, 84490, League::Elite), 1420);
    // league multiplier
    assert_eq!(skill_points(100, 200, League::Casual), 50);
    assert_eq!(skill_points(100, 200, League::Pro), 100);
    assert_eq!(skill_points(100, 200, League::Elite), 150);
    // halves round away from zero
    assert_eq!(skill_points(1, 200, League::Pro), 1);
    assert_eq!(skill_points(-1, 200, League::Pro), -1);
    // a zero threshold saturates toward the score's sign
    assert_eq!(skill_points(5, 0, League::Casual), i32::MAX);
    assert_eq!(skill_points(-5, 0, League::Casual), i32::MIN);
    assert_eq!(skill_points(0, 0, League::Casual), 0);
}

#[test]
fn league_and_character_codes() {
    assert_eq!(League::from_i16(2), Some(League::Elite));
    assert_eq!(League::from_i16(3), None);
    assert_eq!(League::Elite.to_i16(), 2);
    assert_eq!(Character::from_i16(10), Some(Character::PointmanElite));
    assert_eq!(Character::from_i16(5), None);
    assert_eq!(Character::Mono.to_i16(), 17);
    assert_eq!(AccountType::from_i16(1), Some(AccountType::Moderator));
    assert_eq!(AccountType::from_i16(9), None);
}
