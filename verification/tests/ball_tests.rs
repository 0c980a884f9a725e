use canticlec_churn::ball::{reverse_direction, reverse_horizontal_direction, reverse_vertical_direction, Direction};

const ALL: [Direction; 8] = [
    Direction::Up,
    Direction::Down,
    Direction::Left,
    Direction::Right,
    Direction::UpLeft,
    Direction::UpRight,
    Direction::DownLeft,
    Direction::DownRight,
];

#[test]
fn reverse_turns_every_direction_around() {
    assert_eq!(reverse_direction(Direction::Up), Direction::Down);
    assert_eq!(reverse_direction(Direction::Down), Direction::Up);
    assert_eq!(reverse_direction(Direction::Left), Direction::Right);
    assert_eq!(reverse_direction(Direction::Right), Direction::Left);
    assert_eq!(reverse_direction(Direction::UpLeft), Direction::DownRight);
    assert_eq!(reverse_direction(Direction::UpRight), Direction::DownLeft);
    assert_eq!(reverse_direction(Direction::DownLeft), Direction::UpRight);
    assert_eq!(reverse_direction(Direction::DownRight), Direction::UpLeft);
}

#[test]
fn horizontal_bounce_flips_only_the_horizontal_part() {
    assert_eq!(reverse_horizontal_direction(Direction::Left), Direction::Right);
    assert_eq!(reverse_horizontal_direction(Direction::UpLeft), Direction::UpRight);
    assert_eq!(reverse_horizontal_direction(Direction::DownRight), Direction::DownLeft);
    assert_eq!(reverse_horizontal_direction(Direction::Up), Direction::Up);
    assert_eq!(reverse_horizontal_direction(Direction::Down), Direction::Down);
}

#[test]
fn vertical_bounce_flips_only_the_vertical_part() {
    assert_eq!(reverse_vertical_direction(Direction::Up), Direction::Down);
    assert_eq!(reverse_vertical_direction(Direction::UpRight), Direction::DownRight);
    assert_eq!(reverse_vertical_direction(Direction::DownLeft), Direction::UpLeft);
    assert_eq!(reverse_vertical_direction(Direction::Left), Direction::Left);
    assert_eq!(reverse_vertical_direction(Direction::Right), Direction::Right);
}

#[test]
fn each_reversal_undoes_itself() {
    for d in ALL {
        assert_eq!(reverse_direction(reverse_direction(d)), d);
        assert_eq!(reverse_horizontal_direction(reverse_horizontal_direction(d)), d);
        assert_eq!(reverse_vertical_direction(reverse_vertical_direction(d)), d);
    }
}

#[test]
fn corner_bounce_is_a_full_reversal() {
    for d in ALL {
        assert_eq!(reverse_vertical_direction(reverse_horizontal_direction(d)), reverse_direction(d));
    }
}
