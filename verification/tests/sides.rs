use redstone::wire_side::RedstoneWireSide;

#[test]
fn is_none_holds_only_of_no_connection() {
    assert!(RedstoneWireSide::Disconnected.is_none());
    assert!(!RedstoneWireSide::Up.is_none());
    assert!(!RedstoneWireSide::Side.is_none());
}

#[test]
fn from_str_reads_the_two_names() {
    assert_eq!(RedstoneWireSide::from_str("up"), RedstoneWireSide::Up);
    assert_eq!(RedstoneWireSide::from_str("side"), RedstoneWireSide::Side);
}

#[test]
fn from_str_takes_anything_else_as_no_connection() {
    assert_eq!(RedstoneWireSide::from_str("none"), RedstoneWireSide::Disconnected);
    assert_eq!(RedstoneWireSide::from_str(""), RedstoneWireSide::Disconnected);
    assert_eq!(RedstoneWireSide::from_str("Up"), RedstoneWireSide::Disconnected);
    assert_eq!(RedstoneWireSide::from_str("sideways"), RedstoneWireSide::Disconnected);
}

#[test]
fn ids_are_zero_one_two() {
    assert_eq!(RedstoneWireSide::Up.get_id(), 0);
    assert_eq!(RedstoneWireSide::Side.get_id(), 1);
    assert_eq!(RedstoneWireSide::Disconnected.get_id(), 2);
}

#[test]
fn from_id_inverts_get_id() {
    assert_eq!(RedstoneWireSide::from_id(0), RedstoneWireSide::Up);
    assert_eq!(RedstoneWireSide::from_id(1), RedstoneWireSide::Side);
    assert_eq!(RedstoneWireSide::from_id(2), RedstoneWireSide::Disconnected);
    for side in [RedstoneWireSide::Up, RedstoneWireSide::Side, RedstoneWireSide::Disconnected] {
        assert_eq!(RedstoneWireSide::from_id(side.get_id()), side);
    }
}

#[test]
fn default_side_is_no_connection() {
    assert_eq!(RedstoneWireSide::default(), RedstoneWireSide::Disconnected);
}
