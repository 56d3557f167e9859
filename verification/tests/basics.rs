use open_cowork::ping;

#[test]
fn ping_returns_pong() {
    assert_eq!(ping(), "pong");
}
