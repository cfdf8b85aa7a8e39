use tank_game::{Point, RaqoteRenderer, GM_ONE_PIXEL};

fn renderer(width: i32, height: i32) -> RaqoteRenderer {
    RaqoteRenderer::from_target(raqote::DrawTarget::new(width, height))
}

#[test]
fn canvas_size_is_what_it_was_made_with() {
    let r = renderer(7, 3);
    assert_eq!(r.width(), 7);
    assert_eq!(r.height(), 3);
    assert_eq!(r.get_data().len(), 21);
    assert_eq!(r.get_data_u8().len(), 84);
}

#[test]
fn canvas_bytes_spell_the_pixels() {
    let mut r = renderer(2, 1);
    r.target().get_data_mut()[1] = 0x11223344;
    assert_eq!(r.get_data(), &[0, 0x11223344]);
    let bytes = r.get_data_u8();
    let low_first = [0, 0, 0, 0, 0x44, 0x33, 0x22, 0x11];
    let high_first = [0, 0, 0, 0, 0x11, 0x22, 0x33, 0x44];
    assert!(bytes == low_first || bytes == high_first);
}

#[test]
fn things_on_the_canvas_or_within_the_margin_are_drawn() {
    let r = renderer(100, 50);
    let at = |x: i64, y: i64| Point::new(x * GM_ONE_PIXEL, y * GM_ONE_PIXEL);
    assert!(r.visible(&at(0, 0)));
    assert!(r.visible(&at(99, 49)));
    assert!(!r.visible(&at(100, 0)));
    assert!(!r.visible(&at(0, 50)));
    assert!(r.visible(&at(-40, -40)));
    assert!(!r.visible(&at(-41, 0)));
    assert!(r.visible(&Point::new(-40 * GM_ONE_PIXEL - 9_999, 0)));
    assert!(!r.visible(&Point::new(-41 * GM_ONE_PIXEL, 0)));
    assert!(r.visible(&Point::new(99 * GM_ONE_PIXEL + 9_999, 0)));
}

#[test]
fn pixels_round_towards_zero() {
    assert_eq!(tank_game::render::pixels_in(19_999), 1);
    assert_eq!(tank_game::render::pixels_in(-19_999), -1);
    assert_eq!(tank_game::render::pixels_in(-9_999), 0);
    assert_eq!(tank_game::render::pixels_in(i64::MIN), i64::MIN / 10_000);
}
