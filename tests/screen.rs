use solve_arrow_puzzle::android::{TapPosition, TapperConfig};
use solve_arrow_puzzle::gui::{ArrowToColor, Color, Dimensions, Point, ScreenBuf};
use solve_arrow_puzzle::puzzle::{Arrow, BoardPoke, RowPoke};

#[test]
fn arrow_positions_on_screen() {
    let d = Dimensions {
        first_arrow_position: Point { x: 100, y: 200 },
        claim_button_position: Point { x: 0, y: 0 },
        arrow_diameter: 50,
    };
    assert_eq!(d.arrow_position(&BoardPoke(RowPoke::C, RowPoke::B)), Point { x: 200, y: 250 });
    let t = TapperConfig {
        top_left_arrow: TapPosition { x: -10, y: 20 },
        claim_button: TapPosition { x: 0, y: 0 },
        arrow_diameter: 7,
    };
    assert_eq!(t.arrow_position(&BoardPoke(RowPoke::D, RowPoke::A)), TapPosition { x: 11, y: 20 });
}

#[test]
fn closest_colour_wins_and_ties_go_first() {
    let c = |r, g, b| Color { r, g, b };
    let atc = ArrowToColor { up: c(255, 0, 0), right: c(0, 255, 0), down: c(0, 0, 255), left: c(10, 10, 10) };
    assert_eq!(atc.closest(c(250, 5, 5)), Arrow::Up);
    assert_eq!(atc.closest(c(0, 0, 200)), Arrow::Down);
    assert_eq!(atc.closest(c(0, 0, 0)), Arrow::Left);
    let same = ArrowToColor { up: c(1, 1, 1), right: c(1, 1, 1), down: c(1, 1, 1), left: c(1, 1, 1) };
    assert_eq!(same.closest(c(9, 9, 9)), Arrow::Up);
}

#[test]
fn pixels_of_a_frame() {
    let frame: Vec<u8> = (0..24).collect();
    let buf = ScreenBuf::new(frame, 3, 2);
    let view = buf.as_view();
    assert_eq!(view.at_apple_silicon(0, 0), Some(Color { r: 2, g: 1, b: 0 }));
    assert_eq!(view.at_apple_silicon(2, 1), Some(Color { r: 22, g: 21, b: 20 }));
    assert_eq!(view.at_apple_silicon(3, 0), None);
    assert_eq!(view.at_apple_silicon(0, 2), None);
    assert_eq!(view.to_buf(), buf);
}
