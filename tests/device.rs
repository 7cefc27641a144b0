use solve_arrow_puzzle::device::{arrow_from_luma, arrow_from_red, mean_luma, serialize_taps};
use solve_arrow_puzzle::expert::Arrow;
use solve_arrow_puzzle::hex::Hex;
use solve_arrow_puzzle::puzzle::{Arrow as RowArrow, Board, BoardPoke, Row, RowPoke};

#[test]
fn one_tap_is_a_touch_down_and_up() {
    let bytes = serialize_taps(1080, 2340, &[(100, 200)]);
    let mut down = vec![2, 0, 0x12, 0x34, 0x56, 0x78, 0x87, 0x65, 0x43, 0x21, 0, 0, 0, 100, 0, 0, 0, 200, 0x04, 0x38, 0x09, 0x24, 0xff, 0xff];
    down.extend([0; 8]);
    let mut up = vec![2, 1, 0x12, 0x34, 0x56, 0x78, 0x87, 0x65, 0x43, 0x21, 0, 0, 0, 100, 0, 0, 0, 200, 0x04, 0x38, 0x09, 0x24, 0, 0];
    up.extend([0; 8]);
    let mut expected = down;
    expected.extend(up);
    assert_eq!(bytes, expected);
    assert_eq!(serialize_taps(1, 1, &[]), Vec::<u8>::new());
}

#[test]
fn tap_coordinates_are_big_endian_and_sizes_are_cut() {
    let bytes = serialize_taps(70000, 16, &[(0x01020304, 7), (1, 2)]);
    assert_eq!(bytes.len(), 128);
    assert_eq!(&bytes[10..14], &[1, 2, 3, 4]);
    assert_eq!(&bytes[18..20], &[0x11, 0x70]);
    assert_eq!(&bytes[20..22], &[0, 16]);
    assert_eq!(&bytes[64 + 10..64 + 18], &[0, 0, 0, 1, 0, 0, 0, 2]);
}

#[test]
fn luma_and_red_name_arrows() {
    assert_eq!(arrow_from_luma(39).map(|a| a.value()), Some(0));
    assert_eq!(arrow_from_luma(31).map(|a| a.value()), Some(0));
    assert_eq!(arrow_from_luma(77).map(|a| a.value()), Some(4));
    assert_eq!(arrow_from_luma(40), None);
    assert_eq!(arrow_from_red(85).map(|a| a.value()), Some(5));
    assert_eq!(arrow_from_red(44).map(|a| a.value()), Some(2));
    assert_eq!(arrow_from_red(51), None);
    assert_eq!(mean_luma(&[39; 8]), 39);
    assert_eq!(mean_luma(&[40, 40, 40, 40, 41, 41, 41, 41]), 41);
    assert_eq!(mean_luma(&[40, 40, 40, 40, 40, 41, 41, 41]), 40);
    assert_eq!(mean_luma(&[255; 8]), 255);
}

#[test]
fn try_map_stops_at_first_error() {
    let h = Hex::from_fn(|x, y| (x + 7 * y) as u8);
    let ok: Result<Hex<Arrow>, u8> = h.try_map_by_ref(|&v| Arrow::from_u8(v % 6).map_err(|_| v));
    let mapped = ok.unwrap();
    assert_eq!(mapped.at(6, 3).map(|a| a.value()), Some((6 + 21) % 6));
    let err: Result<Hex<Arrow>, u8> = h.try_map_by_ref(|&v| Arrow::from_u8(v).map_err(|_| v));
    assert_eq!(err.err(), Some(7));
}

#[test]
fn board_drawn_with_highlight() {
    let r = Row([RowArrow::Up, RowArrow::Right, RowArrow::Down, RowArrow::Left]);
    let b = Board([r; 4]);
    let text = b.to_string_with_highlight(BoardPoke(RowPoke::B, RowPoke::C));
    let plain = "\u{2502} \u{2191}  \u{2192}  \u{2193}  \u{2190} \u{2502}\n";
    let marked = "\u{2502} \u{2191} \x1b[7m \u{2192} \x1b[0m \u{2193}  \u{2190} \u{2502}\n";
    let expected = format!(
        "\u{250c}{}\u{2510}\n{}{}{}{}\u{2514}{}\u{2518}",
        "\u{2500}".repeat(12),
        plain,
        plain,
        marked,
        plain,
        "\u{2500}".repeat(12)
    );
    assert_eq!(text, expected);
}

#[test]
fn board_and_row_drawn_plain() {
    let r = Row([RowArrow::Up, RowArrow::Right, RowArrow::Down, RowArrow::Left]);
    let line = "\u{2502} \u{2191}  \u{2192}  \u{2193}  \u{2190} \u{2502}\n";
    let top = format!("\u{250c}{}\u{2510}\n", "\u{2500}".repeat(12));
    let bottom = format!("\u{2514}{}\u{2518}", "\u{2500}".repeat(12));
    assert_eq!(r.to_string(), format!("{}{}{}", top, line, bottom));
    assert_eq!(Board([r; 4]).to_string(), format!("{}{}{}{}{}{}", top, line, line, line, line, bottom));
}
