use copycolors::canvas::{ColorsCanvas, RenderMode};
use copycolors::color::Color;
use copycolors::piece::Piece;

fn black() -> Color {
    Color::new(0, 0, 0)
}

fn white() -> Color {
    Color::new(255, 255, 255)
}

fn bw() -> Vec<Color> {
    vec![black(), white()]
}

fn blank_run(n: usize) -> Piece {
    Piece::plain(" ".repeat(n), false)
}

#[test]
fn best_contrast_on_black_is_white() {
    assert_eq!(black().best_contrast(&bw()), white());
}

#[test]
fn best_contrast_on_white_is_black() {
    assert_eq!(white().best_contrast(&bw()), black());
}

#[test]
fn best_contrast_on_mid_gray_is_black() {
    // luminance 0.50: against black (0.55/0.05 = 11.0) beats white (1.05/0.55)
    let gray = Color::new(128, 128, 128);
    assert_eq!(gray.best_contrast(&bw()), black());
    assert_eq!(gray.best_contrast(&vec![white(), black()]), black());
}

#[test]
fn best_contrast_tie_keeps_first() {
    let red = Color::new(200, 0, 0);
    let yellow = Color::new(250, 250, 0);
    assert_eq!(yellow.best_contrast(&vec![white(), white(), black()]), black());
    assert_eq!(red.best_contrast(&vec![black(), white()]), white());
    assert_eq!(black().best_contrast(&vec![white(), white()]), white());
    assert_eq!(black().best_contrast(&vec![red, red]), red);
}

#[test]
fn best_contrast_single_candidate() {
    let c = Color::new(1, 2, 3);
    assert_eq!(white().best_contrast(&vec![c]), c);
}

#[test]
fn hex_string_is_upper_case_and_padded() {
    assert_eq!(Color::new(10, 11, 255).to_hex_string(), "#0A0BFF");
    assert_eq!(black().to_hex_string(), "#000000");
    assert_eq!(white().to_hex_string(), "#FFFFFF");
}

#[test]
fn decimal_string_has_no_padding() {
    assert_eq!(Color::new(10, 0, 255).to_decimal_string(), "10,0,255");
    assert_eq!(white().to_decimal_string(), "255,255,255");
    assert_eq!(Color::new(7, 99, 100).label(true), "7,99,100");
    assert_eq!(Color::new(7, 99, 100).label(false), "#076364");
}

#[test]
fn hex_round_trip() {
    for (r, g, b) in [(0, 0, 0), (255, 255, 255), (18, 52, 86), (171, 205, 239), (1, 128, 254)] {
        let c = Color::new(r, g, b);
        assert_eq!(Color::from_hex(&c.to_hex_string()), Some(c));
    }
}

#[test]
fn from_hex_accepts_lower_case() {
    assert_eq!(Color::from_hex("#abcdef"), Some(Color::new(171, 205, 239)));
    assert_eq!(Color::from_hex("#aBcDeF"), Some(Color::new(171, 205, 239)));
}

#[test]
fn from_hex_rejects_other_text() {
    assert_eq!(Color::from_hex("123456"), None);
    assert_eq!(Color::from_hex("#12345"), None);
    assert_eq!(Color::from_hex("#1234567"), None);
    assert_eq!(Color::from_hex("#12345G"), None);
    assert_eq!(Color::from_hex(""), None);
    assert_eq!(Color::from_hex("#00000é"), None);
}

#[test]
fn clipboard_off_gives_nothing() {
    for sc in [false, true] {
        for wrgb in [false, true] {
            let cv = ColorsCanvas::new(bw(), sc, wrgb, false);
            assert_eq!(cv.colors_clipboarded(), None);
        }
    }
}

#[test]
fn clipboard_joins_labels_with_commas() {
    let cv = ColorsCanvas::new(bw(), false, false, true);
    assert_eq!(cv.colors_clipboarded(), Some("#000000,#FFFFFF".to_string()));
    let cv = ColorsCanvas::new(bw(), true, true, true);
    assert_eq!(cv.colors_clipboarded(), Some("0,0,0,255,255,255".to_string()));
    let cv = ColorsCanvas::new(vec![Color::new(1, 2, 3)], false, true, true);
    assert_eq!(cv.colors_clipboarded(), Some("1,2,3".to_string()));
    let cv = ColorsCanvas::new(vec![], false, false, true);
    assert_eq!(cv.colors_clipboarded(), Some(String::new()));
}

#[test]
fn print_black_and_white() {
    let cv = ColorsCanvas::new(bw(), false, false, false);
    let expected = vec![
        Piece::colored(" #000000 ".to_string(), white(), black(), true),
        Piece::plain(",".to_string(), false),
        Piece::colored(" #FFFFFF ".to_string(), black(), white(), true),
    ];
    assert_eq!(cv.print(), expected);
    assert_eq!(cv.display(80), vec![expected]);
}

#[test]
fn print_labels_and_commas_counts() {
    for n in 0..6usize {
        let colors: Vec<Color> = (0..n).map(|k| Color::new(k as u8 * 40, 10, 20)).collect();
        let cv = ColorsCanvas::new(colors.clone(), false, true, false);
        let line = cv.print();
        let commas = line.iter().filter(|p| p.text == ",").count();
        let labels = line.iter().filter(|p| p.text != ",").count();
        assert_eq!(labels, n);
        assert_eq!(commas, n.saturating_sub(1));
        for (k, c) in colors.iter().enumerate() {
            assert_eq!(line[2 * k].text, format!(" {} ", c.to_decimal_string()));
            assert_eq!(line[2 * k].bg, Some(*c));
        }
    }
}

#[test]
fn tui_text_uses_no_break_spaces() {
    let cv = ColorsCanvas::new(bw(), false, true, false);
    let expected = vec![
        Piece::colored("\u{a0}0,0,0\u{a0}".to_string(), white(), black(), true),
        Piece::plain(",".to_string(), false),
        Piece::colored("\u{a0}255,255,255\u{a0}".to_string(), black(), white(), true),
    ];
    assert_eq!(cv.tui_text(), expected);
    let cv = ColorsCanvas::new(vec![], false, true, false);
    assert!(cv.tui_text().is_empty());
}

fn seven_colors() -> Vec<Color> {
    (0..7u8).map(|k| Color::new(k * 30, 255 - k * 30, 100)).collect()
}

#[test]
fn grid_of_seven_on_forty_columns() {
    let colors = seven_colors();
    let cv = ColorsCanvas::new(colors.clone(), true, false, false);
    let lines = cv.display(40);
    // two bands of 4 + 2 rows, then an empty line
    assert_eq!(lines.len(), 13);
    assert!(lines[12].is_empty());
    // first band: four squares of 10 columns, no lead
    assert_eq!(lines[0].len(), 40);
    assert!(lines[0].iter().all(|p| *p == Piece::plain(" ".to_string(), false)));
    assert_eq!(lines[1].len(), 12);
    assert_eq!(lines[1][0], blank_run(2));
    assert_eq!(lines[1][1], Piece::plain(colors[0].to_hex_string(), true));
    assert_eq!(lines[1][2], blank_run(1));
    assert_eq!(lines[1][10], Piece::plain(colors[3].to_hex_string(), true));
    assert_eq!(lines[2].len(), 40);
    assert_eq!(lines[2][1], Piece::plain(" ".to_string(), false));
    assert_eq!(lines[2][2], Piece::colored(" ".to_string(), colors[0], colors[0], false));
    assert_eq!(lines[2][39], Piece::colored(" ".to_string(), colors[3], colors[3], false));
    // second band: three squares centered by (4 - 3) * 10 / 2 = 5 blanks
    for i in 6..12 {
        assert_eq!(lines[i][0], blank_run(5));
    }
    assert_eq!(lines[6].len(), 31);
    assert_eq!(lines[7].len(), 10);
    assert_eq!(lines[7][2], Piece::plain(colors[4].to_hex_string(), true));
    assert_eq!(lines[7][8], Piece::plain(colors[6].to_hex_string(), true));
    assert_eq!(lines[9].len(), 31);
    assert_eq!(lines[9][3], Piece::colored(" ".to_string(), colors[4], colors[4], false));
    assert_eq!(lines[9][30], Piece::colored(" ".to_string(), colors[6], colors[6], false));
}

#[test]
fn grid_full_last_band_has_no_lead() {
    let colors: Vec<Color> = seven_colors().into_iter().take(4).collect();
    let cv = ColorsCanvas::new(colors, true, false, false);
    let lines = cv.draw(40);
    assert_eq!(lines.len(), 7);
    assert_eq!(lines[0].len(), 40);
    assert_eq!(lines[1].len(), 12);
}

#[test]
fn grid_decimal_labels_fill_sixteen_columns() {
    let colors = vec![Color::new(255, 255, 255), Color::new(1, 2, 3)];
    let cv = ColorsCanvas::new(colors, true, true, false);
    // 18 columns a square: 40 columns hold two
    let lines = cv.draw(40);
    assert_eq!(lines.len(), 11);
    assert_eq!(lines[1].len(), 6);
    assert_eq!(lines[1][1], Piece::plain("255,255,255".to_string(), true));
    assert_eq!(lines[1][2], blank_run(5));
    assert_eq!(lines[1][4], Piece::plain("1,2,3".to_string(), true));
    assert_eq!(lines[1][5], blank_run(11));
    assert_eq!(lines[2].len(), 36);
}

#[test]
fn grid_on_narrow_terminal_keeps_one_column() {
    let cv = ColorsCanvas::new(bw(), true, false, false);
    let lines = cv.draw(3);
    assert_eq!(lines.len(), 13);
    assert_eq!(lines[0].len(), 10);
    assert_eq!(lines[7][1], Piece::plain("#FFFFFF".to_string(), true));
}

#[test]
fn grid_of_no_colors_is_one_empty_line() {
    let cv = ColorsCanvas::new(vec![], true, false, false);
    let lines = cv.display(80);
    assert_eq!(lines.len(), 1);
    assert!(lines[0].is_empty());
}

#[test]
fn print_of_no_colors_is_empty() {
    let cv = ColorsCanvas::new(vec![], false, false, false);
    assert_eq!(cv.display(80), vec![Vec::<Piece>::new()]);
}

#[test]
fn mode_follows_canvas_flag() {
    assert_eq!(ColorsCanvas::new(bw(), true, false, false).mode(), RenderMode::GridCanvas);
    assert_eq!(ColorsCanvas::new(bw(), false, true, true).mode(), RenderMode::InlineList);
}

#[test]
fn contrast_ratio_of_black_on_white() {
    // (1.0 + 0.05) / (0.0 + 0.05) = 21
    let (num, den) = white().contrast_ratio(black());
    assert_eq!(num, 21 * den);
    assert_eq!(black().contrast_ratio(white()), (num, den));
    let (num, den) = Color::new(128, 128, 128).contrast_ratio(Color::new(128, 128, 128));
    assert_eq!(num, den);
}
