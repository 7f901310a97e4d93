use chess_tui::board::Coords;
use chess_tui::constants::UNDEFINED_POSITION;

#[test]
fn coords_new_min() {
    assert_eq!(Coords { col: 0, row: 0 }, Coords::new(0, 0));
}

#[test]
fn coords_new_max() {
    assert_eq!(Coords { col: 7, row: 7 }, Coords::new(7, 7));
}

#[test]
fn coords_new() {
    assert_eq!(Coords { col: 6, row: 1 }, Coords::new(1, 6));
}

#[test]
fn coords_default() {
    assert_eq!(
        Coords {
            col: UNDEFINED_POSITION,
            row: UNDEFINED_POSITION
        },
        Coords::default()
    );
}

#[test]
fn notation_to_coords_0() {
    let nt = "a1";
    assert_eq!(Coords { col: 0, row: 7 }, Coords::from_basic_san(nt));
}

#[test]
fn notation_to_coords_1() {
    let nt = "h1";
    assert_eq!(Coords { col: 7, row: 7 }, Coords::from_basic_san(nt));
}

#[test]
fn notation_to_coords_2() {
    let nt = "a8";
    assert_eq!(Coords { col: 0, row: 0 }, Coords::from_basic_san(nt));
}

#[test]
fn notation_to_coords_3() {
    let nt = "h8";
    assert_eq!(Coords { col: 7, row: 0 }, Coords::from_basic_san(nt));
}

#[test]
fn notation_to_coords_6() {
    let nt = "e4";
    assert_eq!(Coords { col: 4, row: 4 }, Coords::from_basic_san(nt));
}

#[test]
fn notation_to_coords_7() {
    let nt = "e5";
    assert_eq!(Coords { col: 4, row: 3 }, Coords::from_basic_san(nt));
}

#[test]
fn coords_hist_round_trip() {
    let c = Coords::new(6, 4);
    let code = c.to_hist();
    assert_eq!(code, "64");
    assert_eq!(Coords::from_hist(&code), c);
}

#[test]
fn coords_is_valid_bounds() {
    assert!(Coords::new(0, 0).is_valid());
    assert!(Coords::new(7, 7).is_valid());
    assert!(!Coords::new(8, 0).is_valid());
    assert!(!Coords::new(0, -1).is_valid());
    assert!(!Coords::default().is_valid());
}
