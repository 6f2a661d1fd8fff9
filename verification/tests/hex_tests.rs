use hextrap::hex::{hex_distance, inside_board, is_border, is_neighbor_of, neighbors, Coord};

fn c(q: i32, r: i32) -> Coord {
    Coord { q, r }
}

#[test]
fn distance_examples() {
    assert_eq!(hex_distance(c(0, 0), c(0, 0)), 0);
    assert_eq!(hex_distance(c(0, 0), c(1, 0)), 1);
    assert_eq!(hex_distance(c(0, 0), c(1, -1)), 1);
    assert_eq!(hex_distance(c(0, 0), c(2, -1)), 2);
    assert_eq!(hex_distance(c(0, 0), c(3, -1)), 3);
    assert_eq!(hex_distance(c(-2, -1), c(1, 2)), 6);
    assert_eq!(hex_distance(c(0, 0), c(1, 1)), 2);
}

#[test]
fn distance_is_symmetric_on_samples() {
    let pts = [c(0, 0), c(3, -2), c(-1, 4), c(5, 5), c(-7, 2)];
    for a in pts {
        for b in pts {
            assert_eq!(hex_distance(a, b), hex_distance(b, a));
        }
    }
}

#[test]
fn neighbor_order_is_fixed() {
    let ns = neighbors(c(2, -1));
    assert_eq!(ns[0], c(3, -1));
    assert_eq!(ns[1], c(1, -1));
    assert_eq!(ns[2], c(2, 0));
    assert_eq!(ns[3], c(2, -2));
    assert_eq!(ns[4], c(3, -2));
    assert_eq!(ns[5], c(1, 0));
}

#[test]
fn neighbors_are_at_distance_one() {
    for n in neighbors(c(4, -2)) {
        assert_eq!(hex_distance(c(4, -2), n), 1);
        assert!(is_neighbor_of(c(4, -2), n));
    }
    assert!(!is_neighbor_of(c(4, -2), c(4, -2)));
    assert!(!is_neighbor_of(c(4, -2), c(6, -2)));
    assert!(!is_neighbor_of(c(4, -2), c(5, -1)));
}

#[test]
fn inside_and_border() {
    assert!(inside_board(c(0, 0), 3));
    assert!(inside_board(c(3, 0), 3));
    assert!(!inside_board(c(4, 0), 3));
    assert!(!inside_board(c(2, 2), 3));
    assert!(is_border(c(3, 0), 3));
    assert!(is_border(c(0, -3), 3));
    assert!(!is_border(c(2, 0), 3));
    assert!(!is_border(c(4, 0), 3));
    assert!(inside_board(c(0, 0), 0) && is_border(c(0, 0), 0));
}
