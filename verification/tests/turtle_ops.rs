use memscan::turtle::{parse_byte, Artist, Operation, Orientation, HEIGHT, HOME_X, HOME_Y, WIDTH};
use memscan::vga::{Color, Cursor};

#[test]
fn parse_byte_decodes_every_class() {
    assert_eq!(parse_byte(b'0'), Operation::Home);
    assert_eq!(parse_byte(b'1'), Operation::Forward(40));
    assert_eq!(parse_byte(b'5'), Operation::Forward(200));
    assert_eq!(parse_byte(b'9'), Operation::Forward(360));
    assert_eq!(parse_byte(b'a'), Operation::TurnLeft);
    assert_eq!(parse_byte(b'c'), Operation::TurnLeft);
    assert_eq!(parse_byte(b'd'), Operation::TurnRight);
    assert_eq!(parse_byte(b'f'), Operation::TurnRight);
    assert_eq!(parse_byte(b'z'), Operation::Noop(b'z'));
    assert_eq!(parse_byte(b' '), Operation::Noop(b' '));
}

#[test]
fn new_artist_stands_at_home_facing_north() {
    let a = Artist::new();
    assert_eq!(a.x, HOME_X);
    assert_eq!(a.y, HOME_Y);
    assert_eq!(a.heading, Orientation::North);
}

#[test]
fn forward_moves_along_each_heading() {
    let mut a = Artist::new();
    a.forward(50);
    assert_eq!((a.x, a.y), (HOME_X, HOME_Y + 50));
    a.heading = Orientation::South;
    a.forward(30);
    assert_eq!((a.x, a.y), (HOME_X, HOME_Y + 20));
    a.heading = Orientation::East;
    a.forward(10);
    assert_eq!((a.x, a.y), (HOME_X - 10, HOME_Y + 20));
    a.heading = Orientation::West;
    a.forward(25);
    assert_eq!((a.x, a.y), (HOME_X + 15, HOME_Y + 20));
}

#[test]
fn four_right_turns_come_back_around() {
    let mut a = Artist::new();
    a.turn_right();
    assert_eq!(a.heading, Orientation::East);
    a.turn_right();
    assert_eq!(a.heading, Orientation::South);
    a.turn_right();
    assert_eq!(a.heading, Orientation::West);
    a.turn_right();
    assert_eq!(a.heading, Orientation::North);
}

#[test]
fn left_turn_undoes_right_turn() {
    let mut a = Artist::new();
    a.turn_left();
    assert_eq!(a.heading, Orientation::West);
    a.turn_right();
    assert_eq!(a.heading, Orientation::North);
}

#[test]
fn home_restores_the_center_but_not_the_heading() {
    let mut a = Artist::new();
    a.turn_right();
    a.forward(100);
    a.home();
    assert_eq!((a.x, a.y), (HOME_X, HOME_Y));
    assert_eq!(a.heading, Orientation::East);
}

#[test]
fn wrap_recenters_a_cursor_that_left_the_canvas() {
    let mut a = Artist { x: -5, y: 10, heading: Orientation::East };
    a.wrap();
    assert_eq!((a.x, a.y), (HOME_X, 10));
    assert_eq!(a.heading, Orientation::West);

    let mut b = Artist { x: WIDTH + 1, y: 10, heading: Orientation::North };
    b.wrap();
    assert_eq!((b.x, b.y), (HOME_X, 10));
    assert_eq!(b.heading, Orientation::East);

    let mut c = Artist { x: 10, y: -1, heading: Orientation::East };
    c.wrap();
    assert_eq!((c.x, c.y), (10, HOME_Y));
    assert_eq!(c.heading, Orientation::North);

    let mut d = Artist { x: 10, y: HEIGHT + 7, heading: Orientation::East };
    d.wrap();
    assert_eq!((d.x, d.y), (10, HOME_Y));
    assert_eq!(d.heading, Orientation::South);
}

#[test]
fn wrap_leaves_a_cursor_on_the_canvas_alone() {
    let mut a = Artist { x: 0, y: HEIGHT, heading: Orientation::South };
    a.wrap();
    assert_eq!((a.x, a.y), (0, HEIGHT));
    assert_eq!(a.heading, Orientation::South);
}

#[test]
fn cursor_attribute_byte_packs_background_over_foreground() {
    let c = Cursor { position: 0, foreground: Color::White, background: Color::Red };
    assert_eq!(c.color(), 0x4f);
    let d = Cursor { position: 0, foreground: Color::BrightCyan, background: Color::Black };
    assert_eq!(d.color(), 0x0b);
}
