use ascii_engine::clip::{clip, ClipPoint, ClipTriangle, Side};
use ascii_engine::configuration::Configuration;
use ascii_engine::light::{LightSource, INTENSITY_ONE};
use ascii_engine::math::{Triangle, Vec2};
use ascii_engine::player::{player_action, Action, Key, PitchLimit};
use ascii_engine::visibility::far_to_near;

fn t(p1: ClipPoint, p2: ClipPoint, p3: ClipPoint) -> ClipTriangle {
    ClipTriangle { p1, p2, p3 }
}

use ClipPoint::{Crossing, Vertex};

#[test]
fn clip_keeps_a_triangle_in_front() {
    let whole = vec![t(Vertex(0), Vertex(1), Vertex(2))];
    assert_eq!(clip(Side::Inside, Side::Inside, Side::Inside), whole);
    assert_eq!(clip(Side::OnPlane, Side::Inside, Side::OnPlane), whole);
}

#[test]
fn clip_drops_a_triangle_behind() {
    assert!(clip(Side::Outside, Side::Outside, Side::Outside).is_empty());
}

#[test]
fn clip_one_corner_behind_gives_two_triangles() {
    assert_eq!(
        clip(Side::Outside, Side::Inside, Side::Inside),
        vec![t(Crossing(0, 1), Vertex(1), Crossing(0, 2)), t(Crossing(0, 2), Vertex(1), Vertex(2))]
    );
    assert_eq!(
        clip(Side::Inside, Side::Outside, Side::Inside),
        vec![t(Crossing(1, 2), Vertex(2), Crossing(1, 0)), t(Crossing(1, 0), Vertex(2), Vertex(0))]
    );
    assert_eq!(
        clip(Side::Inside, Side::Inside, Side::Outside),
        vec![t(Crossing(2, 0), Vertex(0), Crossing(2, 1)), t(Crossing(2, 1), Vertex(0), Vertex(1))]
    );
}

#[test]
fn clip_keeps_winding_with_a_corner_on_the_plane() {
    // Corner 1 alone behind the plane: the pieces are listed the other way
    // round whether the kept corners are on the plane or in front of it.
    let expected =
        vec![t(Crossing(1, 2), Vertex(2), Crossing(1, 0)), t(Crossing(1, 0), Vertex(2), Vertex(0))];
    assert_eq!(clip(Side::OnPlane, Side::Outside, Side::Inside), expected);
    assert_eq!(clip(Side::Inside, Side::Outside, Side::OnPlane), expected);
    assert_eq!(clip(Side::OnPlane, Side::Outside, Side::OnPlane), expected);
    assert_eq!(
        clip(Side::Outside, Side::OnPlane, Side::OnPlane),
        vec![t(Crossing(0, 1), Vertex(1), Crossing(0, 2)), t(Crossing(0, 2), Vertex(1), Vertex(2))]
    );
}

#[test]
fn clip_two_corners_behind_gives_one_triangle() {
    assert_eq!(clip(Side::Inside, Side::Outside, Side::Outside), vec![t(Crossing(1, 0), Crossing(2, 0), Vertex(0))]);
    assert_eq!(clip(Side::Outside, Side::Inside, Side::Outside), vec![t(Crossing(0, 1), Vertex(1), Crossing(2, 1))]);
    assert_eq!(clip(Side::Outside, Side::Outside, Side::Inside), vec![t(Crossing(0, 2), Crossing(1, 2), Vertex(2))]);
}

#[test]
fn painter_order_is_farthest_first() {
    assert_eq!(far_to_near(&vec![1, 5, 3]), vec![1, 2, 0]);
}

#[test]
fn painter_order_keeps_ties_in_mesh_order() {
    assert_eq!(far_to_near(&vec![2, 7, 2, 7, 0]), vec![1, 3, 0, 2, 4]);
    assert_eq!(far_to_near(&vec![]), Vec::<usize>::new());
}

#[test]
fn light_facing_square_on_is_brightest() {
    let l = LightSource::new();
    assert_eq!(l.diffuse_light(INTENSITY_ONE), '@');
    assert_eq!(l.diffuse_light(INTENSITY_ONE + 5), '@');
}

#[test]
fn light_edge_on_or_facing_away_is_dimmest() {
    let l = LightSource::new();
    assert_eq!(l.diffuse_light(0), '.');
    assert_eq!(l.diffuse_light(-INTENSITY_ONE), '.');
}

#[test]
fn light_rounds_to_the_nearest_glyph() {
    let l = LightSource::new();
    // 0.5 * 6 = 3
    assert_eq!(l.diffuse_light(INTENSITY_ONE / 2), 'l');
    // 0.25 * 6 = 1.5 rounds up to 2
    assert_eq!(l.diffuse_light(INTENSITY_ONE / 4), ';');
    // 0.2 * 6 = 1.2 rounds down to 1
    assert_eq!(l.diffuse_light(INTENSITY_ONE / 5), ',');
    let single = LightSource { light_gradient: vec!['o'] };
    assert_eq!(single.diffuse_light(INTENSITY_ONE / 2), 'o');
}

#[test]
fn keys_map_to_actions() {
    assert_eq!(player_action(Key::Left, false, PitchLimit::Free), Action::TurnLeft);
    assert_eq!(player_action(Key::Right, false, PitchLimit::Free), Action::TurnRight);
    assert_eq!(player_action(Key::Char('z'), false, PitchLimit::Free), Action::Forward);
    assert_eq!(player_action(Key::Char('s'), false, PitchLimit::Free), Action::Backward);
    assert_eq!(player_action(Key::Char('q'), false, PitchLimit::Free), Action::StrafeLeft);
    assert_eq!(player_action(Key::Char('d'), false, PitchLimit::Free), Action::StrafeRight);
    assert_eq!(player_action(Key::Char(' '), false, PitchLimit::Free), Action::Rise);
    assert_eq!(player_action(Key::Char(' '), true, PitchLimit::Free), Action::Sink);
    assert_eq!(player_action(Key::Char('r'), false, PitchLimit::Free), Action::SpinMesh);
    assert_eq!(player_action(Key::Char('R'), false, PitchLimit::Free), Action::SpinMeshBack);
    assert_eq!(player_action(Key::Char('t'), false, PitchLimit::Free), Action::MoveLight);
    assert_eq!(player_action(Key::Char('x'), false, PitchLimit::Free), Action::Nothing);
    assert_eq!(player_action(Key::Other, false, PitchLimit::Free), Action::Nothing);
}

#[test]
fn pitch_stops_at_its_bounds() {
    assert_eq!(player_action(Key::Up, false, PitchLimit::Free), Action::LookUp);
    assert_eq!(player_action(Key::Up, false, PitchLimit::Ceiling), Action::Nothing);
    assert_eq!(player_action(Key::Up, false, PitchLimit::Floor), Action::LookUp);
    assert_eq!(player_action(Key::Down, false, PitchLimit::Free), Action::LookDown);
    assert_eq!(player_action(Key::Down, false, PitchLimit::Floor), Action::Nothing);
    assert_eq!(player_action(Key::Down, false, PitchLimit::Ceiling), Action::LookDown);
}

#[test]
fn configuration_from_terminal_or_fallback() {
    let c = Configuration::new(Some((80, 24)));
    assert_eq!((c.width, c.height, c.buffer_size), (80, 24, 1920));
    let c = Configuration::new(None);
    assert_eq!((c.width, c.height, c.buffer_size), (700, 500, 350000));
    let c = Configuration::empty();
    assert_eq!((c.width, c.height, c.buffer_size), (0, 0, 0));
}

#[test]
fn grid_triangle_points_can_be_moved() {
    let mut t = Triangle::new(Vec2::new(0, 0), Vec2::new(1, 1), Vec2::new(2, 2));
    t.update_p1(3, 4);
    t.update_p2(5, 6);
    t.update_p3(7, 8);
    assert_eq!(t, Triangle::new(Vec2::new(3, 4), Vec2::new(5, 6), Vec2::new(7, 8)));
}
