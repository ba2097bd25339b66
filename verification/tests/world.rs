use turmites::ant::Ant;
use turmites::config::{Config, COLOR_BITSHIFT, HUE2_END, HUE2_RANGE, HUE2_SCALE, HUE2_START, HUE_RANGE};
use turmites::hsv2rgb::hsv2rgb;
use turmites::world::World;

fn small(width: u32, height: u32) -> Config {
    Config { width, height, ..Config::default() }
}

fn frame_for(world: &World) -> Vec<u8> {
    vec![0x55; 4 * world.config.width as usize * world.config.height as usize]
}

fn pixel(frame: &[u8], index: usize) -> [u8; 4] {
    [frame[4 * index], frame[4 * index + 1], frame[4 * index + 2], frame[4 * index + 3]]
}

#[test]
fn default_config_has_the_documented_values() {
    let config = Config::default();
    assert_eq!(
        config,
        Config {
            width: 128,
            height: 64,
            rate_mul: 4,
            ants: 2,
            color_inc: 1,
            color_inc2: 512,
            fade_count: 2000,
            show_ants: false,
            use_hue2: true,
        }
    );
    assert!(config.is_valid());
}

#[test]
fn scales_of_the_hue_fields() {
    assert_eq!(HUE_RANGE, 1536);
    assert_eq!(HUE2_SCALE, 1 << COLOR_BITSHIFT);
    assert_eq!(HUE2_RANGE, 1536 << COLOR_BITSHIFT);
    assert_eq!(HUE2_START, 1400 << COLOR_BITSHIFT);
    assert_eq!(HUE2_END, 900 << COLOR_BITSHIFT);
}

#[test]
fn config_validity() {
    assert!(small(1, 1).is_valid());
    assert!(small(i32::MAX as u32, i32::MAX as u32).is_valid());
    assert!(!small(0, 1).is_valid());
    assert!(!small(1, 0).is_valid());
    assert!(!small(i32::MAX as u32 + 1, 1).is_valid());
    assert!(!small(1, u32::MAX).is_valid());
}

#[test]
fn with_ants_starts_from_a_blank_field() {
    let config = Config { rate_mul: 9, ..small(3, 2) };
    let ants = vec![Ant { x: 2, y: 1, direction: 3 }, Ant { x: 0, y: 0, direction: 1 }];
    let world = World::with_ants(config, ants.clone());
    assert_eq!(world.config, config);
    assert_eq!(world.state, vec![vec![0u32; 2]; 3]);
    assert_eq!(world.hue, vec![vec![0u16; 2]; 3]);
    assert_eq!(world.hue2, vec![vec![HUE2_END; 2]; 3]);
    assert_eq!(world.ants, ants);
    assert_eq!(world.steps_since_draw, 9);
    assert!(!world.reverse);
}

#[test]
fn new_world_has_the_configured_ants_on_the_grid() {
    let config = Config { ants: 40, ..small(5, 9) };
    let world = World::new(config);
    assert_eq!(world.ants.len(), 40);
    for ant in &world.ants {
        assert!(0 <= ant.x && ant.x < 5);
        assert!(0 <= ant.y && ant.y < 9);
        assert!(ant.direction < 4);
    }
    assert_eq!(world.state, vec![vec![0u32; 9]; 5]);
    assert_eq!(world.hue, vec![vec![0u16; 9]; 5]);
    assert_eq!(world.hue2, vec![vec![HUE2_END; 9]; 5]);
    assert_eq!(world.steps_since_draw, 4);
    assert!(!world.reverse);
}

#[test]
fn new_world_with_the_default_config() {
    let world = World::new(Config::default());
    assert_eq!(world.ants.len(), 2);
    assert_eq!(world.state.len(), 128);
    assert!(world.state.iter().all(|column| column.len() == 64));
    assert_eq!(world.hue2[127][63], 900 << 12);
}

#[test]
fn new_world_without_ants() {
    let mut world = World::new(Config { ants: 0, ..small(2, 2) });
    assert!(world.ants.is_empty());
    world.update();
    assert_eq!(world.state, vec![vec![0u32; 2]; 2]);
    assert_eq!(world.steps_since_draw, 3);
}

#[test]
fn new_worlds_scatter_their_ants() {
    let world = World::new(Config { ants: 64, ..small(1000, 1000) });
    let first = world.ants[0];
    // Sixty-four draws from a million cells do not all land on one cell.
    assert!(world.ants.iter().any(|ant| (ant.x, ant.y) != (first.x, first.y)));
}

#[test]
fn four_ticks_on_a_blank_four_by_four_grid() {
    let config = Config { fade_count: 2000, ..small(4, 4) };
    let mut world = World::with_ants(config, vec![Ant { x: 0, y: 0, direction: 0 }]);
    // Every cell is off, so every tick turns clockwise:
    // -y from (0, 0) wraps to (0, 3), -x wraps to (3, 3),
    // +y wraps to (3, 0), +x wraps to (0, 0).
    world.update();
    assert_eq!(world.ants[0], Ant { x: 0, y: 3, direction: 1 });
    world.update();
    assert_eq!(world.ants[0], Ant { x: 3, y: 3, direction: 2 });
    world.update();
    assert_eq!(world.ants[0], Ant { x: 3, y: 0, direction: 3 });
    world.update();
    assert_eq!(world.ants[0], Ant { x: 0, y: 0, direction: 0 });
    assert_eq!((world.ants[0].x, world.ants[0].y), (0, 0));

    let mut state = vec![vec![0u32; 4]; 4];
    let mut hue = vec![vec![0u16; 4]; 4];
    let mut hue2 = vec![vec![HUE2_END; 4]; 4];
    for (n, (x, y)) in [(0usize, 0usize), (0, 3), (3, 3), (3, 0)].into_iter().enumerate() {
        state[x][y] = 2000;
        hue[x][y] = 1;
        hue2[x][y] = HUE2_START + 512 * (3 - n as u32);
    }
    assert_eq!(world.state, state);
    assert_eq!(world.hue, hue);
    assert_eq!(world.hue2, hue2);
    assert_eq!(world.steps_since_draw, 0);

    // Back on a cell that is on: counter-clockwise to +y, and the cell goes off.
    world.update();
    assert_eq!(world.ants[0], Ant { x: 0, y: 1, direction: 3 });
    assert_eq!(world.state[0][0], 0);
    assert_eq!(world.hue[0][0], 2);
    assert_eq!(world.hue2[0][0], HUE2_START);
    assert_eq!(world.steps_since_draw, 0);
}

#[test]
fn countdown_to_the_render_stops_at_zero() {
    let mut world = World::with_ants(Config { rate_mul: 2, ..small(2, 2) }, vec![]);
    assert_eq!(world.steps_since_draw, 2);
    world.update();
    assert_eq!(world.steps_since_draw, 1);
    world.update();
    assert_eq!(world.steps_since_draw, 0);
    world.update();
    assert_eq!(world.steps_since_draw, 0);
    let mut frame = frame_for(&world);
    world.draw(&mut frame);
    assert_eq!(world.steps_since_draw, 2);
}

#[test]
fn ants_on_one_cell_see_each_other_in_order() {
    let config = Config { fade_count: 6, ..small(3, 3) };
    let ants = vec![Ant { x: 1, y: 1, direction: 0 }, Ant { x: 1, y: 1, direction: 0 }];
    let mut world = World::with_ants(config, ants.clone());
    world.update();
    // The first finds the cell off, the second finds it on.
    assert_eq!(world.ants, vec![Ant { x: 1, y: 0, direction: 1 }, Ant { x: 1, y: 2, direction: 3 }]);
    assert_eq!(world.state[1][1], 0);
    assert_eq!(world.hue[1][1], 2);

    let mut world = World::with_ants(config, ants);
    world.reverse = true;
    world.update();
    // In reverse the last ant moves first, and the hue steps back.
    assert_eq!(world.ants, vec![Ant { x: 1, y: 2, direction: 3 }, Ant { x: 1, y: 0, direction: 1 }]);
    assert_eq!(world.state[1][1], 0);
    assert_eq!(world.hue[1][1], 1534);
    assert!(world.reverse);
}

#[test]
fn an_ant_walks_into_the_trail_of_the_one_before_it() {
    let config = Config { fade_count: 6, ..small(3, 1) };
    let ants = vec![Ant { x: 0, y: 0, direction: 3 }, Ant { x: 0, y: 0, direction: 3 }];
    let mut world = World::with_ants(config, ants);
    world.update();
    // First: off, clockwise from +y to +x, moves to (1, 0).
    // Second: on, counter-clockwise from +y to -x, wraps to (2, 0).
    assert_eq!(world.ants, vec![Ant { x: 1, y: 0, direction: 0 }, Ant { x: 2, y: 0, direction: 2 }]);
    assert_eq!(world.state, vec![vec![0], vec![0], vec![0]]);
    assert_eq!(world.hue, vec![vec![2], vec![0], vec![0]]);
}

#[test]
fn blank_default_world_renders_the_settled_hue() {
    let mut world = World::with_ants(Config::default(), vec![]);
    let mut frame = frame_for(&world);
    assert_eq!(frame.len(), 32768);
    world.draw(&mut frame);
    let (r, g, b) = hsv2rgb(900, 255, 255);
    assert_eq!((r, g, b), (0, 123, 255));
    for index in 0..128 * 64 {
        assert_eq!(pixel(&frame, index), [0, 123, 255, 255]);
    }
    // A settled hue stays settled, and nothing was on to fade.
    assert_eq!(world.hue2, vec![vec![HUE2_END; 64]; 128]);
    assert_eq!(world.state, vec![vec![0u32; 64]; 128]);
    assert_eq!(world.hue, vec![vec![0u16; 64]; 128]);
    assert_eq!(world.steps_since_draw, 4);
}

#[test]
fn pixels_are_written_row_by_row() {
    let config = Config { use_hue2: false, ..small(3, 2) };
    let mut world = World::with_ants(config, vec![]);
    world.hue[0][0] = 0;
    world.hue[1][0] = 256;
    world.hue[2][0] = 512;
    world.hue[0][1] = 768;
    world.hue[1][1] = 1024;
    world.hue[2][1] = 1280;
    let mut frame = frame_for(&world);
    world.draw(&mut frame);
    assert_eq!(
        frame,
        vec![
            255, 0, 0, 255, 255, 255, 0, 255, 0, 255, 0, 255, // red, yellow, green
            0, 255, 255, 255, 0, 0, 255, 255, 255, 0, 255, 255, // cyan, blue, magenta
        ]
    );
    // The primary hue is not touched by a render.
    assert_eq!(world.hue, vec![vec![0, 768], vec![256, 1024], vec![512, 1280]]);
}

#[test]
fn secondary_hue_is_scaled_down_for_the_picture() {
    let mut world = World::with_ants(small(2, 1), vec![]);
    world.hue2[0][0] = (256 << 12) + 4095;
    world.hue2[1][0] = 128 << 12;
    let mut frame = frame_for(&world);
    world.draw(&mut frame);
    assert_eq!(pixel(&frame, 0), [255, 255, 0, 255]);
    assert_eq!(pixel(&frame, 1), [255, 127, 0, 255]);
}

#[test]
fn picture_shows_the_hue_from_before_the_render_moved_it() {
    let config = Config { color_inc2: 4096, rate_mul: 128, ..small(1, 1) };
    let mut world = World::with_ants(config, vec![]);
    world.hue2[0][0] = HUE2_END + 1;
    let mut frame = frame_for(&world);
    world.draw(&mut frame);
    assert_eq!(pixel(&frame, 0), [0, 123, 255, 255]);
    assert_eq!(world.hue2[0][0], HUE2_END + 1 + 128 * 4096);
    world.draw(&mut frame);
    let (r, g, b) = hsv2rgb(900 + 128, 255, 255);
    assert_eq!(pixel(&frame, 0), [r, g, b, 255]);
    assert_eq!((r, g, b), (3, 0, 255));
}

#[test]
fn ants_are_white_when_shown() {
    let config = Config { show_ants: true, ..small(2, 2) };
    let mut world = World::with_ants(config, vec![Ant { x: 1, y: 0, direction: 0 }, Ant { x: 0, y: 1, direction: 2 }]);
    let mut frame = frame_for(&world);
    world.draw(&mut frame);
    assert_eq!(pixel(&frame, 0), [0, 123, 255, 255]);
    assert_eq!(pixel(&frame, 1), [255, 255, 255, 255]);
    assert_eq!(pixel(&frame, 2), [255, 255, 255, 255]);
    assert_eq!(pixel(&frame, 3), [0, 123, 255, 255]);
    assert!(world.ant_at(1, 0));
    assert!(world.ant_at(0, 1));
    assert!(!world.ant_at(0, 0));
    assert!(!world.ant_at(1, 1));
}

#[test]
fn ants_are_hidden_by_default() {
    let mut world = World::with_ants(small(2, 1), vec![Ant { x: 1, y: 0, direction: 0 }]);
    let mut frame = frame_for(&world);
    world.draw(&mut frame);
    assert_eq!(pixel(&frame, 1), [0, 123, 255, 255]);
    // A render leaves the ants where they are.
    assert_eq!(world.ants, vec![Ant { x: 1, y: 0, direction: 0 }]);
}

#[test]
fn cell_fades_by_one_per_render_until_it_is_off() {
    let config = Config { fade_count: 5, ..small(2, 2) };
    let mut world = World::with_ants(config, vec![Ant { x: 0, y: 0, direction: 0 }]);
    world.update();
    assert_eq!(world.state[0][0], 5);
    let mut frame = frame_for(&world);
    for expected in [4u32, 3, 2, 1, 0] {
        world.draw(&mut frame);
        assert_eq!(world.state[0][0], expected);
    }
    world.draw(&mut frame);
    assert_eq!(world.state[0][0], 0);
    assert_eq!(world.state, vec![vec![0u32; 2]; 2]);
}

#[test]
fn cell_fades_out_in_fade_count_renders_on_the_default_settings() {
    let config = small(1, 1);
    let mut world = World::with_ants(config, vec![]);
    world.state[0][0] = config.fade_count;
    let mut frame = frame_for(&world);
    for n in 1..=2000u32 {
        world.draw(&mut frame);
        assert_eq!(world.state[0][0], 2000 - n);
    }
    assert_eq!(world.state[0][0], 0);
}

#[test]
fn secondary_hue_stops_at_the_settling_point() {
    let mut world = World::with_ants(small(4, 2), vec![]);
    world.hue2[0][0] = HUE2_END - 1;
    world.hue2[1][0] = HUE2_END - 2047;
    world.hue2[2][0] = HUE2_END - 2048;
    world.hue2[3][0] = HUE2_END - 2049;
    world.hue2[0][1] = HUE2_END;
    world.hue2[1][1] = HUE2_END + 1;
    world.hue2[2][1] = HUE2_RANGE - 1;
    world.hue2[3][1] = 0;
    let mut frame = frame_for(&world);
    world.draw(&mut frame);
    assert_eq!(
        world.hue2,
        vec![
            vec![HUE2_END, HUE2_END],
            vec![HUE2_END, HUE2_END + 2049],
            vec![HUE2_END, 2047],
            vec![HUE2_END - 1, 2048],
        ]
    );
    world.draw(&mut frame);
    assert_eq!(world.hue2[3][0], HUE2_END);
    assert_eq!(world.hue2[1][1], HUE2_END + 4097);
}

#[test]
fn secondary_hue_settles_from_far_below_on_a_long_step() {
    let config = Config { color_inc2: u32::MAX, rate_mul: u32::MAX, ..small(2, 1) };
    let mut world = World::with_ants(config, vec![]);
    world.hue2[0][0] = 0;
    world.hue2[1][0] = HUE2_END + 1;
    let mut frame = frame_for(&world);
    world.draw(&mut frame);
    assert_eq!(world.hue2[0][0], HUE2_END);
    let expected = (HUE2_END as u128 + 1 + u32::MAX as u128 * u32::MAX as u128) % HUE2_RANGE as u128;
    assert_eq!(world.hue2[1][0] as u128, expected);
}

#[test]
fn secondary_hue_stands_still_without_a_step() {
    let config = Config { rate_mul: 0, ..small(2, 1) };
    let mut world = World::with_ants(config, vec![]);
    world.hue2[0][0] = 17;
    world.hue2[1][0] = HUE2_END;
    let mut frame = frame_for(&world);
    world.draw(&mut frame);
    assert_eq!(world.hue2, vec![vec![17], vec![HUE2_END]]);
    assert_eq!(world.steps_since_draw, 0);
}

#[test]
fn visited_cell_comes_round_to_the_settling_point() {
    let mut world = World::with_ants(small(1, 1), vec![Ant { x: 0, y: 0, direction: 0 }]);
    world.update();
    assert_eq!(world.hue2[0][0], HUE2_START + 3 * 512);
    world.ants.clear();
    let mut frame = frame_for(&world);
    let mut renders = 0u32;
    while world.hue2[0][0] != HUE2_END {
        world.draw(&mut frame);
        renders += 1;
        assert!(world.hue2[0][0] < HUE2_RANGE);
        assert!(renders < 10_000);
    }
    // 5735936 + 272 * 2048 wraps to 1536; the 1800th render after that would pass 3686400.
    assert_eq!(renders, 2072);
    world.draw(&mut frame);
    assert_eq!(world.hue2[0][0], HUE2_END);
}

#[test]
fn tick_and_render_alternate_like_a_running_program() {
    let mut world = World::new(Config::default());
    let mut frame = frame_for(&world);
    for _ in 0..50 {
        for _ in 0..world.config.rate_mul {
            world.update();
        }
        world.draw(&mut frame);
        assert_eq!(world.steps_since_draw, 4);
        assert!(frame.chunks(4).all(|rgba| rgba[3] == 255));
    }
    for ant in &world.ants {
        assert!((0..128).contains(&ant.x) && (0..64).contains(&ant.y) && ant.direction < 4);
    }
    for x in 0..128 {
        for y in 0..64 {
            assert!(world.state[x][y] <= 2000);
            assert!(world.hue[x][y] < HUE_RANGE);
            assert!(world.hue2[x][y] < HUE2_RANGE);
        }
    }
}

#[test]
fn worlds_from_the_constructors_are_valid_and_stay_so() {
    let mut world = World::new(Config { ants: 5, ..small(6, 4) });
    assert!(world.is_valid());
    let mut frame = frame_for(&world);
    for _ in 0..20 {
        world.update();
        assert!(world.is_valid());
        world.draw(&mut frame);
        assert!(world.is_valid());
    }
    assert!(World::with_ants(small(1, 1), vec![]).is_valid());
    assert!(World::with_ants(small(2, 3), vec![Ant { x: 1, y: 2, direction: 3 }]).is_valid());
}

#[test]
fn validity_notices_every_kind_of_damage() {
    let config = Config { fade_count: 10, ..small(3, 2) };
    let good = World::with_ants(config, vec![Ant { x: 2, y: 1, direction: 0 }]);
    assert!(good.is_valid());

    let mut world = good.clone();
    world.state[2][1] = 10;
    world.hue[0][0] = 1535;
    world.hue2[1][1] = HUE2_RANGE - 1;
    assert!(world.is_valid());

    let mut world = good.clone();
    world.state[2][1] = 11;
    assert!(!world.is_valid());

    let mut world = good.clone();
    world.hue[0][1] = 1536;
    assert!(!world.is_valid());

    let mut world = good.clone();
    world.hue2[1][0] = HUE2_RANGE;
    assert!(!world.is_valid());

    let mut world = good.clone();
    world.state.pop();
    assert!(!world.is_valid());

    let mut world = good.clone();
    world.hue.push(vec![0, 0]);
    assert!(!world.is_valid());

    let mut world = good.clone();
    world.hue2[2].push(0);
    assert!(!world.is_valid());

    let mut world = good.clone();
    world.state[0].pop();
    assert!(!world.is_valid());

    let mut world = good.clone();
    world.ants[0].x = 3;
    assert!(!world.is_valid());

    let mut world = good.clone();
    world.ants[0].y = -1;
    assert!(!world.is_valid());

    let mut world = good.clone();
    world.ants.push(Ant { x: 0, y: 0, direction: 4 });
    assert!(!world.is_valid());

    let mut world = good.clone();
    world.config.width = 0;
    assert!(!world.is_valid());

    let mut world = good.clone();
    world.config.height = 3;
    assert!(!world.is_valid());

    let mut world = good;
    world.steps_since_draw = 1_000_000;
    world.reverse = true;
    assert!(world.is_valid());
}
