use bibber::gro::{box_line, frame_header, gro_frame, pad_left, particle_line, usize_to_string};
use bibber::offsets::neighbour_offsets;

#[test]
fn numerals_render_without_leading_zeros() {
    assert_eq!(usize_to_string(0), "0");
    assert_eq!(usize_to_string(7), "7");
    assert_eq!(usize_to_string(907), "907");
    assert_eq!(usize_to_string(120000), "120000");
}

#[test]
fn padding_right_aligns() {
    assert_eq!(pad_left("ab", 5), "   ab");
    assert_eq!(pad_left("abcde", 5), "abcde");
    assert_eq!(pad_left("abcdef", 5), "abcdef");
    assert_eq!(pad_left("", 3), "   ");
}

#[test]
fn particle_record_layout_is_fixed_width() {
    // The initial frame of the reference scenario: a particle at the origin
    // and one 0.5 nanometres along the first axis, both at rest.
    let l0 = particle_line(0, ["0.000", "0.000", "0.000"], ["0.0000", "0.0000", "0.0000"]);
    assert_eq!(
        l0,
        "    0DUMMY  DUM    0   0.000   0.000   0.000  0.0000  0.0000  0.0000\n"
    );
    let l1 = particle_line(1, ["5.000", "0.000", "0.000"], ["0.0000", "0.0000", "0.0000"]);
    assert_eq!(
        l1,
        "    1DUMMY  DUM    1   5.000   0.000   0.000  0.0000  0.0000  0.0000\n"
    );
}

#[test]
fn frame_header_layout() {
    assert_eq!(frame_header("my sim", "0.001", 2), "my sim, t= 0.001\n2\n");
}

#[test]
fn box_line_layout() {
    assert_eq!(box_line("1e-7", "1e-7", "1e-7"), "1e-7 1e-7 1e-7\n");
}

#[test]
fn whole_frame_layout() {
    let lines = vec![
        particle_line(0, ["0.000", "0.000", "0.000"], ["0.0000", "0.0000", "0.0000"]),
        particle_line(1, ["5.000", "0.000", "0.000"], ["0.0000", "0.0000", "0.0000"]),
    ];
    let bbox = box_line("1e-7", "1e-7", "1e-7");
    let frame = gro_frame("pair", "0", &lines, &bbox);
    assert_eq!(
        frame,
        "pair, t= 0\n2\n\
         \u{20}   0DUMMY  DUM    0   0.000   0.000   0.000  0.0000  0.0000  0.0000\n\
         \u{20}   1DUMMY  DUM    1   5.000   0.000   0.000  0.0000  0.0000  0.0000\n\
         1e-7 1e-7 1e-7\n"
    );
}

#[test]
fn there_are_27_image_offsets_in_order() {
    let offs = neighbour_offsets();
    assert_eq!(offs.len(), 27);
    assert_eq!(offs[0], (-1, -1, -1));
    assert_eq!(offs[1], (-1, -1, 0));
    assert_eq!(offs[13], (0, 0, 0));
    assert_eq!(offs[26], (1, 1, 1));
    for a in 0..27 {
        for b in 0..a {
            assert_ne!(offs[a], offs[b]);
        }
    }
    // Every component combination of -1, 0, +1 appears.
    for x in -1i64..=1 {
        for y in -1i64..=1 {
            for z in -1i64..=1 {
                assert!(offs.contains(&(x, y, z)));
            }
        }
    }
}
