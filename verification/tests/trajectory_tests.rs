use bibber::gro::{box_line, particle_line};
use bibber::trajectory::TrajectoryText;

fn rest_line(index: usize, x: &str) -> String {
    particle_line(index, [x, "0.000", "0.000"], ["0.0000", "0.0000", "0.0000"])
}

#[test]
fn empty_trajectory_exports_nothing() {
    let t = TrajectoryText::new("pair".to_string(), 2, box_line("1", "1", "1"));
    assert_eq!(t.n_particles(), 2);
    assert_eq!(t.n_frames(), 0);
    assert_eq!(t.to_gro(), "");
}

#[test]
fn frames_append_in_order() {
    let mut t = TrajectoryText::new("pair".to_string(), 2, box_line("1e-7", "1e-7", "1e-7"));
    t.add_frame("0".to_string(), vec![rest_line(0, "0.000"), rest_line(1, "5.000")]);
    assert_eq!(t.n_frames(), 1);
    t.add_frame("0.001".to_string(), vec![rest_line(0, "0.000"), rest_line(1, "5.000")]);
    assert_eq!(t.n_frames(), 2);
    assert_eq!(t.n_particles(), 2);
    let gro = t.to_gro();
    let expected = "pair, t= 0\n2\n\
        \u{20}   0DUMMY  DUM    0   0.000   0.000   0.000  0.0000  0.0000  0.0000\n\
        \u{20}   1DUMMY  DUM    1   5.000   0.000   0.000  0.0000  0.0000  0.0000\n\
        1e-7 1e-7 1e-7\n\
        pair, t= 0.001\n2\n\
        \u{20}   0DUMMY  DUM    0   0.000   0.000   0.000  0.0000  0.0000  0.0000\n\
        \u{20}   1DUMMY  DUM    1   5.000   0.000   0.000  0.0000  0.0000  0.0000\n\
        1e-7 1e-7 1e-7\n";
    assert_eq!(gro, expected);
}

#[test]
fn initial_positions_render_exactly_in_nanometres() {
    // Two particles at rest at (0,0,0) and (5e-10, 0, 0) metres; the first
    // exported frame reproduces the positions exactly in nanometres.
    let mut t = TrajectoryText::new("scenario".to_string(), 2, box_line("1e-7", "1e-7", "1e-7"));
    let p0 = format!("{:.3}", 0.0e0 * 1e9);
    let p1 = format!("{:.3}", 5.0e-10 * 1e9);
    assert_eq!(p0, "0.000");
    assert_eq!(p1, "0.500");
    t.add_frame("0".to_string(), vec![rest_line(0, &p0), rest_line(1, &p1)]);
    let gro = t.to_gro();
    assert!(gro.contains("   0.000   0.000   0.000"));
    assert!(gro.contains("   0.500   0.000   0.000"));
}
