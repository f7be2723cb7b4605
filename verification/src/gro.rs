//! Fixed-width assembly of trajectory export records.
//!
//! A trajectory is exported frame by frame: a header line with the title and
//! the frame time, a particle-count line, one fixed-width record per particle
//! (index in five columns, two placeholder labels, then six numeric fields of
//! eight columns each), and a closing line with the box extents.  The numeric
//! fields arrive here already rendered; this module owns the layout.

use vstd::prelude::*;
use crate::text::spec_concat;

verus! {

/// The decimal digit character of `d`.
pub open spec fn digit_char(d: int) -> char {
    if d == 0 {
        '0'
    } else if d == 1 {
        '1'
    } else if d == 2 {
        '2'
    } else if d == 3 {
        '3'
    } else if d == 4 {
        '4'
    } else if d == 5 {
        '5'
    } else if d == 6 {
        '6'
    } else if d == 7 {
        '7'
    } else if d == 8 {
        '8'
    } else {
        '9'
    }
}

/// The decimal numeral of `n`, most significant digit first.
pub open spec fn spec_digits_of(n: int) -> Seq<char>
    decreases n,
{
    if n < 10 {
        seq![digit_char(n)]
    } else {
        spec_digits_of(n / 10).push(digit_char(n % 10))
    }
}

/// `n` space characters (none for `n <= 0`).
pub open spec fn spaces(n: int) -> Seq<char>
    decreases n,
{
    if n <= 0 {
        Seq::empty()
    } else {
        spaces(n - 1).push(' ')
    }
}

/// `s` right-aligned in a field of `w` columns; a longer `s` is kept whole.
pub open spec fn spec_pad_left(s: Seq<char>, w: int) -> Seq<char> {
    spaces(w - s.len()) + s
}

/// The decimal digit of `d` as a string slice.
fn digit_str(d: usize) -> (r: &'static str)
    requires
        d < 10,
    ensures
        r@ == seq![digit_char(d as int)],
{
    if d == 0 {
        proof {
            reveal_strlit("0");
        }
        assert("0"@ =~= seq![digit_char(0)]);
        "0"
    } else if d == 1 {
        proof {
            reveal_strlit("1");
        }
        assert("1"@ =~= seq![digit_char(1)]);
        "1"
    } else if d == 2 {
        proof {
            reveal_strlit("2");
        }
        assert("2"@ =~= seq![digit_char(2)]);
        "2"
    } else if d == 3 {
        proof {
            reveal_strlit("3");
        }
        assert("3"@ =~= seq![digit_char(3)]);
        "3"
    } else if d == 4 {
        proof {
            reveal_strlit("4");
        }
        assert("4"@ =~= seq![digit_char(4)]);
        "4"
    } else if d == 5 {
        proof {
            reveal_strlit("5");
        }
        assert("5"@ =~= seq![digit_char(5)]);
        "5"
    } else if d == 6 {
        proof {
            reveal_strlit("6");
        }
        assert("6"@ =~= seq![digit_char(6)]);
        "6"
    } else if d == 7 {
        proof {
            reveal_strlit("7");
        }
        assert("7"@ =~= seq![digit_char(7)]);
        "7"
    } else if d == 8 {
        proof {
            reveal_strlit("8");
        }
        assert("8"@ =~= seq![digit_char(8)]);
        "8"
    } else {
        proof {
            reveal_strlit("9");
        }
        assert("9"@ =~= seq![digit_char(9)]);
        "9"
    }
}

/// The decimal numeral of `n`.
pub fn usize_to_string(n: usize) -> (r: String)
    ensures
        r@ == spec_digits_of(n as int),
    decreases n,
{
    if n < 10 {
        digit_str(n).to_owned()
    } else {
        let mut r = usize_to_string(n / 10);
        r.append(digit_str(n % 10));
        proof {
            assert(spec_digits_of((n / 10) as int) + seq![digit_char(n as int % 10)]
                =~= spec_digits_of((n / 10) as int).push(digit_char(n as int % 10)));
        }
        r
    }
}

/// `s` right-aligned in a field of `width` columns.
pub fn pad_left(s: &str, width: usize) -> (r: String)
    ensures
        r@ == spec_pad_left(s@, width as int),
{
    let n = s.unicode_len();
    let pad: usize = if n < width {
        width - n
    } else {
        0
    };
    let mut r = String::new();
    let mut i: usize = 0;
    proof {
        assert(r@ =~= spaces(0));
    }
    while i < pad
        invariant
            i <= pad,
            r@ == spaces(i as int),
        decreases pad - i,
    {
        r.append(" ");
        proof {
            reveal_strlit(" ");
            assert(spaces(i as int) + " "@ =~= spaces(i + 1));
        }
        i += 1;
    }
    r.append(s);
    proof {
        assert(pad as int == if s@.len() < width { width - s@.len() } else { 0 });
        assert(spaces(pad as int) == spaces(width - s@.len()));
    }
    r
}

/// One fixed-width particle record: the index right-aligned in five columns,
/// the placeholder labels, the index again, then the three position fields
/// and the three velocity fields, each right-aligned in eight columns, and a
/// line feed.
pub fn particle_line(index: usize, pos: [&str; 3], vel: [&str; 3]) -> (r: String)
    ensures
        r@ == spec_pad_left(spec_digits_of(index as int), 5) + "DUMMY  DUM"@ + spec_pad_left(
            spec_digits_of(index as int),
            5,
        ) + spec_pad_left(pos@[0]@, 8) + spec_pad_left(pos@[1]@, 8) + spec_pad_left(pos@[2]@, 8)
            + spec_pad_left(vel@[0]@, 8) + spec_pad_left(vel@[1]@, 8) + spec_pad_left(vel@[2]@, 8)
            + "\n"@,
{
    let idx = usize_to_string(index);
    let mut r = pad_left(idx.as_str(), 5);
    r.append("DUMMY  DUM");
    let idx2 = pad_left(idx.as_str(), 5);
    r.append(idx2.as_str());
    let f = pad_left(pos[0], 8);
    r.append(f.as_str());
    let f = pad_left(pos[1], 8);
    r.append(f.as_str());
    let f = pad_left(pos[2], 8);
    r.append(f.as_str());
    let f = pad_left(vel[0], 8);
    r.append(f.as_str());
    let f = pad_left(vel[1], 8);
    r.append(f.as_str());
    let f = pad_left(vel[2], 8);
    r.append(f.as_str());
    r.append("\n");
    r
}

/// The header of one frame: the title, the frame time in picoseconds, and the
/// particle count on its own line.
pub fn frame_header(title: &str, time_ps: &str, count: usize) -> (r: String)
    ensures
        r@ == title@ + ", t= "@ + time_ps@ + "\n"@ + spec_digits_of(count as int) + "\n"@,
{
    let mut r = title.to_owned();
    r.append(", t= ");
    r.append(time_ps);
    r.append("\n");
    let c = usize_to_string(count);
    r.append(c.as_str());
    r.append("\n");
    r
}

/// The closing line of one frame: the box extents separated by spaces.
pub fn box_line(x: &str, y: &str, z: &str) -> (r: String)
    ensures
        r@ == x@ + " "@ + y@ + " "@ + z@ + "\n"@,
{
    let mut r = x.to_owned();
    r.append(" ");
    r.append(y);
    r.append(" ");
    r.append(z);
    r.append("\n");
    r
}

/// One whole frame: the header, every particle record in order, and the box
/// line.
pub fn gro_frame(title: &str, time_ps: &str, lines: &Vec<String>, bbox: &str) -> (r: String)
    ensures
        r@ == title@ + ", t= "@ + time_ps@ + "\n"@ + spec_digits_of(lines@.len() as int) + "\n"@
            + spec_concat(lines.deep_view()) + bbox@,
{
    let mut r = frame_header(title, time_ps, lines.len());
    let mut i: usize = 0;
    let ghost lv = lines.deep_view();
    let ghost head = r@;
    proof {
        assert(lv.skip(0) =~= lv);
    }
    while i < lines.len()
        invariant
            i <= lines@.len(),
            lv == lines.deep_view(),
            head + spec_concat(lv) == r@ + spec_concat(lv.skip(i as int)),
        decreases lines@.len() - i,
    {
        let ghost r_old = r@;
        proof {
            assert(lv.skip(i as int)[0] == lv[i as int]);
            assert(lv.skip(i as int).drop_first() =~= lv.skip(i as int + 1));
            assert(lines.deep_view()[i as int] == lines@[i as int]@);
        }
        r.append(lines[i].as_str());
        proof {
            let rest = spec_concat(lv.skip(i as int + 1));
            assert((r_old + lv[i as int]) + rest =~= r_old + (lv[i as int] + rest));
        }
        i += 1;
    }
    proof {
        assert(lv.skip(lv.len() as int) =~= Seq::<Seq<char>>::empty());
        assert(r@ + spec_concat(lv.skip(lv.len() as int)) =~= r@);
        assert(head + spec_concat(lv) == r@);
    }
    r.append(bbox);
    r
}

} // verus!
