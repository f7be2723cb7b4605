//! The trajectory recorder's core: an append-only log of rendered frames.
//!
//! A trajectory is bound at creation to a title, a fixed particle count and a
//! box line; afterwards it only ever appends frames, each a time label and
//! exactly one record per particle.  Export concatenates every frame in
//! order.  The floating-point rendering of each record happens outside; this
//! type owns the frame bookkeeping and the export text.

use vstd::prelude::*;
use crate::gro::{gro_frame, spec_digits_of};
use crate::text::spec_concat;

verus! {

/// What a `TrajectoryText` holds, mathematically.
pub ghost struct TrajectoryModel {
    pub title: Seq<char>,
    pub n_particles: int,
    pub bbox: Seq<char>,
    pub times: Seq<Seq<char>>,
    pub frames: Seq<Seq<Seq<char>>>,
}

/// An append-only log of rendered trajectory frames.
pub struct TrajectoryText {
    title: String,
    n_particles: usize,
    bbox: String,
    times: Vec<String>,
    frames: Vec<Vec<String>>,
}

impl View for TrajectoryText {
    type V = TrajectoryModel;

    closed spec fn view(&self) -> TrajectoryModel {
        TrajectoryModel {
            title: self.title@,
            n_particles: self.n_particles as int,
            bbox: self.bbox@,
            times: self.times.deep_view(),
            frames: self.frames.deep_view(),
        }
    }
}

/// The export text of one frame: the header with the title and frame time,
/// the record count, every particle record, and the box line.
pub open spec fn spec_frame_text(m: TrajectoryModel, i: int) -> Seq<char> {
    m.title + ", t= "@ + m.times[i] + "\n"@ + spec_digits_of(m.frames[i].len() as int) + "\n"@
        + spec_concat(m.frames[i]) + m.bbox
}

/// The export text from frame `i` on.
pub open spec fn spec_frames_text(m: TrajectoryModel, i: int) -> Seq<char>
    decreases m.frames.len() - i,
{
    if i < 0 || i >= m.frames.len() {
        Seq::empty()
    } else {
        spec_frame_text(m, i) + spec_frames_text(m, i + 1)
    }
}

impl TrajectoryText {
    /// Frames and time labels run in step, and every frame holds exactly one
    /// record per particle.
    pub open spec fn wf(self) -> bool {
        self@.frames.len() == self@.times.len() && forall|f: int|
            0 <= f < self@.frames.len() ==> (#[trigger] self@.frames[f]).len()
                == self@.n_particles
    }

    /// An empty trajectory bound to a title, a particle count and a box line.
    pub fn new(title: String, n_particles: usize, bbox: String) -> (r: TrajectoryText)
        ensures
            r.wf(),
            r@.title == title@,
            r@.n_particles == n_particles as int,
            r@.bbox == bbox@,
            r@.times.len() == 0,
            r@.frames.len() == 0,
    {
        let r = TrajectoryText {
            title,
            n_particles,
            bbox,
            times: Vec::new(),
            frames: Vec::new(),
        };
        proof {
            assert(r@.times =~= Seq::<Seq<char>>::empty());
            assert(r@.frames =~= Seq::<Seq<Seq<char>>>::empty());
        }
        r
    }

    /// The particle count every frame must match.
    pub fn n_particles(&self) -> (r: usize)
        ensures
            r as int == self@.n_particles,
    {
        self.n_particles
    }

    /// The number of frames recorded so far.
    pub fn n_frames(&self) -> (r: usize)
        ensures
            r as int == self@.frames.len(),
    {
        self.frames.len()
    }

    /// Append one frame.  Nothing else changes: the frames already recorded,
    /// the title, the count and the box line all stay as they were.
    pub fn add_frame(&mut self, time_ps: String, lines: Vec<String>)
        requires
            old(self).wf(),
            lines@.len() == old(self)@.n_particles,
        ensures
            final(self).wf(),
            final(self)@.title == old(self)@.title,
            final(self)@.n_particles == old(self)@.n_particles,
            final(self)@.bbox == old(self)@.bbox,
            final(self)@.times == old(self)@.times.push(time_ps@),
            final(self)@.frames == old(self)@.frames.push(lines.deep_view()),
    {
        let ghost lines_model = lines.deep_view();
        self.times.push(time_ps);
        self.frames.push(lines);
        proof {
            assert(self.times.deep_view() =~= old(self).times.deep_view().push(time_ps@));
            assert(self.frames.deep_view() =~= old(self).frames.deep_view().push(lines_model));
        }
    }

    /// The whole export text: every frame in order.
    pub fn to_gro(&self) -> (r: String)
        requires
            self.wf(),
        ensures
            r@ == spec_frames_text(self@, 0),
    {
        let ghost m = self@;
        let mut r = String::new();
        let mut f: usize = 0;
        proof {
            assert(r@ + spec_frames_text(m, 0) =~= spec_frames_text(m, 0));
        }
        while f < self.frames.len()
            invariant
                f <= self.frames@.len(),
                m == self@,
                self.wf(),
                spec_frames_text(m, 0) == r@ + spec_frames_text(m, f as int),
            decreases self.frames@.len() - f,
        {
            let ghost r_old = r@;
            let text = gro_frame(
                self.title.as_str(),
                self.times[f].as_str(),
                &self.frames[f],
                self.bbox.as_str(),
            );
            proof {
                assert(self.times.deep_view()[f as int] == self.times@[f as int]@);
                assert(self.frames.deep_view()[f as int] == self.frames@[f as int].deep_view());
                assert(text@ == spec_frame_text(m, f as int));
            }
            r.append(text.as_str());
            proof {
                let rest = spec_frames_text(m, f as int + 1);
                assert((r_old + spec_frame_text(m, f as int)) + rest =~= r_old + (spec_frame_text(
                    m,
                    f as int,
                ) + rest));
            }
            f += 1;
        }
        proof {
            assert(r@ + spec_frames_text(m, f as int) =~= r@);
        }
        r
    }
}

} // verus!
