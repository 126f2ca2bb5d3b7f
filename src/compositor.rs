use vstd::prelude::*;

use crate::bucket::{bucket_index, bucket_of, lemma_bucket_in_range};
use crate::config::Config;
use crate::error::TimelineError;
use crate::frame::{lemma_paste_twice_is_paste_once, opaque_of, pasted, Frame};
use crate::grid::{
    columns_of, grid_count, grid_position, grid_size, grids_needed, lemma_file_in_range,
    position_of, rows_of,
};
use crate::tracker::{bumped, CompletionTracker};

verus! {

/// The output buffers of one run: the timeline, the thumbnail grids, and
/// which columns have received a frame.
///
/// Frames may arrive in any order. A column or thumbnail simply takes the
/// pixels of the last frame that landed in its bucket.
pub struct Compositor {
    pub timeline: Frame,
    pub grids: Vec<Frame>,
    pub tracker: CompletionTracker,
}

/// A grid image of the size `grid_size` gives for `c`.
pub open spec fn is_grid(f: Frame, c: Config) -> bool {
    &&& f.wf()
    &&& f.width == columns_of(c) * c.thumbnail_width
    &&& f.height == rows_of(c) * c.thumbnail_height
}

/// `f` is `old` with `src` pasted at `(x, y)`.
pub open spec fn is_pasted(f: Frame, old: Frame, src: Frame, x: nat, y: nat) -> bool {
    &&& f.width == old.width
    &&& f.height == old.height
    &&& f.pts == old.pts
    &&& f.data@ == pasted(old.data@, old.width as nat, src.data@, src.width as nat, src.height as nat, x, y)
}

/// `f` is the timeline `old` with the colours of `column` written into
/// column `i` and their fourth bytes made opaque.
pub open spec fn is_column_written(f: Frame, old: Frame, column: Frame, i: nat) -> bool {
    &&& f.width == old.width
    &&& f.height == old.height
    &&& f.pts == old.pts
    &&& f.data@ == pasted(old.data@, old.width as nat, opaque_of(column.data@), 1, column.height as nat, i, 0)
}

/// A timeline column for `c`: one pixel wide, as high as the timeline.
pub open spec fn is_column(f: Frame, c: Config) -> bool {
    f.wf() && f.width == 1 && f.height == c.height
}

/// A thumbnail for `c`.
pub open spec fn is_thumbnail(f: Frame, c: Config) -> bool {
    f.wf() && f.width == c.thumbnail_width && f.height == c.thumbnail_height
}

/// Writing the same column into the same timeline column a second time
/// leaves the timeline as the first write left it.
pub proof fn lemma_column_twice_is_column_once(first: Frame, second: Frame, start: Frame, column: Frame, i: nat)
    requires
        is_column_written(first, start, column, i),
        is_column_written(second, first, column, i),
    ensures
        second.data@ == first.data@,
        second.width == first.width,
        second.height == first.height,
        second.pts == first.pts,
{
    lemma_paste_twice_is_paste_once(
        start.data@,
        start.width as nat,
        opaque_of(column.data@),
        1,
        column.height as nat,
        i,
        0,
    );
}

/// Writing the same thumbnail at the same place a second time leaves the
/// grid as the first write left it.
pub proof fn lemma_thumbnail_twice_is_thumbnail_once(
    first: Frame,
    second: Frame,
    start: Frame,
    src: Frame,
    x: nat,
    y: nat,
)
    requires
        is_pasted(first, start, src, x, y),
        is_pasted(second, first, src, x, y),
    ensures
        second.data@ == first.data@,
        second.width == first.width,
        second.height == first.height,
        second.pts == first.pts,
{
    lemma_paste_twice_is_paste_once(
        start.data@,
        start.width as nat,
        src.data@,
        src.width as nat,
        src.height as nat,
        x,
        y,
    );
}

impl Compositor {
    /// The buffers match the layout of `c`.
    pub open spec fn wf(&self, c: Config) -> bool {
        &&& c.wf()
        &&& self.timeline.wf()
        &&& self.timeline.width == c.width
        &&& self.timeline.height == c.height
        &&& self.grids@.len() == grids_needed(c)
        &&& forall|k: int| 0 <= k < self.grids@.len() ==> is_grid(#[trigger] self.grids@[k], c)
        &&& self.tracker.done@.len() == c.width
    }

    /// Black timeline and grids, and no column filled yet.
    pub fn new(config: &Config) -> (r: Compositor)
        requires
            config.wf(),
        ensures
            r.wf(*config),
            forall|i: int| 0 <= i < r.timeline.data@.len() ==> r.timeline.data@[i] == 0,
            forall|k: int, i: int|
                0 <= k < r.grids@.len() && 0 <= i < r.grids@[k].data@.len() ==> #[trigger] r.grids@[k].data@[i]
                    == 0,
            forall|i: int| 0 <= i < config.width ==> r.tracker.done@[i] == 0,
    {
        let timeline = Frame::new(config.width, config.height);
        let count = grid_count(config);
        let (gw, gh) = grid_size(config);
        let mut grids: Vec<Frame> = Vec::new();
        let mut k: usize = 0;
        while k < count
            invariant
                config.wf(),
                k <= count,
                count == grids_needed(*config),
                gw == columns_of(*config) * config.thumbnail_width,
                gh == rows_of(*config) * config.thumbnail_height,
                gw * gh * 4 <= usize::MAX,
                grids@.len() == k,
                forall|j: int| 0 <= j < k ==> is_grid(#[trigger] grids@[j], *config),
                forall|j: int, i: int|
                    0 <= j < k && 0 <= i < grids@[j].data@.len() ==> #[trigger] grids@[j].data@[i] == 0,
            decreases count - k,
        {
            grids.push(Frame::new(gw, gh));
            k = k + 1;
        }
        Compositor { timeline, grids, tracker: CompletionTracker::new(config.width) }
    }

    /// Writes the colours of a column into the timeline at column `i`, with
    /// opaque fourth bytes, replacing what was there.
    pub fn compose_column(&mut self, config: &Config, i: usize, column: &Frame)
        requires
            old(self).wf(*config),
            i < config.width,
            is_column(*column, *config),
        ensures
            final(self).wf(*config),
            is_column_written(final(self).timeline, old(self).timeline, *column, i as nat),
            final(self).grids == old(self).grids,
            final(self).tracker == old(self).tracker,
    {
        let opaque = column.opaque();
        self.timeline.copy(&opaque, i, 0);
    }

    /// Writes the thumbnail of column `i` into its grid cell, replacing what
    /// was there. Fails if that grid was not allocated.
    pub fn compose_thumbnail(&mut self, config: &Config, i: usize, thumbnail: &Frame) -> (r: Result<
        (),
        TimelineError,
    >)
        requires
            old(self).wf(*config),
            is_thumbnail(*thumbnail, *config),
        ensures
            final(self).wf(*config),
            final(self).timeline == old(self).timeline,
            final(self).tracker == old(self).tracker,
            ({
                let (file, x, y) = position_of(*config, i as nat);
                if file < old(self).grids@.len() {
                    &&& r is Ok
                    &&& final(self).grids@.len() == old(self).grids@.len()
                    &&& is_pasted(final(self).grids@[file as int], old(self).grids@[file as int], *thumbnail, x, y)
                    &&& forall|k: int| 0 <= k < old(self).grids@.len() && k != file ==>
                        #[trigger] final(self).grids@[k] == old(self).grids@[k]
                } else {
                    &&& r == Err::<(), TimelineError>(TimelineError::GridIndexOutOfRange)
                    &&& final(self).grids == old(self).grids
                }
            }),
    {
        let (file, x, y) = grid_position(i, config);
        if file >= self.grids.len() {
            return Err(TimelineError::GridIndexOutOfRange);
        }
        let ghost old_grids = self.grids@;
        self.grids[file].copy(thumbnail, x, y);
        proof {
            assert forall|k: int| 0 <= k < self.grids@.len() implies is_grid(#[trigger] self.grids@[k], *config) by {
                if k != file {
                    assert(self.grids@[k] == old_grids[k]);
                }
            }
        }
        Ok(())
    }

    /// Handles one frame: finds its column from its timestamp, writes its
    /// column and thumbnail (where the run produces them), and counts it.
    /// Returns the column.
    pub fn process(
        &mut self,
        config: &Config,
        duration: u64,
        pts: Option<u64>,
        column: Option<&Frame>,
        thumbnail: Option<&Frame>,
    ) -> (r: Result<usize, TimelineError>)
        requires
            old(self).wf(*config),
            column matches Some(f) ==> is_column(*f, *config),
            thumbnail matches Some(f) ==> is_thumbnail(*f, *config),
        ensures
            final(self).wf(*config),
            match pts {
                None => r == Err::<usize, TimelineError>(TimelineError::MissingTimestamp)
                    && *final(self) == *old(self),
                Some(t) => if duration == 0 {
                    r == Err::<usize, TimelineError>(TimelineError::InvalidDuration)
                        && *final(self) == *old(self)
                } else {
                    let i = bucket_of(t as nat, duration as nat, config.width as nat);
                    let (file, x, y) = position_of(*config, i);
                    &&& r == Ok::<usize, TimelineError>(i as usize)
                    &&& i < config.width
                    &&& match column {
                        Some(f) => is_column_written(final(self).timeline, old(self).timeline, *f, i),
                        None => final(self).timeline == old(self).timeline,
                    }
                    &&& match thumbnail {
                        Some(f) => {
                            &&& file < old(self).grids@.len()
                            &&& is_pasted(final(self).grids@[file as int], old(self).grids@[file as int], *f, x, y)
                            &&& forall|k: int| 0 <= k < old(self).grids@.len() && k != file ==>
                                #[trigger] final(self).grids@[k] == old(self).grids@[k]
                        },
                        None => final(self).grids == old(self).grids,
                    }
                    &&& final(self).tracker.done@ == old(self).tracker.done@.update(
                        i as int,
                        bumped(old(self).tracker.done@[i as int]),
                    )
                }
            },
    {
        let i = match bucket_index(pts, duration, config.width) {
            Ok(i) => i,
            Err(e) => return Err(e),
        };
        proof {
            lemma_bucket_in_range(pts.unwrap() as nat, duration as nat, config.width as nat);
            lemma_file_in_range(*config, i as nat);
        }
        match column {
            Some(f) => self.compose_column(config, i, f),
            None => {},
        }
        match thumbnail {
            Some(f) => {
                let _ = self.compose_thumbnail(config, i, f);
            },
            None => {},
        }
        self.tracker.record(i);
        Ok(i)
    }

    /// Whether every column has received a frame.
    pub fn is_complete(&self) -> (r: bool)
        ensures
            r == self.tracker.complete_spec(),
    {
        self.tracker.is_complete()
    }
}

} // verus!
