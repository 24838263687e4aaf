use vstd::prelude::*;

use crate::spotify::constants::{SPOTIFY_TRACKS_LIMIT, SPOTIFY_URIS_LIMIT};

verus! {

/// One read request: `limit` tracks starting at `offset`.
#[derive(Debug, PartialEq, Eq, Clone, Copy, Structural)]
pub struct SpotifyReadTracksParams {
    pub offset: u32,
    pub limit: u32,
}

/// Number of windows that cover `limit` tracks (at least one, also for an empty range).
pub open spec fn window_count(limit: u32) -> int {
    if limit == 0 {
        1
    } else {
        (limit + SPOTIFY_TRACKS_LIMIT - 1) / (SPOTIFY_TRACKS_LIMIT as int)
    }
}

/// The `i`-th window of the range `[offset, offset + limit)`: full pages first,
/// then the remainder.
pub open spec fn window_at(offset: u32, limit: u32, i: int) -> SpotifyReadTracksParams {
    SpotifyReadTracksParams {
        offset: (offset + i * SPOTIFY_TRACKS_LIMIT) as u32,
        limit: if (i + 1) * SPOTIFY_TRACKS_LIMIT <= limit {
            SPOTIFY_TRACKS_LIMIT
        } else {
            (limit - i * SPOTIFY_TRACKS_LIMIT) as u32
        },
    }
}

/// The whole precomputed plan for `[offset, offset + limit)`.
pub open spec fn window_plan(offset: u32, limit: u32) -> Seq<SpotifyReadTracksParams> {
    Seq::new(window_count(limit) as nat, |i: int| window_at(offset, limit, i))
}

impl SpotifyReadTracksParams {
    /// Splits `[offset, offset + limit)` into windows of at most one page each,
    /// ordered by offset, so that they can be requested in parallel.
    pub fn new_async(offset: u32, limit: u32) -> (r: Vec<SpotifyReadTracksParams>)
        requires
            limit <= SPOTIFY_TRACKS_LIMIT || offset + limit <= u32::MAX + 1,
        ensures
            r@ == window_plan(offset, limit),
    {
        if limit > SPOTIFY_TRACKS_LIMIT {
            let mut instances: Vec<SpotifyReadTracksParams> = Vec::new();
            let full: u32 = limit / SPOTIFY_TRACKS_LIMIT;
            assert(full * SPOTIFY_TRACKS_LIMIT <= limit);
            let mut k: u32 = 0;
            while k < full
                invariant
                    k <= full,
                    full == limit / SPOTIFY_TRACKS_LIMIT,
                    full * SPOTIFY_TRACKS_LIMIT <= limit,
                    offset + limit <= u32::MAX + 1,
                    instances@.len() == k,
                    forall|i: int| 0 <= i < k ==> instances@[i] == window_at(offset, limit, i),
                decreases full - k,
            {
                instances.push(
                    SpotifyReadTracksParams {
                        offset: offset + k * SPOTIFY_TRACKS_LIMIT,
                        limit: SPOTIFY_TRACKS_LIMIT,
                    },
                );
                k = k + 1;
            }
            let remaining: u32 = limit % SPOTIFY_TRACKS_LIMIT;
            if remaining != 0 {
                instances.push(
                    SpotifyReadTracksParams {
                        offset: offset + full * SPOTIFY_TRACKS_LIMIT,
                        limit: remaining,
                    },
                );
            }
            assert(instances@ =~= window_plan(offset, limit));
            instances
        } else {
            let r = vec![SpotifyReadTracksParams { offset, limit }];
            assert(r@ =~= window_plan(offset, limit));
            r
        }
    }
}


impl Default for SpotifyReadTracksParams {
    /// The first page.
    fn default() -> (r: SpotifyReadTracksParams)
        ensures
            r == (SpotifyReadTracksParams { offset: 0, limit: SPOTIFY_TRACKS_LIMIT }),
    {
        SpotifyReadTracksParams { offset: 0, limit: SPOTIFY_TRACKS_LIMIT }
    }
}

/// Gathers the results of the page requests of a plan: all the pages, in the
/// order of `results`, when every request succeeded; otherwise the first error.
pub fn gather_pages<T, E>(results: Vec<Result<T, E>>) -> (r: Result<Vec<T>, E>)
    ensures
        r matches Ok(pages) ==> {
            &&& pages@.len() == results@.len()
            &&& forall|i: int| 0 <= i < results@.len() ==> results@[i] == Ok::<T, E>(#[trigger] pages@[i])
        },
        r matches Err(e) ==> exists|i: int|
            0 <= i < results@.len() && results@[i] == Err::<T, E>(e) && forall|j: int|
                0 <= j < i ==> (#[trigger] results@[j]) is Ok,
        r is Ok <==> forall|i: int| 0 <= i < results@.len() ==> (#[trigger] results@[i]) is Ok,
{
    let ghost all = results@;
    let mut rest = results;
    let mut pages: Vec<T> = Vec::new();
    while rest.len() > 0
        invariant
            all == results@,
            all == pages@.map_values(|p: T| Ok::<T, E>(p)) + rest@,
        decreases rest@.len(),
    {
        let ghost before = pages@;
        let ghost rest_before = rest@;
        let item = rest.remove(0);
        match item {
            Ok(p) => {
                pages.push(p);
                assert(pages@.map_values(|p: T| Ok::<T, E>(p)) + rest@ =~= before.map_values(
                    |p: T| Ok::<T, E>(p),
                ) + rest_before);
            },
            Err(e) => {
                let ghost k = before.len() as int;
                assert(all[k] == rest_before[0]);
                assert forall|j: int| 0 <= j < k implies (#[trigger] all[j]) is Ok by {
                    assert(all[j] == Ok::<T, E>(before[j]));
                }
                return Err(e);
            },
        }
    }
    assert(all =~= pages@.map_values(|p: T| Ok::<T, E>(p)));
    assert forall|i: int| 0 <= i < all.len() implies all[i] == Ok::<T, E>(#[trigger] pages@[i]) by {
        assert(all[i] == pages@.map_values(|p: T| Ok::<T, E>(p))[i]);
    }
    Ok(pages)
}

/// What a sequential read plan holds: the next offset, the tracks still to
/// request, and whether any window is left.
pub struct ReadPlanView {
    pub offset: u32,
    pub limit: u32,
    pub remaining: bool,
}

/// Walks `[offset, offset + limit)` one window at a time.
pub struct SpotifyReadTracksPlan {
    offset: u32,
    limit: u32,
    remaining: bool,
}

impl View for SpotifyReadTracksPlan {
    type V = ReadPlanView;

    closed spec fn view(&self) -> ReadPlanView {
        ReadPlanView { offset: self.offset, limit: self.limit, remaining: self.remaining }
    }
}

/// The windows that a plan in state `v` still hands out, in order.
pub open spec fn remaining_windows(v: ReadPlanView) -> Seq<SpotifyReadTracksParams>
    decreases v.limit,
{
    if !v.remaining {
        Seq::empty()
    } else if v.limit > SPOTIFY_TRACKS_LIMIT {
        seq![SpotifyReadTracksParams { offset: v.offset, limit: SPOTIFY_TRACKS_LIMIT }]
            + remaining_windows(
            ReadPlanView {
                offset: (v.offset + SPOTIFY_TRACKS_LIMIT) as u32,
                limit: (v.limit - SPOTIFY_TRACKS_LIMIT) as u32,
                remaining: true,
            },
        )
    } else {
        seq![SpotifyReadTracksParams { offset: v.offset, limit: v.limit }]
    }
}

/// Sum of the limits of a sequence of windows.
pub open spec fn sum_limits(s: Seq<SpotifyReadTracksParams>) -> int
    decreases s.len(),
{
    if s.len() == 0 {
        0
    } else {
        s[0].limit + sum_limits(s.drop_first())
    }
}

impl SpotifyReadTracksPlan {
    /// Offsets stay representable, and a range longer than a page is never finished.
    pub open spec fn wf(&self) -> bool {
        &&& self@.offset + self@.limit <= u32::MAX + 1
        &&& self@.limit > SPOTIFY_TRACKS_LIMIT ==> self@.remaining
    }

    /// A plan over `[offset, offset + limit)`; an empty range is finished at once.
    pub fn new(offset: u32, limit: u32) -> (r: SpotifyReadTracksPlan)
        requires
            offset + limit <= u32::MAX + 1,
        ensures
            r.wf(),
            r@ == (ReadPlanView { offset, limit, remaining: limit > 0 }),
    {
        SpotifyReadTracksPlan { offset, limit, remaining: limit > 0 }
    }

    /// Whether a window is still to be requested.
    pub fn request_required(&self) -> (r: bool)
        ensures
            r == self@.remaining,
    {
        self.remaining
    }

    /// Whether more than one page is still to be requested.
    pub fn request_limit_exceeded(&self) -> (r: bool)
        ensures
            r == (self@.limit > SPOTIFY_TRACKS_LIMIT),
    {
        self.limit > SPOTIFY_TRACKS_LIMIT
    }

    /// Hands out the next window and advances past it.
    pub fn next_window(&mut self) -> (r: SpotifyReadTracksParams)
        requires
            old(self).wf(),
            old(self)@.remaining,
        ensures
            final(self).wf(),
            remaining_windows(old(self)@) == seq![r] + remaining_windows(final(self)@),
            old(self)@.limit > SPOTIFY_TRACKS_LIMIT ==> {
                &&& r == (SpotifyReadTracksParams {
                    offset: old(self)@.offset,
                    limit: SPOTIFY_TRACKS_LIMIT,
                })
                &&& final(self)@ == (ReadPlanView {
                    offset: (old(self)@.offset + SPOTIFY_TRACKS_LIMIT) as u32,
                    limit: (old(self)@.limit - SPOTIFY_TRACKS_LIMIT) as u32,
                    remaining: true,
                })
            },
            old(self)@.limit <= SPOTIFY_TRACKS_LIMIT ==> {
                &&& r == (SpotifyReadTracksParams {
                    offset: old(self)@.offset,
                    limit: old(self)@.limit,
                })
                &&& final(self)@ == (ReadPlanView {
                    offset: old(self)@.offset,
                    limit: old(self)@.limit,
                    remaining: false,
                })
            },
    {
        if self.request_limit_exceeded() {
            let r = SpotifyReadTracksParams { offset: self.offset, limit: SPOTIFY_TRACKS_LIMIT };
            self.limit = self.limit - SPOTIFY_TRACKS_LIMIT;
            self.offset = self.offset + SPOTIFY_TRACKS_LIMIT;
            if self.limit == 0 {
                self.remaining = false;
            }
            r
        } else {
            self.remaining = false;
            SpotifyReadTracksParams { offset: self.offset, limit: self.limit }
        }
    }
}

/// A sequential plan over `[offset, offset + limit)` hands out windows whose
/// limits add up to `limit`, at offsets `offset`, `offset + page`, ... one page
/// apart, every window but the last being a full page.
pub proof fn lemma_sequential_windows_cover(offset: u32, limit: u32)
    requires
        offset + limit <= u32::MAX + 1,
    ensures
        ({
            let w = remaining_windows(ReadPlanView { offset, limit, remaining: limit > 0 });
            &&& sum_limits(w) == limit
            &&& forall|i: int|
                0 <= i < w.len() ==> #[trigger] w[i].offset == offset + i * SPOTIFY_TRACKS_LIMIT
            &&& forall|i: int| 0 <= i < w.len() - 1 ==> #[trigger] w[i].limit == SPOTIFY_TRACKS_LIMIT
            &&& forall|i: int| 0 <= i < w.len() ==> #[trigger] w[i].limit > 0
        }),
    decreases limit,
{
    let w = remaining_windows(ReadPlanView { offset, limit, remaining: limit > 0 });
    if limit > SPOTIFY_TRACKS_LIMIT {
        let next_offset = (offset + SPOTIFY_TRACKS_LIMIT) as u32;
        let next_limit = (limit - SPOTIFY_TRACKS_LIMIT) as u32;
        lemma_sequential_windows_cover(next_offset, next_limit);
        let rest = remaining_windows(ReadPlanView { offset: next_offset, limit: next_limit, remaining: true });
        assert(w.drop_first() =~= rest);
        assert(sum_limits(w) == w[0].limit + sum_limits(rest));
        assert forall|i: int| 0 <= i < w.len() implies #[trigger] w[i].offset == offset + i * SPOTIFY_TRACKS_LIMIT by {
            if i > 0 {
                assert(w[i] == rest[i - 1]);
            }
        }
        assert forall|i: int| 0 <= i < w.len() - 1 implies #[trigger] w[i].limit == SPOTIFY_TRACKS_LIMIT by {
            if i > 0 {
                assert(w[i] == rest[i - 1]);
            }
        }
        assert forall|i: int| 0 <= i < w.len() implies #[trigger] w[i].limit > 0 by {
            if i > 0 {
                assert(w[i] == rest[i - 1]);
            }
        }
    } else if limit > 0 {
        assert(w.drop_first() =~= Seq::<SpotifyReadTracksParams>::empty());
        assert(sum_limits(w.drop_first()) == 0);
        assert(sum_limits(w) == w[0].limit + sum_limits(w.drop_first()));
    }
}


/// What a write plan holds: the insertion cursor, the items still to send, and
/// whether any batch is left.
pub struct AddItemsView {
    pub position: Option<u32>,
    pub uris: Seq<String>,
    pub remaining: bool,
}

/// Hands out the items to add in batches of at most one request each, moving
/// an optional insertion cursor past each batch handed out before the last.
pub struct SpotifyAddItemsParams {
    pub position: Option<u32>,
    uris: Vec<String>,
    remaining: bool,
}

impl View for SpotifyAddItemsParams {
    type V = AddItemsView;

    closed spec fn view(&self) -> AddItemsView {
        AddItemsView { position: self.position, uris: self.uris@, remaining: self.remaining }
    }
}

/// The cursor after a batch of `n` items was inserted ahead of it.
pub open spec fn advanced(position: Option<u32>, n: int) -> Option<u32> {
    match position {
        Some(p) => Some((p + n) as u32),
        None => None,
    }
}

/// `after` is `before` once `batch` was taken: the first full batch while more
/// than one batch is left, with the cursor moved past it; otherwise all that
/// is left, with the cursor kept.
pub open spec fn batch_taken(before: AddItemsView, after: AddItemsView, batch: Seq<String>) -> bool {
    &&& before.uris.len() > SPOTIFY_URIS_LIMIT ==> {
        &&& batch == before.uris.take(SPOTIFY_URIS_LIMIT as int)
        &&& after.uris == before.uris.skip(SPOTIFY_URIS_LIMIT as int)
        &&& after.position == advanced(before.position, SPOTIFY_URIS_LIMIT as int)
    }
    &&& before.uris.len() <= SPOTIFY_URIS_LIMIT ==> {
        &&& batch == before.uris
        &&& after.uris.len() == 0
        &&& after.position == before.position
    }
    &&& before.uris == batch + after.uris
}

/// The cursor stays representable when it is moved past every full batch of
/// `len` items but the last batch.
pub open spec fn cursor_fits(position: Option<u32>, len: int) -> bool {
    position matches Some(p) ==> len == 0 || p + SPOTIFY_URIS_LIMIT * ((len - 1)
        / SPOTIFY_URIS_LIMIT as int) <= u32::MAX
}

impl SpotifyAddItemsParams {
    /// A batch is left exactly while items are left, and moving the cursor past
    /// every item left stays representable.
    pub open spec fn wf(&self) -> bool {
        &&& self@.remaining == (self@.uris.len() > 0)
        &&& cursor_fits(self@.position, self@.uris.len() as int)
    }

    pub fn new(uris: Vec<String>, position: Option<u32>) -> (r: Self)
        requires
            cursor_fits(position, uris@.len() as int),
        ensures
            r.wf(),
            r@ == (AddItemsView { position, uris: uris@, remaining: uris@.len() > 0 }),
    {
        SpotifyAddItemsParams { remaining: uris.len() > 0, position, uris }
    }

    /// The insertion cursor.
    pub fn position(&self) -> (r: Option<u32>)
        ensures
            r == self@.position,
    {
        self.position
    }

    /// Indicates that a request is still to be made.
    pub fn request_required(&self) -> (r: bool)
        ensures
            r == self@.remaining,
    {
        self.remaining
    }

    /// Indicates that more items are left than one request can carry.
    pub fn request_limit_exceeded(&self) -> (r: bool)
        ensures
            r == (self@.uris.len() > SPOTIFY_URIS_LIMIT),
    {
        self.uris.len() > SPOTIFY_URIS_LIMIT
    }

    /// Removes and returns the next batch, in order. The cursor moves past a
    /// batch only while more items follow it.
    pub fn next_items(&mut self) -> (r: Vec<String>)
        requires
            old(self).wf(),
            old(self)@.remaining,
        ensures
            final(self).wf(),
            batch_taken(old(self)@, final(self)@, r@),
    {
        if self.request_limit_exceeded() {
            let mut sub_items = self.uris.split_off(SPOTIFY_URIS_LIMIT);
            std::mem::swap(&mut sub_items, &mut self.uris);
            match self.position {
                Some(p) => {
                    self.position = Some(p + SPOTIFY_URIS_LIMIT as u32);
                },
                None => {},
            }
            if self.uris.len() == 0 {
                self.remaining = false;
            }
            assert(sub_items@ + self.uris@ =~= old(self)@.uris);
            sub_items
        } else {
            self.remaining = false;
            let mut sub_items: Vec<String> = Vec::new();
            std::mem::swap(&mut sub_items, &mut self.uris);
            assert(sub_items@ + self.uris@ =~= old(self)@.uris);
            sub_items
        }
    }

    /// Takes the next batch together with the cursor at which to insert it:
    /// the cursor as it stood before the batch was taken.
    pub fn next_items_at(&mut self) -> (r: (Vec<String>, Option<u32>))
        requires
            old(self).wf(),
            old(self)@.remaining,
        ensures
            final(self).wf(),
            batch_taken(old(self)@, final(self)@, r.0@),
            r.1 == old(self)@.position,
    {
        let position = self.position();
        let items = self.next_items();
        (items, position)

    }
}


/// For a non-empty range, the sequential plan hands out exactly the windows
/// of the precomputed plan, in the same order.
pub proof fn lemma_sequential_matches_parallel(offset: u32, limit: u32)
    requires
        limit > 0,
        offset + limit <= u32::MAX + 1,
    ensures
        remaining_windows(ReadPlanView { offset, limit, remaining: true }) == window_plan(
            offset,
            limit,
        ),
    decreases limit,
{
    let w = remaining_windows(ReadPlanView { offset, limit, remaining: true });
    let p = window_plan(offset, limit);
    if limit > SPOTIFY_TRACKS_LIMIT {
        let next_offset = (offset + SPOTIFY_TRACKS_LIMIT) as u32;
        let next_limit = (limit - SPOTIFY_TRACKS_LIMIT) as u32;
        lemma_sequential_matches_parallel(next_offset, next_limit);
        let q = window_plan(next_offset, next_limit);
        assert(window_count(limit) == 1 + window_count(next_limit));
        assert forall|i: int| 0 <= i < w.len() implies w[i] == p[i] by {
            if i > 0 {
                assert(w[i] == q[i - 1]);
                assert(window_at(offset, limit, i) == window_at(next_offset, next_limit, i - 1));
            }
        }
        assert(w =~= p);
    } else {
        assert(w =~= p);
    }
}

} // verus!
