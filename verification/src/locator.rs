//! Finding the oracle's latest checkpoint from its update events.
//!
//! The oracle emits one update event per recorded timestamp. The block of the
//! most recent event is the checkpoint. It is found by asking for the events
//! of one window of blocks at a time, from the chain head downwards, until a
//! window holds an event or the search horizon is used up.
//!
//! [`Search`] holds the position of such a search. It says which window to ask
//! for and, from the blocks that were found there, how to go on. The caller
//! does the asking. [`locate_latest_checkpoint`] runs a whole search over a
//! list of event blocks that is already in memory.
use crate::chain::CycleError;
use vstd::prelude::*;

verus! {

/// Number of blocks that one window covers.
pub const WINDOW_SIZE: u64 = 500;

/// How far below the chain head the search reaches: about a day of blocks.
pub const MAX_DISTANCE_TO_FILL: u64 = 7200;

/// The most windows that one search asks for.
pub const MAX_WINDOWS: u64 = 15;

/// The lowest block that a search from `head` looks at.
pub open spec fn horizon_floor(head: u64) -> u64 {
    if head >= MAX_DISTANCE_TO_FILL {
        (head - MAX_DISTANCE_TO_FILL) as u64
    } else {
        0
    }
}

/// Whether `block` lies within the search horizon below `head`, ends included.
pub open spec fn in_horizon(head: u64, block: u64) -> bool {
    horizon_floor(head) <= block <= head
}

/// A range of blocks, both ends included.
#[derive(Clone, Copy, Debug, PartialEq, Eq)]
pub struct Window {
    pub from: u64,
    pub to: u64,
}

impl Window {
    /// Whether `block` lies in the window.
    pub open spec fn contains(self, block: u64) -> bool {
        self.from <= block <= self.to
    }

    /// Number of blocks in the window.
    pub open spec fn size(self) -> int {
        self.to - self.from + 1
    }
}

/// The window of a search from `head` whose highest block is `top`: the
/// `WINDOW_SIZE` blocks up to `top`, cut off at the horizon's floor.
pub open spec fn window_ending_at(head: u64, top: u64) -> Window {
    let floor = horizon_floor(head);
    Window {
        from: if top - floor >= WINDOW_SIZE {
            (top - (WINDOW_SIZE - 1)) as u64
        } else {
            floor
        },
        to: top,
    }
}

/// The blocks of a window, as a predicate for filtering.
pub open spec fn within(window: Window) -> spec_fn(u64) -> bool {
    |block: u64| window.contains(block)
}

/// `block` occurs in `blocks` and none of them is higher.
pub open spec fn is_highest(blocks: Seq<u64>, block: u64) -> bool {
    &&& blocks.contains(block)
    &&& forall|i: int| 0 <= i < blocks.len() ==> blocks[i] <= block
}

/// `block` is the highest of `events` that lies within the horizon below `head`.
pub open spec fn is_latest_in_horizon(head: u64, events: Seq<u64>, block: u64) -> bool {
    &&& events.contains(block)
    &&& in_horizon(head, block)
    &&& forall|i: int| 0 <= i < events.len() && in_horizon(head, events[i]) ==> events[i] <= block
}

/// No event lies within the horizon below `head`.
pub open spec fn horizon_is_empty(head: u64, events: Seq<u64>) -> bool {
    forall|i: int| 0 <= i < events.len() ==> !in_horizon(head, events[i])
}

/// What a search from `head` must return when the update events of the chain
/// are those at `events`: the highest event block within the horizon, and
/// `CheckpointNotFound` when the horizon holds none.
pub open spec fn latest_checkpoint(head: u64, events: Seq<u64>) -> Result<u64, CycleError> {
    if exists|block: u64| is_latest_in_horizon(head, events, block) {
        Ok(choose|block: u64| is_latest_in_horizon(head, events, block))
    } else {
        Err(CycleError::CheckpointNotFound)
    }
}

/// The position of a backward search: the head it started from and the
/// highest block that it has not looked at yet.
#[derive(Clone, Copy, Debug, PartialEq, Eq)]
pub struct Search {
    head: u64,
    top: u64,
}

/// How a search goes on after one window.
#[derive(Clone, Copy, Debug, PartialEq, Eq)]
pub enum Progress {
    /// The window held an event: the checkpoint is this block.
    Found(u64),
    /// The window was empty: ask for the next one.
    Continue(Search),
    /// The window was empty and it was the last one of the horizon.
    Exhausted,
}

impl Search {
    #[verifier::type_invariant]
    spec fn in_bounds(self) -> bool {
        horizon_floor(self.head) <= self.top <= self.head
    }

    /// The chain head that the search started from.
    pub closed spec fn head(self) -> u64 {
        self.head
    }

    /// The highest block that the search has not looked at yet.
    pub closed spec fn top(self) -> u64 {
        self.top
    }

    /// The window to ask for next.
    pub open spec fn spec_window(self) -> Window {
        window_ending_at(self.head(), self.top())
    }

    /// Number of windows that the search can still ask for, the current
    /// one included.
    pub open spec fn windows_left(self) -> nat {
        ((self.top() - horizon_floor(self.head())) / (WINDOW_SIZE as int) + 1) as nat
    }

    /// Whether `progress` is how the search goes on from the blocks `found`
    /// in its current window.
    ///
    /// If any were found, the highest of them is the checkpoint. If none was,
    /// the next window lies directly below the current one, so that no block
    /// is asked for twice and none is left out; when the current window
    /// already reaches the horizon's floor, the search is exhausted.
    pub open spec fn advances_to(self, found: Seq<u64>, progress: Progress) -> bool {
        match progress {
            Progress::Found(block) => is_highest(found, block),
            Progress::Continue(next) => {
                &&& found.len() == 0
                &&& self.spec_window().from > horizon_floor(self.head())
                &&& next.head() == self.head()
                &&& next.top() == self.spec_window().from - 1
            },
            Progress::Exhausted => {
                &&& found.len() == 0
                &&& self.spec_window().from == horizon_floor(self.head())
            },
        }
    }

    /// Starts a search at the chain head.
    pub fn begin(head: u64) -> (search: Search)
        ensures
            search.head() == head,
            search.top() == head,
            search.windows_left() <= MAX_WINDOWS,
    {
        Search { head, top: head }
    }

    /// The window to ask for next. It ends at the highest block not yet
    /// looked at, holds at most `WINDOW_SIZE` blocks and stays in the horizon.
    pub fn window(&self) -> (window: Window)
        ensures
            window == self.spec_window(),
            horizon_floor(self.head()) <= window.from <= window.to <= self.head(),
            window.size() <= WINDOW_SIZE,
    {
        proof {
            use_type_invariant(self);
        }
        let floor = if self.head >= MAX_DISTANCE_TO_FILL {
            self.head - MAX_DISTANCE_TO_FILL
        } else {
            0
        };
        let from = if self.top - floor >= WINDOW_SIZE {
            self.top - (WINDOW_SIZE - 1)
        } else {
            floor
        };
        Window { from, to: self.top }
    }

    /// Goes on with the blocks `found` in the current window. Each step
    /// leaves one window less to ask for.
    pub fn advance(self, found: &Vec<u64>) -> (progress: Progress)
        ensures
            self.advances_to(found@, progress),
            1 <= self.windows_left() <= MAX_WINDOWS,
            progress matches Progress::Continue(next) ==> next.windows_left() + 1
                == self.windows_left(),
    {
        proof {
            use_type_invariant(self);
        }
        match highest(found) {
            Some(block) => Progress::Found(block),
            None => {
                let window = self.window();
                if window.from > 0 && self.head - window.from < MAX_DISTANCE_TO_FILL {
                    Progress::Continue(Search { head: self.head, top: window.from - 1 })
                } else {
                    Progress::Exhausted
                }
            },
        }
    }
}

/// The highest of `blocks`, or `None` when there are none.
pub fn highest(blocks: &Vec<u64>) -> (top: Option<u64>)
    ensures
        match top {
            Some(block) => is_highest(blocks@, block),
            None => blocks@.len() == 0,
        },
{
    if blocks.len() == 0 {
        return None;
    }
    let mut best: u64 = blocks[0];
    let mut i: usize = 1;
    while i < blocks.len()
        invariant
            1 <= i <= blocks.len(),
            blocks@.contains(best),
            forall|j: int| 0 <= j < i ==> blocks[j] <= best,
        decreases blocks.len() - i,
    {
        if blocks[i] > best {
            best = blocks[i];
        }
        i += 1;
    }
    Some(best)
}

/// The blocks of `events` that lie in `window`, in their order.
pub fn events_within(events: &Vec<u64>, window: Window) -> (found: Vec<u64>)
    ensures
        found@ == events@.filter(within(window)),
{
    let mut found: Vec<u64> = Vec::new();
    let mut i: usize = 0;
    proof {
        reveal(Seq::filter);
        assert(events@.take(0) =~= Seq::<u64>::empty());
    }
    while i < events.len()
        invariant
            i <= events.len(),
            found@ == events@.take(i as int).filter(within(window)),
        decreases events.len() - i,
    {
        let block: u64 = events[i];
        proof {
            reveal(Seq::filter);
            assert(events@.take(i + 1).drop_last() =~= events@.take(i as int));
        }
        if window.from <= block && block <= window.to {
            found.push(block);
        }
        i += 1;
    }
    proof {
        assert(events@.take(events.len() as int) =~= events@);
    }
    found
}

/// Searches `events`, the blocks at which the oracle emitted an update, for
/// the latest checkpoint as seen from `head`, window by window.
///
/// Returns the highest event block within the horizon, and
/// `CheckpointNotFound` exactly when the horizon holds no event.
pub fn locate_latest_checkpoint(head: u64, events: &Vec<u64>) -> (located: Result<u64, CycleError>)
    ensures
        located == latest_checkpoint(head, events@),
        match located {
            Ok(block) => is_latest_in_horizon(head, events@, block),
            Err(error) => error == CycleError::CheckpointNotFound && horizon_is_empty(
                head,
                events@,
            ),
        },
{
    let mut search = Search::begin(head);
    loop
        invariant
            search.head() == head,
            horizon_floor(head) <= search.top() <= head,
            forall|i: int|
                0 <= i < events@.len() ==> !(search.top() < #[trigger] events@[i] <= head),
        decreases search.top(),
    {
        let window = search.window();
        let found = events_within(events, window);
        proof {
            lemma_found_are_the_events_within(events@, window);
        }
        match search.advance(&found) {
            Progress::Found(block) => {
                proof {
                    assert(found@.contains(block));
                    assert forall|i: int|
                        0 <= i < events@.len() && in_horizon(head, events@[i]) implies events@[i]
                        <= block by {
                        if window.contains(events@[i]) {
                            assert(events@.contains(events@[i]));
                            assert(found@.contains(events@[i]));
                        }
                    }
                    lemma_latest_is_unique(head, events@, block);
                }
                return Ok(block);
            },
            Progress::Continue(next) => {
                proof {
                    assert forall|i: int| 0 <= i < events@.len() implies !(next.top()
                        < #[trigger] events@[i] <= head) by {
                        if window.contains(events@[i]) {
                            assert(events@.contains(events@[i]));
                            assert(found@.contains(events@[i]));
                        }
                    }
                }
                search = next;
            },
            Progress::Exhausted => {
                proof {
                    assert forall|i: int| 0 <= i < events@.len() implies !in_horizon(
                        head,
                        events@[i],
                    ) by {
                        if window.contains(events@[i]) {
                            assert(events@.contains(events@[i]));
                            assert(found@.contains(events@[i]));
                        }
                    }
                    lemma_empty_horizon_is_not_found(head, events@);
                }
                return Err(CycleError::CheckpointNotFound);
            },
        }
    }
}

/// Filtering by a window keeps exactly the events in it.
proof fn lemma_found_are_the_events_within(events: Seq<u64>, window: Window)
    ensures
        forall|block: u64|
            events.filter(within(window)).contains(block) <==> events.contains(block)
                && window.contains(block),
{
    let found = events.filter(within(window));
    assert forall|block: u64| found.contains(block) implies events.contains(block)
        && window.contains(block) by {
        events.lemma_filter_contains_rev(within(window), block);
        let j = choose|j: int| 0 <= j < found.len() && found[j] == block;
        events.lemma_filter_pred(within(window), j);
    }
    assert forall|block: u64| events.contains(block) && window.contains(block) implies found.contains(
        block,
    ) by {
        let i = choose|i: int| 0 <= i < events.len() && events[i] == block;
        events.lemma_filter_contains(within(window), i);
    }
}

/// The latest event within the horizon is what the search must return: no
/// other block qualifies.
pub proof fn lemma_latest_is_unique(head: u64, events: Seq<u64>, block: u64)
    requires
        is_latest_in_horizon(head, events, block),
    ensures
        latest_checkpoint(head, events) == Ok::<u64, CycleError>(block),
{
    let chosen = choose|other: u64| is_latest_in_horizon(head, events, other);
    let i = choose|i: int| 0 <= i < events.len() && events[i] == block;
    let j = choose|j: int| 0 <= j < events.len() && events[j] == chosen;
    assert(events[i] <= chosen);
    assert(events[j] <= block);
}

/// When the horizon below `head` holds update events at one block only, the
/// search returns that block, whichever window it falls in.
pub proof fn lemma_single_event_is_located(head: u64, events: Seq<u64>, block: u64)
    requires
        events.contains(block),
        in_horizon(head, block),
        forall|i: int| 0 <= i < events.len() && in_horizon(head, events[i]) ==> events[i] == block,
    ensures
        latest_checkpoint(head, events) == Ok::<u64, CycleError>(block),
{
    lemma_latest_is_unique(head, events, block);
}

/// When no update event lies within the horizon below `head`, the search
/// fails with `CheckpointNotFound`.
pub proof fn lemma_empty_horizon_is_not_found(head: u64, events: Seq<u64>)
    requires
        horizon_is_empty(head, events),
    ensures
        latest_checkpoint(head, events) == Err::<u64, CycleError>(CycleError::CheckpointNotFound),
{
    assert forall|block: u64| !is_latest_in_horizon(head, events, block) by {
        if events.contains(block) && in_horizon(head, block) {
            let i = choose|i: int| 0 <= i < events.len() && events[i] == block;
            assert(!in_horizon(head, events[i]));
        }
    }
}

/// The latest event within the horizon, found by going through the events.
proof fn latest_of(head: u64, events: Seq<u64>) -> (latest: Option<u64>)
    ensures
        match latest {
            Some(block) => is_latest_in_horizon(head, events, block),
            None => horizon_is_empty(head, events),
        },
    decreases events.len(),
{
    if events.len() == 0 {
        None
    } else {
        let last = events.last();
        let earlier = latest_of(head, events.drop_last());
        assert forall|i: int| 0 <= i < events.len() - 1 implies events[i] == events.drop_last()[i] by {}
        let latest = match earlier {
            Some(block) if !in_horizon(head, last) || last <= block => {
                let i = choose|i: int| 0 <= i < events.len() - 1 && events.drop_last()[i] == block;
                assert(events[i] == block);
                Some(block)
            },
            _ => if in_horizon(head, last) {
                assert(events[events.len() - 1] == last);
                Some(last)
            } else {
                None
            },
        };
        latest
    }
}

/// A search finds a checkpoint if and only if an update event lies within
/// the horizon, and the checkpoint is then the latest of these events.
pub proof fn lemma_checkpoint_is_the_latest_event(head: u64, events: Seq<u64>)
    ensures
        latest_checkpoint(head, events) is Err <==> horizon_is_empty(head, events),
        latest_checkpoint(head, events) matches Ok(block) ==> is_latest_in_horizon(
            head,
            events,
            block,
        ),
        latest_checkpoint(head, events) matches Err(error) ==> error
            == CycleError::CheckpointNotFound,
{
    match latest_of(head, events) {
        Some(block) => {
            lemma_latest_is_unique(head, events, block);
            let i = choose|i: int| 0 <= i < events.len() && events[i] == block;
            assert(in_horizon(head, events[i]));
        },
        None => {
            lemma_empty_horizon_is_not_found(head, events);
        },
    }
}

} // verus!
