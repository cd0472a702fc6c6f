//! Bounded, navigable record of the images that have been shown.
//!
//! `shown` (the `previous` queue) is never empty: its last entry is the image
//! on screen right now.  `redo` (the `next` stack) holds images navigated away
//! from with "previous"; advancing consumes it before any fresh candidate.

use vstd::prelude::*;
use std::collections::VecDeque;

verus! {

/// Mathematical model of a [`History`]: the shown sequence, the redo stack,
/// and the bound on `shown`'s length, all over plain character sequences.
#[verifier::ext_equal]
pub struct HistoryView {
    pub shown: Seq<Seq<char>>,
    pub redo: Seq<Seq<char>>,
    pub capacity: nat,
}

impl HistoryView {
    /// `shown` never runs dry and never outgrows the capacity.
    pub open spec fn wf(self) -> bool {
        1 <= self.shown.len() <= self.capacity
    }

    /// The image currently on screen: the tail of `shown`.
    pub open spec fn current(self) -> Seq<char> {
        self.shown.last()
    }
}

/// Appending a path: the oldest entry is evicted exactly when `shown` is full.
pub open spec fn spec_push(h: HistoryView, p: Seq<char>) -> HistoryView {
    if h.shown.len() >= h.capacity {
        HistoryView { shown: h.shown.drop_first().push(p), ..h }
    } else {
        HistoryView { shown: h.shown.push(p), ..h }
    }
}

/// Advancing into the redo stack: its tail becomes the newest shown entry.
/// Without a redo entry nothing moves.
pub open spec fn spec_go_next(h: HistoryView) -> HistoryView {
    if h.redo.len() == 0 {
        h
    } else {
        spec_push(HistoryView { redo: h.redo.drop_last(), ..h }, h.redo.last())
    }
}

/// Rewinding: the current image moves onto the redo stack, unless it is the
/// only retained entry.
pub open spec fn spec_go_previous(h: HistoryView) -> HistoryView {
    if h.shown.len() >= 2 {
        HistoryView { shown: h.shown.drop_last(), redo: h.redo.push(h.shown.last()), ..h }
    } else {
        h
    }
}

/// Discarding the current tail so the prior entry shows again.
pub open spec fn spec_pop_tail(h: HistoryView) -> HistoryView {
    HistoryView { shown: h.shown.drop_last(), ..h }
}

/// The daemon's "advance": redo a rewound image when one is waiting,
/// otherwise append the caller's fresh `candidate`.
pub open spec fn spec_advance(h: HistoryView, candidate: Seq<char>) -> HistoryView {
    if h.redo.len() != 0 {
        spec_go_next(h)
    } else {
        spec_push(h, candidate)
    }
}

/// Law: appending and then rewinding restores the current image, for any
/// history that can retain at least two entries.
pub proof fn lemma_push_then_previous_restores_current(h: HistoryView, p: Seq<char>)
    requires
        h.wf(),
        h.capacity >= 2,
    ensures
        spec_go_previous(spec_push(h, p)).current() == h.current(),
        spec_go_previous(spec_push(h, p)).wf(),
{
}

/// Law: "next" then "previous" leaves the current image as it was before the
/// pair, whatever the redo stack held, for any history that can retain at
/// least two entries.
pub proof fn lemma_next_then_previous_restores_current(h: HistoryView, candidate: Seq<char>)
    requires
        h.wf(),
        h.capacity >= 2,
    ensures
        spec_go_previous(spec_advance(h, candidate)).current() == h.current(),
{
    if h.redo.len() != 0 {
        lemma_push_then_previous_restores_current(
            HistoryView { redo: h.redo.drop_last(), ..h },
            h.redo.last(),
        );
    } else {
        lemma_push_then_previous_restores_current(h, candidate);
    }
}

/// Law: rewinding a history with exactly one retained entry changes nothing.
pub proof fn lemma_previous_on_single_entry_is_noop(h: HistoryView)
    requires
        h.shown.len() == 1,
    ensures
        spec_go_previous(h) == h,
{
}

/// Law: the history never outgrows its capacity, and an append at capacity
/// evicts exactly the oldest entry, keeping the order of the rest.
pub proof fn lemma_push_bounded(h: HistoryView, p: Seq<char>)
    requires
        h.wf(),
    ensures
        spec_push(h, p).wf(),
        spec_push(h, p).shown.len() <= h.capacity,
        h.shown.len() == h.capacity ==> spec_push(h, p).shown == h.shown.drop_first().push(p),
        h.shown.len() == h.capacity ==> forall|i: int|
            1 <= i < h.shown.len() ==> spec_push(h, p).shown[i - 1] == h.shown[i],
        h.shown.len() < h.capacity ==> spec_push(h, p).shown == h.shown.push(p),
{
}

/// Bounded history of shown images plus the stack of images rewound from.
#[derive(Debug)]
pub struct History {
    previous: VecDeque<String>,
    next: Vec<String>,
    history_max_size: usize,
}

impl View for History {
    type V = HistoryView;

    closed spec fn view(&self) -> HistoryView {
        HistoryView {
            shown: self.previous.deep_view(),
            redo: self.next.deep_view(),
            capacity: self.history_max_size as nat,
        }
    }
}

impl History {
    /// A fresh history showing only `seed`.
    pub fn new(seed: String, history_max_size: usize) -> (h: History)
        requires
            history_max_size >= 1,
        ensures
            h@ == (HistoryView {
                shown: seq![seed@],
                redo: Seq::<Seq<char>>::empty(),
                capacity: history_max_size as nat,
            }),
            h@.wf(),
    {
        let mut previous: VecDeque<String> = VecDeque::new();
        previous.push_back(seed);
        let h = History { previous, next: Vec::new(), history_max_size };
        proof {
            assert(h@.shown =~= seq![seed@]);
            assert(h@.redo =~= Seq::<Seq<char>>::empty());
        }
        h
    }

    /// Whether a rewound image is waiting to be redone.
    pub fn has_next(&self) -> (r: bool)
        ensures
            r == (self@.redo.len() != 0),
    {
        !self.next.is_empty()
    }

    /// Whether an image before the current one is still retained.
    pub fn has_previous(&self) -> (r: bool)
        ensures
            r == (self@.shown.len() >= 2),
    {
        self.previous.len() >= 2
    }

    /// Redo: move the most recently rewound image back into `shown`.
    pub fn go_next(&mut self)
        requires
            old(self)@.wf(),
        ensures
            final(self)@ == spec_go_next(old(self)@),
            final(self)@.wf(),
    {
        if self.has_next() {
            let image = self.next.pop().unwrap();
            proof {
                assert(self@.redo =~= old(self)@.redo.drop_last());
                assert(self@ =~= (HistoryView {
                    redo: old(self)@.redo.drop_last(),
                    ..old(self)@
                }));
            }
            self.push_back(image);
        }
    }

    /// Rewind: move the current image onto the redo stack.
    pub fn go_previous(&mut self)
        requires
            old(self)@.wf(),
        ensures
            final(self)@ == spec_go_previous(old(self)@),
            final(self)@.wf(),
    {
        if self.has_previous() {
            let image = self.previous.pop_back().unwrap();
            self.next.push(image);
            proof {
                assert(self@.shown =~= old(self)@.shown.drop_last());
                assert(self@.redo =~= old(self)@.redo.push(old(self)@.shown.last()));
                assert(self@ =~= spec_go_previous(old(self)@));
            }
        }
    }

    /// Append `path` as the new current image, evicting the oldest entry when
    /// the history is full.
    pub fn push_back(&mut self, path: String)
        requires
            old(self)@.wf(),
        ensures
            final(self)@ == spec_push(old(self)@, path@),
            final(self)@.wf(),
    {
        if self.previous.len() >= self.history_max_size {
            self.previous.pop_front();
            proof {
                assert(self@.shown =~= old(self)@.shown.drop_first());
            }
        }
        self.previous.push_back(path);
        proof {
            if old(self)@.shown.len() >= old(self)@.capacity {
                assert(self@.shown =~= old(self)@.shown.drop_first().push(path@));
            } else {
                assert(self@.shown =~= old(self)@.shown.push(path@));
            }
            assert(self@ =~= spec_push(old(self)@, path@));
        }
    }

    /// Remove the current tail; the prior entry shows again.
    pub fn pop_tail(&mut self)
        requires
            old(self)@.wf(),
            old(self)@.shown.len() >= 2,
        ensures
            final(self)@ == spec_pop_tail(old(self)@),
            final(self)@.wf(),
    {
        self.previous.pop_back();
        proof {
            assert(self@.shown =~= old(self)@.shown.drop_last());
            assert(self@ =~= spec_pop_tail(old(self)@));
        }
    }

    /// The image currently on screen.
    pub fn current(&self) -> (r: &String)
        requires
            self@.wf(),
        ensures
            r@ == self@.current(),
    {
        &self.previous[self.previous.len() - 1]
    }

    /// The entry `back` places before the current tail, for the backend's
    /// reference-counted unload decision.
    pub fn nth_from_tail(&self, back: usize) -> (r: &String)
        requires
            self@.wf(),
            back < self@.shown.len(),
        ensures
            r@ == self@.shown[self@.shown.len() - 1 - back],
    {
        &self.previous[self.previous.len() - 1 - back]
    }

    /// How many entries `shown` holds.
    pub fn shown_len(&self) -> (r: usize)
        ensures
            r == self@.shown.len(),
    {
        self.previous.len()
    }
}

} // verus!
