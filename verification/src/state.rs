//! The daemon's shared state: the history of shown images, the rotation mode,
//! the fallback flag and the rotation interval, together with the operations
//! the command handlers and the scheduler apply to it.
//!
//! Every operation here is a plain state transition.  Anything that touches
//! the outside world — listing the image directory, running the backend — is
//! handed in or handed back as plain values: the directory listing comes in as
//! a vector of paths, and each image change returns the exact sequence of
//! backend messages the caller must deliver.

use vstd::prelude::*;
use crate::history::{
    History, HistoryView, spec_go_next, spec_go_previous, spec_pop_tail, spec_push,
};

verus! {

/// The rotation strategy currently in force.
#[derive(Debug, Clone, Copy, PartialEq, Eq, Structural)]
pub enum NextImage {
    Random,
    Linear,
    Static,
}

/// Which way a manual image change moves.
#[derive(Debug, Clone, Copy, PartialEq, Eq, Structural)]
pub enum ChangeImageDirection {
    Next,
    Previous,
}

/// The monitors a multi-step backend must assign the image to.
#[derive(Debug, Clone)]
pub struct HyprpaperOptions {
    pub monitors: Vec<String>,
}

/// Which wallpaper-setting strategy the daemon drives.
#[derive(Debug, Clone)]
pub enum WallpaperMethod {
    /// One call of an external program with the image path.
    Feh,
    /// A preload / per-monitor assign / unload exchange with a compositor
    /// helper process.
    Hyprpaper(HyprpaperOptions),
}

/// Model of a [`WallpaperMethod`]: the multi-step variant carries its monitor
/// names as plain character sequences.
pub enum WallpaperMethodView {
    Feh,
    Hyprpaper(Seq<Seq<char>>),
}

impl View for WallpaperMethod {
    type V = WallpaperMethodView;

    open spec fn view(&self) -> WallpaperMethodView {
        match self {
            WallpaperMethod::Feh => WallpaperMethodView::Feh,
            WallpaperMethod::Hyprpaper(opts) => WallpaperMethodView::Hyprpaper(
                opts.monitors.deep_view(),
            ),
        }
    }
}

/// One message for the backend adapter.  The caller delivers these in order;
/// how they are spoken (program invocation, helper socket) is its affair.
#[derive(Debug, Clone, PartialEq, Eq)]
pub enum BackendMsg {
    /// Single-call strategy: set the wallpaper to this path.
    SetWallpaper(String),
    /// Multi-step strategy: preload this path.
    Preload(String),
    /// Multi-step strategy: show the path on the named monitor.
    Assign(String, String),
    /// Multi-step strategy: unload a path no rotation still reaches.
    Unload(String),
}

/// Model of a [`BackendMsg`] over plain character sequences.
pub enum BackendMsgView {
    SetWallpaper(Seq<char>),
    Preload(Seq<char>),
    Assign(Seq<char>, Seq<char>),
    Unload(Seq<char>),
}

impl View for BackendMsg {
    type V = BackendMsgView;

    open spec fn view(&self) -> BackendMsgView {
        match self {
            BackendMsg::SetWallpaper(p) => BackendMsgView::SetWallpaper(p@),
            BackendMsg::Preload(p) => BackendMsgView::Preload(p@),
            BackendMsg::Assign(m, p) => BackendMsgView::Assign(m@, p@),
            BackendMsg::Unload(p) => BackendMsgView::Unload(p@),
        }
    }
}

impl DeepView for BackendMsg {
    type V = BackendMsgView;

    open spec fn deep_view(&self) -> BackendMsgView {
        self@
    }
}

/// Mathematical model of the whole daemon state.
#[verifier::ext_equal]
pub struct StateView {
    pub history: HistoryView,
    pub action: NextImage,
    pub previous_action: NextImage,
    pub change_interval: u64,
    pub image_dir: Seq<char>,
    pub use_fallback: bool,
    pub default_image: Seq<char>,
    pub wallpaper_cmd: WallpaperMethodView,
}

/// The state invariant: a well-formed history that can hold at least two
/// entries, and, while the fallback is active, at least two retained entries
/// (the fallback image and the one to return to).
pub open spec fn spec_wf(s: StateView) -> bool {
    &&& s.history.wf()
    &&& s.history.capacity >= 2
    &&& s.use_fallback ==> s.history.shown.len() >= 2
}

/// Rotation and manual navigation are blocked while the fallback is shown or
/// the mode is static.
pub open spec fn spec_rotation_blocked(s: StateView) -> bool {
    s.use_fallback || s.action == NextImage::Static
}

/// The entry to unload after a change under the multi-step strategy: the one
/// three positions back from the current tail, if it exists and is not the
/// current image itself (that keeps one rotation of "previous" reachable).
pub open spec fn spec_unload_candidate(h: HistoryView) -> Option<Seq<char>> {
    if h.shown.len() > 2 && h.shown[h.shown.len() - 3] != h.current() {
        Some(h.shown[h.shown.len() - 3])
    } else {
        None
    }
}

/// One assignment message per monitor, all for the same image.
pub open spec fn spec_assigns(monitors: Seq<Seq<char>>, cur: Seq<char>) -> Seq<BackendMsgView> {
    Seq::new(monitors.len(), |i: int| BackendMsgView::Assign(monitors[i], cur))
}

/// The exact message sequence a display update sends for state `s`.
pub open spec fn spec_update(s: StateView) -> Seq<BackendMsgView> {
    match s.wallpaper_cmd {
        WallpaperMethodView::Feh => seq![BackendMsgView::SetWallpaper(s.history.current())],
        WallpaperMethodView::Hyprpaper(monitors) => {
            let lead = seq![BackendMsgView::Preload(s.history.current())] + spec_assigns(
                monitors,
                s.history.current(),
            );
            match spec_unload_candidate(s.history) {
                Some(p) => lead.push(BackendMsgView::Unload(p)),
                None => lead,
            }
        }
    }
}

/// Toggling the fallback: on activation the mode is parked and the default
/// image appended; on deactivation the parked mode returns and the synthetic
/// fallback entry is discarded.
pub open spec fn spec_save(s: StateView) -> StateView {
    if !s.use_fallback {
        StateView {
            use_fallback: true,
            previous_action: s.action,
            action: NextImage::Static,
            history: spec_push(s.history, s.default_image),
            ..s
        }
    } else {
        StateView {
            use_fallback: false,
            action: s.previous_action,
            history: spec_pop_tail(s.history),
            ..s
        }
    }
}

/// Where `cur` first occurs in `listing`, if anywhere.
pub open spec fn spec_find(listing: Seq<Seq<char>>, cur: Seq<char>) -> Option<int>
    decreases listing.len(),
{
    if listing.len() == 0 {
        None
    } else if listing.first() == cur {
        Some(0)
    } else {
        match spec_find(listing.drop_first(), cur) {
            Some(j) => Some(1 + j),
            None => None,
        }
    }
}

/// The index the linear mode advances to: the entry after the current image's
/// first occurrence (after index zero when the current image is not listed),
/// wrapping past the end.
pub open spec fn spec_linear_index(listing: Seq<Seq<char>>, cur: Seq<char>) -> int {
    let base = match spec_find(listing, cur) {
        Some(j) => j,
        None => 0,
    };
    (base + 1) % (listing.len() as int)
}

/// The path the linear mode advances to.
pub open spec fn spec_linear_candidate(listing: Seq<Seq<char>>, cur: Seq<char>) -> Seq<char> {
    listing[spec_linear_index(listing, cur)]
}

/// How one `change_image` call relates the state before (`pre`) to the state
/// after (`post`): nothing but the history moves; nothing at all moves while
/// rotation is blocked, no candidate exists, or no older entry is retained to
/// rewind to; otherwise the history advances or rewinds, and a display update
/// is planned (`planned`) exactly when the shown image changed hands.
pub open spec fn spec_change_image_rel(
    pre: StateView,
    post: StateView,
    direction: ChangeImageDirection,
    listing: Seq<Seq<char>>,
    planned: bool,
) -> bool {
    &&& post == (StateView { history: post.history, ..pre })
    &&& if spec_rotation_blocked(pre) {
        post == pre && !planned
    } else {
        match direction {
            ChangeImageDirection::Previous => post.history == spec_go_previous(pre.history)
                && planned == (pre.history.shown.len() >= 2),
            ChangeImageDirection::Next => {
                let h = pre.history;
                if h.redo.len() != 0 {
                    post.history == spec_go_next(h) && planned
                } else if listing.len() == 0 {
                    post == pre && !planned
                } else if pre.action == NextImage::Linear {
                    post.history == spec_push(h, spec_linear_candidate(listing, h.current()))
                        && planned
                } else {
                    planned && exists|k: int|
                        0 <= k < listing.len() && post.history == spec_push(h, listing[k])
                }
            }
        }
    }
}

/// Relies on `rand::Rng::gen_range` over `0..n`: the draw is uniform over the
/// range and lies strictly below `n`; it panics only on an empty range, which
/// the precondition rules out.  Nothing more is claimed of the outcome.
#[verifier::external_body]
fn random_index(n: usize) -> (r: usize)
    requires
        n > 0,
    ensures
        r < n,
{
    rand::Rng::gen_range(&mut rand::thread_rng(), 0..n)
}

/// Where `cur` first occurs in `listing`, if anywhere.
fn position_of(listing: &Vec<String>, cur: &String) -> (r: Option<usize>)
    ensures
        match r {
            Some(i) => spec_find(listing.deep_view(), cur@) == Some(i as int) && i < listing.len(),
            None => spec_find(listing.deep_view(), cur@) is None,
        },
{
    let ghost l = listing.deep_view();
    let mut j: usize = 0;
    while j < listing.len()
        invariant
            j <= listing.len(),
            l == listing.deep_view(),
            l.len() == listing.len(),
            forall|k: int| 0 <= k < j ==> l[k] != cur@,
        decreases listing.len() - j,
    {
        let hit = listing[j].eq(cur);
        proof {
            assert(l[j as int] == listing@[j as int]@);
        }
        if hit {
            proof {
                lemma_spec_find_first_match(l, cur@, j as int);
            }
            return Some(j);
        }
        j += 1;
    }
    proof {
        lemma_spec_find_no_match(l, cur@);
    }
    None
}

/// `spec_find` returns exactly the first matching index.
proof fn lemma_spec_find_first_match(listing: Seq<Seq<char>>, cur: Seq<char>, j: int)
    requires
        0 <= j < listing.len(),
        listing[j] == cur,
        forall|k: int| 0 <= k < j ==> listing[k] != cur,
    ensures
        spec_find(listing, cur) == Some(j),
    decreases listing.len(),
{
    if j == 0 {
    } else {
        lemma_spec_find_first_match(listing.drop_first(), cur, j - 1);
    }
}

/// `spec_find` misses exactly when no entry matches.
proof fn lemma_spec_find_no_match(listing: Seq<Seq<char>>, cur: Seq<char>)
    requires
        forall|k: int| 0 <= k < listing.len() ==> listing[k] != cur,
    ensures
        spec_find(listing, cur) is None,
    decreases listing.len(),
{
    if listing.len() > 0 {
        lemma_spec_find_no_match(listing.drop_first(), cur);
    }
}

/// The daemon state: one per process, shared by every connection handler and
/// the rotation scheduler under one lock held by the caller.
#[derive(Debug)]
pub struct State {
    history: History,
    action: NextImage,
    previous_action: NextImage,
    change_interval: u64,
    image_dir: String,
    use_fallback: bool,
    default_image: String,
    wallpaper_cmd: WallpaperMethod,
}

impl View for State {
    type V = StateView;

    closed spec fn view(&self) -> StateView {
        StateView {
            history: self.history@,
            action: self.action,
            previous_action: self.previous_action,
            change_interval: self.change_interval,
            image_dir: self.image_dir@,
            use_fallback: self.use_fallback,
            default_image: self.default_image@,
            wallpaper_cmd: self.wallpaper_cmd@,
        }
    }
}

impl State {
    /// The state invariant; every operation preserves it.
    pub open spec fn wf(&self) -> bool {
        spec_wf(self@)
    }

    /// A fresh daemon state showing the default image, with an empty redo
    /// stack and the fallback off.
    pub fn new(
        change_interval: u64,
        image_dir: String,
        default_image: String,
        action: NextImage,
        wallpaper_cmd: WallpaperMethod,
        history_max_size: usize,
    ) -> (s: State)
        requires
            history_max_size >= 2,
        ensures
            s.wf(),
            s@ == (StateView {
                history: HistoryView {
                    shown: seq![default_image@],
                    redo: Seq::<Seq<char>>::empty(),
                    capacity: history_max_size as nat,
                },
                action,
                previous_action: action,
                change_interval,
                image_dir: image_dir@,
                use_fallback: false,
                default_image: default_image@,
                wallpaper_cmd: wallpaper_cmd@,
            }),
    {
        let history = History::new(default_image.clone(), history_max_size);
        State {
            history,
            action,
            previous_action: action,
            change_interval,
            image_dir,
            use_fallback: false,
            default_image,
            wallpaper_cmd,
        }
    }

    /// The message sequence that re-displays the current image: one call for
    /// the single-call strategy; preload, one assignment per monitor, and at
    /// most one reference-counted unload for the multi-step strategy.
    pub fn update(&self) -> (plan: Vec<BackendMsg>)
        requires
            self.wf(),
        ensures
            plan.deep_view() == spec_update(self@),
    {
        let mut plan: Vec<BackendMsg> = Vec::new();
        match &self.wallpaper_cmd {
            WallpaperMethod::Feh => {
                plan.push(BackendMsg::SetWallpaper(self.history.current().clone()));
                proof {
                    assert(plan.deep_view() =~= spec_update(self@));
                }
            }
            WallpaperMethod::Hyprpaper(opts) => {
                let cur = self.history.current().clone();
                let ghost monitors = opts.monitors.deep_view();
                plan.push(BackendMsg::Preload(cur.clone()));
                let mut i: usize = 0;
                while i < opts.monitors.len()
                    invariant
                        i <= opts.monitors.len(),
                        monitors == opts.monitors.deep_view(),
                        monitors.len() == opts.monitors.len(),
                        cur@ == self@.history.current(),
                        plan.deep_view() =~= seq![BackendMsgView::Preload(cur@)] + spec_assigns(
                            monitors.take(i as int),
                            cur@,
                        ),
                    decreases opts.monitors.len() - i,
                {
                    let ghost before = plan.deep_view();
                    proof {
                        assert(monitors[i as int] == opts.monitors@[i as int]@);
                    }
                    plan.push(BackendMsg::Assign(opts.monitors[i].clone(), cur.clone()));
                    proof {
                        assert(plan.deep_view() =~= before.push(
                            BackendMsgView::Assign(monitors[i as int], cur@),
                        ));
                        assert(plan.deep_view() =~= seq![BackendMsgView::Preload(cur@)]
                            + spec_assigns(monitors.take(i as int + 1), cur@));
                    }
                    i += 1;
                }
                proof {
                    assert(monitors.take(monitors.len() as int) =~= monitors);
                }
                if self.history.shown_len() > 2 {
                    let prev = self.history.nth_from_tail(2);
                    let same = prev.eq(&cur);
                    if !same {
                        let ghost before = plan.deep_view();
                        plan.push(BackendMsg::Unload(prev.clone()));
                        proof {
                            assert(plan.deep_view() =~= before.push(
                                BackendMsgView::Unload(prev@),
                            ));
                        }
                    }
                }
                proof {
                    assert(plan.deep_view() =~= spec_update(self@));
                }
            }
        }
        plan
    }

    /// Advance or rewind the shown image, then plan a display update.
    ///
    /// While the fallback is active or the mode is static nothing moves and no
    /// update is planned.  "Next" consumes the redo stack first; otherwise it
    /// appends a fresh candidate from `listing` — the next entry in listing
    /// order for the linear mode, a uniformly drawn entry for the random mode.
    /// An empty `listing` leaves the state unchanged with no update planned.
    /// "Previous" rewinds when an older entry is retained; with none, there
    /// is no image before the oldest retained entry, and nothing happens.
    pub fn change_image(&mut self, direction: ChangeImageDirection, listing: &Vec<String>) -> (plan:
        Option<Vec<BackendMsg>>)
        requires
            old(self).wf(),
        ensures
            final(self).wf(),
            spec_change_image_rel(
                old(self)@,
                final(self)@,
                direction,
                listing.deep_view(),
                plan is Some,
            ),
            match plan {
                Some(p) => p.deep_view() == spec_update(final(self)@),
                None => *final(self) == *old(self),
            },
    {
        if self.use_fallback {
            return None;
        }
        if self.action == NextImage::Static {
            return None;
        }
        match direction {
            ChangeImageDirection::Next => {
                if self.history.has_next() {
                    self.history.go_next();
                } else {
                    if listing.len() == 0 {
                        return None;
                    }
                    let ghost l = listing.deep_view();
                    let cur = self.history.current().clone();
                    let base = match position_of(listing, &cur) {
                        Some(i) => i,
                        None => 0,
                    };
                    let idx = if self.action == NextImage::Random {
                        random_index(listing.len())
                    } else {
                        (base + 1) % listing.len()
                    };
                    proof {
                        assert(l[idx as int] == listing@[idx as int]@);
                        if self.action == NextImage::Linear {
                            assert(idx as int == spec_linear_index(l, cur@));
                        }
                    }
                    self.history.push_back(listing[idx].clone());
                    proof {
                        assert(idx < l.len());
                        assert(self@.history == spec_push(old(self)@.history, l[idx as int]));
                    }
                }
            }
            ChangeImageDirection::Previous => {
                if !self.history.has_previous() {
                    return None;
                }
                self.history.go_previous();
            }
        }
        Some(self.update())
    }

    /// Set the mode; with an explicit image, also append it and plan a display
    /// update.  This is the only way to enter the static mode on a chosen
    /// image.
    pub fn update_action(&mut self, action: NextImage, image: Option<String>) -> (plan: Option<
        Vec<BackendMsg>,
    >)
        requires
            old(self).wf(),
        ensures
            final(self).wf(),
            image is None ==> final(self)@ == (StateView { action, ..old(self)@ }) && plan is None,
            image matches Some(img) ==> final(self)@ == (StateView {
                action,
                history: spec_push(old(self)@.history, img@),
                ..old(self)@
            }) && (plan matches Some(p) && p.deep_view() == spec_update(final(self)@)),
    {
        self.action = action;
        match image {
            Some(img) => {
                self.history.push_back(img);
                Some(self.update())
            }
            None => None,
        }
    }

    /// Toggle the fallback image, parking and restoring the mode, and plan the
    /// display update for the image now current.
    pub fn save(&mut self) -> (plan: Vec<BackendMsg>)
        requires
            old(self).wf(),
        ensures
            final(self).wf(),
            final(self)@ == spec_save(old(self)@),
            plan.deep_view() == spec_update(final(self)@),
    {
        self.use_fallback = !self.use_fallback;
        if self.use_fallback {
            self.previous_action = self.action;
            self.action = NextImage::Static;
            self.history.push_back(self.default_image.clone());
        } else {
            self.action = self.previous_action;
            self.history.pop_tail();
        }
        self.update()
    }

    /// The image currently on screen.
    pub fn get_current_image(&self) -> (r: &String)
        requires
            self.wf(),
        ensures
            r@ == self@.history.current(),
    {
        self.history.current()
    }

    /// The mode currently in force.
    pub fn get_action(&self) -> (r: NextImage)
        ensures
            r == self@.action,
    {
        self.action
    }

    /// Replace the rotation interval; the scheduler reads it again before its
    /// next sleep.
    pub fn change_interval(&mut self, i: u64)
        requires
            old(self).wf(),
        ensures
            final(self).wf(),
            final(self)@ == (StateView { change_interval: i, ..old(self)@ }),
    {
        self.change_interval = i;
    }

    /// The seconds between automatic rotations.
    pub fn get_change_interval(&self) -> (r: u64)
        ensures
            r == self@.change_interval,
    {
        self.change_interval
    }

    /// Whether the fallback image is being shown.
    pub fn get_fallback(&self) -> (r: bool)
        ensures
            r == self@.use_fallback,
    {
        self.use_fallback
    }

    /// The directory the caller lists to supply rotation candidates.
    pub fn get_image_dir(&self) -> (r: &String)
        ensures
            r@ == self@.image_dir,
    {
        &self.image_dir
    }
}

/// Law: toggling the fallback twice restores the mode, the fallback flag and
/// the current image, and touches nothing else but the parked mode.
pub proof fn lemma_fallback_round_trip(s: StateView)
    requires
        spec_wf(s),
        !s.use_fallback,
    ensures
        spec_save(spec_save(s)) == (StateView {
            history: spec_save(spec_save(s)).history,
            previous_action: s.action,
            ..s
        }),
        spec_save(spec_save(s)).history.current() == s.history.current(),
        spec_save(spec_save(s)).action == s.action,
        spec_save(spec_save(s)).use_fallback == false,
{
    let pushed = spec_push(s.history, s.default_image);
    assert(spec_pop_tail(pushed).shown.last() == s.history.shown.last());
}

/// Law: "next" then "previous" leaves the current image as it was before the
/// pair, whenever rotation is unblocked and a candidate exists.
pub proof fn lemma_next_then_previous_round_trip(
    s0: StateView,
    s1: StateView,
    s2: StateView,
    listing: Seq<Seq<char>>,
    planned_next: bool,
    planned_previous: bool,
)
    requires
        spec_wf(s0),
        !spec_rotation_blocked(s0),
        listing.len() != 0,
        spec_change_image_rel(s0, s1, ChangeImageDirection::Next, listing, planned_next),
        spec_change_image_rel(s1, s2, ChangeImageDirection::Previous, listing, planned_previous),
    ensures
        s2.history.current() == s0.history.current(),
{
    let h = s0.history;
    if h.redo.len() != 0 {
        crate::history::lemma_push_then_previous_restores_current(
            HistoryView { redo: h.redo.drop_last(), ..h },
            h.redo.last(),
        );
    } else if s0.action == NextImage::Linear {
        crate::history::lemma_push_then_previous_restores_current(
            h,
            spec_linear_candidate(listing, h.current()),
        );
    } else {
        let k = choose|k: int| 0 <= k < listing.len() && s1.history == spec_push(h, listing[k]);
        crate::history::lemma_push_then_previous_restores_current(h, listing[k]);
    }
}

/// Law: while the mode is static or the fallback is shown, an image change —
/// manual or a scheduler tick — moves nothing; since the state is unchanged,
/// it stays blocked, so no number of such calls changes the current image.
pub proof fn lemma_blocked_change_moves_nothing(
    pre: StateView,
    post: StateView,
    direction: ChangeImageDirection,
    listing: Seq<Seq<char>>,
    planned: bool,
)
    requires
        spec_rotation_blocked(pre),
        spec_change_image_rel(pre, post, direction, listing, planned),
    ensures
        post == pre,
        !planned,
        spec_rotation_blocked(post),
{
}

/// Law: in linear mode, rotation visits the listing in order and wraps past
/// the last entry — from the first occurrence of an entry, the candidate is
/// the entry at the next index, modulo the listing's length.
pub proof fn lemma_linear_visits_in_listing_order(listing: Seq<Seq<char>>, i: int)
    requires
        0 <= i < listing.len(),
        forall|k: int| 0 <= k < i ==> listing[k] != listing[i],
    ensures
        spec_linear_candidate(listing, listing[i]) == listing[(i + 1) % (listing.len() as int)],
{
    lemma_spec_find_first_match(listing, listing[i], i);
}

/// The entry shown after `k` further linear advances from `cur`.
pub open spec fn spec_linear_iterate(listing: Seq<Seq<char>>, cur: Seq<char>, k: nat) -> Seq<char>
    decreases k,
{
    if k == 0 {
        cur
    } else {
        spec_linear_candidate(listing, spec_linear_iterate(listing, cur, (k - 1) as nat))
    }
}

/// Law: over a listing of pairwise distinct entries, any run of linear
/// advances from entry `i` visits the listing in listing order, wrapping
/// past the last entry — after `k` advances the entry at `(i + k) % len`
/// shows.
pub proof fn lemma_linear_visits_all_in_order(listing: Seq<Seq<char>>, i: int, k: nat)
    requires
        0 <= i < listing.len(),
        forall|a: int, b: int| 0 <= a < b < listing.len() ==> listing[a] != listing[b],
    ensures
        spec_linear_iterate(listing, listing[i], k) == listing[(i + k) % (listing.len() as int)],
    decreases k,
{
    let n = listing.len() as int;
    if k == 0 {
        vstd::arithmetic::div_mod::lemma_small_mod(i as nat, n as nat);
    } else {
        lemma_linear_visits_all_in_order(listing, i, (k - 1) as nat);
        let idx = (i + k - 1) % n;
        assert(0 <= idx < n) by {
            vstd::arithmetic::div_mod::lemma_mod_bound(i + k - 1, n);
        }
        lemma_linear_visits_in_listing_order(listing, idx);
        vstd::arithmetic::div_mod::lemma_add_mod_noop_right(1, i + k - 1, n);
    }
}

} // verus!
