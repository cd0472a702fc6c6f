use wallpaperd::state::{
    BackendMsg, ChangeImageDirection, HyprpaperOptions, NextImage, State, WallpaperMethod,
};

fn s(x: &str) -> String {
    x.to_string()
}

fn linear_state(default: &str) -> State {
    State::new(60, s("/pics"), s(default), NextImage::Linear, WallpaperMethod::Feh, 25)
}

fn listing(names: &[&str]) -> Vec<String> {
    names.iter().map(|n| n.to_string()).collect()
}

#[test]
fn linear_rotation_visits_listing_in_order_and_wraps() {
    // Directory [a, b, c], mode Linear, history [a].
    let mut st = linear_state("a");
    let dir = listing(&["a", "b", "c"]);
    let plan = st.change_image(ChangeImageDirection::Next, &dir);
    assert!(plan.is_some());
    assert_eq!(st.get_current_image(), &s("b"));
    st.change_image(ChangeImageDirection::Next, &dir);
    assert_eq!(st.get_current_image(), &s("c"));
    st.change_image(ChangeImageDirection::Next, &dir);
    assert_eq!(st.get_current_image(), &s("a"));
}

#[test]
fn linear_rotation_starts_after_index_zero_when_current_unlisted() {
    let mut st = linear_state("zzz");
    let dir = listing(&["a", "b", "c"]);
    st.change_image(ChangeImageDirection::Next, &dir);
    assert_eq!(st.get_current_image(), &s("b"));
}

#[test]
fn next_then_previous_restores_current() {
    let mut st = linear_state("a");
    let dir = listing(&["a", "b", "c"]);
    st.change_image(ChangeImageDirection::Next, &dir);
    assert_eq!(st.get_current_image(), &s("b"));
    let plan = st.change_image(ChangeImageDirection::Previous, &dir);
    assert!(plan.is_some());
    assert_eq!(st.get_current_image(), &s("a"));
}

#[test]
fn previous_without_older_entry_changes_nothing() {
    let mut st = linear_state("a");
    let dir = listing(&["a", "b"]);
    let plan = st.change_image(ChangeImageDirection::Previous, &dir);
    // There is no image before the oldest retained entry: nothing moves and
    // no backend update is planned.
    assert!(plan.is_none());
    assert_eq!(st.get_current_image(), &s("a"));
}

#[test]
fn redo_is_preferred_over_fresh_candidates() {
    let mut st = linear_state("a");
    let dir = listing(&["a", "b", "c"]);
    st.change_image(ChangeImageDirection::Next, &dir);
    st.change_image(ChangeImageDirection::Previous, &dir);
    // A redo entry ("b") is waiting; the listing must not be consulted.
    st.change_image(ChangeImageDirection::Next, &listing(&["x", "y"]));
    assert_eq!(st.get_current_image(), &s("b"));
}

#[test]
fn empty_listing_is_a_recoverable_noop() {
    let mut st = linear_state("a");
    let plan = st.change_image(ChangeImageDirection::Next, &Vec::new());
    assert!(plan.is_none());
    assert_eq!(st.get_current_image(), &s("a"));
}

#[test]
fn static_mode_blocks_all_rotation() {
    let mut st = State::new(60, s("/pics"), s("a"), NextImage::Static, WallpaperMethod::Feh, 25);
    let dir = listing(&["a", "b", "c"]);
    for _ in 0..5 {
        assert!(st.change_image(ChangeImageDirection::Next, &dir).is_none());
        assert!(st.change_image(ChangeImageDirection::Previous, &dir).is_none());
        assert_eq!(st.get_current_image(), &s("a"));
        assert_eq!(st.get_action(), NextImage::Static);
    }
}

#[test]
fn fallback_blocks_rotation() {
    let mut st = linear_state("a");
    let dir = listing(&["a", "b", "c"]);
    st.save();
    assert!(st.change_image(ChangeImageDirection::Next, &dir).is_none());
    assert_eq!(st.get_current_image(), &s("a"));
}

#[test]
fn random_mode_draws_from_the_listing() {
    let mut st = State::new(60, s("/pics"), s("seed"), NextImage::Random, WallpaperMethod::Feh, 25);
    let dir = listing(&["only"]);
    // A single-entry listing pins the draw down completely.
    st.change_image(ChangeImageDirection::Next, &dir);
    assert_eq!(st.get_current_image(), &s("only"));
    let wide = listing(&["x", "y", "z"]);
    for _ in 0..10 {
        st.change_image(ChangeImageDirection::Next, &wide);
        let cur = st.get_current_image().as_str();
        assert!(cur == "x" || cur == "y" || cur == "z");
    }
}

#[test]
fn fallback_round_trip_restores_mode_and_image() {
    // Mode Random, current c, default image d.
    let mut st = State::new(60, s("/pics"), s("d"), NextImage::Random, WallpaperMethod::Feh, 25);
    st.update_action(NextImage::Random, Some(s("c")));
    assert_eq!(st.get_current_image(), &s("c"));
    let plan = st.save();
    assert_eq!(st.get_action(), NextImage::Static);
    assert_eq!(st.get_current_image(), &s("d"));
    assert!(st.get_fallback());
    assert_eq!(plan, vec![BackendMsg::SetWallpaper(s("d"))]);
    st.save();
    assert_eq!(st.get_action(), NextImage::Random);
    assert_eq!(st.get_current_image(), &s("c"));
    assert!(!st.get_fallback());
}

#[test]
fn update_action_with_image_shows_it_at_once() {
    let mut st = linear_state("a");
    let plan = st.update_action(NextImage::Static, Some(s("pinned")));
    assert_eq!(st.get_action(), NextImage::Static);
    assert_eq!(st.get_current_image(), &s("pinned"));
    assert_eq!(plan, Some(vec![BackendMsg::SetWallpaper(s("pinned"))]));
}

#[test]
fn update_action_without_image_changes_only_the_mode() {
    let mut st = linear_state("a");
    let plan = st.update_action(NextImage::Random, None);
    assert_eq!(st.get_action(), NextImage::Random);
    assert_eq!(st.get_current_image(), &s("a"));
    assert!(plan.is_none());
}

#[test]
fn interval_is_replaced_and_read_back() {
    let mut st = linear_state("a");
    assert_eq!(st.get_change_interval(), 60);
    st.change_interval(5);
    assert_eq!(st.get_change_interval(), 5);
    assert_eq!(st.get_image_dir(), &s("/pics"));
}

#[test]
fn multi_step_plan_preloads_and_assigns_every_monitor() {
    let method = WallpaperMethod::Hyprpaper(HyprpaperOptions {
        monitors: vec![s("DP-1"), s("HDMI-1")],
    });
    let mut st = State::new(60, s("/pics"), s("a"), NextImage::Linear, method, 25);
    let dir = listing(&["a", "b", "c"]);
    let plan = st.change_image(ChangeImageDirection::Next, &dir).unwrap();
    assert_eq!(
        plan,
        vec![
            BackendMsg::Preload(s("b")),
            BackendMsg::Assign(s("DP-1"), s("b")),
            BackendMsg::Assign(s("HDMI-1"), s("b")),
        ]
    );
}

#[test]
fn multi_step_plan_unloads_the_image_three_back() {
    let method = WallpaperMethod::Hyprpaper(HyprpaperOptions { monitors: vec![s("DP-1")] });
    let mut st = State::new(60, s("/pics"), s("a"), NextImage::Linear, method, 25);
    let dir = listing(&["a", "b", "c", "d"]);
    st.change_image(ChangeImageDirection::Next, &dir);
    st.change_image(ChangeImageDirection::Next, &dir);
    // History is [a, b, c]; "a" sits three back and differs from "c".
    let plan = st.update();
    assert_eq!(
        plan,
        vec![
            BackendMsg::Preload(s("c")),
            BackendMsg::Assign(s("DP-1"), s("c")),
            BackendMsg::Unload(s("a")),
        ]
    );
}

#[test]
fn multi_step_plan_keeps_an_image_still_on_screen() {
    let method = WallpaperMethod::Hyprpaper(HyprpaperOptions { monitors: vec![s("DP-1")] });
    let mut st = State::new(60, s("/pics"), s("a"), NextImage::Linear, method, 25);
    // History becomes [a, b, a]: the entry three back equals the current one.
    st.update_action(NextImage::Linear, Some(s("b")));
    st.update_action(NextImage::Linear, Some(s("a")));
    let plan = st.update();
    assert_eq!(
        plan,
        vec![BackendMsg::Preload(s("a")), BackendMsg::Assign(s("DP-1"), s("a"))]
    );
}
