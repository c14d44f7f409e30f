use openwiki::bubble::{
    bubble_placement, football_side, BubblePlacement, HorizontalAnchor, VerticalAnchor,
};

fn s(v: &str) -> Option<String> {
    Some(v.to_string())
}

#[test]
fn bubble_defaults_to_circle_bottom_right() {
    assert_eq!(
        bubble_placement(&None, &None),
        BubblePlacement {
            try_football: false,
            circle: true,
            width: 64,
            height: 64,
            horizontal: HorizontalAnchor::Right,
            vertical: VerticalAnchor::Bottom,
        }
    );
}

#[test]
fn bubble_bar_top_center() {
    let p = bubble_placement(&s("bar"), &s("top-center"));
    assert!(!p.circle);
    assert!(!p.try_football);
    assert_eq!((p.width, p.height), (340, 72));
    assert_eq!(p.horizontal, HorizontalAnchor::Center);
    assert_eq!(p.vertical, VerticalAnchor::Top);
}

#[test]
fn bubble_football_falls_back_to_circle_window() {
    let p = bubble_placement(&s("football"), &s("bottom-left"));
    assert!(p.try_football);
    assert!(p.circle);
    assert_eq!(p.horizontal, HorizontalAnchor::Left);
    assert_eq!(p.vertical, VerticalAnchor::Bottom);
    // An unknown position is the bottom right.
    let q = bubble_placement(&s("circle"), &s("middle"));
    assert_eq!(q.horizontal, HorizontalAnchor::Right);
    assert_eq!(q.vertical, VerticalAnchor::Bottom);
}

#[test]
fn football_goal_side() {
    assert_eq!(football_side("top-left"), "left");
    assert_eq!(football_side("bottom-right"), "right");
    assert_eq!(football_side("bottom-center"), "right");
}
