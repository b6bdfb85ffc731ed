//! The dynamic island's state machine: its three states, the six transitions
//! between them, and the choice of transition for a requested visibility.
//!
//! The geometry and the animators that move between states work on floating
//! point numbers and stay outside the library.

use vstd::prelude::*;

verus! {

/// Motion engine used for transitions.
#[derive(Debug, Clone, Copy, PartialEq, Eq, Structural)]
pub enum MotionMode {
    /// Physical spring (the default).
    Spring,
    /// Easing curve.
    Ease,
    /// Linear interpolation.
    Linear,
    /// No animation.
    Instant,
}

impl MotionMode {
    pub open spec fn spec_index(self) -> int {
        match self {
            Self::Spring => 0,
            Self::Ease => 1,
            Self::Linear => 2,
            Self::Instant => 3,
        }
    }

    pub open spec fn spec_cycle(self) -> MotionMode {
        match self {
            Self::Spring => Self::Ease,
            Self::Ease => Self::Linear,
            Self::Linear => Self::Instant,
            Self::Instant => Self::Spring,
        }
    }

    pub open spec fn spec_label(self) -> Seq<char> {
        match self {
            Self::Spring => "弹簧"@,
            Self::Ease => "缓动"@,
            Self::Linear => "线性"@,
            Self::Instant => "瞬切"@,
        }
    }

    /// The default engine.
    pub fn default_mode() -> (r: MotionMode)
        ensures
            r == MotionMode::Spring,
    {
        MotionMode::Spring
    }

    /// Name shown in the settings window.
    pub fn label(self) -> (r: &'static str)
        ensures
            r@ == self.spec_label(),
    {
        match self {
            Self::Spring => "弹簧",
            Self::Ease => "缓动",
            Self::Linear => "线性",
            Self::Instant => "瞬切",
        }
    }

    /// The next engine, wrapping around.
    pub fn cycle(self) -> (r: MotionMode)
        ensures
            r == self.spec_cycle(),
            r.spec_index() == (self.spec_index() + 1) % 4,
    {
        match self {
            Self::Spring => Self::Ease,
            Self::Ease => Self::Linear,
            Self::Linear => Self::Instant,
            Self::Instant => Self::Spring,
        }
    }
}

/// Name of an easing curve.
#[derive(Debug, Clone, Copy, PartialEq, Eq, Structural)]
pub enum EasingName {
    Linear,
    EaseOutQuad,
    EaseOutQuart,
    /// The default curve.
    EaseOutQuint,
    EaseOutExpo,
    EaseInOutCubic,
    EaseOutBack,
}

impl EasingName {
    pub open spec fn spec_index(self) -> int {
        match self {
            Self::Linear => 0,
            Self::EaseOutQuad => 1,
            Self::EaseOutQuart => 2,
            Self::EaseOutQuint => 3,
            Self::EaseOutExpo => 4,
            Self::EaseInOutCubic => 5,
            Self::EaseOutBack => 6,
        }
    }

    pub open spec fn spec_cycle(self) -> EasingName {
        match self {
            Self::Linear => Self::EaseOutQuad,
            Self::EaseOutQuad => Self::EaseOutQuart,
            Self::EaseOutQuart => Self::EaseOutQuint,
            Self::EaseOutQuint => Self::EaseOutExpo,
            Self::EaseOutExpo => Self::EaseInOutCubic,
            Self::EaseInOutCubic => Self::EaseOutBack,
            Self::EaseOutBack => Self::Linear,
        }
    }

    /// Identifier of the curve, as the animators and the configuration file know it.
    pub open spec fn spec_as_str(self) -> Seq<char> {
        match self {
            Self::Linear => "linear"@,
            Self::EaseOutQuad => "easeOutQuad"@,
            Self::EaseOutQuart => "easeOutQuart"@,
            Self::EaseOutQuint => "easeOutQuint"@,
            Self::EaseOutExpo => "easeOutExpo"@,
            Self::EaseInOutCubic => "easeInOutCubic"@,
            Self::EaseOutBack => "easeOutBack"@,
        }
    }

    pub open spec fn spec_label(self) -> Seq<char> {
        match self {
            Self::Linear => "线性"@,
            Self::EaseOutQuad => "二次缓出"@,
            Self::EaseOutQuart => "四次缓出"@,
            Self::EaseOutQuint => "五次缓出"@,
            Self::EaseOutExpo => "指数缓出"@,
            Self::EaseInOutCubic => "三次缓入缓出"@,
            Self::EaseOutBack => "回弹缓出"@,
        }
    }

    /// The default curve.
    pub fn default_easing() -> (r: EasingName)
        ensures
            r == EasingName::EaseOutQuint,
    {
        EasingName::EaseOutQuint
    }

    /// Identifier of the curve.
    pub fn as_str(self) -> (r: &'static str)
        ensures
            r@ == self.spec_as_str(),
    {
        match self {
            Self::Linear => "linear",
            Self::EaseOutQuad => "easeOutQuad",
            Self::EaseOutQuart => "easeOutQuart",
            Self::EaseOutQuint => "easeOutQuint",
            Self::EaseOutExpo => "easeOutExpo",
            Self::EaseInOutCubic => "easeInOutCubic",
            Self::EaseOutBack => "easeOutBack",
        }
    }

    /// Name shown in the settings window.
    pub fn label(self) -> (r: &'static str)
        ensures
            r@ == self.spec_label(),
    {
        match self {
            Self::Linear => "线性",
            Self::EaseOutQuad => "二次缓出",
            Self::EaseOutQuart => "四次缓出",
            Self::EaseOutQuint => "五次缓出",
            Self::EaseOutExpo => "指数缓出",
            Self::EaseInOutCubic => "三次缓入缓出",
            Self::EaseOutBack => "回弹缓出",
        }
    }

    /// The next curve, wrapping around.
    pub fn cycle(self) -> (r: EasingName)
        ensures
            r == self.spec_cycle(),
            r.spec_index() == (self.spec_index() + 1) % 7,
    {
        match self {
            Self::Linear => Self::EaseOutQuad,
            Self::EaseOutQuad => Self::EaseOutQuart,
            Self::EaseOutQuart => Self::EaseOutQuint,
            Self::EaseOutQuint => Self::EaseOutExpo,
            Self::EaseOutExpo => Self::EaseInOutCubic,
            Self::EaseInOutCubic => Self::EaseOutBack,
            Self::EaseOutBack => Self::Linear,
        }
    }
}

/// State of the island.
#[derive(Debug, Clone, Copy, PartialEq, Eq, Structural)]
pub enum IslandState {
    Hidden,
    Island,
    Expanded,
}

/// One of the six moves between two different states.
#[derive(Debug, Clone, Copy, PartialEq, Eq, Structural)]
pub enum IslandTransition {
    /// Hidden to island.
    Summon,
    /// Island to hidden.
    Dismiss,
    /// Island to expanded.
    Expand,
    /// Expanded to island.
    Collapse,
    /// Hidden straight to expanded.
    SummonExpanded,
    /// Expanded straight to hidden.
    DismissExpanded,
}

impl IslandTransition {
    pub open spec fn spec_from(self) -> IslandState {
        match self {
            IslandTransition::Summon | IslandTransition::SummonExpanded => IslandState::Hidden,
            IslandTransition::Expand | IslandTransition::Dismiss => IslandState::Island,
            IslandTransition::Collapse | IslandTransition::DismissExpanded => IslandState::Expanded,
        }
    }

    pub open spec fn spec_to(self) -> IslandState {
        match self {
            IslandTransition::Summon | IslandTransition::Collapse => IslandState::Island,
            IslandTransition::Expand | IslandTransition::SummonExpanded => IslandState::Expanded,
            IslandTransition::Dismiss | IslandTransition::DismissExpanded => IslandState::Hidden,
        }
    }

    pub open spec fn spec_label(self) -> Seq<char> {
        match self {
            Self::Summon => "summon"@,
            Self::Dismiss => "dismiss"@,
            Self::Expand => "expand"@,
            Self::Collapse => "collapse"@,
            Self::SummonExpanded => "summonExpanded"@,
            Self::DismissExpanded => "dismissExpanded"@,
        }
    }

    /// Position of the transition in the fixed order of all six.
    pub open spec fn spec_order(self) -> int {
        match self {
            Self::Summon => 0,
            Self::Dismiss => 1,
            Self::Expand => 2,
            Self::Collapse => 3,
            Self::SummonExpanded => 4,
            Self::DismissExpanded => 5,
        }
    }

    /// State the transition starts from.
    pub fn from_state(self) -> (r: IslandState)
        ensures
            r == self.spec_from(),
    {
        match self {
            IslandTransition::Summon | IslandTransition::SummonExpanded => IslandState::Hidden,
            IslandTransition::Expand | IslandTransition::Dismiss => IslandState::Island,
            IslandTransition::Collapse | IslandTransition::DismissExpanded => IslandState::Expanded,
        }
    }

    /// Name of the transition, as the configuration file knows it.
    pub fn label(self) -> (r: &'static str)
        ensures
            r@ == self.spec_label(),
    {
        match self {
            Self::Summon => "summon",
            Self::Dismiss => "dismiss",
            Self::Expand => "expand",
            Self::Collapse => "collapse",
            Self::SummonExpanded => "summonExpanded",
            Self::DismissExpanded => "dismissExpanded",
        }
    }

    /// State the transition ends in.
    pub fn to_state(self) -> (r: IslandState)
        ensures
            r == self.spec_to(),
    {
        match self {
            IslandTransition::Summon | IslandTransition::Collapse => IslandState::Island,
            IslandTransition::Expand | IslandTransition::SummonExpanded => IslandState::Expanded,
            IslandTransition::Dismiss | IslandTransition::DismissExpanded => IslandState::Hidden,
        }
    }

    /// All six transitions, in their fixed order.
    pub fn all() -> (r: Vec<IslandTransition>)
        ensures
            r@.len() == 6,
            forall|i: int| 0 <= i < 6 ==> (#[trigger] r@[i]).spec_order() == i,
    {
        vec![
            IslandTransition::Summon,
            IslandTransition::Dismiss,
            IslandTransition::Expand,
            IslandTransition::Collapse,
            IslandTransition::SummonExpanded,
            IslandTransition::DismissExpanded,
        ]
    }
}

/// The state that a requested visibility and expansion ask for.
pub open spec fn spec_wanted(want_visible: bool, want_expanded: bool) -> IslandState {
    if !want_visible {
        IslandState::Hidden
    } else if want_expanded {
        IslandState::Expanded
    } else {
        IslandState::Island
    }
}

/// The state that a requested visibility and expansion ask for: hidden when
/// not visible, whatever the expansion.
pub fn wanted_state(want_visible: bool, want_expanded: bool) -> (r: IslandState)
    ensures
        r == spec_wanted(want_visible, want_expanded),
{
    match (want_visible, want_expanded) {
        (false, _) => IslandState::Hidden,
        (true, false) => IslandState::Island,
        (true, true) => IslandState::Expanded,
    }
}

/// The transition from `current` to `target`, if they differ.
pub open spec fn spec_between(current: IslandState, target: IslandState) -> Option<IslandTransition> {
    match (current, target) {
        (IslandState::Hidden, IslandState::Island) => Some(IslandTransition::Summon),
        (IslandState::Island, IslandState::Hidden) => Some(IslandTransition::Dismiss),
        (IslandState::Island, IslandState::Expanded) => Some(IslandTransition::Expand),
        (IslandState::Expanded, IslandState::Island) => Some(IslandTransition::Collapse),
        (IslandState::Hidden, IslandState::Expanded) => Some(IslandTransition::SummonExpanded),
        (IslandState::Expanded, IslandState::Hidden) => Some(IslandTransition::DismissExpanded),
        _ => None,
    }
}

pub open spec fn spec_plan(current: IslandState, want_visible: bool, want_expanded: bool) -> Option<
    IslandTransition,
> {
    spec_between(current, spec_wanted(want_visible, want_expanded))
}

/// The transition that leads from `current` to the state asked for, or `None`
/// when the island is already there.
pub fn plan_transition(current: IslandState, want_visible: bool, want_expanded: bool) -> (r: Option<
    IslandTransition,
>)
    ensures
        r == spec_plan(current, want_visible, want_expanded),
        r is None <==> current == spec_wanted(want_visible, want_expanded),
        r matches Some(t) ==> t.spec_from() == current && t.spec_to() == spec_wanted(
            want_visible,
            want_expanded,
        ),
{
    let want = wanted_state(want_visible, want_expanded);
    match (current, want) {
        (IslandState::Hidden, IslandState::Island) => Some(IslandTransition::Summon),
        (IslandState::Island, IslandState::Hidden) => Some(IslandTransition::Dismiss),
        (IslandState::Island, IslandState::Expanded) => Some(IslandTransition::Expand),
        (IslandState::Expanded, IslandState::Island) => Some(IslandTransition::Collapse),
        (IslandState::Hidden, IslandState::Expanded) => Some(IslandTransition::SummonExpanded),
        (IslandState::Expanded, IslandState::Hidden) => Some(IslandTransition::DismissExpanded),
        _ => None,
    }
}

/// Whether `t` may start from `current`: a transition whose starting state
/// does not match is refused.
pub fn transition_allowed(t: IslandTransition, current: IslandState) -> (r: bool)
    ensures
        r == (t.spec_from() == current),
{
    let from = t.from_state();
    match (from, current) {
        (IslandState::Hidden, IslandState::Hidden) => true,
        (IslandState::Island, IslandState::Island) => true,
        (IslandState::Expanded, IslandState::Expanded) => true,
        _ => false,
    }
}

/// The transitions that can start from `current`, in their fixed order.
pub fn available(current: IslandState) -> (r: Vec<IslandTransition>)
    ensures
        forall|i: int| 0 <= i < r@.len() ==> (#[trigger] r@[i]).spec_from() == current,
        forall|t: IslandTransition| t.spec_from() == current ==> r@.contains(t),
        forall|i: int, j: int| 0 <= i < j < r@.len() ==> r@[i].spec_order() < r@[j].spec_order(),
{
    let all = IslandTransition::all();
    let mut out: Vec<IslandTransition> = Vec::new();
    let mut k: usize = 0;
    while k < all.len()
        invariant
            all@.len() == 6,
            forall|i: int| 0 <= i < 6 ==> (#[trigger] all@[i]).spec_order() == i,
            0 <= k <= all@.len(),
            forall|i: int| 0 <= i < out@.len() ==> (#[trigger] out@[i]).spec_from() == current,
            forall|i: int| 0 <= i < out@.len() ==> (#[trigger] out@[i]).spec_order() < k,
            forall|t: IslandTransition|
                t.spec_from() == current && t.spec_order() < k ==> out@.contains(t),
            forall|i: int, j: int|
                0 <= i < j < out@.len() ==> out@[i].spec_order() < out@[j].spec_order(),
        decreases all@.len() - k,
    {
        let t = all[k];
        if transition_allowed(t, current) {
            proof {
                assert forall|u: IslandTransition|
                    u.spec_from() == current && u.spec_order() < k + 1 implies out@.push(
                    t,
                ).contains(u) by {
                    if u.spec_order() == k {
                        assert(u == t);
                        assert(out@.push(t)[out@.len() as int] == t);
                    } else {
                        let w = choose|w: int| 0 <= w < out@.len() && out@[w] == u;
                        assert(out@.push(t)[w] == u);
                    }
                }
            }
            out.push(t);
        } else {
            proof {
                assert forall|u: IslandTransition|
                    u.spec_from() == current && u.spec_order() < k + 1 implies out@.contains(
                    u,
                ) by {
                    if u.spec_order() == k {
                        assert(u == t);
                    }
                }
            }
        }
        k = k + 1;
    }
    out
}

/// Every transition moves the island: it ends in another state than the one
/// it starts from.
pub proof fn lemma_transition_moves(t: IslandTransition)
    ensures
        t.spec_from() != t.spec_to(),
{
}

/// Between any two different states there is exactly one transition.
pub proof fn lemma_transition_unique(a: IslandTransition, b: IslandTransition)
    requires
        a.spec_from() == b.spec_from(),
        a.spec_to() == b.spec_to(),
    ensures
        a == b,
{
}

/// Asking twice for the same thing moves the island once: from the state that
/// the planned transition ends in, the same request plans nothing.
pub proof fn lemma_plan_settles(current: IslandState, want_visible: bool, want_expanded: bool)
    ensures
        spec_plan(current, want_visible, want_expanded) matches Some(t) ==> spec_plan(
            t.spec_to(),
            want_visible,
            want_expanded,
        ) is None,
{
}

/// Cycling the motion engine four times comes back to where it started.
pub proof fn lemma_motion_cycle_period(m: MotionMode)
    ensures
        m.spec_cycle().spec_cycle().spec_cycle().spec_cycle() == m,
{
}

/// Cycling the easing curve seven times comes back to where it started.
pub proof fn lemma_easing_cycle_period(e: EasingName)
    ensures
        e.spec_cycle().spec_cycle().spec_cycle().spec_cycle().spec_cycle().spec_cycle().spec_cycle()
            == e,
{
}

} // verus!
