//! What the input system does in one frame, given the state of the keys and
//! buttons that it watches.

use vstd::prelude::*;

verus! {

/// A line that the input system writes to the console.
#[derive(Clone, Copy, Debug, PartialEq, Eq, Structural)]
pub enum Diagnostic {
    /// Written in every frame in which Space is held.
    SpaceHeld,
    /// Written in the frame in which the left mouse button goes down.
    LeftClick,
}

impl Diagnostic {
    /// The text written for this diagnostic.
    pub open spec fn message(self) -> Seq<char> {
        match self {
            Diagnostic::SpaceHeld => "space is being held down"@,
            Diagnostic::LeftClick => "a left click just happened"@,
        }
    }

    /// The text written for this diagnostic.
    pub fn text(&self) -> (r: &'static str)
        ensures
            r@ == self.message(),
    {
        match self {
            Diagnostic::SpaceHeld => "space is being held down",
            Diagnostic::LeftClick => "a left click just happened",
        }
    }
}

/// The state of the watched inputs in one frame.
#[derive(Clone, Copy, Debug, PartialEq, Eq, Structural)]
pub struct KeyInput {
    /// Space is down in this frame.
    pub space_pressed: bool,
    /// Escape went down in this frame.
    pub escape_just_pressed: bool,
    /// The left mouse button went down in this frame.
    pub left_just_pressed: bool,
}

/// What the input system does in one frame.
#[derive(Debug)]
pub struct KeyActions {
    /// The lines to write, in order.
    pub diagnostics: Vec<Diagnostic>,
    /// Whether to ask the application to exit.
    pub exit: bool,
}

/// The lines written in a frame with input `k`: one while Space is held, then
/// one when the left button has just gone down.
pub open spec fn diagnostics_for(k: KeyInput) -> Seq<Diagnostic> {
    (if k.space_pressed { seq![Diagnostic::SpaceHeld] } else { Seq::empty() }) + (
    if k.left_just_pressed { seq![Diagnostic::LeftClick] } else { Seq::empty() })
}

/// Whether a frame with input `k` asks the application to exit.
pub open spec fn requests_exit(k: KeyInput) -> bool {
    k.escape_just_pressed
}

/// Decides what to do with one frame's input: write a line while Space is
/// held, ask to exit when Escape has just been pressed, write a line when the
/// left mouse button has just been pressed. Each fires on its own.
pub fn key_system(k: KeyInput) -> (r: KeyActions)
    ensures
        r.diagnostics@ == diagnostics_for(k),
        r.exit == requests_exit(k),
{
    let mut diagnostics: Vec<Diagnostic> = Vec::new();
    if k.space_pressed {
        diagnostics.push(Diagnostic::SpaceHeld);
    }
    if k.left_just_pressed {
        diagnostics.push(Diagnostic::LeftClick);
    }
    proof {
        assert(diagnostics@ =~= diagnostics_for(k));
    }
    KeyActions { diagnostics, exit: k.escape_just_pressed }
}

/// Whether a button whose state over successive frames is `held` (true while
/// it is down) went down at frame `i`: it is down there and was not down in the
/// frame before. It was up before the first frame.
pub open spec fn newly_pressed(held: Seq<bool>, i: int) -> bool {
    held[i] && (i == 0 || !held[i - 1])
}

/// The input of each frame, from whether Space, Escape and the left mouse
/// button are down in each frame (one entry per frame in each sequence).
pub open spec fn frames(space: Seq<bool>, escape: Seq<bool>, left: Seq<bool>) -> Seq<KeyInput> {
    Seq::new(
        space.len(),
        |i: int|
            KeyInput {
                space_pressed: space[i],
                escape_just_pressed: newly_pressed(escape, i),
                left_just_pressed: newly_pressed(left, i),
            },
    )
}

/// The number of exit requests made in the first `n` frames of `f`.
pub open spec fn exits_within(f: Seq<KeyInput>, n: int) -> nat
    decreases n,
{
    if n <= 0 {
        0
    } else {
        exits_within(f, n - 1) + if requests_exit(f[n - 1]) {
            1nat
        } else {
            0nat
        }
    }
}

/// The number of times `d` is written in a frame with input `k`.
pub open spec fn writes_in(k: KeyInput, d: Diagnostic) -> nat {
    diagnostics_for(k).filter(|e: Diagnostic| e == d).len()
}

/// The number of times `d` is written in the first `n` frames of `f`.
pub open spec fn writes_within(f: Seq<KeyInput>, d: Diagnostic, n: int) -> nat
    decreases n,
{
    if n <= 0 {
        0
    } else {
        writes_within(f, d, n - 1) + writes_in(f[n - 1], d)
    }
}

/// The number of frames among the first `n` in which `held` is true.
pub open spec fn held_within(held: Seq<bool>, n: int) -> nat
    decreases n,
{
    if n <= 0 {
        0
    } else {
        held_within(held, n - 1) + if held[n - 1] {
            1nat
        } else {
            0nat
        }
    }
}

proof fn lemma_writes_per_frame(k: KeyInput, d: Diagnostic)
    ensures
        writes_in(k, d) == (if k.space_pressed && d == Diagnostic::SpaceHeld {
            1nat
        } else {
            0nat
        }) + (if k.left_just_pressed && d == Diagnostic::LeftClick {
            1nat
        } else {
            0nat
        }),
{
    let a: Seq<Diagnostic> = if k.space_pressed { seq![Diagnostic::SpaceHeld] } else { Seq::empty() };
    let b: Seq<Diagnostic> = if k.left_just_pressed { seq![Diagnostic::LeftClick] } else { Seq::empty() };
    let p = |e: Diagnostic| e == d;
    Seq::filter_distributes_over_add(a, b, p);
    reveal_with_fuel(Seq::filter, 2);
    assert(diagnostics_for(k) == a + b);
}

proof fn lemma_exits_of_one_press(space: Seq<bool>, escape: Seq<bool>, left: Seq<bool>, k: int, n: int)
    requires
        escape.len() == space.len(),
        left.len() == space.len(),
        0 <= k < space.len(),
        0 <= n <= space.len(),
        forall|i: int| 0 <= i < k ==> !escape[i],
        forall|i: int| k <= i < escape.len() ==> escape[i],
    ensures
        exits_within(frames(space, escape, left), n) == if n > k {
            1nat
        } else {
            0nat
        },
    decreases n,
{
    if n > 0 {
        lemma_exits_of_one_press(space, escape, left, k, n - 1);
    }
}

proof fn lemma_clicks_of_one_press(space: Seq<bool>, escape: Seq<bool>, left: Seq<bool>, k: int, n: int)
    requires
        escape.len() == space.len(),
        left.len() == space.len(),
        0 <= k < space.len(),
        0 <= n <= space.len(),
        forall|i: int| 0 <= i < k ==> !left[i],
        forall|i: int| k <= i < left.len() ==> left[i],
    ensures
        writes_within(frames(space, escape, left), Diagnostic::LeftClick, n) == if n > k {
            1nat
        } else {
            0nat
        },
    decreases n,
{
    if n > 0 {
        lemma_clicks_of_one_press(space, escape, left, k, n - 1);
        lemma_writes_per_frame(frames(space, escape, left)[n - 1], Diagnostic::LeftClick);
    }
}

proof fn lemma_space_writes(space: Seq<bool>, escape: Seq<bool>, left: Seq<bool>, n: int)
    requires
        escape.len() == space.len(),
        left.len() == space.len(),
        0 <= n <= space.len(),
    ensures
        writes_within(frames(space, escape, left), Diagnostic::SpaceHeld, n) == held_within(space, n),
    decreases n,
{
    if n > 0 {
        lemma_space_writes(space, escape, left, n - 1);
        lemma_writes_per_frame(frames(space, escape, left)[n - 1], Diagnostic::SpaceHeld);
    }
}

/// Pressing Escape and holding it asks the application to exit exactly once,
/// in the frame in which it went down, however long it stays down: Escape is
/// up in frames `0..k` and down from frame `k` to the last frame.
pub proof fn escape_press_exits_once(space: Seq<bool>, escape: Seq<bool>, left: Seq<bool>, k: int)
    requires
        escape.len() == space.len(),
        left.len() == space.len(),
        0 <= k < space.len(),
        forall|i: int| 0 <= i < k ==> !escape[i],
        forall|i: int| k <= i < escape.len() ==> escape[i],
    ensures
        exits_within(frames(space, escape, left), space.len() as int) == 1,
        requests_exit(frames(space, escape, left)[k]),
{
    lemma_exits_of_one_press(space, escape, left, k, space.len() as int);
}

/// Space writes its line once in every frame in which it is down and in no
/// other, so that releasing it and holding it again writes the line again.
pub proof fn space_writes_once_per_held_frame(space: Seq<bool>, escape: Seq<bool>, left: Seq<bool>)
    requires
        escape.len() == space.len(),
        left.len() == space.len(),
    ensures
        writes_within(frames(space, escape, left), Diagnostic::SpaceHeld, space.len() as int)
            == held_within(space, space.len() as int),
        forall|i: int|
            0 <= i < space.len() ==> (#[trigger] frames(space, escape, left)[i]).space_pressed == space[i],
{
    lemma_space_writes(space, escape, left, space.len() as int);
}

/// Pressing the left mouse button and holding it writes its line exactly
/// once, in the frame in which it went down, and not while it stays down: the
/// button is up in frames `0..k` and down from frame `k` to the last frame.
pub proof fn left_press_writes_once(space: Seq<bool>, escape: Seq<bool>, left: Seq<bool>, k: int)
    requires
        escape.len() == space.len(),
        left.len() == space.len(),
        0 <= k < space.len(),
        forall|i: int| 0 <= i < k ==> !left[i],
        forall|i: int| k <= i < left.len() ==> left[i],
    ensures
        writes_within(frames(space, escape, left), Diagnostic::LeftClick, space.len() as int) == 1,
        diagnostics_for(frames(space, escape, left)[k]).contains(Diagnostic::LeftClick),
        forall|i: int|
            k < i < space.len() ==> !diagnostics_for(#[trigger] frames(space, escape, left)[i]).contains(
                Diagnostic::LeftClick,
            ),
{
    lemma_clicks_of_one_press(space, escape, left, k, space.len() as int);
    let f = frames(space, escape, left);
    let d = diagnostics_for(f[k]);
    assert(d[d.len() - 1] == Diagnostic::LeftClick);
    assert forall|i: int| k < i < space.len() implies !diagnostics_for(#[trigger] f[i]).contains(
        Diagnostic::LeftClick,
    ) by {
        assert(!f[i].left_just_pressed);
        if f[i].space_pressed {
            assert(diagnostics_for(f[i]) =~= seq![Diagnostic::SpaceHeld]);
        } else {
            assert(diagnostics_for(f[i]) =~= Seq::<Diagnostic>::empty());
        }
    }
}

} // verus!
