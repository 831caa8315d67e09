//! What the startup routine spawns, once, before the first frame.

use vstd::prelude::*;

verus! {

/// One entity, or group of entities, that the startup routine spawns.
#[derive(Clone, Copy, Debug, PartialEq, Eq, Structural)]
pub enum Spawn {
    /// A transform node at the origin, with the loaded scene as its child.
    SceneRoot,
    /// A second instance of the scene, made by the scene spawner and not kept.
    SceneInstance,
    /// The camera, with a fixed pose.
    Camera,
    /// The light, tagged as rotating.
    RotatingLight,
}

impl Spawn {
    /// The scene asset that this spawn loads, if any.
    pub open spec fn asset_spec(self) -> Option<Seq<char>> {
        match self {
            Spawn::SceneRoot => Some("console.glb#Scene0"@),
            Spawn::SceneInstance => Some("console.glb"@),
            _ => None,
        }
    }

    /// The scene asset that this spawn loads, if any.
    pub fn asset(&self) -> (r: Option<&'static str>)
        ensures
            r matches Some(p) ==> self.asset_spec() == Some(p@),
            r is None ==> self.asset_spec() is None,
    {
        match self {
            Spawn::SceneRoot => Some("console.glb#Scene0"),
            Spawn::SceneInstance => Some("console.glb"),
            _ => None,
        }
    }
}

/// The spawns of the startup routine, in the order in which it issues them.
pub open spec fn startup_plan() -> Seq<Spawn> {
    seq![Spawn::SceneRoot, Spawn::SceneInstance, Spawn::Camera, Spawn::RotatingLight]
}

/// The number of times `k` occurs in `s`.
pub open spec fn occurrences(s: Seq<Spawn>, k: Spawn) -> nat
    decreases s.len(),
{
    if s.len() == 0 {
        0
    } else {
        occurrences(s.drop_last(), k) + if s.last() == k {
            1nat
        } else {
            0nat
        }
    }
}

/// The spawns of the startup routine, in the order in which it issues them.
pub fn startup_spawns() -> (r: Vec<Spawn>)
    ensures
        r@ == startup_plan(),
{
    let r = vec![Spawn::SceneRoot, Spawn::SceneInstance, Spawn::Camera, Spawn::RotatingLight];
    assert(r@ =~= startup_plan());
    r
}

/// Startup spawns each of the four kinds exactly once: one model root holding
/// the scene, one untracked scene instance, one camera and one rotating light.
pub proof fn startup_spawns_each_once(k: Spawn)
    ensures
        occurrences(startup_plan(), k) == 1,
{
    let p = startup_plan();
    assert(p.drop_last() =~= seq![Spawn::SceneRoot, Spawn::SceneInstance, Spawn::Camera]);
    assert(p.drop_last().drop_last() =~= seq![Spawn::SceneRoot, Spawn::SceneInstance]);
    assert(p.drop_last().drop_last().drop_last() =~= seq![Spawn::SceneRoot]);
    assert(p.drop_last().drop_last().drop_last().drop_last() =~= Seq::<Spawn>::empty());
    reveal_with_fuel(occurrences, 5);
}

} // verus!
