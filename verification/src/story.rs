//! The scene graph of the story game: scenes keyed by id, each with
//! its text, its choices and, for fight scenes, the two combatants.
//!
//! `scene_step` is one turn of the story: it decides, from the scene
//! and the player's choice, whether the story jumps to another scene
//! or stays in a fight whose combatants traded one round of damage.
//! The damage of a round is drawn at random within each combatant's
//! attack range; what holds of every possible draw is stated, and
//! nothing more.

use rand::Rng;
use std::collections::HashMap;
use vstd::prelude::*;

verus! {

broadcast use vstd::std_specs::hash::group_hash_axioms;

/// One combatant: its health and its attack range.
#[derive(Clone)]
pub struct Character {
    pub health: i32,
    pub attack_min: i32,
    pub attack_max: i32,
}

/// A fight: the two combatants and where death or victory leads.
#[derive(Clone)]
pub struct FightSceneInfo {
    pub enemy: Character,
    pub player: Character,
    pub on_death: u32,
    pub on_win: u32,
}

/// One way out of a scene.
#[derive(Clone)]
pub struct Choice {
    pub text: String,
    pub next_scene_id: u32,
}

/// One scene of the story.
#[derive(Clone)]
pub struct Scene {
    pub id: u32,
    pub fight_scene_info: Option<FightSceneInfo>,
    pub story: String,
    pub choices: Vec<Choice>,
}

/// A whole story file: its scenes in file order.
pub struct Scenes {
    pub scenes: Vec<Scene>,
}

/// A scene without choices ends the story.
pub fn is_end_scene(current_scene: &Scene) -> (r: bool)
    ensures
        r == (current_scene.choices@.len() == 0),
{
    current_scene.choices.len() == 0
}

/// The scenes as a map, a later scene overriding an earlier one with
/// the same id.
pub open spec fn scenes_map_spec(ss: Seq<Scene>) -> Map<u32, Scene>
    decreases ss.len(),
{
    if ss.len() == 0 {
        Map::empty()
    } else {
        scenes_map_spec(ss.drop_last()).insert(ss.last().id, ss.last())
    }
}

/// Indexes the scenes by id for the story loop.
pub fn scenes_into_map(scenes: Scenes) -> (m: HashMap<u32, Scene>)
    ensures
        m@ == scenes_map_spec(scenes.scenes@),
{
    let ghost orig = scenes.scenes@;
    let mut v = scenes.scenes;
    let mut m: HashMap<u32, Scene> = HashMap::new();
    proof {
        assert(v@ =~= orig.subrange(0, orig.len() as int));
        assert(scenes_map_spec(orig.subrange(0, 0)) =~= Map::<u32, Scene>::empty());
    }
    while v.len() > 0
        invariant
            v@.len() <= orig.len(),
            v@ == orig.subrange(orig.len() - v@.len(), orig.len() as int),
            m@ == scenes_map_spec(orig.subrange(0, orig.len() - v@.len())),
        decreases v@.len(),
    {
        let ghost done = orig.len() - v@.len();
        let scene = v.remove(0);
        proof {
            assert(scene == orig[done]);
            assert(v@ =~= orig.subrange(done + 1, orig.len() as int));
            assert(orig.subrange(0, done + 1).drop_last() =~= orig.subrange(0, done));
            assert(orig.subrange(0, done + 1).last() == orig[done]);
        }
        m.insert(scene.id, scene);
    }
    proof {
        assert(orig.subrange(0, orig.len() as int) =~= orig);
    }
    m
}

/// Relies on `rand::thread_rng` and `Rng::gen_range`: a value drawn
/// from the half-open range `[low, high)`; `gen_range` panics only
/// when `low >= high`, which the precondition excludes.  Nothing else
/// is assumed of the draw.
#[verifier::external_body]
fn draw_in_range(low: i32, high: i32) -> (r: i32)
    requires
        low < high,
    ensures
        low <= r < high,
{
    rand::thread_rng().gen_range(low, high)
}

pub open spec fn character_wf(c: Character) -> bool {
    0 <= c.attack_min < c.attack_max
}

/// What a fight scene needs so a round can always be resolved: valid
/// attack ranges, and healths far enough from the integer floor that
/// one round of damage cannot wrap.
pub open spec fn fight_wf(f: FightSceneInfo) -> bool {
    &&& character_wf(f.enemy)
    &&& character_wf(f.player)
    &&& f.player.health >= i32::MIN + f.enemy.attack_max
    &&& f.enemy.health >= i32::MIN + f.player.attack_max
}

pub open spec fn scene_wf(s: Scene) -> bool {
    match s.fight_scene_info {
        Some(f) => fight_wf(f),
        None => true,
    }
}

/// Where one turn of the story goes.
pub enum SceneStep {
    /// The story moves to the scene with this id.
    Next(u32),
    /// The fight goes on: the same scene, combatants one round later.
    Continue(Scene),
}

/// One turn: a lost fight leads to its death scene, a won one to its
/// victory scene; the first choice in a live fight is an attack whose
/// two damages are drawn from the combatants' attack ranges; any other
/// choice follows the chosen exit.
pub fn scene_step(scene: Scene, choice: u32) -> (r: SceneStep)
    requires
        scene_wf(scene),
        1 <= choice <= scene.choices@.len(),
    ensures
        match scene.fight_scene_info {
            Some(info) => if info.player.health <= 0 {
                r == SceneStep::Next(info.on_death)
            } else if info.enemy.health <= 0 {
                r == SceneStep::Next(info.on_win)
            } else if choice == 1 {
                &&& r matches SceneStep::Continue(s2)
                &&& (r matches SceneStep::Continue(s2) ==> {
                    &&& s2.id == scene.id
                    &&& s2.story == scene.story
                    &&& s2.choices == scene.choices
                    &&& s2.fight_scene_info matches Some(f2)
                    &&& (s2.fight_scene_info matches Some(f2) ==> {
                        &&& f2.on_death == info.on_death
                        &&& f2.on_win == info.on_win
                        &&& f2.player.attack_min == info.player.attack_min
                        &&& f2.player.attack_max == info.player.attack_max
                        &&& f2.enemy.attack_min == info.enemy.attack_min
                        &&& f2.enemy.attack_max == info.enemy.attack_max
                        &&& info.player.attack_min <= info.enemy.health - f2.enemy.health
                            < info.player.attack_max
                        &&& info.enemy.attack_min <= info.player.health - f2.player.health
                            < info.enemy.attack_max
                    })
                })
            } else {
                r == SceneStep::Next(scene.choices@[choice - 1].next_scene_id)
            },
            None => r == SceneStep::Next(scene.choices@[choice - 1].next_scene_id),
        },
{
    let Scene { id, fight_scene_info, story, choices } = scene;
    match fight_scene_info {
        Some(info) => {
            if info.player.health <= 0 {
                SceneStep::Next(info.on_death)
            } else if info.enemy.health <= 0 {
                SceneStep::Next(info.on_win)
            } else if choice == 1 {
                let player_dmg = draw_in_range(info.player.attack_min, info.player.attack_max);
                let enemy_dmg = draw_in_range(info.enemy.attack_min, info.enemy.attack_max);
                let after = FightSceneInfo {
                    enemy: Character {
                        health: info.enemy.health - player_dmg,
                        attack_min: info.enemy.attack_min,
                        attack_max: info.enemy.attack_max,
                    },
                    player: Character {
                        health: info.player.health - enemy_dmg,
                        attack_min: info.player.attack_min,
                        attack_max: info.player.attack_max,
                    },
                    on_death: info.on_death,
                    on_win: info.on_win,
                };
                SceneStep::Continue(
                    Scene { id, fight_scene_info: Some(after), story, choices },
                )
            } else {
                let idx = (choice - 1) as usize;
                SceneStep::Next(choices[idx].next_scene_id)
            }
        },
        None => {
            let idx = (choice - 1) as usize;
            SceneStep::Next(choices[idx].next_scene_id)
        },
    }
}

} // verus!
