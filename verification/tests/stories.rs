use chat_relay::adventure;
use chat_relay::story::{
    is_end_scene, scene_step, scenes_into_map, Character, Choice, FightSceneInfo, Scene,
    SceneStep, Scenes,
};

#[test]
fn scene_without_choices_is_end_scene() {
    let end_scene = Scene {
        id: 0,
        fight_scene_info: None,
        story: "".to_string(),
        choices: vec![],
    };
    assert!(is_end_scene(&end_scene));
}

#[test]
fn scene_with_choices_is_not_end_scene() {
    let not_end_scene = Scene {
        id: 0,
        fight_scene_info: None,
        story: "some story text".to_string(),
        choices: vec![Choice { text: "another story text".to_string(), next_scene_id: 1 }],
    };
    assert!(!is_end_scene(&not_end_scene));
}

fn plain_scene(id: u32, story: &str, exits: &[u32]) -> Scene {
    Scene {
        id,
        fight_scene_info: None,
        story: story.to_string(),
        choices: exits
            .iter()
            .map(|n| Choice { text: format!("go to {}", n), next_scene_id: *n })
            .collect(),
    }
}

#[test]
fn later_scene_with_same_id_wins_in_the_map() {
    let scenes = Scenes {
        scenes: vec![
            plain_scene(0, "start", &[1]),
            plain_scene(1, "old", &[]),
            plain_scene(1, "new", &[]),
        ],
    };
    let map = scenes_into_map(scenes);
    assert_eq!(map.len(), 2);
    assert_eq!(map[&1].story, "new");
    assert_eq!(map[&0].story, "start");
}

#[test]
fn chosen_exit_leads_to_its_scene() {
    let scene = plain_scene(0, "start", &[7, 9]);
    match scene_step(scene, 2) {
        SceneStep::Next(id) => assert_eq!(id, 9),
        SceneStep::Continue(_) => panic!("no fight to continue"),
    }
}

fn fight_scene() -> Scene {
    Scene {
        id: 3,
        fight_scene_info: Some(FightSceneInfo {
            enemy: Character { health: 30, attack_min: 1, attack_max: 5 },
            player: Character { health: 40, attack_min: 2, attack_max: 6 },
            on_death: 90,
            on_win: 91,
        }),
        story: "a fight".to_string(),
        choices: vec![
            Choice { text: "attack".to_string(), next_scene_id: 3 },
            Choice { text: "flee".to_string(), next_scene_id: 5 },
        ],
    }
}

#[test]
fn attack_deals_damage_within_both_attack_ranges() {
    match scene_step(fight_scene(), 1) {
        SceneStep::Continue(s2) => {
            let info = s2.fight_scene_info.expect("the fight goes on");
            let enemy_lost = 30 - info.enemy.health;
            let player_lost = 40 - info.player.health;
            assert!((2..6).contains(&enemy_lost));
            assert!((1..5).contains(&player_lost));
            assert_eq!(s2.id, 3);
            assert_eq!(s2.story, "a fight");
            assert_eq!(s2.choices.len(), 2);
        }
        SceneStep::Next(_) => panic!("a live fight continues"),
    }
}

#[test]
fn dead_player_goes_to_the_death_scene() {
    let mut scene = fight_scene();
    scene.fight_scene_info.as_mut().unwrap().player.health = 0;
    match scene_step(scene, 1) {
        SceneStep::Next(id) => assert_eq!(id, 90),
        SceneStep::Continue(_) => panic!("a lost fight ends"),
    }
}

#[test]
fn dead_enemy_goes_to_the_victory_scene() {
    let mut scene = fight_scene();
    scene.fight_scene_info.as_mut().unwrap().enemy.health = -2;
    match scene_step(scene, 1) {
        SceneStep::Next(id) => assert_eq!(id, 91),
        SceneStep::Continue(_) => panic!("a won fight ends"),
    }
}

#[test]
fn fleeing_a_fight_follows_the_chosen_exit() {
    match scene_step(fight_scene(), 2) {
        SceneStep::Next(id) => assert_eq!(id, 5),
        SceneStep::Continue(_) => panic!("fleeing leaves the fight"),
    }
}

#[test]
fn story_file_blocks_become_scenes() {
    let lines = vec![
        String::from("0"),
        String::from("You wake up."),
        String::from("Stand up;1"),
        String::from("Sleep on; 2 "),
        String::from(""),
        String::from("1"),
        String::from("You stood up."),
        String::from(""),
    ];
    let map = adventure::parse_scenes(&lines).expect("well-formed story");
    assert_eq!(map.len(), 2);
    assert_eq!(map[&0].story, "You wake up.");
    assert_eq!(
        map[&0].choices,
        vec![(String::from("Stand up"), 1), (String::from("Sleep on"), 2)]
    );
    assert_eq!(map[&1].story, "You stood up.");
    assert_eq!(map[&1].choices, vec![]);
}

#[test]
fn story_block_without_story_line_is_malformed() {
    let lines = vec![String::from("0"), String::from("")];
    assert!(adventure::parse_scenes(&lines).is_none());
}

#[test]
fn choice_line_without_semicolon_is_malformed() {
    let lines = vec![
        String::from("0"),
        String::from("story"),
        String::from("no exit here"),
        String::from(""),
    ];
    assert!(adventure::parse_scenes(&lines).is_none());
}

#[test]
fn adventure_scene_from_keeps_its_parts() {
    let scene = adventure::Scene::from(
        String::from("a story"),
        vec![(String::from("left"), 1), (String::from("right"), 2)],
    );
    assert_eq!(scene.story, "a story");
    assert_eq!(adventure::next_scene_id(&scene, 1), 1);
    assert_eq!(adventure::next_scene_id(&scene, 2), 2);
}
