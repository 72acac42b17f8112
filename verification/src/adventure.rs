//! The plain-text story format: scenes separated by blank lines, each
//! block holding the scene's id, its story text, and one `text;id`
//! choice per remaining line.
//!
//! The parser folds the file line by line; a malformed block (fewer
//! than two lines, an unparsable id, a choice without its `;id` tail)
//! makes the whole file malformed.  Text accumulated after the last
//! blank line belongs to no scene and is discarded, as the format
//! asks.

use crate::converters::str_views;
use crate::text::{
    chars_of, find_char_from, find_first, lemma_find_first_at,
    lemma_find_first_none, parse_u32_chars, parse_u32_spec, string_from_chars, sub_chars,
    trim_chars, trim_spec,
};
use std::collections::HashMap;
use vstd::prelude::*;

verus! {

broadcast use vstd::std_specs::hash::group_hash_axioms;

/// One way out of a scene: its menu text and the id it leads to.
pub type Choice = (String, u32);

/// One scene: its story text and its choices.
pub struct Scene {
    pub story: String,
    pub choices: Vec<Choice>,
}

impl Scene {
    pub fn from(story: String, choices: Vec<Choice>) -> (r: Scene)
        ensures
            r.story == story,
            r.choices == choices,
    {
        Scene { story, choices }
    }
}

/// The mathematical value of a scene: its text and its choices.
pub type SceneV = (Seq<char>, Seq<(Seq<char>, u32)>);

pub open spec fn choice_view(c: Choice) -> (Seq<char>, u32) {
    (c.0@, c.1)
}

pub open spec fn scene_view(s: Scene) -> SceneV {
    (s.story@, s.choices@.map_values(|c: Choice| choice_view(c)))
}

pub open spec fn scenes_views(m: Map<u32, Scene>) -> Map<u32, SceneV> {
    m.map_values(|s: Scene| scene_view(s))
}

/// A choice line: the text before the first `;`, then the scene id
/// between the first `;` and the next one or the end, trimmed.
pub open spec fn choice_of_line(s: Seq<char>) -> Option<(Seq<char>, u32)> {
    match find_first(s, ';') {
        Some(i) => {
            let text = s.subrange(0, i);
            let rest = s.subrange(i + 1, s.len() as int);
            let num = match find_first(rest, ';') {
                Some(j) => rest.subrange(0, j),
                None => rest,
            };
            match parse_u32_spec(trim_spec(num)) {
                Some(v) => Some((text, v)),
                None => None,
            }
        },
        None => None,
    }
}

/// The choices of a block's tail lines, in order; one bad line spoils
/// the block.
pub open spec fn choices_of_block(ls: Seq<Seq<char>>) -> Option<Seq<(Seq<char>, u32)>>
    decreases ls.len(),
{
    if ls.len() == 0 {
        Some(Seq::empty())
    } else {
        match choices_of_block(ls.drop_last()) {
            None => None,
            Some(cs) => match choice_of_line(ls.last()) {
                Some(c) => Some(cs.push(c)),
                None => None,
            },
        }
    }
}

/// A block: its id line, its story line, its choice lines.
pub open spec fn scene_of_block(block: Seq<Seq<char>>) -> Option<(u32, SceneV)> {
    if block.len() < 2 {
        None
    } else {
        match parse_u32_spec(block[0]) {
            None => None,
            Some(id) => match choices_of_block(block.subrange(2, block.len() as int)) {
                None => None,
                Some(cs) => Some((id, (block[1], cs))),
            },
        }
    }
}

/// The scenes parsed so far and the block still being gathered.
pub struct StoryParse {
    pub scenes: Map<u32, SceneV>,
    pub block: Seq<Seq<char>>,
}

/// One line of the file: a blank line closes the gathered block into
/// a scene, any other line joins the block.
pub open spec fn parse_step(st: StoryParse, line: Seq<char>) -> Option<StoryParse> {
    if line.len() == 0 {
        match scene_of_block(st.block) {
            Some(s) => Some(
                StoryParse { scenes: st.scenes.insert(s.0, s.1), block: Seq::empty() },
            ),
            None => None,
        }
    } else {
        Some(StoryParse { scenes: st.scenes, block: st.block.push(line) })
    }
}

/// The whole file folded line by line from the empty state.
pub open spec fn parse_fold(lines: Seq<Seq<char>>) -> Option<StoryParse>
    decreases lines.len(),
{
    if lines.len() == 0 {
        Some(StoryParse { scenes: Map::empty(), block: Seq::empty() })
    } else {
        match parse_fold(lines.drop_last()) {
            None => None,
            Some(st) => parse_step(st, lines.last()),
        }
    }
}

fn parse_choice_line(line: &String) -> (r: Option<Choice>)
    ensures
        r is Some <==> choice_of_line(line@) is Some,
        r matches Some(c) ==> choice_of_line(line@) == Some(choice_view(c)),
{
    let cs = chars_of(line.as_str());
    match find_char_from(&cs, ';', 0) {
        None => {
            proof {
                lemma_find_first_none(cs@, ';');
            }
            None
        },
        Some(i) => {
            proof {
                lemma_find_first_at(cs@, ';', i as int);
            }
            let ghost rest = cs@.subrange(i + 1, cs@.len() as int);
            let hi: usize;
            match find_char_from(&cs, ';', i + 1) {
                Some(j) => {
                    proof {
                        assert(forall|k: int| 0 <= k < j - i - 1 ==> rest[k] != ';');
                        assert(rest[j - i - 1] == ';');
                        lemma_find_first_at(rest, ';', j - i - 1);
                    }
                    hi = j;
                },
                None => {
                    proof {
                        assert(forall|k: int| 0 <= k < rest.len() ==> rest[k] != ';');
                        lemma_find_first_none(rest, ';');
                    }
                    hi = cs.len();
                },
            }
            let numpart = sub_chars(&cs, i + 1, hi);
            proof {
                assert(numpart@ =~= (match find_first(rest, ';') {
                    Some(j) => rest.subrange(0, j),
                    None => rest,
                }));
            }
            let t = trim_chars(&numpart);
            match parse_u32_chars(&t) {
                Some(v) => {
                    let textpart = sub_chars(&cs, 0, i);
                    let text = string_from_chars(&textpart);
                    Some((text, v))
                },
                None => None,
            }
        },
    }
}

/// A block already spoiled stays spoiled by more lines.
proof fn lemma_choices_none_prefix(ls: Seq<Seq<char>>, k: int)
    requires
        0 <= k <= ls.len(),
        choices_of_block(ls.subrange(0, k)) is None,
    ensures
        choices_of_block(ls) is None,
    decreases ls.len() - k,
{
    if k < ls.len() {
        assert(ls.subrange(0, k + 1).drop_last() =~= ls.subrange(0, k));
        lemma_choices_none_prefix(ls, k + 1);
    } else {
        assert(ls.subrange(0, k) =~= ls);
    }
}

fn scene_of_block_exec(block: &Vec<String>) -> (r: Option<(u32, Scene)>)
    ensures
        r is Some <==> scene_of_block(str_views(block@)) is Some,
        r matches Some(p) ==> scene_of_block(str_views(block@)) == Some((p.0, scene_view(p.1))),
{
    let ghost bv = str_views(block@);
    if block.len() < 2 {
        return None;
    }
    let idcs = chars_of(block[0].as_str());
    match parse_u32_chars(&idcs) {
        None => None,
        Some(id) => {
            let ghost tail = bv.subrange(2, bv.len() as int);
            let mut choices: Vec<Choice> = Vec::new();
            let mut j: usize = 2;
            proof {
                assert(tail.subrange(0, 0) =~= Seq::<Seq<char>>::empty());
                assert(choices@.map_values(|c: Choice| choice_view(c)) =~= Seq::<
                    (Seq<char>, u32),
                >::empty());
            }
            while j < block.len()
                invariant
                    bv == str_views(block@),
                    tail == bv.subrange(2, bv.len() as int),
                    2 <= j <= block@.len() == bv.len(),
                    choices_of_block(tail.subrange(0, j - 2)) == Some(
                        choices@.map_values(|c: Choice| choice_view(c)),
                    ),
                decreases block@.len() - j,
            {
                let ghost done = tail.subrange(0, j - 2);
                let ghost cv = choices@.map_values(|c: Choice| choice_view(c));
                match parse_choice_line(&block[j]) {
                    Some(c) => {
                        choices.push(c);
                        proof {
                            assert(tail.subrange(0, j - 1).drop_last() =~= done);
                            assert(tail.subrange(0, j - 1).last() == block@[j as int]@);
                            assert(choices@.map_values(|c2: Choice| choice_view(c2)) =~= cv.push(
                                choice_view(c),
                            ));
                        }
                    },
                    None => {
                        proof {
                            assert(tail.subrange(0, j - 1).drop_last() =~= done);
                            assert(tail.subrange(0, j - 1).last() == block@[j as int]@);
                            assert(choices_of_block(tail.subrange(0, j - 1)) is None);
                            lemma_choices_none_prefix(tail, j - 1);
                        }
                        return None;
                    },
                }
                j = j + 1;
            }
            proof {
                assert(tail.subrange(0, bv.len() - 2) =~= tail);
            }
            let story = block[1].clone();
            Some((id, Scene { story, choices }))
        },
    }
}

/// A file already spoiled stays spoiled by more lines.
proof fn lemma_parse_fold_none(lines: Seq<String>, k: int)
    requires
        0 <= k <= lines.len(),
        parse_fold(str_views(lines.subrange(0, k))) is None,
    ensures
        parse_fold(str_views(lines)) is None,
    decreases lines.len() - k,
{
    if k < lines.len() {
        assert(str_views(lines.subrange(0, k + 1)).drop_last() =~= str_views(
            lines.subrange(0, k),
        ));
        lemma_parse_fold_none(lines, k + 1);
    } else {
        assert(lines.subrange(0, k) =~= lines);
    }
}

/// Parses a whole story file into its scenes by id, or nothing if any
/// closed block is malformed.
pub fn parse_scenes(lines: &Vec<String>) -> (r: Option<HashMap<u32, Scene>>)
    ensures
        match r {
            Some(m) => parse_fold(str_views(lines@)) matches Some(st) && scenes_views(m@)
                == st.scenes,
            None => parse_fold(str_views(lines@)) is None,
        },
{
    let mut m: HashMap<u32, Scene> = HashMap::new();
    let mut block: Vec<String> = Vec::new();
    let mut i: usize = 0;
    proof {
        assert(str_views(lines@.subrange(0, 0)) =~= Seq::<Seq<char>>::empty());
        assert(str_views(block@) =~= Seq::<Seq<char>>::empty());
        assert(scenes_views(m@) =~= Map::<u32, SceneV>::empty());
    }
    while i < lines.len()
        invariant
            i <= lines@.len(),
            parse_fold(str_views(lines@.subrange(0, i as int))) == Some(
                StoryParse { scenes: scenes_views(m@), block: str_views(block@) },
            ),
        decreases lines@.len() - i,
    {
        let ghost prefix = lines@.subrange(0, i as int);
        let ghost st = StoryParse { scenes: scenes_views(m@), block: str_views(block@) };
        let ghost lv = lines@[i as int]@;
        let line = &lines[i];
        if line.as_str().is_empty() {
            match scene_of_block_exec(&block) {
                Some((id, scene)) => {
                    let ghost sv = scene_view(scene);
                    m.insert(id, scene);
                    block.clear();
                    proof {
                        assert(scenes_views(m@) =~= st.scenes.insert(id, sv));
                        assert(str_views(block@) =~= Seq::<Seq<char>>::empty());
                    }
                },
                None => {
                    proof {
                        assert(str_views(lines@.subrange(0, i + 1)).drop_last() =~= str_views(
                            prefix,
                        ));
                        assert(str_views(lines@.subrange(0, i + 1)).last() == lv);
                        assert(parse_fold(str_views(lines@.subrange(0, i + 1))) is None);
                        lemma_parse_fold_none(lines@, i + 1);
                    }
                    return None;
                },
            }
        } else {
            block.push(line.clone());
            proof {
                assert(str_views(block@) =~= st.block.push(lv));
            }
        }
        proof {
            assert(str_views(lines@.subrange(0, i + 1)).drop_last() =~= str_views(prefix));
            assert(str_views(lines@.subrange(0, i + 1)).last() == lv);
            assert(parse_fold(str_views(lines@.subrange(0, i + 1))) == parse_step(st, lv));
            assert(parse_step(st, lv) == Some(
                StoryParse { scenes: scenes_views(m@), block: str_views(block@) },
            ));
        }
        i = i + 1;
    }
    proof {
        assert(lines@.subrange(0, lines@.len() as int) =~= lines@);
    }
    Some(m)
}

/// The exit the chosen menu entry leads to.
pub fn next_scene_id(scene: &Scene, choice: u32) -> (r: u32)
    requires
        1 <= choice <= scene.choices@.len(),
    ensures
        r == scene.choices@[choice - 1].1,
{
    scene.choices[(choice - 1) as usize].1
}

} // verus!
