//! The description of the game's levels, as the level configuration file holds it.
use vstd::prelude::*;

use std::sync::Arc;

use super::base::{applied, parsed_from_text, reduces_ok, text_parses, BaseLevel, GameLevel, TestCase};
use super::section::SectionName;
use crate::interpreter::constants::{all_provider, AllConstants};
use crate::interpreter::interpreter::{interp, InterpretError};
use crate::interpreter::parser::Node;
use crate::util::nonempty::{
    game_levels_in, game_levels_vec1, jlevels_in, jlevels_vec, jsections_in, jsections_vec, pairs_in,
    pairs_vec, sections_in, sections_vec1, strings_in, strings_vec, strings_vec1, test_cases_in,
    test_cases_vec1,
};
use vec1::Vec1;

verus! {

/// One level of the configuration.
#[derive(Debug)]
pub struct JLevel {
    pub name: String,
    pub description: String,
    pub extra_info: Option<String>,
    /// Pairs of (application, expected result).
    pub test_cases: Vec1<(String, String)>,
    /// Correct solutions.
    pub solutions: Vec1<String>,
    pub wrong_solutions: Vec<String>,
    /// Whether solving this level makes its name, in upper case, a constant.
    pub provides_constant: bool,
    pub show_constants: bool,
    /// Constants, as (name, term), known from the start of this level on.
    pub before_level_constants: Vec<(String, String)>,
    pub extra_info_is_hint: bool,
}

/// A section of the configuration.
#[derive(Debug)]
pub struct JSection {
    pub name: SectionName,
    pub levels: Vec1<JLevel>,
}

/// The whole level configuration.
#[derive(Debug)]
pub struct JLevelConfig {
    pub sections: Vec1<JSection>,
    /// Pairs of terms that must reduce to the same result.
    pub tests: Vec1<(String, String)>,
}


/// A section of the game, with its levels in order.
#[derive(Debug)]
pub struct Section {
    pub name: SectionName,
    pub levels: Vec1<Arc<GameLevel>>,
}

/// The texts of the test cases of `l` read, and their results interpret with
/// every constant of `all` known.
pub open spec fn level_loadable(l: JLevel, all: &AllConstants) -> bool {
    forall|k: int|
        0 <= k < pairs_in(l.test_cases).len() ==> {
            &&& text_parses((#[trigger] pairs_in(l.test_cases)[k]).0@)
            &&& reduces_ok(pairs_in(l.test_cases)[k].1@, all_provider(all))
        }
}

/// The levels of the `s`-th section of `c`.
pub open spec fn config_levels(c: JLevelConfig, s: int) -> Seq<JLevel> {
    jlevels_in(jsections_in(c.sections)[s].levels)
}

/// Every level of `c` can be loaded.
pub open spec fn config_loadable(c: JLevelConfig, all: &AllConstants) -> bool {
    forall|s: int, i: int|
        0 <= s < jsections_in(c.sections).len() && 0 <= i < config_levels(c, s).len() ==> level_loadable(
            #[trigger] config_levels(c, s)[i],
            all,
        )
}

/// `t` is the test case of application text `app` and result text `res`.
pub open spec fn test_case_from(t: TestCase, app: Seq<char>, res: Seq<char>, all: &AllConstants) -> bool {
    &&& parsed_from_text(app, t.application)
    &&& exists|n: Box<Node>|
        parsed_from_text(res, n) && #[trigger] interp(all_provider(all), false, false, 0, n, true).1
            == Ok::<Box<Node>, InterpretError>(t.expected_result)
}

pub open spec fn same_texts(a: Seq<String>, b: Seq<String>) -> bool {
    a.len() == b.len() && forall|k: int| 0 <= k < a.len() ==> (#[trigger] a[k])@ == b[k]@
}

pub open spec fn same_text_option(a: Option<String>, b: Option<String>) -> bool {
    match (a, b) {
        (Some(x), Some(y)) => x@ == y@,
        (None, None) => true,
        _ => false,
    }
}

/// `g` is the game level that `l`, the `i`-th level of `section`, describes.
pub open spec fn level_from(g: GameLevel, l: JLevel, section: SectionName, i: nat, all: &AllConstants) -> bool {
    let cases = test_cases_in(g.base.test_cases);
    let texts = pairs_in(l.test_cases);
    &&& g.base.name@ == l.name@
    &&& g.base.description@ == l.description@
    &&& same_text_option(g.base.extra_info, l.extra_info)
    &&& g.base.extra_info_is_hint == l.extra_info_is_hint
    &&& cases.len() == texts.len()
    &&& forall|k: int|
        0 <= k < texts.len() ==> test_case_from(#[trigger] cases[k], texts[k].0@, texts[k].1@, all)
    &&& g.section == section
    &&& g.idx == i
    &&& same_texts(strings_in(g.solutions), strings_in(l.solutions))
    &&& same_texts(g.wrong_solutions@, l.wrong_solutions@)
    &&& g.show_constants == l.show_constants
}

fn copy_strings(v: &Vec<String>) -> (r: Vec<String>)
    ensures
        same_texts(r@, v@),
{
    let mut r: Vec<String> = Vec::new();
    for i in 0..v.len()
        invariant
            r@.len() == i,
            forall|k: int| 0 <= k < i ==> (#[trigger] r@[k])@ == v@[k]@,
    {
        r.push(v[i].clone());
    }
    r
}

fn copy_option(o: &Option<String>) -> (r: Option<String>)
    ensures
        same_text_option(r, *o),
{
    match o {
        Some(s) => Some(s.clone()),
        None => None,
    }
}

fn load_level(l: &JLevel, section: SectionName, idx: usize, all: &AllConstants) -> (r: GameLevel)
    requires
        level_loadable(*l, all),
    ensures
        level_from(r, *l, section, idx as nat, all),
{
    let texts = pairs_vec(&l.test_cases);
    let mut test_cases: Vec<TestCase> = Vec::new();
    for k in 0..texts.len()
        invariant
            level_loadable(*l, all),
            texts@ == pairs_in(l.test_cases),
            test_cases@.len() == k,
            forall|j: int|
                0 <= j < k ==> test_case_from(#[trigger] test_cases@[j], texts@[j].0@, texts@[j].1@, all),
    {
        let (app, res) = &texts[k];
        assert(text_parses(pairs_in(l.test_cases)[k as int].0@));
        test_cases.push(TestCase::from_or_fail(app.as_str(), res.as_str(), all));
    }
    let test_cases = match test_cases_vec1(test_cases) {
        Ok(t) => t,
        Err(_) => vstd::pervasive::unreached(),
    };
    let solutions = match strings_vec1(copy_strings(strings_vec(&l.solutions))) {
        Ok(s) => s,
        Err(_) => vstd::pervasive::unreached(),
    };
    GameLevel {
        base: BaseLevel {
            name: l.name.clone(),
            description: l.description.clone(),
            extra_info: copy_option(&l.extra_info),
            extra_info_is_hint: l.extra_info_is_hint,
            test_cases,
        },
        section,
        idx,
        solutions,
        wrong_solutions: copy_strings(&l.wrong_solutions),
        show_constants: l.show_constants,
    }
}

/// `r` holds the sections and levels that `c` describes.
pub open spec fn sections_from(r: Seq<Section>, c: JLevelConfig, all: &AllConstants) -> bool {
    &&& r.len() == jsections_in(c.sections).len()
    &&& forall|s: int|
        0 <= s < r.len() ==> {
            let levels = game_levels_in((#[trigger] r[s]).levels);
            &&& r[s].name == jsections_in(c.sections)[s].name
            &&& levels.len() == config_levels(c, s).len()
            &&& forall|i: int|
                0 <= i < levels.len() ==> level_from(
                    *(#[trigger] levels[i]),
                    config_levels(c, s)[i],
                    r[s].name,
                    i as nat,
                    all,
                )
        }
}

/// The game's sections and levels as `config` describes them, each level
/// numbered by its place in its section, its test cases read and their
/// expected results interpreted with every constant of `all` known.
pub fn load_all(config: &JLevelConfig, all: &AllConstants) -> (r: Vec1<Section>)
    requires
        config_loadable(*config, all),
    ensures
        sections_from(sections_in(r), *config, all),
{
    let sections = jsections_vec(&config.sections);
    let mut r: Vec<Section> = Vec::new();
    for s in 0..sections.len()
        invariant
            config_loadable(*config, all),
            sections@ == jsections_in(config.sections),
            r@.len() == s,
            forall|t: int|
                0 <= t < s ==> {
                    let levels = game_levels_in((#[trigger] r@[t]).levels);
                    &&& r@[t].name == sections@[t].name
                    &&& levels.len() == config_levels(*config, t).len()
                    &&& forall|i: int|
                        0 <= i < levels.len() ==> level_from(
                            *(#[trigger] levels[i]),
                            config_levels(*config, t)[i],
                            r@[t].name,
                            i as nat,
                            all,
                        )
                },
    {
        let section = &sections[s];
        let jlevels = jlevels_vec(&section.levels);
        let mut levels: Vec<Arc<GameLevel>> = Vec::new();
        for i in 0..jlevels.len()
            invariant
                config_loadable(*config, all),
                sections@ == jsections_in(config.sections),
                s < sections@.len(),
                *section == sections@[s as int],
                jlevels@ == config_levels(*config, s as int),
                levels@.len() == i,
                forall|j: int|
                    0 <= j < i ==> level_from(
                        *(#[trigger] levels@[j]),
                        jlevels@[j],
                        section.name,
                        j as nat,
                        all,
                    ),
        {
            assert(level_loadable(config_levels(*config, s as int)[i as int], all));
            let level = load_level(&jlevels[i], section.name, i, all);
            levels.push(Arc::new(level));
        }
        let levels = match game_levels_vec1(levels) {
            Ok(l) => l,
            Err(_) => vstd::pervasive::unreached(),
        };
        r.push(Section { name: section.name, levels });
    }
    assert(sections_from(r@, *config, all));
    match sections_vec1(r) {
        Ok(v) => v,
        Err(_) => vstd::pervasive::unreached(),
    }
}

/// The name of the achievement for completing section `s`: `SECTION_` and
/// the section's name in upper case, spaces turned to underscores.
pub open spec fn achievement_text(s: SectionName) -> Seq<char> {
    "SECTION_"@ + crate::util::text::ascii_upper(crate::levels::section::section_text(s)).map_values(
        |c: char|
            if c == ' ' {
                '_'
            } else {
                c
            },
    )
}

/// `name` is among the names `solved`.
pub open spec fn name_solved(solved: Seq<String>, name: Seq<char>) -> bool {
    exists|t: int| 0 <= t < solved.len() && #[trigger] solved[t]@ == name
}

impl Section {
    /// Every level of the section is among `solved`, the names of the
    /// levels the player solved.
    pub fn completed(&self, solved: &Vec<String>) -> (r: bool)
        ensures
            r <==> forall|k: int|
                0 <= k < game_levels_in(self.levels).len() ==> name_solved(
                    solved@,
                    (#[trigger] game_levels_in(self.levels)[k]).base.name@,
                ),
    {
        let levels = crate::util::nonempty::game_levels_vec(&self.levels);
        for k in 0..levels.len()
            invariant
                levels@ == game_levels_in(self.levels),
                forall|kk: int| 0 <= kk < k ==> name_solved(solved@, (#[trigger] levels@[kk]).base.name@),
        {
            let name = &levels[k].base.name;
            let mut found = false;
            for t in 0..solved.len()
                invariant
                    found ==> name_solved(solved@, name@),
                    !found ==> forall|tt: int| 0 <= tt < t ==> #[trigger] solved@[tt]@ != name@,
            {
                if solved[t].eq(name) {
                    found = true;
                }
            }
            if !found {
                assert(!name_solved(solved@, levels@[k as int].base.name@));
                return false;
            }
        }
        true
    }

    /// The achievement of completing this section.
    pub fn achievement_name(&self) -> (r: String)
        ensures
            r@ == achievement_text(self.name),
    {
        let upper = crate::util::text::to_ascii_uppercase(&self.name.to_string());
        let chars = crate::util::text::chars_of(upper.as_str());
        let mut r = String::new();
        crate::util::text::push_str(&mut r, "SECTION_");
        let ghost mapped = upper@.map_values(|c: char| if c == ' ' { '_' } else { c });
        for k in 0..chars.len()
            invariant
                chars@ == upper@,
                mapped == upper@.map_values(|c: char| if c == ' ' { '_' } else { c }),
                r@ == "SECTION_"@ + mapped.take(k as int),
        {
            let c = chars[k];
            crate::util::text::push_char(&mut r, if c == ' ' { '_' } else { c });
            assert(mapped.take(k + 1) =~= mapped.take(k as int).push(mapped[k as int]));
        }
        assert(mapped.take(chars.len() as int) =~= mapped);
        r
    }
}

} // verus!
