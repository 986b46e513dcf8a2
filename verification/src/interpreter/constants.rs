//! Named constants and numerals that terms may use.
use vstd::prelude::*;

use super::parser::{well_formed, Node, Variable};
use crate::levels::section::{section_rank, SectionName};
use crate::levels::base::{parse_or_fail, parsed_from_text, terms_well_formed, text_parses, Level};
use crate::levels::config::config_levels;
use crate::levels::{JLevel, JLevelConfig, JSection};
use crate::util::nonempty::{jlevels_in, jlevels_vec, jsections_in, jsections_vec, strings_in, strings_vec};
use crate::util::numbers::{parse_unsigned, spec_parse_unsigned};
use crate::util::text::{ascii_upper, chars_of, to_ascii_uppercase};

verus! {

/// A constant, with the level that makes it known.
#[derive(Debug)]
pub struct ConstantNode {
    pub term: Box<Node>,
    pub section: SectionName,
    /// Index, in its section, of the level that makes the constant known.
    pub lvl_discovered: usize,
    /// Whether the constant is known from the start of that level on, rather
    /// than after it.
    pub before_level: bool,
}

/// The level a provider serves: its section and its index in the section.
#[derive(Debug, Clone, Copy, PartialEq, Eq, Structural)]
pub struct CompletionData {
    pub section: SectionName,
    pub idx: usize,
}

/// Whether a constant can be used on the level `d`: it is known before `d`, or
/// on `d` itself when it is known from the start of its level on.
pub open spec fn spec_can_be_used(n: ConstantNode, d: CompletionData) -> bool {
    ||| section_rank(n.section) < section_rank(d.section)
    ||| section_rank(n.section) == section_rank(d.section) && (n.lvl_discovered < d.idx || (
    n.lvl_discovered == d.idx && n.before_level))
}

/// Whether level `a` comes no later than level `b` in the game.
pub open spec fn level_not_after(a: CompletionData, b: CompletionData) -> bool {
    section_rank(a.section) < section_rank(b.section) || (a.section == b.section && a.idx <= b.idx)
}

/// A constant known on a level stays known on every later level.
pub proof fn constants_stay_known(n: ConstantNode, a: CompletionData, b: CompletionData)
    requires
        spec_can_be_used(n, a),
        level_not_after(a, b),
    ensures
        spec_can_be_used(n, b),
{
    if a.section == b.section {
        assert(section_rank(a.section) == section_rank(b.section));
    }
}

impl ConstantNode {
    fn can_be_used(&self, data: &CompletionData) -> (r: bool)
        ensures
            r == spec_can_be_used(*self, *data),
    {
        let (a, b) = (self.section.rank(), data.section.rank());
        a < b || (a == b && (self.lvl_discovered < data.idx || (self.lvl_discovered == data.idx
            && self.before_level)))
    }
}

#[derive(Debug, Clone, Copy, PartialEq, Eq, Structural)]
pub enum Numerals {
    Disabled,
    Church,
}

/// `f` applied `x` times to `x`, inside `f:x:`.
pub open spec fn church_body(x: nat) -> Box<Node>
    decreases x,
{
    if x == 0 {
        Box::new(Node::Variable(Variable { depth: 0, original: 'x' }))
    } else {
        Box::new(
            Node::Apply {
                left: Box::new(Node::Variable(Variable { depth: 1, original: 'f' })),
                right: church_body((x - 1) as nat),
            },
        )
    }
}

/// The Church numeral of `x`: `f:x: f (f (... x))`, with `x` applications of `f`.
pub open spec fn church(x: nat) -> Box<Node> {
    Box::new(
        Node::Function {
            variable: 'f',
            body: Box::new(Node::Function { variable: 'x', body: church_body(x) }),
        },
    )
}

impl Numerals {
    pub open spec fn spec_get_num(self, x: nat) -> Option<Box<Node>> {
        match self {
            Numerals::Disabled => None,
            Numerals::Church => Some(church(x)),
        }
    }

    /// The term that the number `x` stands for, if numbers stand for terms.
    pub fn get_num(self, x: u16) -> (r: Option<Box<Node>>)
        ensures
            r == self.spec_get_num(x as nat),
    {
        match self {
            Numerals::Disabled => None,
            Numerals::Church => {
                let mut body = Box::new(Node::Variable(Variable { depth: 0, original: 'x' }));
                let mut k: u16 = 0;
                while k < x
                    invariant
                        k <= x,
                        body == church_body(k as nat),
                    decreases x - k,
                {
                    body = Box::new(
                        Node::Apply {
                            left: Box::new(Node::Variable(Variable { depth: 1, original: 'f' })),
                            right: body,
                        },
                    );
                    k += 1;
                }
                Some(
                    Box::new(
                        Node::Function {
                            variable: 'f',
                            body: Box::new(Node::Function { variable: 'x', body }),
                        },
                    ),
                )
            },
        }
    }
}

pub proof fn lemma_church_well_formed(x: nat)
    ensures
        well_formed(*church(x), 0),
{
    lemma_church_body_well_formed(x);
    let inner = Node::Function { variable: 'x', body: church_body(x) };
    assert(well_formed(inner, 1));
}

proof fn lemma_church_body_well_formed(x: nat)
    ensures
        well_formed(*church_body(x), 2),
    decreases x,
{
    if x > 0 {
        lemma_church_body_well_formed((x - 1) as nat);
        let f = Node::Variable(Variable { depth: 1, original: 'f' });
        assert(well_formed(f, 2));
        assert(church_body(x) == Box::new(Node::Apply { left: Box::new(f), right: church_body((x - 1) as nat) }));
    } else {
        assert(church_body(x) == Box::new(Node::Variable(Variable { depth: 0, original: 'x' })));
    }
}

/// The constant that the last entry named `name` defines.
pub open spec fn lookup(entries: Seq<(String, ConstantNode)>, name: Seq<char>) -> Option<
    ConstantNode,
>
    decreases entries.len(),
{
    if entries.len() == 0 {
        None
    } else if entries.last().0@ == name {
        Some(entries.last().1)
    } else {
        lookup(entries.drop_last(), name)
    }
}

/// All terms of the entries are well formed.
pub open spec fn entries_well_formed(entries: Seq<(String, ConstantNode)>) -> bool {
    forall|i: int| 0 <= i < entries.len() ==> well_formed(*(#[trigger] entries[i]).1.term, 0)
}

proof fn lemma_lookup_well_formed(entries: Seq<(String, ConstantNode)>, name: Seq<char>)
    requires
        entries_well_formed(entries),
    ensures
        lookup(entries, name) matches Some(n) ==> well_formed(*n.term, 0),
    decreases entries.len(),
{
    if entries.len() > 0 {
        assert(well_formed(*entries[entries.len() - 1].1.term, 0));
        assert forall|i: int| 0 <= i < entries.drop_last().len() implies well_formed(
            *(#[trigger] entries.drop_last()[i]).1.term,
            0,
        ) by {
            assert(entries.drop_last()[i] == entries[i]);
        }
        lemma_lookup_well_formed(entries.drop_last(), name);
    }
}

fn find_last(entries: &Vec<(String, ConstantNode)>, name: &String) -> (r: Option<usize>)
    ensures
        match r {
            Some(i) => i < entries.len() && lookup(entries@, name@) == Some(entries@[i as int].1)
                && entries@[i as int].0@ == name@,
            None => lookup(entries@, name@) is None,
        },
{
    let n = entries.len();
    let mut j = n;
    assert(entries@.take(n as int) =~= entries@);
    while j > 0
        invariant
            j <= n == entries.len(),
            lookup(entries@, name@) == lookup(entries@.take(j as int), name@),
        decreases j,
    {
        assert(entries@.take(j as int).drop_last() =~= entries@.take(j - 1));
        if entries[j - 1].0.eq(name) {
            return Some(j - 1);
        }
        j -= 1;
    }
    None
}


/// A constant as the level configuration declares it: its name, the text of
/// its term, the section and index of the level that declares it, and whether
/// it is known from the start of that level on (rather than once it is solved).
pub type Declared = (Seq<char>, Seq<char>, SectionName, nat, bool);

/// The constants that level `l`, the `i`-th of `section`, declares: those it
/// makes known from its start, then its own name in upper case, standing for
/// its first solution, if solving it provides a constant.
pub open spec fn level_declared(l: JLevel, section: SectionName, i: nat) -> Seq<Declared> {
    l.before_level_constants@.map_values(|p: (String, String)| (p.0@, p.1@, section, i, true)) + if l.provides_constant {
        seq![(ascii_upper(l.name@), strings_in(l.solutions)[0]@, section, i, false)]
    } else {
        Seq::<Declared>::empty()
    }
}

/// The constants that the levels `levels` of `section` declare, in order.
pub open spec fn levels_declared(levels: Seq<JLevel>, section: SectionName) -> Seq<Declared>
    decreases levels.len(),
{
    if levels.len() == 0 {
        Seq::<Declared>::empty()
    } else {
        levels_declared(levels.drop_last(), section) + level_declared(
            levels.last(),
            section,
            (levels.len() - 1) as nat,
        )
    }
}

/// The constants that the sections `sections` declare, in order.
pub open spec fn sections_declared(sections: Seq<JSection>) -> Seq<Declared>
    decreases sections.len(),
{
    if sections.len() == 0 {
        Seq::<Declared>::empty()
    } else {
        sections_declared(sections.drop_last()) + levels_declared(
            jlevels_in(sections.last().levels),
            sections.last().name,
        )
    }
}

/// The constants a level declares can be read: their terms parse, and so does
/// the first solution of a level that provides a constant.
pub open spec fn level_declarable(l: JLevel) -> bool {
    &&& forall|j: int|
        0 <= j < l.before_level_constants.len() ==> text_parses(
            (#[trigger] l.before_level_constants@[j]).1@,
        )
    &&& l.provides_constant ==> text_parses(strings_in(l.solutions)[0]@)
}

/// Every level of the configuration declares constants that can be read.
pub open spec fn config_declarable(c: JLevelConfig) -> bool {
    forall|s: int, i: int|
        0 <= s < jsections_in(c.sections).len() && 0 <= i < config_levels(c, s).len()
            ==> level_declarable(#[trigger] config_levels(c, s)[i])
}

/// The last declaration of `name` among `ds`.
pub open spec fn last_declared(ds: Seq<Declared>, name: Seq<char>) -> Option<Declared>
    decreases ds.len(),
{
    if ds.len() == 0 {
        None
    } else if ds.last().0 == name {
        Some(ds.last())
    } else {
        last_declared(ds.drop_last(), name)
    }
}

/// `n` is what the declaration `d` makes of a constant.
pub open spec fn node_matches(n: ConstantNode, d: Declared) -> bool {
    &&& n.section == d.2
    &&& n.lvl_discovered == d.3
    &&& n.before_level == d.4
    &&& parsed_from_text(d.1, n.term)
}

/// The entries give, for each name, what its last declaration among `ds` makes
/// of it, and nothing for a name never declared.
pub open spec fn represents(entries: Seq<(String, ConstantNode)>, ds: Seq<Declared>) -> bool {
    forall|name: Seq<char>|
        #![trigger lookup(entries, name)]
        #![trigger last_declared(ds, name)]
        match (lookup(entries, name), last_declared(ds, name)) {
            (Some(n), Some(d)) => node_matches(n, d),
            (None, None) => true,
            _ => false,
        }
}

/// No name occurs twice among the entries.
pub open spec fn names_unique(entries: Seq<(String, ConstantNode)>) -> bool {
    forall|i: int, j: int|
        0 <= i < j < entries.len() ==> (#[trigger] entries[i]).0@ != (#[trigger] entries[j]).0@
}

proof fn lemma_lookup_none(entries: Seq<(String, ConstantNode)>, name: Seq<char>, i: int)
    requires
        lookup(entries, name) is None,
        0 <= i < entries.len(),
    ensures
        entries[i].0@ != name,
    decreases entries.len(),
{
    if i < entries.len() - 1 {
        assert(entries.drop_last()[i] == entries[i]);
        lemma_lookup_none(entries.drop_last(), name, i);
    }
}

proof fn lemma_lookup_update(
    entries: Seq<(String, ConstantNode)>,
    i: int,
    x: (String, ConstantNode),
    name: Seq<char>,
)
    requires
        0 <= i < entries.len(),
        entries[i].0@ == x.0@,
        names_unique(entries),
    ensures
        lookup(entries.update(i, x), name) == if name == x.0@ {
            Some(x.1)
        } else {
            lookup(entries, name)
        },
    decreases entries.len(),
{
    let e2 = entries.update(i, x);
    if i < entries.len() - 1 {
        assert(e2.last() == entries.last());
        assert(entries.last().0@ != x.0@) by {
            assert(entries[i].0@ != entries[entries.len() - 1].0@);
        }
        assert(e2.drop_last() =~= entries.drop_last().update(i, x));
        lemma_lookup_update(entries.drop_last(), i, x, name);
    } else {
        assert(e2.drop_last() =~= entries.drop_last());
    }
}

proof fn lemma_lookup_push(entries: Seq<(String, ConstantNode)>, x: (String, ConstantNode), name: Seq<char>)
    ensures
        lookup(entries.push(x), name) == if name == x.0@ {
            Some(x.1)
        } else {
            lookup(entries, name)
        },
{
    assert(entries.push(x).drop_last() =~= entries);
}

proof fn lemma_represents_step(
    e: Seq<(String, ConstantNode)>,
    e2: Seq<(String, ConstantNode)>,
    ds: Seq<Declared>,
    d: Declared,
    n: ConstantNode,
)
    requires
        represents(e, ds),
        node_matches(n, d),
        forall|name: Seq<char>|
            #[trigger] lookup(e2, name) == if name == d.0 {
                Some(n)
            } else {
                lookup(e, name)
            },
    ensures
        represents(e2, ds.push(d)),
{
    assert forall|name: Seq<char>|
        match (#[trigger] lookup(e2, name), last_declared(ds.push(d), name)) {
            (Some(n), Some(d)) => node_matches(n, d),
            (None, None) => true,
            _ => false,
        } by {
        assert(ds.push(d).drop_last() =~= ds);
        if name != d.0 {
            assert(lookup(e, name) == lookup(e2, name));
            assert(last_declared(ds, name) == last_declared(ds.push(d), name));
        }
    }
    assert forall|name: Seq<char>|
        match (lookup(e2, name), #[trigger] last_declared(ds.push(d), name)) {
            (Some(n), Some(d)) => node_matches(n, d),
            (None, None) => true,
            _ => false,
        } by {
        assert(lookup(e2, name) == lookup(e2, name));
    }
}

/// Declares `name` as `node`, replacing an earlier constant of that name.
fn declare(entries: &mut Vec<(String, ConstantNode)>, name: String, node: ConstantNode)
    requires
        names_unique(old(entries)@),
        entries_well_formed(old(entries)@),
        well_formed(*node.term, 0),
    ensures
        names_unique(final(entries)@),
        entries_well_formed(final(entries)@),
        forall|nm: Seq<char>|
            #[trigger] lookup(final(entries)@, nm) == if nm == name@ {
                Some(node)
            } else {
                lookup(old(entries)@, nm)
            },
{
    let ghost e0 = entries@;
    let ghost name_v = name@;
    match find_last(entries, &name) {
        Some(i) => {
            let ghost x = (name, node);
            entries.set(i, (name, node));
            assert(entries@ == e0.update(i as int, x));
            assert forall|nm: Seq<char>|
                #[trigger] lookup(entries@, nm) == if nm == name_v {
                    Some(x.1)
                } else {
                    lookup(e0, nm)
                } by {
                lemma_lookup_update(e0, i as int, x, nm);
            }
            assert forall|a: int, b: int| 0 <= a < b < entries@.len() implies (#[trigger] entries@[a]).0@
                != (#[trigger] entries@[b]).0@ by {
                assert(e0[a].0@ != e0[b].0@);
            }
            assert forall|a: int| 0 <= a < entries@.len() implies well_formed(
                *(#[trigger] entries@[a]).1.term,
                0,
            ) by {
                if a != i {
                    assert(well_formed(*e0[a].1.term, 0));
                }
            }
        },
        None => {
            let ghost x = (name, node);
            entries.push((name, node));
            assert(entries@ == e0.push(x));
            assert forall|nm: Seq<char>|
                #[trigger] lookup(entries@, nm) == if nm == name_v {
                    Some(x.1)
                } else {
                    lookup(e0, nm)
                } by {
                lemma_lookup_push(e0, x, nm);
            }
            assert forall|a: int, b: int| 0 <= a < b < entries@.len() implies (#[trigger] entries@[a]).0@
                != (#[trigger] entries@[b]).0@ by {
                if b == e0.len() {
                    lemma_lookup_none(e0, name_v, a);
                } else {
                    assert(e0[a].0@ != e0[b].0@);
                }
            }
            assert forall|a: int| 0 <= a < entries@.len() implies well_formed(
                *(#[trigger] entries@[a]).1.term,
                0,
            ) by {
                if a < e0.len() {
                    assert(well_formed(*e0[a].1.term, 0));
                }
            }
        },
    }
}


fn declare_level(
    entries: &mut Vec<(String, ConstantNode)>,
    Ghost(ds): Ghost<Seq<Declared>>,
    level: &JLevel,
    section: SectionName,
    i: usize,
)
    requires
        names_unique(old(entries)@),
        entries_well_formed(old(entries)@),
        represents(old(entries)@, ds),
        level_declarable(*level),
    ensures
        names_unique(final(entries)@),
        entries_well_formed(final(entries)@),
        represents(final(entries)@, ds + level_declared(*level, section, i as nat)),
{
    let ghost all = level_declared(*level, section, i as nat);
    let n = level.before_level_constants.len();
    for j in 0..n
        invariant
            n == level.before_level_constants.len(),
            all == level_declared(*level, section, i as nat),
            level_declarable(*level),
            names_unique(entries@),
            entries_well_formed(entries@),
            represents(entries@, ds + all.take(j as int)),
    {
        let (name, term) = &level.before_level_constants[j];
        assert(text_parses(level.before_level_constants@[j as int].1@));
        let t = parse_or_fail(term.as_str());
        let node = ConstantNode { term: t, section, lvl_discovered: i, before_level: true };
        let ghost e0 = entries@;
        let ghost d = all[j as int];
        declare(entries, name.clone(), node);
        proof {
            lemma_represents_step(e0, entries@, ds + all.take(j as int), d, node);
            assert((ds + all.take(j as int)).push(d) =~= ds + all.take(j + 1));
        }
    }
    if level.provides_constant {
        let name = to_ascii_uppercase(&level.name);
        let t = parse_or_fail(strings_vec(&level.solutions)[0].as_str());
        let node = ConstantNode { term: t, section, lvl_discovered: i, before_level: false };
        let ghost e0 = entries@;
        let ghost d = all[n as int];
        declare(entries, name, node);
        proof {
            lemma_represents_step(e0, entries@, ds + all.take(n as int), d, node);
            assert((ds + all.take(n as int)).push(d) =~= ds + all);
        }
    } else {
        assert(all.take(n as int) =~= all);
    }
}

fn declare_section(
    entries: &mut Vec<(String, ConstantNode)>,
    Ghost(ds): Ghost<Seq<Declared>>,
    section: &JSection,
)
    requires
        names_unique(old(entries)@),
        entries_well_formed(old(entries)@),
        represents(old(entries)@, ds),
        forall|i: int|
            0 <= i < jlevels_in(section.levels).len() ==> level_declarable(
                #[trigger] jlevels_in(section.levels)[i],
            ),
    ensures
        names_unique(final(entries)@),
        entries_well_formed(final(entries)@),
        represents(final(entries)@, ds + levels_declared(jlevels_in(section.levels), section.name)),
{
    let levels = jlevels_vec(&section.levels);
    let n = levels.len();
    assert(levels@.take(0) =~= Seq::<JLevel>::empty());
    assert(ds + levels_declared(levels@.take(0), section.name) =~= ds);
    for i in 0..n
        invariant
            n == levels.len(),
            levels@ == jlevels_in(section.levels),
            forall|k: int| 0 <= k < levels@.len() ==> level_declarable(#[trigger] levels@[k]),
            names_unique(entries@),
            entries_well_formed(entries@),
            represents(entries@, ds + levels_declared(levels@.take(i as int), section.name)),
    {
        assert(level_declarable(levels@[i as int]));
        declare_level(
            entries,
            Ghost(ds + levels_declared(levels@.take(i as int), section.name)),
            &levels[i],
            section.name,
            i,
        );
        proof {
            let t1 = levels@.take(i + 1);
            assert(t1.drop_last() =~= levels@.take(i as int));
            assert(t1.last() == levels@[i as int]);
            assert(ds + levels_declared(t1, section.name) =~= (ds + levels_declared(
                levels@.take(i as int),
                section.name,
            )) + level_declared(levels@[i as int], section.name, i as nat));
        }
    }
    assert(levels@.take(n as int) =~= levels@);
}

/// Every constant that the game's levels declare, each name once.
#[derive(Debug)]
pub struct AllConstants {
    entries: Vec<(String, ConstantNode)>,
}

impl AllConstants {
    #[verifier::type_invariant]
    spec fn inv(self) -> bool {
        &&& entries_well_formed(self.entries@)
        &&& names_unique(self.entries@)
    }

    /// The constants, as (name, constant).
    pub closed spec fn entries(self) -> Seq<(String, ConstantNode)> {
        self.entries@
    }

    /// How many constants there are.
    pub fn len(&self) -> (r: usize)
        ensures
            r == self.entries().len(),
    {
        self.entries.len()
    }

    /// The constants, as (name, constant).
    pub fn as_vec(&self) -> (r: &Vec<(String, ConstantNode)>)
        ensures
            r@ == self.entries(),
    {
        &self.entries
    }

    /// The constants that `config` declares; where a name is declared more
    /// than once, the last declaration holds.
    pub fn from_config(config: &JLevelConfig) -> (r: AllConstants)
        requires
            config_declarable(*config),
        ensures
            represents(r.entries(), sections_declared(jsections_in(config.sections))),
            names_unique(r.entries()),
            entries_well_formed(r.entries()),
    {
        let mut entries: Vec<(String, ConstantNode)> = Vec::new();
        let sections = jsections_vec(&config.sections);
        let n = sections.len();
        assert(sections@.take(0) =~= Seq::<JSection>::empty());
        for s in 0..n
            invariant
                n == sections.len(),
                sections@ == jsections_in(config.sections),
                config_declarable(*config),
                names_unique(entries@),
                entries_well_formed(entries@),
                represents(entries@, sections_declared(sections@.take(s as int))),
        {
            let section = &sections[s];
            assert forall|i: int| 0 <= i < jlevels_in(section.levels).len() implies level_declarable(
                #[trigger] jlevels_in(section.levels)[i],
            ) by {
                assert(config_levels(*config, s as int) == jlevels_in(section.levels));
                assert(level_declarable(config_levels(*config, s as int)[i]));
            }
            declare_section(&mut entries, Ghost(sections_declared(sections@.take(s as int))), section);
            proof {
                let t1 = sections@.take(s + 1);
                assert(t1.drop_last() =~= sections@.take(s as int));
            }
        }
        assert(sections@.take(n as int) =~= sections@);
        AllConstants { entries }
    }
}

/// The constant that the last entry named `name` gives.
pub open spec fn lookup_term(entries: Seq<(String, Box<Node>)>, name: Seq<char>) -> Option<Box<Node>>
    decreases entries.len(),
{
    if entries.len() == 0 {
        None
    } else if entries.last().0@ == name {
        Some(entries.last().1)
    } else {
        lookup_term(entries.drop_last(), name)
    }
}

fn find_last_term(entries: &Vec<(String, Box<Node>)>, name: &String) -> (r: Option<usize>)
    ensures
        match r {
            Some(i) => i < entries.len() && lookup_term(entries@, name@) == Some(entries@[i as int].1),
            None => lookup_term(entries@, name@) is None,
        },
{
    let n = entries.len();
    let mut j = n;
    assert(entries@.take(n as int) =~= entries@);
    while j > 0
        invariant
            j <= n == entries.len(),
            lookup_term(entries@, name@) == lookup_term(entries@.take(j as int), name@),
        decreases j,
    {
        assert(entries@.take(j as int).drop_last() =~= entries@.take(j - 1));
        if entries[j - 1].0.eq(name) {
            return Some(j - 1);
        }
        j -= 1;
    }
    None
}

proof fn lemma_lookup_term_well_formed(entries: Seq<(String, Box<Node>)>, name: Seq<char>)
    requires
        terms_well_formed(entries),
    ensures
        lookup_term(entries, name) matches Some(t) ==> well_formed(*t, 0),
    decreases entries.len(),
{
    if entries.len() > 0 {
        assert(well_formed(*entries[entries.len() - 1].1, 0));
        assert forall|i: int| 0 <= i < entries.drop_last().len() implies well_formed(
            *(#[trigger] entries.drop_last()[i]).1,
            0,
        ) by {
            assert(entries.drop_last()[i] == entries[i]);
        }
        lemma_lookup_term_well_formed(entries.drop_last(), name);
    }
}

/// Whether the constant `n` may be used under `data`; every constant may be
/// used without it.
pub open spec fn usable(n: ConstantNode, data: Option<CompletionData>) -> bool {
    match data {
        Some(d) => spec_can_be_used(n, d),
        None => true,
    }
}

/// The names of the entries that may be used under `data`, in order.
pub open spec fn usable_names(entries: Seq<(String, ConstantNode)>, data: Option<CompletionData>) -> Seq<
    Seq<char>,
>
    decreases entries.len(),
{
    if entries.len() == 0 {
        Seq::<Seq<char>>::empty()
    } else if usable(entries.last().1, data) {
        usable_names(entries.drop_last(), data).push(entries.last().0@)
    } else {
        usable_names(entries.drop_last(), data)
    }
}

/// The names of a level's own constants, in order.
pub open spec fn own_names(extra: Option<Seq<(String, Box<Node>)>>) -> Seq<Seq<char>> {
    match extra {
        Some(e) => e.map_values(|p: (String, Box<Node>)| p.0@),
        None => Seq::<Seq<char>>::empty(),
    }
}

/// The names shown for the numbers when numerals are on.
pub open spec fn numeral_names(numerals: Numerals) -> Seq<Seq<char>> {
    match numerals {
        Numerals::Disabled => Seq::<Seq<char>>::empty(),
        Numerals::Church => seq!["0"@, "1"@, "..."@],
    }
}

/// The provider that knows every constant of `all`, and numerals.
pub closed spec fn all_provider<'a>(all: &'a AllConstants) -> ConstantProvider<'a> {
    ConstantProvider { constants: all, extra: None, completion_data: None, numerals: Numerals::Church }
}

/// Which constants and numbers a term may use, and what they stand for.
#[derive(Debug, Clone, Copy)]
pub struct ConstantProvider<'a> {
    constants: &'a AllConstants,
    /// Constants of a user created level, which come before the game's.
    extra: Option<&'a Vec<(String, Box<Node>)>>,
    /// The level served; `None` means that every constant may be used.
    completion_data: Option<CompletionData>,
    numerals: Numerals,
}

impl<'a> ConstantProvider<'a> {
    pub closed spec fn constants(self) -> Seq<(String, ConstantNode)> {
        self.constants.entries()
    }

    pub closed spec fn extra(self) -> Option<Seq<(String, Box<Node>)>> {
        match self.extra {
            Some(e) => Some(e@),
            None => None,
        }
    }

    pub closed spec fn completion(self) -> Option<CompletionData> {
        self.completion_data
    }

    pub closed spec fn numerals(self) -> Numerals {
        self.numerals
    }

    /// What the name `name` stands for with this provider: the numeral, for a
    /// decimal number up to 65535; otherwise the level's own constant of that
    /// name, or else the game's constant of that name if the level may use it.
    pub open spec fn get_spec(self, name: Seq<char>) -> Option<Box<Node>> {
        match spec_parse_unsigned(name, 65535) {
            Some(x) => self.numerals().spec_get_num(x),
            None => {
                let own = match self.extra() {
                    Some(e) => lookup_term(e, name),
                    None => None,
                };
                match own {
                    Some(t) => Some(t),
                    None => match lookup(self.constants(), name) {
                        Some(n) => if usable(n, self.completion()) {
                            Some(n.term)
                        } else {
                            None
                        },
                        None => None,
                    },
                }
            },
        }
    }

    /// All the terms the provider can give are well formed.
    pub open spec fn valid(self) -> bool {
        &&& entries_well_formed(self.constants())
        &&& self.extra() matches Some(e) ==> terms_well_formed(e)
    }

    /// Whatever a valid provider gives is well formed.
    pub proof fn lemma_get_well_formed(self, name: Seq<char>)
        requires
            self.valid(),
        ensures
            self.get_spec(name) matches Some(t) ==> well_formed(*t, 0),
    {
        lemma_lookup_well_formed(self.constants(), name);
        if let Some(e) = self.extra() {
            lemma_lookup_term_well_formed(e, name);
        }
        if let Some(x) = spec_parse_unsigned(name, 65535) {
            lemma_church_well_formed(x);
        }
    }

    /// The provider for `current_level`: on a game level, the constants known
    /// by then, and numerals from the numerals section on; on a user created
    /// level, its own constants, every constant of the game, and numerals.
    pub fn new(current_level: &'a Level, all: &'a AllConstants) -> (r: Self)
        ensures
            r.constants() == all.entries(),
            match current_level {
                Level::GameLevel(gl) => {
                    &&& r.extra() is None
                    &&& r.completion() == Some(CompletionData { section: gl.section, idx: gl.idx })
                    &&& r.numerals() == if section_rank(gl.section) >= section_rank(
                        SectionName::Numerals,
                    ) {
                        Numerals::Church
                    } else {
                        Numerals::Disabled
                    }
                },
                Level::UserCreatedLevel(u) => {
                    &&& r.extra() == Some(u.extra_constants@)
                    &&& r.completion() is None
                    &&& r.numerals() == Numerals::Church
                },
            },
            current_level.valid() ==> r.valid(),
    {
        proof {
            use_type_invariant(all);
        }
        match current_level {
            Level::GameLevel(gl) => ConstantProvider {
                constants: all,
                extra: None,
                completion_data: Some(CompletionData { section: gl.section, idx: gl.idx }),
                numerals: if gl.section.rank() >= SectionName::Numerals.rank() {
                    Numerals::Church
                } else {
                    Numerals::Disabled
                },
            },
            Level::UserCreatedLevel(u) => ConstantProvider {
                constants: all,
                extra: Some(&u.extra_constants),
                completion_data: None,
                numerals: Numerals::Church,
            },
        }
    }

    /// The provider of the game's first level, the first of the basic section:
    /// no numerals, and only the constants known from its start.
    pub fn none(all: &'a AllConstants) -> (r: Self)
        ensures
            r.constants() == all.entries(),
            r.extra() is None,
            r.completion() == Some(CompletionData { section: SectionName::Basic, idx: 0 }),
            r.numerals() == Numerals::Disabled,
            r.valid(),
    {
        proof {
            use_type_invariant(all);
        }
        ConstantProvider {
            constants: all,
            extra: None,
            completion_data: Some(CompletionData { section: SectionName::Basic, idx: 0 }),
            numerals: Numerals::Disabled,
        }
    }

    /// The provider that knows every constant of the game, and numerals.
    pub fn all(all: &'a AllConstants) -> (r: Self)
        ensures
            r == all_provider(all),
            r.constants() == all.entries(),
            r.extra() is None,
            r.completion() is None,
            r.numerals() == Numerals::Church,
            r.valid(),
    {
        proof {
            use_type_invariant(all);
        }
        ConstantProvider { constants: all, extra: None, completion_data: None, numerals: Numerals::Church }
    }

    /// The term that `name` stands for, if any.
    pub fn get(&self, name: &str) -> (r: Option<Box<Node>>)
        ensures
            r == self.get_spec(name@),
    {
        let chars = chars_of(name);
        match parse_unsigned(&chars, 65535) {
            Some(x) => {
                assert(x <= 65535);
                self.numerals.get_num(x as u16)
            },
            None => {
                let key = String::from_str(name);
                let own = match self.extra {
                    Some(e) => match find_last_term(e, &key) {
                        Some(i) => Some(Box::new((*e[i].1).copy())),
                        None => None,
                    },
                    None => None,
                };
                if own.is_some() {
                    return own;
                }
                let entries = &self.constants.entries;
                match find_last(entries, &key) {
                    Some(i) => {
                        let n = &entries[i].1;
                        let allowed = match &self.completion_data {
                            Some(d) => n.can_be_used(d),
                            None => true,
                        };
                        if allowed {
                            Some(Box::new((*n.term).copy()))
                        } else {
                            None
                        }
                    },
                    None => None,
                }
            },
        }
    }

    /// The names of the game's constants that may be used, in the order they
    /// are declared, then, with numerals on, "0", "1" and "...".
    pub fn all_known_constants(&self) -> (r: Vec<String>)
        ensures
            r@.map_values(|s: String| s@) == own_names(self.extra()) + usable_names(
                self.constants(),
                self.completion(),
            ) + numeral_names(self.numerals()),
    {
        let entries = &self.constants.entries;
        let mut r: Vec<String> = Vec::new();
        if let Some(e) = self.extra {
            let m = e.len();
            for i in 0..m
                invariant
                    m == e.len(),
                    r@.map_values(|s: String| s@) == e@.take(i as int).map_values(
                        |p: (String, Box<Node>)| p.0@,
                    ),
            {
                r.push(e[i].0.clone());
                assert(e@.take(i + 1).map_values(|p: (String, Box<Node>)| p.0@) =~= e@.take(
                    i as int,
                ).map_values(|p: (String, Box<Node>)| p.0@).push(e@[i as int].0@));
                assert(r@.map_values(|s: String| s@) =~= e@.take(i + 1).map_values(
                    |p: (String, Box<Node>)| p.0@,
                ));
            }
            assert(e@.take(m as int) =~= e@);
        }
        let ghost own = r@;
        assert(own.map_values(|s: String| s@) == own_names(self.extra()));
        let n = entries.len();
        for i in 0..n
            invariant
                n == entries.len(),
                entries@ == self.constants(),
                r@.map_values(|s: String| s@) == own_names(self.extra()) + usable_names(
                    entries@.take(i as int),
                    self.completion(),
                ),
        {
            let allowed = match &self.completion_data {
                Some(d) => entries[i].1.can_be_used(d),
                None => true,
            };
            let ghost before = r@;
            if allowed {
                r.push(entries[i].0.clone());
                assert(r@ == before.push(entries@[i as int].0));
                assert(r@.map_values(|s: String| s@) =~= before.map_values(|s: String| s@).push(
                    entries@[i as int].0@,
                ));
            }
            proof {
                let t1 = entries@.take(i + 1);
                assert(t1.drop_last() =~= entries@.take(i as int));
                assert(t1.last() == entries@[i as int]);
                assert(allowed == usable(entries@[i as int].1, self.completion()));
                assert(r@.map_values(|s: String| s@) =~= own_names(self.extra()) + usable_names(
                    t1,
                    self.completion(),
                ));
            }
        }
        assert(entries@.take(n as int) =~= entries@);
        match self.numerals {
            Numerals::Disabled => {
                assert(r@.map_values(|s: String| s@) =~= own_names(self.extra()) + usable_names(
                    self.constants(),
                    self.completion(),
                ) + numeral_names(self.numerals()));
            },
            Numerals::Church => {
                r.push(String::from_str("0"));
                r.push(String::from_str("1"));
                r.push(String::from_str("..."));
                proof {
                    reveal_strlit("0");
                    reveal_strlit("1");
                    reveal_strlit("...");
                }
                assert(r@.map_values(|s: String| s@) =~= own_names(self.extra()) + usable_names(
                    self.constants(),
                    self.completion(),
                ) + numeral_names(self.numerals()));
            },
        }
        r
    }
}

impl Level {
    /// The names of the constants shown as known on this level: on a game
    /// level that shows constants, and on a user created level, all that its
    /// provider knows; none on a game level that does not show them.
    pub fn all_known_constants(&self, all: &AllConstants) -> (r: Vec<String>)
        ensures
            match self {
                Level::GameLevel(gl) => if gl.show_constants {
                    r@.map_values(|s: String| s@) == usable_names(
                        all.entries(),
                        Some(CompletionData { section: gl.section, idx: gl.idx }),
                    ) + numeral_names(
                        if section_rank(gl.section) >= section_rank(SectionName::Numerals) {
                            Numerals::Church
                        } else {
                            Numerals::Disabled
                        },
                    )
                } else {
                    r@.len() == 0
                },
                Level::UserCreatedLevel(u) => r@.map_values(|s: String| s@) == own_names(
                    Some(u.extra_constants@),
                ) + usable_names(all.entries(), None) + numeral_names(Numerals::Church),
            },
    {
        let show = match self {
            Level::GameLevel(gl) => gl.show_constants,
            Level::UserCreatedLevel(_) => true,
        };
        if show {
            ConstantProvider::new(self, all).all_known_constants()
        } else {
            Vec::new()
        }
    }
}

proof fn lemma_lookup_some(entries: Seq<(String, ConstantNode)>, name: Seq<char>)
    requires
        lookup(entries, name) is Some,
    ensures
        exists|k: int| 0 <= k < entries.len() && (#[trigger] entries[k]).0@ == name,
    decreases entries.len(),
{
    if entries.last().0@ != name {
        lemma_lookup_some(entries.drop_last(), name);
        let k = choose|k: int| 0 <= k < entries.drop_last().len() && (#[trigger] entries.drop_last()[k]).0@ == name;
        assert(entries[k] == entries.drop_last()[k]);
    } else {
        assert(entries[entries.len() - 1].0@ == name);
    }
}

proof fn lemma_usable_names(entries: Seq<(String, ConstantNode)>, data: Option<CompletionData>, name: Seq<char>)
    requires
        names_unique(entries),
    ensures
        usable_names(entries, data).contains(name) <==> (lookup(entries, name) matches Some(n) && usable(
            n,
            data,
        )),
        usable_names(entries, data).no_duplicates(),
    decreases entries.len(),
{
    if entries.len() > 0 {
        let rest = entries.drop_last();
        let x = entries.last();
        assert forall|i: int, j: int| 0 <= i < j < rest.len() implies (#[trigger] rest[i]).0@ != (
        #[trigger] rest[j]).0@ by {
            assert(rest[i] == entries[i] && rest[j] == entries[j]);
        }
        lemma_usable_names(rest, data, name);
        lemma_usable_names(rest, data, x.0@);
        if lookup(rest, x.0@) is Some {
            lemma_lookup_some(rest, x.0@);
            let k = choose|k: int| 0 <= k < rest.len() && (#[trigger] rest[k]).0@ == x.0@;
            assert(rest[k] == entries[k]);
            assert(entries[entries.len() - 1] == x);
        }
        let u = usable_names(rest, data);
        if usable(x.1, data) {
            assert(usable_names(entries, data) == u.push(x.0@));
            assert(!u.contains(x.0@));
            assert(u.push(x.0@).contains(name) <==> (u.contains(name) || name == x.0@)) by {
                if name == x.0@ {
                    assert(u.push(x.0@)[u.len() as int] == name);
                }
                if u.push(x.0@).contains(name) {
                    let t = choose|t: int| 0 <= t < u.push(x.0@).len() && u.push(x.0@)[t] == name;
                    if t < u.len() {
                        assert(u[t] == name);
                    }
                }
                if u.contains(name) {
                    let t = choose|t: int| 0 <= t < u.len() && u[t] == name;
                    assert(u.push(x.0@)[t] == name);
                }
            }
            assert forall|i: int, j: int| 0 <= i < u.push(x.0@).len() && 0 <= j < u.push(x.0@).len() && i
                != j implies u.push(x.0@)[i] != u.push(x.0@)[j] by {
                if i == u.len() as int {
                    assert(u[j] != x.0@) by {
                        assert(u.contains(u[j]));
                    }
                } else if j == u.len() as int {
                    assert(u[i] != x.0@) by {
                        assert(u.contains(u[i]));
                    }
                }
            }
        }
    }
}

/// The names a provider of a game level (no constants of its own) lists as
/// known are those it gives a term for: no name comes twice among the game's
/// constants it may use, a name that is not a number is among them exactly
/// when looking it up gives a term, and `0`, `1` and `...` are listed exactly
/// when numerals are on.
pub proof fn known_constants_match_lookup(p: ConstantProvider, name: Seq<char>)
    requires
        p.extra() is None,
        names_unique(p.constants()),
    ensures
        usable_names(p.constants(), p.completion()).no_duplicates(),
        spec_parse_unsigned(name, 65535) is None ==> (usable_names(p.constants(), p.completion()).contains(
            name,
        ) <==> p.get_spec(name) is Some),
        numeral_names(p.numerals()) == if p.numerals() == Numerals::Church {
            seq!["0"@, "1"@, "..."@]
        } else {
            Seq::<Seq<char>>::empty()
        },
{
    lemma_usable_names(p.constants(), p.completion(), name);
}

/// The shape of the provider of the game level numbered `idx` in `section`.
pub open spec fn serves_game_level(p: ConstantProvider, section: SectionName, idx: usize) -> bool {
    &&& p.extra() is None
    &&& p.completion() == Some(CompletionData { section, idx })
    &&& p.numerals() == if section_rank(section) >= section_rank(SectionName::Numerals) {
        Numerals::Church
    } else {
        Numerals::Disabled
    }
}

/// Whatever a level's provider gives a term for, the provider of any later
/// level gives a term for too. A constant that solving a level provides is
/// unknown on that level and known on every level after it; the provider of
/// every constant knows every constant.
pub proof fn lookup_grows_with_levels(
    p1: ConstantProvider,
    p2: ConstantProvider,
    a: CompletionData,
    b: CompletionData,
    name: Seq<char>,
)
    requires
        p1.constants() == p2.constants(),
        serves_game_level(p1, a.section, a.idx),
        serves_game_level(p2, b.section, b.idx),
        level_not_after(a, b),
    ensures
        p1.get_spec(name) is Some ==> p2.get_spec(name) is Some,
        lookup(p1.constants(), name) matches Some(n) && n.section == a.section && n.lvl_discovered == a.idx
            && !n.before_level && spec_parse_unsigned(name, 65535) is None ==> p1.get_spec(name) is None
            && (a != b ==> p2.get_spec(name) is Some),
{
    if a.section == b.section {
        assert(section_rank(a.section) == section_rank(b.section));
    }
    match lookup(p1.constants(), name) {
        Some(n) => {
            if spec_can_be_used(n, a) {
                constants_stay_known(n, a, b);
            }
            if n.section == a.section && n.lvl_discovered == a.idx && !n.before_level && a != b {
                if b.section == a.section {
                    assert(b.idx != a.idx);
                }
            }
        },
        None => {},
    }
}

/// The provider of every constant gives a term for a name that is not a
/// number exactly when the game has a constant of that name.
pub proof fn all_provider_knows_all(all: &AllConstants, name: Seq<char>)
    ensures
        spec_parse_unsigned(name, 65535) is None ==> (all_provider(all).get_spec(name) is Some <==> lookup(
            all.entries(),
            name,
        ) is Some),
{
}

/// A constant of a section is usable on every level of every section
/// declared after it, whatever its place in its own section.
pub proof fn earlier_sections_known(n: ConstantNode, d: CompletionData, i: int, j: int)
    requires
        0 <= i < j < crate::levels::section::declared_sections().len(),
        n.section == crate::levels::section::declared_sections()[i],
        d.section == crate::levels::section::declared_sections()[j],
    ensures
        spec_can_be_used(n, d),
{
    crate::levels::section::rank_follows_declared_order();
    assert(section_rank(crate::levels::section::declared_sections()[i]) < section_rank(
        crate::levels::section::declared_sections()[j],
    ));
}

} // verus!
