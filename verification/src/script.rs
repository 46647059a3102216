//! Dialogue scripts: nodes of spoken text with options, hooks and links to
//! other nodes, the chainable builders that assemble them, and the plain
//! (serialisable) form scripts take in `.ron` assets.

use vstd::prelude::*;

use crate::text::{append_chars, chars_eq, chars_of, string_from_chars};
use crate::voice::VoicePreset;

verus! {

/// Mapping a one-longer prefix adds the mapped element at the end.
pub proof fn lemma_map_take_push<A, B>(s: Seq<A>, k: int, f: spec_fn(A) -> B)
    requires
        0 <= k < s.len(),
    ensures
        s.take(k + 1).map_values(f) == s.take(k).map_values(f).push(f(s[k])),
{
    assert(s.take(k + 1).map_values(f) =~= s.take(k).map_values(f).push(f(s[k])));
}

/// Mapping a sequence that lost its first element.
pub proof fn lemma_map_drop_first<A, B>(s: Seq<A>, f: spec_fn(A) -> B)
    requires
        s.len() > 0,
    ensures
        s.drop_first().map_values(f) == s.map_values(f).drop_first(),
{
    assert(s.drop_first().map_values(f) =~= s.map_values(f).drop_first());
}

/// The view of an optional string.
pub open spec fn opt_str(o: Option<String>) -> Option<Seq<char>> {
    match o {
        Some(s) => Some(s@),
        None => None,
    }
}

/// The views of a list of strings.
pub open spec fn strs(v: Seq<String>) -> Seq<Seq<char>> {
    v.map_values(|s: String| s@)
}

pub fn clone_str(s: &String) -> (r: String)
    ensures
        r@ == s@,
{
    s.clone()
}

pub fn clone_opt_str(s: &Option<String>) -> (r: Option<String>)
    ensures
        opt_str(r) == opt_str(*s),
{
    match s {
        Some(v) => Some(v.clone()),
        None => None,
    }
}

pub fn clone_strs(v: &Vec<String>) -> (r: Vec<String>)
    ensures
        strs(r@) == strs(v@),
{
    let mut out: Vec<String> = Vec::new();
    let mut k: usize = 0;
    while k < v.len()
        invariant
            k <= v@.len(),
            strs(out@) == strs(v@.take(k as int)),
        decreases v.len() - k,
    {
        proof {
            lemma_map_take_push(v@, k as int, |s: String| s@);
        }
        out.push(v[k].clone());
        k += 1;
        assert(strs(out@) =~= strs(v@.take(k as int)));
    }
    assert(v@.take(k as int) =~= v@);
    out
}

/// A string holding the characters of `s`.
pub fn owned(s: &str) -> (r: String)
    ensures
        r@ == s@,
{
    s.to_owned()
}

// ---------------------------------------------------------------
// options
// ---------------------------------------------------------------

/// What an option is: its id, its text, the node it leads to and the hooks it fires.
pub struct OptionModel {
    pub id: Option<Seq<char>>,
    pub text: Seq<char>,
    pub next: Option<Seq<char>>,
    pub hooks: Seq<Seq<char>>,
}

#[derive(Debug)]
pub struct RatOption {
    pub id: Option<String>,
    pub text: String,
    pub next: Option<String>,
    pub hooks: Vec<String>,
}

impl View for RatOption {
    type V = OptionModel;

    open spec fn view(&self) -> OptionModel {
        OptionModel {
            id: opt_str(self.id),
            text: self.text@,
            next: opt_str(self.next),
            hooks: strs(self.hooks@),
        }
    }
}

impl RatOption {
    pub fn duplicate(&self) -> (r: RatOption)
        ensures
            r@ == self@,
    {
        RatOption {
            id: clone_opt_str(&self.id),
            text: clone_str(&self.text),
            next: clone_opt_str(&self.next),
            hooks: clone_strs(&self.hooks),
        }
    }
}

/// The views of a list of options.
pub open spec fn option_models(v: Seq<RatOption>) -> Seq<OptionModel> {
    v.map_values(|o: RatOption| o@)
}

pub fn clone_options(v: &Vec<RatOption>) -> (r: Vec<RatOption>)
    ensures
        option_models(r@) == option_models(v@),
{
    let mut out: Vec<RatOption> = Vec::new();
    let mut k: usize = 0;
    while k < v.len()
        invariant
            k <= v@.len(),
            option_models(out@) == option_models(v@.take(k as int)),
        decreases v.len() - k,
    {
        proof {
            lemma_map_take_push(v@, k as int, |o: RatOption| o@);
        }
        out.push(v[k].duplicate());
        k += 1;
        assert(option_models(out@) =~= option_models(v@.take(k as int)));
    }
    assert(v@.take(k as int) =~= v@);
    out
}

// ---------------------------------------------------------------
// nodes
// ---------------------------------------------------------------

/// What a node is.
pub struct NodeModel {
    pub id: Seq<char>,
    pub speaker: Seq<char>,
    pub text: Seq<char>,
    pub portrait_path: Seq<char>,
    pub voice: VoicePreset,
    pub next: Option<Seq<char>>,
    pub hooks: Seq<Seq<char>>,
    pub options: Seq<OptionModel>,
}

#[derive(Debug)]
pub struct RatNode {
    pub id: String,
    pub speaker: String,
    pub text: String,
    pub portrait_path: String,
    pub voice: VoicePreset,
    pub next: Option<String>,
    pub hooks: Vec<String>,
    pub options: Vec<RatOption>,
}

impl View for RatNode {
    type V = NodeModel;

    open spec fn view(&self) -> NodeModel {
        NodeModel {
            id: self.id@,
            speaker: self.speaker@,
            text: self.text@,
            portrait_path: self.portrait_path@,
            voice: self.voice,
            next: opt_str(self.next),
            hooks: strs(self.hooks@),
            options: option_models(self.options@),
        }
    }
}

impl RatNode {
    pub fn duplicate(&self) -> (r: RatNode)
        ensures
            r@ == self@,
    {
        RatNode {
            id: clone_str(&self.id),
            speaker: clone_str(&self.speaker),
            text: clone_str(&self.text),
            portrait_path: clone_str(&self.portrait_path),
            voice: self.voice,
            next: clone_opt_str(&self.next),
            hooks: clone_strs(&self.hooks),
            options: clone_options(&self.options),
        }
    }
}

/// The views of a list of nodes.
pub open spec fn node_models(v: Seq<RatNode>) -> Seq<NodeModel> {
    v.map_values(|n: RatNode| n@)
}

/// The speaker given to a node that names none.
pub open spec fn default_speaker() -> Seq<char> {
    "unknown"@
}

/// The portrait given to a node that names none.
pub open spec fn default_portrait() -> Seq<char> {
    "models/npc_a/npc_a.png"@
}

/// A fresh node with the given id and every other field at its default.
pub open spec fn fresh_node(id: Seq<char>) -> NodeModel {
    NodeModel {
        id,
        speaker: default_speaker(),
        text: Seq::empty(),
        portrait_path: default_portrait(),
        voice: VoicePreset::NeutralNpc,
        next: None,
        hooks: Seq::empty(),
        options: Seq::empty(),
    }
}

// ---------------------------------------------------------------
// scripts
// ---------------------------------------------------------------

/// The first node of `nodes` with the given id, if any.
pub open spec fn find_node(nodes: Seq<NodeModel>, id: Seq<char>) -> Option<int>
    decreases nodes.len(),
{
    if nodes.len() == 0 {
        None
    } else if nodes.last().id == id {
        match find_node(nodes.drop_last(), id) {
            Some(k) => Some(k),
            None => Some(nodes.len() - 1),
        }
    } else {
        find_node(nodes.drop_last(), id)
    }
}

/// No two nodes share an id.
pub open spec fn ids_unique(nodes: Seq<NodeModel>) -> bool {
    forall|a: int, b: int| 0 <= a < b < nodes.len() ==> nodes[a].id != nodes[b].id
}

/// The node with the given id.
pub open spec fn node_named(nodes: Seq<NodeModel>, id: Seq<char>) -> Option<NodeModel> {
    match find_node(nodes, id) {
        Some(k) => Some(nodes[k]),
        None => None,
    }
}

pub proof fn lemma_find_node(nodes: Seq<NodeModel>, id: Seq<char>)
    ensures
        match find_node(nodes, id) {
            Some(k) => 0 <= k < nodes.len() && nodes[k].id == id && forall|j: int|
                0 <= j < k ==> nodes[j].id != id,
            None => forall|j: int| 0 <= j < nodes.len() ==> nodes[j].id != id,
        },
    decreases nodes.len(),
{
    if nodes.len() > 0 {
        let t = nodes.drop_last();
        lemma_find_node(t, id);
        assert forall|j: int| 0 <= j < t.len() implies t[j] == nodes[j] by {}
    }
}

/// What a script is: its id, its entry node and its nodes.
pub struct ScriptModel {
    pub id: Seq<char>,
    pub entry: Seq<char>,
    pub nodes: Seq<NodeModel>,
}

/// A dialogue script. Its nodes are kept in a list whose ids are distinct; a node is
/// found by its id.
#[derive(Debug)]
pub struct RatScript {
    pub id: String,
    pub entry: String,
    pub nodes: Vec<RatNode>,
}

impl View for RatScript {
    type V = ScriptModel;

    open spec fn view(&self) -> ScriptModel {
        ScriptModel { id: self.id@, entry: self.entry@, nodes: node_models(self.nodes@) }
    }
}

/// The position of the node with id `id` in `nodes`, if any.
pub fn position_of_node(nodes: &Vec<RatNode>, id: &[char]) -> (r: Option<usize>)
    ensures
        r matches Some(k) ==> find_node(node_models(nodes@), id@) == Some(k as int),
        r is None ==> find_node(node_models(nodes@), id@) is None,
{
    proof {
        lemma_find_node(node_models(nodes@), id@);
    }
    let mut k: usize = 0;
    while k < nodes.len()
        invariant
            k <= nodes@.len(),
            forall|j: int| 0 <= j < k ==> node_models(nodes@)[j].id != id@,
            match find_node(node_models(nodes@), id@) {
                Some(m) => 0 <= m < nodes@.len() && node_models(nodes@)[m].id == id@ && forall|
                    j: int,
                | 0 <= j < m ==> node_models(nodes@)[j].id != id@,
                None => forall|j: int| 0 <= j < nodes@.len() ==> node_models(nodes@)[j].id != id@,
            },
        decreases nodes.len() - k,
    {
        let here = chars_of(nodes[k].id.as_str());
        assert(node_models(nodes@)[k as int] == nodes@[k as int]@);
        if chars_eq(&here, id) {
            return Some(k);
        }
        k += 1;
    }
    None
}

/// `nodes` with `node` stored under its id: a node with the same id is replaced in
/// place, otherwise the node is added at the end.
pub open spec fn store_node(nodes: Seq<NodeModel>, node: NodeModel) -> Seq<NodeModel> {
    match find_node(nodes, node.id) {
        Some(k) => nodes.update(k, node),
        None => nodes.push(node),
    }
}

pub proof fn lemma_store_node_unique(nodes: Seq<NodeModel>, node: NodeModel)
    requires
        ids_unique(nodes),
    ensures
        ids_unique(store_node(nodes, node)),
        node_named(store_node(nodes, node), node.id) == Some(node),
        forall|other: Seq<char>|
            other != node.id ==> node_named(store_node(nodes, node), other) == node_named(
                nodes,
                other,
            ),
{
    lemma_find_node(nodes, node.id);
    let s = store_node(nodes, node);
    lemma_find_node(s, node.id);
    match find_node(nodes, node.id) {
        Some(k) => {
            assert(s[k] == node);
            assert forall|j: int| 0 <= j < k implies s[j].id != node.id by {
                assert(s[j] == nodes[j]);
            }
        },
        None => {
            assert(s[nodes.len() as int] == node);
            assert forall|j: int| 0 <= j < nodes.len() implies s[j].id != node.id by {
                assert(s[j] == nodes[j]);
            }
        },
    }
    assert forall|other: Seq<char>| other != node.id implies node_named(s, other) == node_named(
        nodes,
        other,
    ) by {
        lemma_find_node(nodes, other);
        lemma_find_node(s, other);
        match find_node(nodes, other) {
            Some(k) => {
                assert(s[k] == nodes[k]);
            },
            None => {
            },
        }
    }
}

/// Stores `node` in `nodes` under its id (see `store_node`).
pub fn insert_node(nodes: &mut Vec<RatNode>, node: RatNode)
    ensures
        node_models(final(nodes)@) == store_node(node_models(old(nodes)@), node@),
{
    let id = chars_of(node.id.as_str());
    proof {
        lemma_find_node(node_models(nodes@), id@);
    }
    match position_of_node(nodes, &id) {
        Some(k) => {
            nodes.set(k, node);
            assert(node_models(nodes@) =~= store_node(node_models(old(nodes)@), node@));
        },
        None => {
            nodes.push(node);
            assert(node_models(nodes@) =~= store_node(node_models(old(nodes)@), node@));
        },
    }
}

impl RatScript {
    pub fn duplicate(&self) -> (r: RatScript)
        ensures
            r@ == self@,
    {
        let mut nodes: Vec<RatNode> = Vec::new();
        let mut k: usize = 0;
        while k < self.nodes.len()
            invariant
                k <= self.nodes@.len(),
                node_models(nodes@) == node_models(self.nodes@.take(k as int)),
            decreases self.nodes.len() - k,
        {
            proof {
                lemma_map_take_push(self.nodes@, k as int, |n: RatNode| n@);
            }
            nodes.push(self.nodes[k].duplicate());
            k += 1;
            assert(node_models(nodes@) =~= node_models(self.nodes@.take(k as int)));
        }
        assert(self.nodes@.take(k as int) =~= self.nodes@);
        RatScript { id: clone_str(&self.id), entry: clone_str(&self.entry), nodes }
    }

    /// No two nodes of the script share an id.
    pub open spec fn well_formed(&self) -> bool {
        ids_unique(self@.nodes)
    }

    /// The node with the given id, if the script has one.
    pub fn get_node(&self, id: &str) -> (r: Option<&RatNode>)
        ensures
            match node_named(self@.nodes, id@) {
                Some(n) => r matches Some(x) && x@ == n,
                None => r is None,
            },
    {
        let key = chars_of(id);
        proof {
            lemma_find_node(node_models(self.nodes@), id@);
        }
        match position_of_node(&self.nodes, &key) {
            Some(k) => Some(&self.nodes[k]),
            None => None,
        }
    }

    /// Whether the script has a node with the given id.
    pub fn contains_node(&self, id: &str) -> (r: bool)
        ensures
            r == (node_named(self@.nodes, id@) is Some),
    {
        let key = chars_of(id);
        position_of_node(&self.nodes, &key).is_some()
    }

    /// A script of one node `start`, spoken by `speaker`, that says `text`.
    pub fn single(id: &str, speaker: &str, text: &str) -> (r: RatScript)
        ensures
            r@ == (ScriptModel {
                id: id@,
                entry: "start"@,
                nodes: seq![NodeModel { speaker: speaker@, text: text@, ..fresh_node("start"@) }],
            }),
            r.well_formed(),
    {
        let node = RatNodeBuilder::new("start").speaker(speaker).text(text).build();
        let mut nodes: Vec<RatNode> = Vec::new();
        nodes.push(node);
        assert(node_models(nodes@) =~= seq![node@]);
        RatScript { id: owned(id), entry: owned("start"), nodes }
    }
}

// ---------------------------------------------------------------
// builders
// ---------------------------------------------------------------

#[derive(Debug)]
pub struct RatOptionBuilder {
    id: Option<String>,
    text: String,
    next: Option<String>,
    hooks: Vec<String>,
}

impl View for RatOptionBuilder {
    type V = OptionModel;

    closed spec fn view(&self) -> OptionModel {
        OptionModel {
            id: opt_str(self.id),
            text: self.text@,
            next: opt_str(self.next),
            hooks: strs(self.hooks@),
        }
    }
}

impl RatOptionBuilder {
    /// An option showing `text`, with no id, no target and no hooks.
    pub fn new(text: &str) -> (r: Self)
        ensures
            r@ == (OptionModel { id: None, text: text@, next: None, hooks: Seq::empty() }),
    {
        let r = RatOptionBuilder { id: None, text: owned(text), next: None, hooks: Vec::new() };
        assert(strs(r.hooks@) =~= Seq::<Seq<char>>::empty());
        r
    }

    pub fn id(self, id: &str) -> (r: Self)
        ensures
            r@ == (OptionModel { id: Some(id@), ..self@ }),
    {
        RatOptionBuilder { id: Some(owned(id)), ..self }
    }

    pub fn goto(self, node_id: &str) -> (r: Self)
        ensures
            r@ == (OptionModel { next: Some(node_id@), ..self@ }),
    {
        RatOptionBuilder { next: Some(owned(node_id)), ..self }
    }

    pub fn hook(self, hook: &str) -> (r: Self)
        ensures
            r@ == (OptionModel { hooks: self@.hooks.push(hook@), ..self@ }),
    {
        let mut s = self;
        let ghost before = s.hooks@;
        s.hooks.push(owned(hook));
        assert(strs(s.hooks@) =~= strs(before).push(hook@));
        s
    }

    pub fn build(self) -> (r: RatOption)
        ensures
            r@ == self@,
    {
        RatOption { id: self.id, text: self.text, next: self.next, hooks: self.hooks }
    }
}

#[derive(Debug)]
pub struct RatNodeBuilder {
    id: String,
    speaker: String,
    text: String,
    portrait_path: String,
    voice: VoicePreset,
    next: Option<String>,
    hooks: Vec<String>,
    options: Vec<RatOptionBuilder>,
}

/// The views of a list of option builders.
pub open spec fn option_builder_models(v: Seq<RatOptionBuilder>) -> Seq<OptionModel> {
    v.map_values(|o: RatOptionBuilder| o@)
}

impl View for RatNodeBuilder {
    type V = NodeModel;

    closed spec fn view(&self) -> NodeModel {
        NodeModel {
            id: self.id@,
            speaker: self.speaker@,
            text: self.text@,
            portrait_path: self.portrait_path@,
            voice: self.voice,
            next: opt_str(self.next),
            hooks: strs(self.hooks@),
            options: option_builder_models(self.options@),
        }
    }
}

impl RatNodeBuilder {
    /// A node `id` with the default speaker and portrait, empty text, the neutral
    /// voice, no successor, no hooks and no options.
    pub fn new(id: &str) -> (r: Self)
        ensures
            r@ == fresh_node(id@),
    {
        let r = RatNodeBuilder {
            id: owned(id),
            speaker: owned("unknown"),
            text: String::new(),
            portrait_path: owned("models/npc_a/npc_a.png"),
            voice: VoicePreset::NeutralNpc,
            next: None,
            hooks: Vec::new(),
            options: Vec::new(),
        };
        assert(strs(r.hooks@) =~= Seq::<Seq<char>>::empty());
        assert(option_builder_models(r.options@) =~= Seq::<OptionModel>::empty());
        r
    }

    pub fn speaker(self, speaker: &str) -> (r: Self)
        ensures
            r@ == (NodeModel { speaker: speaker@, ..self@ }),
    {
        RatNodeBuilder { speaker: owned(speaker), ..self }
    }

    pub fn text(self, text: &str) -> (r: Self)
        ensures
            r@ == (NodeModel { text: text@, ..self@ }),
    {
        RatNodeBuilder { text: owned(text), ..self }
    }

    pub fn portrait(self, path: &str) -> (r: Self)
        ensures
            r@ == (NodeModel { portrait_path: path@, ..self@ }),
    {
        RatNodeBuilder { portrait_path: owned(path), ..self }
    }

    pub fn voice(self, preset: VoicePreset) -> (r: Self)
        ensures
            r@ == (NodeModel { voice: preset, ..self@ }),
    {
        RatNodeBuilder { voice: preset, ..self }
    }

    pub fn next(self, node_id: &str) -> (r: Self)
        ensures
            r@ == (NodeModel { next: Some(node_id@), ..self@ }),
    {
        RatNodeBuilder { next: Some(owned(node_id)), ..self }
    }

    pub fn hook(self, hook: &str) -> (r: Self)
        ensures
            r@ == (NodeModel { hooks: self@.hooks.push(hook@), ..self@ }),
    {
        let mut s = self;
        let ghost before = s.hooks@;
        s.hooks.push(owned(hook));
        assert(strs(s.hooks@) =~= strs(before).push(hook@));
        s
    }

    pub fn option(self, option: RatOptionBuilder) -> (r: Self)
        ensures
            r@ == (NodeModel { options: self@.options.push(option@), ..self@ }),
    {
        let mut s = self;
        let ghost before = s.options@;
        s.options.push(option);
        assert(option_builder_models(s.options@) =~= option_builder_models(before).push(option@));
        s
    }

    pub fn build(self) -> (r: RatNode)
        ensures
            r@ == self@,
    {
        let RatNodeBuilder { id, speaker, text, portrait_path, voice, next, hooks, options } =
            self;
        let mut built: Vec<RatOption> = Vec::new();
        let ghost src = option_builder_models(options@);
        let mut rest = options;
        while rest.len() > 0
            invariant
                option_models(built@) + option_builder_models(rest@) == src,
            decreases rest.len(),
        {
            let ghost r0 = rest@;
            let ghost b0 = built@;
            let o = rest.remove(0);
            assert(r0 =~= seq![o].add(rest@));
            proof {
                lemma_map_drop_first(r0, |o: RatOptionBuilder| o@);
            }
            built.push(o.build());
            assert(option_models(built@) + option_builder_models(rest@) =~= option_models(b0)
                + option_builder_models(r0));
        }
        assert(option_models(built@) =~= src);
        RatNode { id, speaker, text, portrait_path, voice, next, hooks, options: built }
    }
}

#[derive(Debug)]
pub struct RatScriptBuilder {
    id: String,
    entry: String,
    nodes: Vec<RatNodeBuilder>,
}

/// The views of a list of node builders.
pub open spec fn node_builder_models(v: Seq<RatNodeBuilder>) -> Seq<NodeModel> {
    v.map_values(|n: RatNodeBuilder| n@)
}

/// The nodes stored one after the other, each replacing an earlier one of the same id.
pub open spec fn stored_nodes(v: Seq<NodeModel>) -> Seq<NodeModel>
    decreases v.len(),
{
    if v.len() == 0 {
        Seq::empty()
    } else {
        store_node(stored_nodes(v.drop_last()), v.last())
    }
}

/// What a script builder holds: its id, its entry and its nodes in the order added.
pub struct ScriptBuilderModel {
    pub id: Seq<char>,
    pub entry: Seq<char>,
    pub nodes: Seq<NodeModel>,
}

impl View for RatScriptBuilder {
    type V = ScriptBuilderModel;

    closed spec fn view(&self) -> ScriptBuilderModel {
        ScriptBuilderModel {
            id: self.id@,
            entry: self.entry@,
            nodes: node_builder_models(self.nodes@),
        }
    }
}

impl RatScriptBuilder {
    /// A builder for script `id` whose entry is `start` and that has no nodes yet.
    pub fn new(id: &str) -> (r: Self)
        ensures
            r@ == (ScriptBuilderModel { id: id@, entry: "start"@, nodes: Seq::empty() }),
    {
        let r = RatScriptBuilder { id: owned(id), entry: owned("start"), nodes: Vec::new() };
        assert(node_builder_models(r.nodes@) =~= Seq::<NodeModel>::empty());
        r
    }

    pub fn entry(self, node_id: &str) -> (r: Self)
        ensures
            r@ == (ScriptBuilderModel { entry: node_id@, ..self@ }),
    {
        RatScriptBuilder { entry: owned(node_id), ..self }
    }

    pub fn node(self, node: RatNodeBuilder) -> (r: Self)
        ensures
            r@ == (ScriptBuilderModel { nodes: self@.nodes.push(node@), ..self@ }),
    {
        let mut s = self;
        let ghost before = s.nodes@;
        s.nodes.push(node);
        assert(node_builder_models(s.nodes@) =~= node_builder_models(before).push(node@));
        s
    }

    /// The script: the nodes added, where a node replaces an earlier one of the same id.
    pub fn build(self) -> (r: RatScript)
        ensures
            r@ == (ScriptModel { id: self@.id, entry: self@.entry, nodes: stored_nodes(self@.nodes) }),
            r.well_formed(),
    {
        let RatScriptBuilder { id, entry, nodes } = self;
        let ghost src = node_builder_models(nodes@);
        let mut rest = nodes;
        let mut built: Vec<RatNode> = Vec::new();
        let mut k: usize = 0;
        let total: usize = rest.len();
        assert(src.len() == total);
        while rest.len() > 0
            invariant
                k + rest@.len() == src.len(),
                src.len() <= usize::MAX,
                node_builder_models(rest@) == src.subrange(k as int, src.len() as int),
                node_models(built@) == stored_nodes(src.take(k as int)),
                ids_unique(node_models(built@)),
            decreases rest.len(),
        {
            let ghost r0 = rest@;
            let n = rest.remove(0);
            proof {
                assert(r0 =~= seq![n].add(rest@));
                assert(node_builder_models(r0)[0] == n@);
                assert(src[k as int] == n@);
                assert(rest@ == r0.drop_first());
                lemma_map_drop_first(r0, |n: RatNodeBuilder| n@);
                assert(node_builder_models(rest@) =~= src.subrange(k + 1, src.len() as int));
                assert(src.take(k + 1).drop_last() =~= src.take(k as int));
                lemma_store_node_unique(node_models(built@), n@);
            }
            let node = n.build();
            insert_node(&mut built, node);
            k += 1;
        }
        assert(src.take(k as int) =~= src);
        RatScript { id, entry, nodes: built }
    }
}

/// Storing nodes whose ids are distinct keeps them all, in order.
pub proof fn lemma_stored_nodes_distinct(v: Seq<NodeModel>)
    requires
        ids_unique(v),
    ensures
        stored_nodes(v) == v,
    decreases v.len(),
{
    if v.len() > 0 {
        let t = v.drop_last();
        assert(ids_unique(t));
        lemma_stored_nodes_distinct(t);
        lemma_find_node(t, v.last().id);
        assert(find_node(t, v.last().id) is None);
        assert(t.push(v.last()) =~= v);
    }
}

/// A script loaded from an asset file.
#[derive(Debug)]
pub struct RatScriptAsset {
    pub script: RatScript,
}

impl RatScriptAsset {
    pub fn new(script: RatScript) -> (r: Self)
        ensures
            r.script@ == script@,
    {
        RatScriptAsset { script }
    }
}

} // verus!
