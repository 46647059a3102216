//! The people of the map: which script they talk with as they are lured away and
//! walk back, how dialogue hooks decide their fate, and the walk path each follows
//! from its starting node along the map's chain of walk nodes.

use vstd::prelude::*;

use crate::dialogue::{RatDialoguePresentation, RatStart, StartModel};
use crate::script::{clone_opt_str, clone_str, opt_str};
use crate::script_ron::text3;
use crate::text::{chars_eq, chars_of};

verus! {

/// Marks a person as one to be eliminated or saved.
#[derive(Debug, Clone, Copy, PartialEq, Eq, Structural)]
pub enum SuspectType {
    Imposter,
    Human,
}

/// What a person's state is.
pub struct NpcModel {
    pub script_id: Option<Seq<char>>,
    pub default_script_id: Option<Seq<char>>,
    pub path: Seq<u64>,
    pub queue: Seq<u64>,
    pub despawning: bool,
}

/// A person of the map as the game logic sees it: the script it talks with now
/// and normally, its walk path (from its starting node outward), the nodes still
/// to walk (the next one last), and whether it is on its way out.
#[derive(Debug)]
pub struct NpcState {
    pub script_id: Option<String>,
    pub default_script_id: Option<String>,
    pub path: Vec<u64>,
    pub queue: Vec<u64>,
    pub despawning: bool,
}

impl View for NpcState {
    type V = NpcModel;

    open spec fn view(&self) -> NpcModel {
        NpcModel {
            script_id: opt_str(self.script_id),
            default_script_id: opt_str(self.default_script_id),
            path: self.path@,
            queue: self.queue@,
            despawning: self.despawning,
        }
    }
}

/// What the game does for a person after a dialogue hook.
#[derive(Debug, Clone, Copy, PartialEq, Eq, Structural)]
pub struct HookReaction {
    /// End every running walk-back timer (a lure ends the others' waits).
    pub end_lure_timers: bool,
    /// Start the walk animation (the person sets off along its queue).
    pub start_walk: bool,
    /// Play the death animation and despawn the person after a second.
    pub die: bool,
}

/// Where a walk ended.
#[derive(Debug, Clone, Copy, PartialEq, Eq, Structural)]
pub enum WalkEnd {
    /// Still walking.
    Walking,
    /// Back at the starting node.
    Home,
    /// At the far end of the path.
    Destination,
}

/// `s` in reverse order.
pub open spec fn reversed(s: Seq<u64>) -> Seq<u64> {
    Seq::new(s.len(), |i: int| s[s.len() - 1 - i])
}

/// The reaction to hook `hook` and the state after it. `game.lure` ends the other
/// waits and sends the person from its start to the far end of its path;
/// `game.spare` sends it along the path the other way; `game.kill` silences it and
/// lets it die. A person on its way out ignores them; other hooks change nothing.
pub open spec fn hook_spec(m: NpcModel, hook: Seq<char>) -> (NpcModel, HookReaction) {
    let none = HookReaction { end_lure_timers: false, start_walk: false, die: false };
    if hook == "game.lure"@ {
        if m.despawning {
            (m, HookReaction { end_lure_timers: true, ..none })
        } else {
            (
                NpcModel { queue: reversed(m.path), ..m },
                HookReaction { end_lure_timers: true, start_walk: true, die: false },
            )
        }
    } else if hook == "game.kill"@ && !m.despawning {
        (NpcModel { script_id: None, despawning: true, ..m }, HookReaction { die: true, ..none })
    } else if hook == "game.spare"@ && !m.despawning {
        (NpcModel { queue: m.path, ..m }, HookReaction { start_walk: true, ..none })
    } else {
        (m, none)
    }
}

fn copy_path(v: &Vec<u64>) -> (r: Vec<u64>)
    ensures
        r@ == v@,
{
    let mut out: Vec<u64> = Vec::new();
    let mut k: usize = 0;
    while k < v.len()
        invariant
            k <= v@.len(),
            out@ == v@.take(k as int),
        decreases v.len() - k,
    {
        out.push(v[k]);
        k += 1;
        assert(out@ =~= v@.take(k as int));
    }
    assert(v@.take(k as int) =~= v@);
    out
}

fn reverse_path(v: &Vec<u64>) -> (r: Vec<u64>)
    ensures
        r@ == reversed(v@),
{
    let mut out: Vec<u64> = Vec::new();
    let mut k: usize = v.len();
    while k > 0
        invariant
            k <= v@.len(),
            out@ == reversed(v@).take(v@.len() - k),
        decreases k,
    {
        k -= 1;
        out.push(v[k]);
        assert(out@ =~= reversed(v@).take(v@.len() - k));
    }
    assert(reversed(v@).take(v@.len() as int) =~= reversed(v@));
    out
}

impl NpcState {
    /// A person that talks with `script_id` (also its normal script), with the
    /// given walk path and nothing to walk yet.
    pub fn new(script_id: Option<String>, path: Vec<u64>) -> (r: Self)
        ensures
            r@ == (NpcModel {
                script_id: opt_str(script_id),
                default_script_id: opt_str(script_id),
                path: path@,
                queue: Seq::empty(),
                despawning: false,
            }),
    {
        let default_script_id = clone_opt_str(&script_id);
        NpcState { script_id, default_script_id, path, queue: Vec::new(), despawning: false }
    }

    /// Using the person starts a conversation with its current script, attached to
    /// the person; a person with no script (walking, dead) does not talk.
    pub fn on_use(&self, entity: u64) -> (r: Option<RatStart>)
        ensures
            match self@.script_id {
                Some(s) => r matches Some(st) && st@ == (StartModel {
                    script_id: s,
                    target: Some(entity),
                    presentation: RatDialoguePresentation::Interactive,
                }),
                None => r is None,
            },
    {
        match &self.script_id {
            Some(s) => Some(RatStart::new(s.as_str()).target(entity)),
            None => None,
        }
    }

    /// Setting off: the person does not talk while walking.
    pub fn on_walk_start(&mut self)
        ensures
            final(self)@ == (NpcModel { script_id: None, ..old(self)@ }),
    {
        self.script_id = None;
    }

    /// Arriving at the far end: the person talks with the lured variant of its
    /// script (`<script>.lured`) while it waits there.
    pub fn on_arrived_destination(&mut self)
        ensures
            final(self)@ == (NpcModel {
                script_id: match old(self)@.default_script_id {
                    Some(d) => Some(d + ".lured"@),
                    None => None,
                },
                ..old(self)@
            }),
    {
        self.script_id = match &self.default_script_id {
            Some(d) => {
                let lured = text3(d.as_str(), ".lured", "");
                proof {
                    reveal_strlit("");
                    assert(d@ + ".lured"@ + ""@ =~= d@ + ".lured"@);
                }
                Some(lured)
            },
            None => None,
        };
    }

    /// Back home: the person talks with its normal script again.
    pub fn on_arrived_home(&mut self)
        ensures
            final(self)@ == (NpcModel { script_id: old(self)@.default_script_id, ..old(self)@ }),
    {
        self.script_id = clone_opt_str(&self.default_script_id);
    }

    /// The wait at the far end is over: the person walks its path back (the
    /// start is the last node reached).
    pub fn on_walkback_finished(&mut self)
        ensures
            final(self)@ == (NpcModel { queue: old(self)@.path, ..old(self)@ }),
    {
        self.queue = copy_path(&self.path);
    }

    /// The node walked to was reached: it leaves the queue; when none is left the
    /// walk ends at home if that node is the starting node, else at the far end.
    pub fn on_node_reached(&mut self, is_start_node: bool) -> (r: WalkEnd)
        ensures
            old(self)@.queue.len() == 0 ==> final(self)@ == old(self)@ && r == WalkEnd::Walking,
            old(self)@.queue.len() > 0 ==> final(self)@ == (NpcModel {
                queue: old(self)@.queue.drop_last(),
                ..old(self)@
            }) && r == if old(self)@.queue.len() == 1 {
                if is_start_node {
                    WalkEnd::Home
                } else {
                    WalkEnd::Destination
                }
            } else {
                WalkEnd::Walking
            },
    {
        if self.queue.len() == 0 {
            return WalkEnd::Walking;
        }
        self.queue.pop();
        if self.queue.len() == 0 {
            if is_start_node {
                WalkEnd::Home
            } else {
                WalkEnd::Destination
            }
        } else {
            WalkEnd::Walking
        }
    }

    /// Reacts to a dialogue hook aimed at this person (see `hook_spec`).
    pub fn on_hook(&mut self, hook: &str) -> (r: HookReaction)
        ensures
            (final(self)@, r) == hook_spec(old(self)@, hook@),
    {
        let h = chars_of(hook);
        let none = HookReaction { end_lure_timers: false, start_walk: false, die: false };
        if chars_eq(&h, &chars_of("game.lure")) {
            if self.despawning {
                return HookReaction { end_lure_timers: true, ..none };
            }
            self.queue = reverse_path(&self.path);
            return HookReaction { end_lure_timers: true, start_walk: true, die: false };
        }
        if chars_eq(&h, &chars_of("game.kill")) && !self.despawning {
            self.script_id = None;
            self.despawning = true;
            return HookReaction { die: true, ..none };
        }
        if chars_eq(&h, &chars_of("game.spare")) && !self.despawning {
            self.queue = copy_path(&self.path);
            return HookReaction { start_walk: true, ..none };
        }
        none
    }
}

// ---------------------------------------------------------------
// walk paths
// ---------------------------------------------------------------

/// What a walk node is.
pub struct WalkNodeModel {
    pub name: Seq<char>,
    pub entity: u64,
    pub target: Seq<char>,
}

/// A walk node of the map: its name, its entity, and the name of the node it
/// leads to.
#[derive(Debug)]
pub struct WalkNode {
    pub name: String,
    pub entity: u64,
    pub target: String,
}

impl View for WalkNode {
    type V = WalkNodeModel;

    open spec fn view(&self) -> WalkNodeModel {
        WalkNodeModel { name: self.name@, entity: self.entity, target: self.target@ }
    }
}

/// The views of a list of walk nodes.
pub open spec fn walk_node_models(v: Seq<WalkNode>) -> Seq<WalkNodeModel> {
    v.map_values(|n: WalkNode| n@)
}

/// The position of the first node named `name`.
pub open spec fn node_by_name(nodes: Seq<WalkNodeModel>, name: Seq<char>) -> Option<int>
    decreases nodes.len(),
{
    if nodes.len() == 0 {
        None
    } else {
        match node_by_name(nodes.drop_last(), name) {
            Some(k) => Some(k),
            None => if nodes.last().name == name {
                Some(nodes.len() - 1)
            } else {
                None
            },
        }
    }
}

proof fn lemma_node_by_name(nodes: Seq<WalkNodeModel>, name: Seq<char>)
    ensures
        match node_by_name(nodes, name) {
            Some(k) => 0 <= k < nodes.len() && nodes[k].name == name && forall|j: int|
                0 <= j < k ==> nodes[j].name != name,
            None => forall|j: int| 0 <= j < nodes.len() ==> nodes[j].name != name,
        },
    decreases nodes.len(),
{
    if nodes.len() > 0 {
        let t = nodes.drop_last();
        lemma_node_by_name(t, name);
        assert forall|j: int| 0 <= j < t.len() implies t[j] == nodes[j] by {}
    }
}

/// Following the chain of nodes from the one named `name`, at most `steps` nodes
/// long: the entities met, in order, or `None` when the chain is longer (it then
/// comes back to a node it met and never ends).
pub open spec fn walk_chain(nodes: Seq<WalkNodeModel>, name: Seq<char>, steps: nat) -> Option<
    Seq<u64>,
>
    decreases steps,
{
    match node_by_name(nodes, name) {
        None => Some(Seq::empty()),
        Some(k) => if steps == 0 {
            None
        } else {
            match walk_chain(nodes, nodes[k].target, (steps - 1) as nat) {
                Some(rest) => Some(seq![nodes[k].entity] + rest),
                None => None,
            }
        },
    }
}

/// The walk path from the node named `start`: the node's entity, then the path
/// from the node it leads to, until a name names no node. The chain must end: one
/// that comes back to a node it met would be followed for ever.
pub fn build_nav_path(start: &str, nodes: &[WalkNode]) -> (r: Vec<u64>)
    requires
        walk_chain(walk_node_models(nodes@), start@, nodes@.len() as nat) is Some,
    ensures
        r@ == walk_chain(walk_node_models(nodes@), start@, nodes@.len() as nat)->0,
{
    let ghost m = walk_node_models(nodes@);
    let ghost whole = walk_chain(m, start@, nodes@.len() as nat)->0;
    let mut out: Vec<u64> = Vec::new();
    let mut name = chars_of(start);
    let mut steps: usize = nodes.len();
    loop
        invariant
            m == walk_node_models(nodes@),
            steps <= nodes@.len(),
            walk_chain(m, name@, steps as nat) is Some,
            out@ + walk_chain(m, name@, steps as nat)->0 == whole,
            whole == walk_chain(walk_node_models(nodes@), start@, nodes@.len() as nat)->0,
        decreases steps,
    {
        proof {
            lemma_node_by_name(m, name@);
        }
        let mut found: Option<usize> = None;
        let mut k: usize = 0;
        while k < nodes.len()
            invariant_except_break
                found is None,
            invariant
                m == walk_node_models(nodes@),
                k <= nodes@.len(),
                forall|j: int| 0 <= j < k ==> m[j].name != name@,
                match node_by_name(m, name@) {
                    Some(p) => 0 <= p < m.len() && m[p].name == name@ && forall|j: int|
                        0 <= j < p ==> m[j].name != name@,
                    None => forall|j: int| 0 <= j < m.len() ==> m[j].name != name@,
                },
            ensures
                found matches Some(p) ==> node_by_name(m, name@) == Some(p as int),
                found is None ==> node_by_name(m, name@) is None,
            decreases nodes.len() - k,
        {
            assert(m[k as int] == nodes@[k as int]@);
            let here = chars_of(nodes[k].name.as_str());
            if chars_eq(&here, &name) {
                found = Some(k);
                break;
            }
            k += 1;
        }
        match found {
            None => {
                assert(out@ + Seq::<u64>::empty() =~= out@);
                return out;
            },
            Some(p) => {
                assert(m[p as int] == nodes@[p as int]@);
                let ghost before = out@;
                let ghost rest = walk_chain(m, m[p as int].target, (steps - 1) as nat)->0;
                out.push(nodes[p].entity);
                assert(before + (seq![m[p as int].entity] + rest) =~= out@ + rest);
                name = chars_of(nodes[p].target.as_str());
                steps = steps - 1;
            },
        }
    }
}

/// A person on its way out stays as it is whatever hook comes; and only a lure
/// or a spare sets a person walking.
pub proof fn law_hooks_after_death(m: NpcModel, hook: Seq<char>)
    ensures
        m.despawning ==> hook_spec(m, hook).0 == m && !hook_spec(m, hook).1.start_walk,
        hook_spec(m, hook).1.start_walk ==> hook == "game.lure"@ || hook == "game.spare"@,
{
}

} // verus!
