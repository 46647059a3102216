//! The dialogue runtime: a library of scripts and the conversation in progress.
//!
//! Commands (start, advance, choose, close, register) move the conversation from
//! node to node; each command answers with the effects the game carries out, in
//! order: hooks fired, what the dialogue panel shows, voice lines, and records
//! for the discovery database.

use vstd::prelude::*;

use crate::discovery::{
    ActorModel, DiscoveryEntry, DiscoveryInteraction, DiscoveryInteractionAction,
    DiscoveryInteractionActor, DiscoveryKind, EntryModel, InteractionModel, entry_models,
};
use crate::script::{
    clone_opt_str, clone_str, ids_unique, lemma_find_node, lemma_map_drop_first,
    lemma_map_take_push, lemma_stored_nodes_distinct, node_models, node_named, opt_str, owned,
    position_of_node, strs, NodeModel,
    OptionModel, RatNode, RatOption, RatScript, RatScriptBuilder, RatNodeBuilder, RatOptionBuilder,
    ScriptModel,
};
use crate::script_ron::text3;
use crate::text::{append_chars, chars_eq, chars_of, string_from_chars};
use crate::voice::VoicePreset;

verus! {

/// Whether a conversation is shown to the player or runs without panel and voice.
#[derive(Debug, Clone, Copy, PartialEq, Eq, Structural)]
pub enum RatDialoguePresentation {
    Interactive,
    Headless,
}

/// What a start request is.
pub struct StartModel {
    pub script_id: Seq<char>,
    pub target: Option<u64>,
    pub presentation: RatDialoguePresentation,
}

/// A request to start a conversation with a script, optionally attached to an
/// entity (by its id).
#[derive(Debug)]
pub struct RatStart {
    pub script_id: String,
    pub target: Option<u64>,
    pub presentation: RatDialoguePresentation,
}

impl View for RatStart {
    type V = StartModel;

    open spec fn view(&self) -> StartModel {
        StartModel {
            script_id: self.script_id@,
            target: self.target,
            presentation: self.presentation,
        }
    }
}

impl RatStart {
    /// An interactive start of the given script with no target.
    pub fn new(script_id: &str) -> (r: Self)
        ensures
            r@ == (StartModel {
                script_id: script_id@,
                target: None,
                presentation: RatDialoguePresentation::Interactive,
            }),
    {
        RatStart {
            script_id: owned(script_id),
            target: None,
            presentation: RatDialoguePresentation::Interactive,
        }
    }

    pub fn target(self, entity: u64) -> (r: Self)
        ensures
            r@ == (StartModel { target: Some(entity), ..self@ }),
    {
        RatStart { target: Some(entity), ..self }
    }
}

#[derive(Debug)]
pub enum RatCommand {
    Start(RatStart),
    Advance,
    Choose(usize),
    Close,
    Register(RatScript),
}

/// What a fired hook says.
pub struct HookModel {
    pub hook: Seq<char>,
    pub script_id: Seq<char>,
    pub node_id: Seq<char>,
    pub option_id: Option<Seq<char>>,
    pub target: Option<u64>,
}

#[derive(Debug)]
pub struct RatHookTriggered {
    pub hook: String,
    pub script_id: String,
    pub node_id: String,
    pub option_id: Option<String>,
    pub target: Option<u64>,
}

impl View for RatHookTriggered {
    type V = HookModel;

    open spec fn view(&self) -> HookModel {
        HookModel {
            hook: self.hook@,
            script_id: self.script_id@,
            node_id: self.node_id@,
            option_id: opt_str(self.option_id),
            target: self.target,
        }
    }
}

/// Whether a conversation is going on.
#[derive(Debug, Clone, Copy, PartialEq, Eq, Structural)]
pub struct RatDialogueState {
    pub active: bool,
}

/// What the dialogue panel shows over the current node.
#[derive(Debug, Clone, Copy, PartialEq, Eq, Structural)]
pub enum DialogueOverlay {
    /// Only the node itself.
    Off,
    InventoryPicker,
    ItemResponse,
}

/// What the conversation in progress is.
pub struct ActiveModel {
    pub script_id: Seq<char>,
    pub node_id: Seq<char>,
    pub target: Option<u64>,
    pub presentation: RatDialoguePresentation,
    pub overlay: DialogueOverlay,
}

#[derive(Debug)]
struct ActiveDialogue {
    script_id: String,
    node_id: String,
    target: Option<u64>,
    presentation: RatDialoguePresentation,
    overlay: DialogueOverlay,
}

impl View for ActiveDialogue {
    type V = ActiveModel;

    closed spec fn view(&self) -> ActiveModel {
        ActiveModel {
            script_id: self.script_id@,
            node_id: self.node_id@,
            target: self.target,
            presentation: self.presentation,
            overlay: self.overlay,
        }
    }
}

impl ActiveDialogue {
    fn duplicate(&self) -> (r: Self)
        ensures
            r@ == self@,
    {
        ActiveDialogue {
            script_id: clone_str(&self.script_id),
            node_id: clone_str(&self.node_id),
            target: self.target,
            presentation: self.presentation,
            overlay: self.overlay,
        }
    }
}

/// What an effect asks of the game.
pub enum EffectModel {
    Hook(HookModel),
    ShowNode { node: NodeModel, show_item_enabled: bool, speak: bool },
    OpenInventoryPicker { script_id: Seq<char>, speaker: Seq<char> },
    ItemResponse { item_index: nat, node: NodeModel, target: Option<u64> },
    StopVoice,
    Speak { text: Seq<char>, voice: VoicePreset, target: Option<u64> },
    CloseUi,
    Record(InteractionModel),
    SetItemSeen(Seq<char>),
}

/// What the game does in answer to a command.
#[derive(Debug)]
pub enum DialogueEffect {
    /// Fire a hook.
    Hook(RatHookTriggered),
    /// Show a node in the dialogue panel: its speaker, text and portrait, its
    /// options followed by a "show item" entry (enabled when `show_item_enabled`);
    /// `speak` asks for the text's speaking time as the reveal time.
    ShowNode { node: RatNode, show_item_enabled: bool, speak: bool },
    /// Show the inventory picker for the item list, with a "back" entry.
    OpenInventoryPicker { script_id: String, speaker: String },
    /// Show the speaker's answer to being shown item number `item_index` (see
    /// `item_response_line`), stop the voice and speak the answer.
    ItemResponse { item_index: usize, node: RatNode, target: Option<u64> },
    /// Stop the voice that is speaking.
    StopVoice,
    /// Speak a line.
    Speak { text: String, voice: VoicePreset, target: Option<u64> },
    /// Close the dialogue panel.
    CloseUi,
    /// Record an interaction in the discovery database.
    Record(DiscoveryInteraction),
    /// Mark the item with this id as seen in the discovery database.
    SetItemSeen(String),
}

impl View for DialogueEffect {
    type V = EffectModel;

    open spec fn view(&self) -> EffectModel {
        match self {
            DialogueEffect::Hook(h) => EffectModel::Hook(h@),
            DialogueEffect::ShowNode { node, show_item_enabled, speak } => EffectModel::ShowNode {
                node: node@,
                show_item_enabled: *show_item_enabled,
                speak: *speak,
            },
            DialogueEffect::OpenInventoryPicker { script_id, speaker } =>
                EffectModel::OpenInventoryPicker { script_id: script_id@, speaker: speaker@ },
            DialogueEffect::ItemResponse { item_index, node, target } =>
                EffectModel::ItemResponse { item_index: *item_index as nat, node: node@, target: *target },
            DialogueEffect::StopVoice => EffectModel::StopVoice,
            DialogueEffect::Speak { text, voice, target } => EffectModel::Speak {
                text: text@,
                voice: *voice,
                target: *target,
            },
            DialogueEffect::CloseUi => EffectModel::CloseUi,
            DialogueEffect::Record(i) => EffectModel::Record(i@),
            DialogueEffect::SetItemSeen(id) => EffectModel::SetItemSeen(id@),
        }
    }
}

/// The views of a list of effects.
pub open spec fn effect_models(v: Seq<DialogueEffect>) -> Seq<EffectModel> {
    v.map_values(|e: DialogueEffect| e@)
}

/// What the runtime holds: its scripts, the conversation in progress and whether one
/// is going on.
pub struct RuntimeModel {
    pub scripts: Seq<ScriptModel>,
    pub active: Option<ActiveModel>,
    pub in_dialogue: bool,
}

// ---------------------------------------------------------------
// the rules
// ---------------------------------------------------------------

/// The position of the first script with the given id.
pub open spec fn script_index(scripts: Seq<ScriptModel>, id: Seq<char>) -> Option<int>
    decreases scripts.len(),
{
    if scripts.len() == 0 {
        None
    } else {
        match script_index(scripts.drop_last(), id) {
            Some(k) => Some(k),
            None => if scripts.last().id == id {
                Some(scripts.len() - 1)
            } else {
                None
            },
        }
    }
}

pub proof fn lemma_script_index(scripts: Seq<ScriptModel>, id: Seq<char>)
    ensures
        match script_index(scripts, id) {
            Some(k) => 0 <= k < scripts.len() && scripts[k].id == id && forall|j: int|
                0 <= j < k ==> scripts[j].id != id,
            None => forall|j: int| 0 <= j < scripts.len() ==> scripts[j].id != id,
        },
    decreases scripts.len(),
{
    if scripts.len() > 0 {
        let t = scripts.drop_last();
        lemma_script_index(t, id);
        assert forall|j: int| 0 <= j < t.len() implies t[j] == scripts[j] by {}
    }
}

/// The script with the given id.
pub open spec fn script_named(scripts: Seq<ScriptModel>, id: Seq<char>) -> Option<ScriptModel> {
    match script_index(scripts, id) {
        Some(k) => Some(scripts[k]),
        None => None,
    }
}

/// `scripts` with `s` registered under its id, replacing a script of the same id.
pub open spec fn register_script(scripts: Seq<ScriptModel>, s: ScriptModel) -> Seq<ScriptModel> {
    match script_index(scripts, s.id) {
        Some(k) => scripts.update(k, s),
        None => scripts.push(s),
    }
}

pub open spec fn headless(a: ActiveModel) -> bool {
    a.presentation == RatDialoguePresentation::Headless
}

/// The conversation in progress, its script and its current node, when all exist.
pub open spec fn current(m: RuntimeModel) -> Option<(ActiveModel, ScriptModel, NodeModel)> {
    match m.active {
        None => None,
        Some(a) => match script_named(m.scripts, a.script_id) {
            None => None,
            Some(s) => match node_named(s.nodes, a.node_id) {
                None => None,
                Some(n) => Some((a, s, n)),
            },
        },
    }
}

/// Ending the conversation: the panel closes and the voice stops unless it ran headless.
pub open spec fn close_spec(m: RuntimeModel) -> (RuntimeModel, Seq<EffectModel>) {
    let quiet = m.active matches Some(a) && headless(a);
    (
        RuntimeModel { active: None, in_dialogue: false, ..m },
        if quiet {
            Seq::empty()
        } else {
            seq![EffectModel::CloseUi, EffectModel::StopVoice]
        },
    )
}

/// The hook effects of a node's hooks.
pub open spec fn node_hook_effects(a: ActiveModel, hooks: Seq<Seq<char>>) -> Seq<EffectModel> {
    hooks.map_values(
        |h: Seq<char>|
            EffectModel::Hook(
                HookModel {
                    hook: h,
                    script_id: a.script_id,
                    node_id: a.node_id,
                    option_id: None,
                    target: a.target,
                },
            ),
    )
}

/// The hook effects of an option's hooks.
pub open spec fn option_hook_effects(a: ActiveModel, o: OptionModel) -> Seq<EffectModel> {
    o.hooks.map_values(
        |h: Seq<char>|
            EffectModel::Hook(
                HookModel {
                    hook: h,
                    script_id: a.script_id,
                    node_id: a.node_id,
                    option_id: o.id,
                    target: a.target,
                },
            ),
    )
}

/// Showing the current node: its hooks fire; unless headless the panel shows it,
/// and when `speak` the voice stops and speaks its text. Without a current node
/// the conversation ends.
pub open spec fn show_spec(m: RuntimeModel, items_len: nat, speak: bool) -> (
    RuntimeModel,
    Seq<EffectModel>,
) {
    match current(m) {
        None => close_spec(m),
        Some((a, s, n)) => (
            m,
            node_hook_effects(a, n.hooks) + if !headless(a) {
                seq![EffectModel::ShowNode { node: n, show_item_enabled: items_len > 0, speak }]
            } else {
                Seq::empty()
            } + if speak && !headless(a) {
                seq![
                    EffectModel::StopVoice,
                    EffectModel::Speak { text: n.text, voice: n.voice, target: a.target },
                ]
            } else {
                Seq::empty()
            },
        ),
    }
}

/// The runtime with the conversation moved to node `node_id` and no overlay.
pub open spec fn goto_node(m: RuntimeModel, node_id: Seq<char>) -> RuntimeModel {
    match m.active {
        Some(a) => RuntimeModel {
            active: Some(ActiveModel { node_id, overlay: DialogueOverlay::Off, ..a }),
            ..m
        },
        None => m,
    }
}

/// The runtime with the given overlay.
pub open spec fn with_overlay(m: RuntimeModel, overlay: DialogueOverlay) -> RuntimeModel {
    match m.active {
        Some(a) => RuntimeModel { active: Some(ActiveModel { overlay, ..a }), ..m },
        None => m,
    }
}

/// Following a node with no options: to its successor, or the end.
pub open spec fn follow_spec(m: RuntimeModel, n: NodeModel, items_len: nat) -> (
    RuntimeModel,
    Seq<EffectModel>,
) {
    match n.next {
        Some(nx) => show_spec(goto_node(m, nx), items_len, true),
        None => close_spec(m),
    }
}

/// The record of showing an item to a speaker.
pub open spec fn shared_record(a: ActiveModel, n: NodeModel, item_id: Seq<char>) -> InteractionModel {
    InteractionModel {
        kind: DiscoveryKind::Item,
        id: item_id,
        action: DiscoveryInteractionAction::Shared,
        actor: ActorModel::Speaker(n.speaker),
        script_id: Some(a.script_id),
        node_id: Some(a.node_id),
        option_id: Some(item_id),
        note: Some("dialogue.show_item"@),
    }
}

/// Choosing entry `index` at current node `n` (see `choose_spec`).
pub open spec fn choose_at(
    m: RuntimeModel,
    a: ActiveModel,
    s: ScriptModel,
    n: NodeModel,
    index: nat,
    items: Seq<EntryModel>,
) -> (RuntimeModel, Seq<EffectModel>) {
    if a.overlay == DialogueOverlay::InventoryPicker {
        if index < items.len() {
            let item = items[index as int];
            let hook = EffectModel::Hook(
                HookModel {
                    hook: "dialogue.show_item"@,
                    script_id: a.script_id,
                    node_id: a.node_id,
                    option_id: Some(item.id),
                    target: a.target,
                },
            );
            let specific = "response_"@ + item.id;
            if node_named(s.nodes, specific) is Some {
                let r = show_spec(goto_node(m, specific), items.len(), true);
                (r.0, seq![hook] + r.1)
            } else {
                (
                    with_overlay(m, DialogueOverlay::ItemResponse),
                    seq![
                        hook,
                        EffectModel::SetItemSeen(item.id),
                        EffectModel::Record(shared_record(a, n, item.id)),
                    ] + if !headless(a) {
                        seq![EffectModel::ItemResponse { item_index: index, node: n, target: a.target }]
                    } else {
                        Seq::empty()
                    },
                )
            }
        } else {
            show_spec(with_overlay(m, DialogueOverlay::Off), items.len(), true)
        }
    } else if a.overlay == DialogueOverlay::ItemResponse {
        show_spec(with_overlay(m, DialogueOverlay::Off), items.len(), true)
    } else if index == n.options.len() {
        if items.len() == 0 {
            (m, Seq::empty())
        } else {
            (
                with_overlay(m, DialogueOverlay::InventoryPicker),
                if !headless(a) {
                    seq![
                        EffectModel::OpenInventoryPicker { script_id: a.script_id, speaker: n.speaker },
                        EffectModel::StopVoice,
                    ]
                } else {
                    Seq::empty()
                },
            )
        }
    } else if n.options.len() == 0 {
        follow_spec(m, n, items.len())
    } else {
        let o = if index < n.options.len() {
            n.options[index as int]
        } else {
            n.options[0]
        };
        let hooks = option_hook_effects(a, o);
        let next = match o.next {
            Some(x) => Some(x),
            None => n.next,
        };
        let r = match next {
            Some(nx) => show_spec(goto_node(m, nx), items.len(), true),
            None => close_spec(m),
        };
        (r.0, hooks + r.1)
    }
}

/// Choosing entry `index` of the panel. Over the inventory picker it shows that item
/// (a node `response_<item id>` answers if the script has one, else the speaker
/// comments on the item) or, past the items, goes back to the node; over an item
/// answer it goes back to the node. Otherwise the entry after the options opens the
/// picker (when there are items), and an option fires its hooks and leads to its
/// target, else the node's successor, else the end; an index past the options
/// chooses the first option.
pub open spec fn choose_spec(m: RuntimeModel, index: nat, items: Seq<EntryModel>) -> (
    RuntimeModel,
    Seq<EffectModel>,
) {
    match m.active {
        None => (m, Seq::empty()),
        Some(a) => match current(m) {
            None => close_spec(m),
            Some((a2, s, n)) => choose_at(m, a2, s, n, index, items),
        },
    }
}

/// Advancing: a node with options chooses its first entry; otherwise the node's
/// successor is shown, or the conversation ends.
pub open spec fn advance_spec(m: RuntimeModel, items: Seq<EntryModel>) -> (
    RuntimeModel,
    Seq<EffectModel>,
) {
    match m.active {
        None => (m, Seq::empty()),
        Some(_) => match current(m) {
            None => close_spec(m),
            Some((a, s, n)) => if n.options.len() > 0 {
                choose_at(m, a, s, n, 0, items)
            } else {
                follow_spec(m, n, items.len())
            },
        },
    }
}

/// Starting a conversation with a registered script: its entry node becomes
/// current, the meeting is recorded and the node is shown. An unknown script does
/// nothing.
pub open spec fn start_spec(m: RuntimeModel, start: StartModel, items: Seq<EntryModel>) -> (
    RuntimeModel,
    Seq<EffectModel>,
) {
    match script_named(m.scripts, start.script_id) {
        None => (m, Seq::empty()),
        Some(s) => {
            let a = ActiveModel {
                script_id: start.script_id,
                node_id: s.entry,
                target: start.target,
                presentation: start.presentation,
                overlay: DialogueOverlay::Off,
            };
            let m1 = RuntimeModel { active: Some(a), in_dialogue: true, ..m };
            let rec = EffectModel::Record(
                InteractionModel {
                    kind: DiscoveryKind::Npc,
                    id: s.id,
                    action: DiscoveryInteractionAction::Inspected,
                    actor: ActorModel::Player,
                    script_id: Some(s.id),
                    node_id: Some(s.entry),
                    option_id: None,
                    note: Some("dialogue.start"@),
                },
            );
            let r = show_spec(m1, items.len(), true);
            (r.0, seq![rec] + r.1)
        },
    }
}

/// The close command: the conversation ends, the panel closes unless it ran
/// headless, and the voice stops.
pub open spec fn close_command_spec(m: RuntimeModel) -> (RuntimeModel, Seq<EffectModel>) {
    let quiet = m.active matches Some(a) && headless(a);
    (
        RuntimeModel { active: None, in_dialogue: false, ..m },
        if quiet {
            seq![EffectModel::StopVoice]
        } else {
            seq![EffectModel::CloseUi, EffectModel::StopVoice]
        },
    )
}

/// What a command does, given the player's items.
pub open spec fn command_spec(m: RuntimeModel, cmd: RatCommand, items: Seq<EntryModel>) -> (
    RuntimeModel,
    Seq<EffectModel>,
) {
    match cmd {
        RatCommand::Register(s) => (
            RuntimeModel { scripts: register_script(m.scripts, s@), ..m },
            Seq::empty(),
        ),
        RatCommand::Start(st) => start_spec(m, st@, items),
        RatCommand::Advance => advance_spec(m, items),
        RatCommand::Choose(i) => choose_spec(m, i as nat, items),
        RatCommand::Close => close_command_spec(m),
    }
}

// ---------------------------------------------------------------
// the runtime
// ---------------------------------------------------------------

/// The views of a list of scripts.
pub open spec fn script_models(v: Seq<RatScript>) -> Seq<ScriptModel> {
    v.map_values(|s: RatScript| s@)
}

/// The dialogue runtime: the script library, the conversation in progress and the
/// dialogue state.
pub struct RatRuntime {
    scripts: Vec<RatScript>,
    active: Option<ActiveDialogue>,
}

spec fn active_view(a: Option<ActiveDialogue>) -> Option<ActiveModel> {
    match a {
        Some(x) => Some(x@),
        None => None,
    }
}

impl View for RatRuntime {
    type V = RuntimeModel;

    closed spec fn view(&self) -> RuntimeModel {
        RuntimeModel {
            scripts: script_models(self.scripts@),
            active: active_view(self.active),
            in_dialogue: self.active is Some,
        }
    }
}

/// Appends one effect.
fn emit(out: &mut Vec<DialogueEffect>, e: DialogueEffect)
    ensures
        effect_models(final(out)@) == effect_models(old(out)@).push(e@),
{
    out.push(e);
    assert(effect_models(out@) =~= effect_models(old(out)@).push(e@));
}

/// The position of the first script of `scripts` with the given id.
fn position_of_script(scripts: &Vec<RatScript>, id: &[char]) -> (r: Option<usize>)
    ensures
        r matches Some(k) ==> script_index(script_models(scripts@), id@) == Some(k as int),
        r is None ==> script_index(script_models(scripts@), id@) is None,
{
    proof {
        lemma_script_index(script_models(scripts@), id@);
    }
    let mut k: usize = 0;
    while k < scripts.len()
        invariant
            k <= scripts@.len(),
            forall|j: int| 0 <= j < k ==> script_models(scripts@)[j].id != id@,
            match script_index(script_models(scripts@), id@) {
                Some(m) => 0 <= m < scripts@.len() && script_models(scripts@)[m].id == id@
                    && forall|j: int| 0 <= j < m ==> script_models(scripts@)[j].id != id@,
                None => forall|j: int|
                    0 <= j < scripts@.len() ==> script_models(scripts@)[j].id != id@,
            },
        decreases scripts.len() - k,
    {
        let here = chars_of(scripts[k].id.as_str());
        assert(script_models(scripts@)[k as int] == scripts@[k as int]@);
        if chars_eq(&here, id) {
            return Some(k);
        }
        k += 1;
    }
    None
}

/// The hook effects of `hooks` fired at the current node, appended to `out`.
fn emit_node_hooks(a: &ActiveDialogue, hooks: &Vec<String>, out: &mut Vec<DialogueEffect>)
    ensures
        effect_models(final(out)@) == effect_models(old(out)@) + node_hook_effects(
            a@,
            strs(hooks@),
        ),
{
    let ghost out0 = effect_models(out@);
    let mut k: usize = 0;
    while k < hooks.len()
        invariant
            k <= hooks@.len(),
            effect_models(out@) == out0 + node_hook_effects(a@, strs(hooks@.take(k as int))),
        decreases hooks.len() - k,
    {
        let h = RatHookTriggered {
            hook: clone_str(&hooks[k]),
            script_id: clone_str(&a.script_id),
            node_id: clone_str(&a.node_id),
            option_id: None,
            target: a.target,
        };
        let ghost e = DialogueEffect::Hook(h)@;
        emit(out, DialogueEffect::Hook(h));
        k += 1;
        assert(node_hook_effects(a@, strs(hooks@.take(k as int))) =~= node_hook_effects(
            a@,
            strs(hooks@.take(k - 1)),
        ).push(e));
        assert(effect_models(out@) =~= out0 + node_hook_effects(a@, strs(hooks@.take(k as int))));
    }
    assert(hooks@.take(k as int) =~= hooks@);
}

impl RatRuntime {
    /// Where the current script and node stand, when there is a current node.
    fn current_position(&self) -> (r: Option<(usize, usize)>)
        ensures
            match current(self@) {
                None => r is None,
                Some((a, s, n)) => r is Some && {
                    let (si, ni) = r->0;
                    &&& si < self.scripts@.len()
                    &&& ni < self.scripts@[si as int].nodes@.len()
                    &&& self.scripts@[si as int]@ == s
                    &&& self.scripts@[si as int].nodes@[ni as int]@ == n
                    &&& active_view(self.active) == Some(a)
                },
            },
    {
        match &self.active {
            None => None,
            Some(a) => {
                let sid = chars_of(a.script_id.as_str());
                proof {
                    lemma_script_index(script_models(self.scripts@), sid@);
                }
                match position_of_script(&self.scripts, &sid) {
                    None => None,
                    Some(si) => {
                        assert(script_models(self.scripts@)[si as int] == self.scripts@[si as int]@);
                        let nid = chars_of(a.node_id.as_str());
                        proof {
                            lemma_find_node(node_models(self.scripts@[si as int].nodes@), nid@);
                        }
                        match position_of_node(&self.scripts[si].nodes, &nid) {
                            None => None,
                            Some(ni) => {
                                assert(node_models(self.scripts@[si as int].nodes@)[ni as int]
                                    == self.scripts@[si as int].nodes@[ni as int]@);
                                Some((si, ni))
                            },
                        }
                    },
                }
            },
        }
    }

    /// Ends the conversation (see `close_spec`).
    fn close(&mut self, out: &mut Vec<DialogueEffect>)
        ensures
            final(self)@ == close_spec(old(self)@).0,
            effect_models(final(out)@) == effect_models(old(out)@) + close_spec(old(self)@).1,
    {
        let quiet = match &self.active {
            Some(a) => a.presentation == RatDialoguePresentation::Headless,
            None => false,
        };
        self.active = None;
        let ghost o0 = effect_models(out@);
        if !quiet {
            emit(out, DialogueEffect::CloseUi);
            emit(out, DialogueEffect::StopVoice);
        }
        assert(effect_models(out@) =~= o0 + close_spec(old(self)@).1);
    }

    /// Shows the current node (see `show_spec`).
    fn show(&mut self, items_len: usize, speak: bool, out: &mut Vec<DialogueEffect>)
        ensures
            final(self)@ == show_spec(old(self)@, items_len as nat, speak).0,
            effect_models(final(out)@) == effect_models(old(out)@) + show_spec(
                old(self)@,
                items_len as nat,
                speak,
            ).1,
    {
        match self.current_position() {
            None => {
                self.close(out);
            },
            Some((si, ni)) => {
                let a = match &self.active {
                    Some(x) => x.duplicate(),
                    None => {
                        return;
                    },
                };
                let node = self.scripts[si].nodes[ni].duplicate();
                let ghost o0 = effect_models(out@);
                emit_node_hooks(&a, &node.hooks, out);
                let ghost o1 = effect_models(out@);
                let quiet = a.presentation == RatDialoguePresentation::Headless;
                if !quiet {
                    emit(
                        out,
                        DialogueEffect::ShowNode {
                            node: node.duplicate(),
                            show_item_enabled: items_len > 0,
                            speak,
                        },
                    );
                }
                let ghost o2 = effect_models(out@);
                if speak && !quiet {
                    emit(out, DialogueEffect::StopVoice);
                    emit(
                        out,
                        DialogueEffect::Speak {
                            text: clone_str(&node.text),
                            voice: node.voice,
                            target: a.target,
                        },
                    );
                }
                let ghost spec = show_spec(old(self)@, items_len as nat, speak).1;
                assert(o2 =~= o1 + if !quiet {
                    seq![EffectModel::ShowNode { node: node@, show_item_enabled: items_len > 0, speak }]
                } else {
                    Seq::empty()
                });
                assert(effect_models(out@) =~= o0 + spec);
            },
        }
    }
}

/// The hook effects of an option's hooks fired at the current node, appended to `out`.
fn emit_option_hooks(a: &ActiveDialogue, o: &RatOption, out: &mut Vec<DialogueEffect>)
    ensures
        effect_models(final(out)@) == effect_models(old(out)@) + option_hook_effects(a@, o@),
{
    let ghost out0 = effect_models(out@);
    let mut k: usize = 0;
    while k < o.hooks.len()
        invariant
            k <= o.hooks@.len(),
            effect_models(out@) == out0 + option_hook_effects(
                a@,
                OptionModel { hooks: strs(o.hooks@.take(k as int)), ..o@ },
            ),
        decreases o.hooks.len() - k,
    {
        let h = RatHookTriggered {
            hook: clone_str(&o.hooks[k]),
            script_id: clone_str(&a.script_id),
            node_id: clone_str(&a.node_id),
            option_id: clone_opt_str(&o.id),
            target: a.target,
        };
        let ghost e = DialogueEffect::Hook(h)@;
        emit(out, DialogueEffect::Hook(h));
        k += 1;
        assert(option_hook_effects(a@, OptionModel { hooks: strs(o.hooks@.take(k as int)), ..o@ })
            =~= option_hook_effects(
            a@,
            OptionModel { hooks: strs(o.hooks@.take(k - 1)), ..o@ },
        ).push(e));
        assert(effect_models(out@) =~= out0 + option_hook_effects(
            a@,
            OptionModel { hooks: strs(o.hooks@.take(k as int)), ..o@ },
        ));
    }
    assert(o.hooks@.take(k as int) =~= o.hooks@);
    assert(OptionModel { hooks: strs(o.hooks@.take(k as int)), ..o@ } == o@);
}

impl RatRuntime {
    /// Moves the conversation to node `node_id` with no overlay.
    fn goto(&mut self, node_id: String)
        ensures
            final(self)@ == goto_node(old(self)@, node_id@),
    {
        match self.active.take() {
            Some(a) => {
                self.active = Some(ActiveDialogue { node_id, overlay: DialogueOverlay::Off, ..a });
            },
            None => {},
        }
    }

    /// Puts the given overlay over the current node.
    fn set_overlay(&mut self, overlay: DialogueOverlay)
        ensures
            final(self)@ == with_overlay(old(self)@, overlay),
    {
        match self.active.take() {
            Some(a) => {
                self.active = Some(ActiveDialogue { overlay, ..a });
            },
            None => {},
        }
    }

    /// Follows node `node`, which has no options (see `follow_spec`).
    fn follow(&mut self, node: &RatNode, items_len: usize, out: &mut Vec<DialogueEffect>)
        ensures
            final(self)@ == follow_spec(old(self)@, node@, items_len as nat).0,
            effect_models(final(out)@) == effect_models(old(out)@) + follow_spec(
                old(self)@,
                node@,
                items_len as nat,
            ).1,
    {
        match &node.next {
            Some(nx) => {
                self.goto(clone_str(nx));
                self.show(items_len, true, out);
            },
            None => {
                self.close(out);
            },
        }
    }
}

/// The current node of a runtime that has one, stands at (`si`, `ni`).
spec fn current_at(r: &RatRuntime, si: usize, ni: usize) -> bool {
    match current(r@) {
        None => false,
        Some((a, s, n)) => {
            &&& si < r.scripts@.len()
            &&& ni < r.scripts@[si as int].nodes@.len()
            &&& r.scripts@[si as int]@ == s
            &&& r.scripts@[si as int].nodes@[ni as int]@ == n
            &&& active_view(r.active) == Some(a)
        },
    }
}

impl RatRuntime {
    /// Chooses entry `index` at the current node, which stands at (`si`, `ni`)
    /// (see `choose_at`).
    fn choose_here(
        &mut self,
        si: usize,
        ni: usize,
        index: usize,
        items: &[DiscoveryEntry],
        out: &mut Vec<DialogueEffect>,
    )
        requires
            current_at(old(self), si, ni),
        ensures
            ({
                let (a, s, n) = current(old(self)@)->0;
                let r = choose_at(old(self)@, a, s, n, index as nat, entry_models(items@));
                &&& final(self)@ == r.0
                &&& effect_models(final(out)@) == effect_models(old(out)@) + r.1
            }),
    {
        let ghost m = self@;
        let ghost cur = current(self@)->0;
        let ghost im = entry_models(items@);
        let a = match &self.active {
            Some(x) => x.duplicate(),
            None => {
                return;
            },
        };
        let node = self.scripts[si].nodes[ni].duplicate();
        let items_len = items.len();
        let quiet = a.presentation == RatDialoguePresentation::Headless;
        let ghost o0 = effect_models(out@);
        assert(im.len() == items_len);
        if a.overlay == DialogueOverlay::InventoryPicker {
            if index < items_len {
                let item = &items[index];
                assert(im[index as int] == item@);
                let hook = RatHookTriggered {
                    hook: owned("dialogue.show_item"),
                    script_id: clone_str(&a.script_id),
                    node_id: clone_str(&a.node_id),
                    option_id: Some(clone_str(&item.id)),
                    target: a.target,
                };
                emit(out, DialogueEffect::Hook(hook));
                let mut name = chars_of("response_");
                let idc = chars_of(item.id.as_str());
                append_chars(&mut name, &idc);
                let specific = string_from_chars(&name);
                if self.scripts[si].contains_node(specific.as_str()) {
                    self.goto(specific);
                    self.show(items_len, true, out);
                    assert(effect_models(out@) =~= o0 + choose_at(m, cur.0, cur.1, cur.2, index as nat, im).1);
                } else {
                    self.set_overlay(DialogueOverlay::ItemResponse);
                    emit(out, DialogueEffect::SetItemSeen(clone_str(&item.id)));
                    let rec = DiscoveryInteraction::new(
                        DiscoveryKind::Item,
                        item.id.as_str(),
                        DiscoveryInteractionAction::Shared,
                        DiscoveryInteractionActor::Speaker(clone_str(&node.speaker)),
                    ).script(a.script_id.as_str()).node(a.node_id.as_str()).option(
                        item.id.as_str(),
                    ).note("dialogue.show_item");
                    emit(out, DialogueEffect::Record(rec));
                    if !quiet {
                        emit(
                            out,
                            DialogueEffect::ItemResponse {
                                item_index: index,
                                node: node.duplicate(),
                                target: a.target,
                            },
                        );
                    }
                    assert(effect_models(out@) =~= o0 + choose_at(m, cur.0, cur.1, cur.2, index as nat, im).1);
                }
            } else {
                self.set_overlay(DialogueOverlay::Off);
                self.show(items_len, true, out);
            }
        } else if a.overlay == DialogueOverlay::ItemResponse {
            self.set_overlay(DialogueOverlay::Off);
            self.show(items_len, true, out);
        } else if index == node.options.len() {
            if items_len > 0 {
                self.set_overlay(DialogueOverlay::InventoryPicker);
                if !quiet {
                    emit(
                        out,
                        DialogueEffect::OpenInventoryPicker {
                            script_id: clone_str(&a.script_id),
                            speaker: clone_str(&node.speaker),
                        },
                    );
                    emit(out, DialogueEffect::StopVoice);
                }
            }
            assert(effect_models(out@) =~= o0 + choose_at(m, cur.0, cur.1, cur.2, index as nat, im).1);
        } else if node.options.len() == 0 {
            self.follow(&node, items_len, out);
        } else {
            let o = if index < node.options.len() {
                node.options[index].duplicate()
            } else {
                node.options[0].duplicate()
            };
            emit_option_hooks(&a, &o, out);
            let next = match &o.next {
                Some(x) => Some(clone_str(x)),
                None => clone_opt_str(&node.next),
            };
            match next {
                Some(nx) => {
                    self.goto(nx);
                    self.show(items_len, true, out);
                },
                None => {
                    self.close(out);
                },
            }
            assert(effect_models(out@) =~= o0 + choose_at(m, cur.0, cur.1, cur.2, index as nat, im).1);
        }
    }
}

impl RatRuntime {
    /// Advances the conversation (see `advance_spec`).
    fn advance(&mut self, items: &[DiscoveryEntry], out: &mut Vec<DialogueEffect>)
        ensures
            final(self)@ == advance_spec(old(self)@, entry_models(items@)).0,
            effect_models(final(out)@) == effect_models(old(out)@) + advance_spec(
                old(self)@,
                entry_models(items@),
            ).1,
    {
        if self.active.is_none() {
            return;
        }
        match self.current_position() {
            None => {
                self.close(out);
            },
            Some((si, ni)) => {
                if self.scripts[si].nodes[ni].options.len() > 0 {
                    self.choose_here(si, ni, 0, items, out);
                } else {
                    let node = self.scripts[si].nodes[ni].duplicate();
                    self.follow(&node, items.len(), out);
                }
            },
        }
    }

    /// Chooses entry `index` of the panel (see `choose_spec`).
    fn choose_entry(&mut self, index: usize, items: &[DiscoveryEntry], out: &mut Vec<DialogueEffect>)
        ensures
            final(self)@ == choose_spec(old(self)@, index as nat, entry_models(items@)).0,
            effect_models(final(out)@) == effect_models(old(out)@) + choose_spec(
                old(self)@,
                index as nat,
                entry_models(items@),
            ).1,
    {
        if self.active.is_none() {
            return;
        }
        match self.current_position() {
            None => {
                self.close(out);
            },
            Some((si, ni)) => {
                self.choose_here(si, ni, index, items, out);
            },
        }
    }

    /// Starts a conversation (see `start_spec`).
    fn start(&mut self, start: RatStart, items: &[DiscoveryEntry], out: &mut Vec<DialogueEffect>)
        ensures
            final(self)@ == start_spec(old(self)@, start@, entry_models(items@)).0,
            effect_models(final(out)@) == effect_models(old(out)@) + start_spec(
                old(self)@,
                start@,
                entry_models(items@),
            ).1,
    {
        let sid = chars_of(start.script_id.as_str());
        proof {
            lemma_script_index(script_models(self.scripts@), sid@);
        }
        match position_of_script(&self.scripts, &sid) {
            None => {},
            Some(si) => {
                assert(script_models(self.scripts@)[si as int] == self.scripts@[si as int]@);
                let entry = clone_str(&self.scripts[si].entry);
                let id = clone_str(&self.scripts[si].id);
                self.active = Some(
                    ActiveDialogue {
                        script_id: start.script_id,
                        node_id: clone_str(&entry),
                        target: start.target,
                        presentation: start.presentation,
                        overlay: DialogueOverlay::Off,
                    },
                );
                let rec = DiscoveryInteraction::new(
                    DiscoveryKind::Npc,
                    id.as_str(),
                    DiscoveryInteractionAction::Inspected,
                    DiscoveryInteractionActor::Player,
                ).script(id.as_str()).node(entry.as_str()).note("dialogue.start");
                let ghost o0 = effect_models(out@);
                emit(out, DialogueEffect::Record(rec));
                self.show(items.len(), true, out);
                assert(effect_models(out@) =~= o0 + start_spec(
                    old(self)@,
                    start@,
                    entry_models(items@),
                ).1);
            },
        }
    }

    /// Registers a script under its id, replacing a script of the same id.
    fn register(&mut self, script: RatScript)
        ensures
            final(self)@ == (RuntimeModel {
                scripts: register_script(old(self)@.scripts, script@),
                ..old(self)@
            }),
    {
        let id = chars_of(script.id.as_str());
        proof {
            lemma_script_index(script_models(self.scripts@), id@);
        }
        match position_of_script(&self.scripts, &id) {
            Some(k) => {
                self.scripts.set(k, script);
            },
            None => {
                self.scripts.push(script);
            },
        }
        assert(script_models(self.scripts@) =~= register_script(
            script_models(old(self).scripts@),
            script@,
        ));
    }

    /// Carries out a command, given the items the player carries, and answers with
    /// the effects for the game to carry out, in order (see `command_spec`).
    pub fn handle(&mut self, cmd: RatCommand, items: &[DiscoveryEntry]) -> (r: Vec<
        DialogueEffect,
    >)
        ensures
            final(self)@ == command_spec(old(self)@, cmd, entry_models(items@)).0,
            effect_models(r@) == command_spec(old(self)@, cmd, entry_models(items@)).1,
            state_matches(final(self)@),
    {
        let mut out: Vec<DialogueEffect> = Vec::new();
        assert(effect_models(out@) =~= Seq::<EffectModel>::empty());
        match cmd {
            RatCommand::Register(script) => {
                self.register(script);
            },
            RatCommand::Start(start) => {
                self.start(start, items, &mut out);
            },
            RatCommand::Advance => {
                self.advance(items, &mut out);
            },
            RatCommand::Choose(index) => {
                self.choose_entry(index, items, &mut out);
            },
            RatCommand::Close => {
                let quiet = match &self.active {
                    Some(a) => a.presentation == RatDialoguePresentation::Headless,
                    None => false,
                };
                self.active = None;
                if !quiet {
                    emit(&mut out, DialogueEffect::CloseUi);
                }
                emit(&mut out, DialogueEffect::StopVoice);
            },
        }
        out
    }
}

// ---------------------------------------------------------------
// the library of scripts
// ---------------------------------------------------------------

/// `scripts` registered one after the other onto `acc`.
pub open spec fn register_all(acc: Seq<ScriptModel>, scripts: Seq<ScriptModel>) -> Seq<ScriptModel>
    decreases scripts.len(),
{
    if scripts.len() == 0 {
        acc
    } else {
        register_script(register_all(acc, scripts.drop_last()), scripts.last())
    }
}

/// The first node of the built-in script: Mr. D.'s greeting, with three options.
pub open spec fn builtin_greeting() -> NodeModel {
    NodeModel {
        id: "greeting"@,
        speaker: "mr. d."@,
        text: "hey there! i'm mr d."@,
        portrait_path: "models/npc_a/npc_a.png"@,
        voice: VoicePreset::NeutralNpc,
        next: None,
        hooks: seq!["npc.default.greeting"@],
        options: seq![
            OptionModel {
                id: Some("ask_identity"@),
                text: "who are you?"@,
                next: Some("identity"@),
                hooks: seq!["npc.default.option.identity"@],
            },
            OptionModel {
                id: Some("ask_place"@),
                text: "what happened here?"@,
                next: Some("place"@),
                hooks: seq!["npc.default.option.place"@],
            },
            OptionModel {
                id: Some("leave"@),
                text: "i should go."@,
                next: None,
                hooks: seq!["npc.default.option.leave"@],
            },
        ],
    }
}

/// A node of the built-in script that says `text` and leads back to the greeting.
pub open spec fn builtin_answer(id: Seq<char>, text: Seq<char>) -> NodeModel {
    NodeModel {
        id,
        speaker: "mr. d."@,
        text,
        portrait_path: "models/npc_a/npc_a.png"@,
        voice: VoicePreset::NeutralNpc,
        next: Some("greeting"@),
        hooks: Seq::empty(),
        options: Seq::empty(),
    }
}

/// The built-in script `npc.default`.
pub open spec fn builtin_script() -> ScriptModel {
    ScriptModel {
        id: "npc.default"@,
        entry: "greeting"@,
        nodes: seq![
            builtin_greeting(),
            builtin_answer("identity"@, "i am mr d!!!!!"@),
            builtin_answer("place"@, "its doom time"@),
        ],
    }
}

/// Builds the built-in script `npc.default`.
fn build_builtin_script() -> (r: RatScript)
    ensures
        r@ == builtin_script(),
{
    let greeting = RatNodeBuilder::new("greeting").speaker("mr. d.").portrait(
        "models/npc_a/npc_a.png",
    ).text("hey there! i'm mr d.").hook("npc.default.greeting").option(
        RatOptionBuilder::new("who are you?").id("ask_identity").goto("identity").hook(
            "npc.default.option.identity",
        ),
    ).option(
        RatOptionBuilder::new("what happened here?").id("ask_place").goto("place").hook(
            "npc.default.option.place",
        ),
    ).option(RatOptionBuilder::new("i should go.").id("leave").hook("npc.default.option.leave"));
    let identity = RatNodeBuilder::new("identity").speaker("mr. d.").portrait(
        "models/npc_a/npc_a.png",
    ).text("i am mr d!!!!!").next("greeting");
    let place = RatNodeBuilder::new("place").speaker("mr. d.").portrait(
        "models/npc_a/npc_a.png",
    ).text("its doom time").next("greeting");
    let ghost g = greeting@;
    let ghost i = identity@;
    let ghost p = place@;
    let script = RatScriptBuilder::new("npc.default").entry("greeting").node(greeting).node(
        identity,
    ).node(place).build();
    proof {
        reveal_strlit("greeting");
        reveal_strlit("identity");
        reveal_strlit("place");
        assert("greeting"@[0] != "identity"@[0]);
        assert("greeting"@.len() != "place"@.len());
        assert("identity"@ != "place"@);
        let v = seq![g, i, p];
        assert(Seq::<NodeModel>::empty().push(g).push(i).push(p) =~= v);
        assert(ids_unique(v));
        lemma_stored_nodes_distinct(v);
        let b = builtin_greeting();
        assert(g.hooks =~= b.hooks);
        assert(g.options[0].hooks =~= b.options[0].hooks);
        assert(g.options[1].hooks =~= b.options[1].hooks);
        assert(g.options[2].hooks =~= b.options[2].hooks);
        assert(g.options[0] == b.options[0]);
        assert(g.options[1] == b.options[1]);
        assert(g.options[2] == b.options[2]);
        assert(g.options =~= b.options);
        assert(g == b);
        assert(i == builtin_answer("identity"@, "i am mr d!!!!!"@));
        assert(p == builtin_answer("place"@, "its doom time"@));
    }
    script
}

impl RatRuntime {
    /// A runtime with no scripts and no conversation.
    pub fn new() -> (r: Self)
        ensures
            r@ == (RuntimeModel { scripts: Seq::empty(), active: None, in_dialogue: false }),
    {
        let r = RatRuntime {
            scripts: Vec::new(),
            active: None,
        };
        assert(script_models(r.scripts@) =~= Seq::<ScriptModel>::empty());
        r
    }

    /// Replaces the library by `scripts`, registered in order (a later script
    /// replaces an earlier one of the same id). The conversation is left as it is.
    pub fn load_scripts(&mut self, scripts: Vec<RatScript>)
        ensures
            final(self)@ == (RuntimeModel {
                scripts: register_all(Seq::empty(), script_models(scripts@)),
                ..old(self)@
            }),
    {
        self.scripts = Vec::new();
        let ghost src = script_models(scripts@);
        let mut rest = scripts;
        let mut k: usize = 0;
        let total: usize = rest.len();
        assert(script_models(self.scripts@) =~= register_all(Seq::empty(), src.take(0)));
        while rest.len() > 0
            invariant
                k + rest@.len() == src.len(),
                src.len() == total,
                script_models(rest@) == src.subrange(k as int, src.len() as int),
                script_models(self.scripts@) == register_all(Seq::empty(), src.take(k as int)),
                self@.active == old(self)@.active,
                self@.in_dialogue == old(self)@.in_dialogue,
            decreases rest.len(),
        {
            let ghost r0 = rest@;
            let s = rest.remove(0);
            proof {
                assert(r0 =~= seq![s].add(rest@));
                assert(script_models(r0)[0] == s@);
                assert(src[k as int] == s@);
                lemma_map_drop_first(r0, |s: RatScript| s@);
                assert(script_models(rest@) =~= src.subrange(k + 1, src.len() as int));
                assert(src.take(k + 1).drop_last() =~= src.take(k as int));
            }
            self.register(s);
            k += 1;
        }
        assert(src.take(k as int) =~= src);
    }

    /// Adds the built-in script `npc.default` unless a script of that id is there.
    pub fn seed_builtin_script(&mut self)
        ensures
            final(self)@ == (if script_index(old(self)@.scripts, "npc.default"@) is Some {
                old(self)@
            } else {
                RuntimeModel { scripts: old(self)@.scripts.push(builtin_script()), ..old(self)@ }
            }),
    {
        let key = chars_of("npc.default");
        if position_of_script(&self.scripts, &key).is_some() {
            return;
        }
        let script = build_builtin_script();
        self.register(script);
    }

    /// Whether a conversation is going on.
    pub fn dialogue_state(&self) -> (r: RatDialogueState)
        ensures
            r.active == self@.in_dialogue,
            r.active == self@.active is Some,
    {
        RatDialogueState { active: self.active.is_some() }
    }
}

impl Default for RatRuntime {
    fn default() -> (r: Self)
        ensures
            r@ == (RuntimeModel { scripts: Seq::empty(), active: None, in_dialogue: false }),
    {
        RatRuntime::new()
    }
}

/// What a speaker says when shown an item titled `title`.
pub open spec fn item_response_text(title: Seq<char>, already_shared: bool) -> Seq<char> {
    "hmm... "@ + title + ". "@ + if already_shared {
        "i remember this"@
    } else {
        "what is this?"@
    }
}

/// The line a speaker answers with when shown an item titled `title`; it
/// differs when the item was shown to this speaker before.
pub fn item_response_line(title: &str, already_shared: bool) -> (r: String)
    ensures
        r@ == item_response_text(title@, already_shared),
{
    let tail = if already_shared {
        "i remember this"
    } else {
        "what is this?"
    };
    let head = text3("hmm... ", title, ". ");
    let mut line = chars_of(head.as_str());
    let rest = chars_of(tail);
    append_chars(&mut line, &rest);
    string_from_chars(&line)
}

// ---------------------------------------------------------------
// laws of the runtime
// ---------------------------------------------------------------

/// The dialogue state says a conversation is going on exactly when there is one.
pub open spec fn state_matches(m: RuntimeModel) -> bool {
    m.in_dialogue == (m.active is Some)
}

/// Every runtime's dialogue state says a conversation is going on exactly when
/// there is one: the runtime reads it off the conversation itself.
pub proof fn law_runtime_state_matches(rt: &RatRuntime)
    ensures
        state_matches(rt@),
{
}

/// Every command keeps the dialogue state in step with the conversation: it says
/// "active" exactly while a conversation is going on.
pub proof fn law_state_follows_conversation(m: RuntimeModel, cmd: RatCommand, items: Seq<EntryModel>)
    requires
        state_matches(m),
    ensures
        state_matches(command_spec(m, cmd, items).0),
{
}

/// `e`, if it speaks, says the text of the node the conversation `m` is at, in that
/// node's voice, toward the conversation's target.
pub open spec fn speaks_current_node(m: RuntimeModel, e: EffectModel) -> bool {
    match e {
        EffectModel::Speak { text, voice, target } => match current(m) {
            Some((a, s, n)) => text == n.text && voice == n.voice && target == a.target,
            None => false,
        },
        _ => true,
    }
}

/// Every effect of `effects` that speaks says the current node of `m`.
pub open spec fn all_speech_current(m: RuntimeModel, effects: Seq<EffectModel>) -> bool {
    forall|i: int| 0 <= i < effects.len() ==> speaks_current_node(m, #[trigger] effects[i])
}

proof fn lemma_silent_prefix(pre: Seq<EffectModel>, rest: Seq<EffectModel>, m: RuntimeModel)
    requires
        forall|i: int| 0 <= i < pre.len() ==> !(#[trigger] pre[i] is Speak),
        all_speech_current(m, rest),
    ensures
        all_speech_current(m, pre + rest),
{
    assert forall|i: int| 0 <= i < (pre + rest).len() implies speaks_current_node(
        m,
        #[trigger] (pre + rest)[i],
    ) by {
        if i < pre.len() {
            assert((pre + rest)[i] == pre[i]);
        } else {
            assert((pre + rest)[i] == rest[i - pre.len()]);
        }
    }
}

proof fn lemma_close_speech(m: RuntimeModel)
    ensures
        all_speech_current(close_spec(m).0, close_spec(m).1),
{
}

proof fn lemma_show_speech(m: RuntimeModel, items_len: nat, speak: bool)
    ensures
        all_speech_current(show_spec(m, items_len, speak).0, show_spec(m, items_len, speak).1),
{
    match current(m) {
        None => lemma_close_speech(m),
        Some((a, s, n)) => {
            let hooks = node_hook_effects(a, n.hooks);
            let shown = if !headless(a) {
                seq![EffectModel::ShowNode { node: n, show_item_enabled: items_len > 0, speak }]
            } else {
                Seq::empty()
            };
            let spoken = if speak && !headless(a) {
                seq![
                    EffectModel::StopVoice,
                    EffectModel::Speak { voice: n.voice, text: n.text, target: a.target },
                ]
            } else {
                Seq::empty()
            };
            assert(all_speech_current(m, spoken));
            assert forall|i: int| 0 <= i < (hooks + shown).len() implies !(#[trigger] (hooks
                + shown)[i] is Speak) by {
                if i < hooks.len() {
                    assert((hooks + shown)[i] == hooks[i]);
                } else {
                    assert((hooks + shown)[i] == shown[i - hooks.len()]);
                }
            }
            lemma_silent_prefix(hooks + shown, spoken, m);
            assert(show_spec(m, items_len, speak).1 == hooks + shown + spoken);
        },
    }
}

proof fn lemma_follow_speech(m: RuntimeModel, n: NodeModel, items_len: nat)
    ensures
        all_speech_current(follow_spec(m, n, items_len).0, follow_spec(m, n, items_len).1),
{
    match n.next {
        Some(nx) => lemma_show_speech(goto_node(m, nx), items_len, true),
        None => lemma_close_speech(m),
    }
}

proof fn lemma_choose_at_speech(
    m: RuntimeModel,
    a: ActiveModel,
    s: ScriptModel,
    n: NodeModel,
    index: nat,
    items: Seq<EntryModel>,
)
    ensures
        all_speech_current(choose_at(m, a, s, n, index, items).0, choose_at(m, a, s, n, index, items).1),
{
    let r = choose_at(m, a, s, n, index, items);
    if a.overlay == DialogueOverlay::InventoryPicker {
        if index < items.len() {
            let item = items[index as int];
            let specific = "response_"@ + item.id;
            if node_named(s.nodes, specific) is Some {
                let sh = show_spec(goto_node(m, specific), items.len(), true);
                lemma_show_speech(goto_node(m, specific), items.len(), true);
                let hook = r.1[0];
                lemma_silent_prefix(seq![hook], sh.1, sh.0);
                assert(r.1 == seq![hook] + sh.1);
            } else {
                assert forall|i: int| 0 <= i < r.1.len() implies !(#[trigger] r.1[i] is Speak) by {}
            }
        } else {
            lemma_show_speech(with_overlay(m, DialogueOverlay::Off), items.len(), true);
        }
    } else if a.overlay == DialogueOverlay::ItemResponse {
        lemma_show_speech(with_overlay(m, DialogueOverlay::Off), items.len(), true);
    } else if index == n.options.len() {
    } else if n.options.len() == 0 {
        lemma_follow_speech(m, n, items.len());
    } else {
        let o = if index < n.options.len() {
            n.options[index as int]
        } else {
            n.options[0]
        };
        let hooks = option_hook_effects(a, o);
        let next = match o.next {
            Some(x) => Some(x),
            None => n.next,
        };
        let t = match next {
            Some(nx) => show_spec(goto_node(m, nx), items.len(), true),
            None => close_spec(m),
        };
        match next {
            Some(nx) => lemma_show_speech(goto_node(m, nx), items.len(), true),
            None => lemma_close_speech(m),
        }
        assert forall|i: int| 0 <= i < hooks.len() implies !(#[trigger] hooks[i] is Speak) by {}
        lemma_silent_prefix(hooks, t.1, t.0);
    }
}

/// Whatever the command, every line it speaks is the text of the node the
/// conversation is at afterwards, in that node's voice, toward the conversation's
/// target.
pub proof fn law_speech_is_the_current_node(m: RuntimeModel, cmd: RatCommand, items: Seq<EntryModel>)
    ensures
        all_speech_current(command_spec(m, cmd, items).0, command_spec(m, cmd, items).1),
{
    match cmd {
        RatCommand::Register(_) => {},
        RatCommand::Start(st) => {
            match script_named(m.scripts, st@.script_id) {
                None => {},
                Some(sc) => {
                    let a = ActiveModel {
                        script_id: st@.script_id,
                        node_id: sc.entry,
                        target: st@.target,
                        presentation: st@.presentation,
                        overlay: DialogueOverlay::Off,
                    };
                    let m1 = RuntimeModel { active: Some(a), in_dialogue: true, ..m };
                    lemma_show_speech(m1, items.len(), true);
                    let r = command_spec(m, cmd, items);
                    let sh = show_spec(m1, items.len(), true);
                    lemma_silent_prefix(seq![r.1[0]], sh.1, sh.0);
                    assert(r.1 == seq![r.1[0]] + sh.1);
                },
            }
        },
        RatCommand::Advance => {
            match m.active {
                None => {},
                Some(_) => match current(m) {
                    None => lemma_close_speech(m),
                    Some((a, s, n)) => if n.options.len() > 0 {
                        lemma_choose_at_speech(m, a, s, n, 0, items);
                    } else {
                        lemma_follow_speech(m, n, items.len());
                    },
                },
            }
        },
        RatCommand::Choose(i) => {
            match m.active {
                None => {},
                Some(_) => match current(m) {
                    None => lemma_close_speech(m),
                    Some((a, s, n)) => lemma_choose_at_speech(m, a, s, n, i as nat, items),
                },
            }
        },
        RatCommand::Close => {},
    }
}

/// An effect that the player sees or hears: a panel shown or closed, or a line spoken.
pub open spec fn is_visible(e: EffectModel) -> bool {
    ||| e is ShowNode
    ||| e is OpenInventoryPicker
    ||| e is ItemResponse
    ||| e is Speak
    ||| e is CloseUi
}

proof fn lemma_hooks_invisible(a: ActiveModel, hooks: Seq<Seq<char>>, o: OptionModel)
    ensures
        forall|i: int|
            0 <= i < node_hook_effects(a, hooks).len() ==> !is_visible(
                #[trigger] node_hook_effects(a, hooks)[i],
            ),
        forall|i: int|
            0 <= i < option_hook_effects(a, o).len() ==> !is_visible(
                #[trigger] option_hook_effects(a, o)[i],
            ),
{
}

/// A headless conversation shows nothing and says nothing: a command that acts on
/// one (or starts one) has no effect on the panel or the voice but stopping it.
pub proof fn law_headless_is_quiet(m: RuntimeModel, cmd: RatCommand, items: Seq<EntryModel>)
    requires
        match cmd {
            RatCommand::Start(st) => st.presentation == RatDialoguePresentation::Headless,
            RatCommand::Register(_) => true,
            _ => m.active matches Some(a) && headless(a),
        },
    ensures
        forall|i: int|
            0 <= i < command_spec(m, cmd, items).1.len() ==> !is_visible(
                #[trigger] command_spec(m, cmd, items).1[i],
            ),
{
    match cmd {
        RatCommand::Start(st) => {
            match script_named(m.scripts, st@.script_id) {
                None => {},
                Some(s) => {
                    let a = ActiveModel {
                        script_id: st@.script_id,
                        node_id: s.entry,
                        target: st@.target,
                        presentation: st@.presentation,
                        overlay: DialogueOverlay::Off,
                    };
                    let m1 = RuntimeModel { active: Some(a), in_dialogue: true, ..m };
                    lemma_show_quiet(m1, items.len(), true);
                },
            }
        },
        RatCommand::Advance | RatCommand::Choose(_) => {
            let index: nat = match cmd {
                RatCommand::Choose(i) => i as nat,
                _ => 0,
            };
            match current(m) {
                None => {},
                Some((a, s, n)) => {
                    lemma_choose_quiet(m, a, s, n, index, items);
                    lemma_follow_quiet(m, n, items.len());
                },
            }
        },
        _ => {},
    }
}

proof fn lemma_show_quiet(m: RuntimeModel, items_len: nat, speak: bool)
    requires
        m.active matches Some(a) && headless(a),
    ensures
        forall|i: int|
            0 <= i < show_spec(m, items_len, speak).1.len() ==> !is_visible(
                #[trigger] show_spec(m, items_len, speak).1[i],
            ),
{
    match current(m) {
        None => {},
        Some((a, s, n)) => {
            lemma_hooks_invisible(a, n.hooks, OptionModel { id: None, text: Seq::empty(), next: None, hooks: Seq::empty() });
            assert(show_spec(m, items_len, speak).1 =~= node_hook_effects(a, n.hooks));
        },
    }
}

proof fn lemma_follow_quiet(m: RuntimeModel, n: NodeModel, items_len: nat)
    requires
        m.active matches Some(a) && headless(a),
    ensures
        forall|i: int|
            0 <= i < follow_spec(m, n, items_len).1.len() ==> !is_visible(
                #[trigger] follow_spec(m, n, items_len).1[i],
            ),
{
    match n.next {
        Some(nx) => lemma_show_quiet(goto_node(m, nx), items_len, true),
        None => {},
    }
}

proof fn lemma_choose_quiet(
    m: RuntimeModel,
    a: ActiveModel,
    s: ScriptModel,
    n: NodeModel,
    index: nat,
    items: Seq<EntryModel>,
)
    requires
        m.active == Some(a),
        headless(a),
    ensures
        forall|i: int|
            0 <= i < choose_at(m, a, s, n, index, items).1.len() ==> !is_visible(
                #[trigger] choose_at(m, a, s, n, index, items).1[i],
            ),
{
    let fx = choose_at(m, a, s, n, index, items).1;
    if a.overlay == DialogueOverlay::InventoryPicker {
        if index < items.len() {
            let item = items[index as int];
            let specific = "response_"@ + item.id;
            if node_named(s.nodes, specific) is Some {
                lemma_show_quiet(goto_node(m, specific), items.len(), true);
                let r = show_spec(goto_node(m, specific), items.len(), true);
                assert forall|i: int| 0 <= i < fx.len() implies !is_visible(#[trigger] fx[i]) by {
                    if i > 0 {
                        assert(fx[i] == r.1[i - 1]);
                    }
                }
            }
        } else {
            lemma_show_quiet(with_overlay(m, DialogueOverlay::Off), items.len(), true);
        }
    } else if a.overlay == DialogueOverlay::ItemResponse {
        lemma_show_quiet(with_overlay(m, DialogueOverlay::Off), items.len(), true);
    } else if index == n.options.len() {
    } else if n.options.len() == 0 {
        lemma_follow_quiet(m, n, items.len());
    } else {
        let o = if index < n.options.len() {
            n.options[index as int]
        } else {
            n.options[0]
        };
        let hooks = option_hook_effects(a, o);
        lemma_hooks_invisible(a, Seq::empty(), o);
        let next = match o.next {
            Some(x) => Some(x),
            None => n.next,
        };
        match next {
            Some(nx) => {
                lemma_show_quiet(goto_node(m, nx), items.len(), true);
                let r = show_spec(goto_node(m, nx), items.len(), true);
                assert forall|i: int| 0 <= i < fx.len() implies !is_visible(#[trigger] fx[i]) by {
                    if i >= hooks.len() {
                        assert(fx[i] == r.1[i - hooks.len()]);
                    } else {
                        assert(fx[i] == hooks[i]);
                    }
                }
            },
            None => {
                assert(fx =~= hooks);
            },
        }
    }
}

/// After a script is registered, looking up its id finds it, and every other id
/// finds what it found before.
pub proof fn law_register_then_lookup(m: RuntimeModel, script: RatScript, items: Seq<EntryModel>)
    ensures
        script_named(command_spec(m, RatCommand::Register(script), items).0.scripts, script@.id)
            == Some(script@),
        forall|other: Seq<char>|
            other != script@.id ==> script_named(
                command_spec(m, RatCommand::Register(script), items).0.scripts,
                other,
            ) == script_named(m.scripts, other),
        command_spec(m, RatCommand::Register(script), items).1.len() == 0,
{
    let s = script@;
    let after = register_script(m.scripts, s);
    lemma_script_index(m.scripts, s.id);
    lemma_script_index(after, s.id);
    match script_index(m.scripts, s.id) {
        Some(k) => {
            assert(after[k] == s);
            assert forall|j: int| 0 <= j < k implies after[j].id != s.id by {
                assert(after[j] == m.scripts[j]);
            }
        },
        None => {
            assert(after[m.scripts.len() as int] == s);
            assert forall|j: int| 0 <= j < m.scripts.len() implies after[j].id != s.id by {
                assert(after[j] == m.scripts[j]);
            }
        },
    }
    assert forall|other: Seq<char>| other != s.id implies script_named(after, other)
        == script_named(m.scripts, other) by {
        lemma_script_index(m.scripts, other);
        lemma_script_index(after, other);
        match script_index(m.scripts, other) {
            Some(k) => {
                assert(after[k] == m.scripts[k]);
                assert forall|j: int| 0 <= j < k implies after[j].id != other by {
                    assert(after[j].id == m.scripts[j].id || after[j] == s);
                }
                if let Some(k2) = script_index(after, other) {
                    if k2 > k {
                        assert(after[k].id == other);
                    }
                }
            },
            None => {
                assert forall|j: int| 0 <= j < after.len() implies after[j].id != other by {
                    if j < m.scripts.len() {
                        assert(after[j].id == m.scripts[j].id || after[j] == s);
                    } else {
                        assert(after[j] == s);
                    }
                }
            },
        }
    }
}

/// Advancing at a node that has options is choosing its first entry.
pub proof fn law_advance_is_first_choice(m: RuntimeModel, items: Seq<EntryModel>)
    requires
        current(m) matches Some((a, s, n)) && n.options.len() > 0,
    ensures
        command_spec(m, RatCommand::Advance, items) == command_spec(m, RatCommand::Choose(0), items),
{
}

/// Choosing option `index` of the node shown (no overlay): the option's hooks fire
/// first, in order; then the conversation moves to the option's target (else the
/// node's successor), or ends when there is none or that node does not exist.
pub proof fn law_choose_option(m: RuntimeModel, index: usize, items: Seq<EntryModel>)
    requires
        current(m) matches Some((a, s, n)) && a.overlay == DialogueOverlay::Off && index
            < n.options.len(),
    ensures
        ({
            let (a, s, n) = current(m)->0;
            let o = n.options[index as int];
            let r = command_spec(m, RatCommand::Choose(index), items);
            let next = match o.next {
                Some(x) => Some(x),
                None => n.next,
            };
            &&& r.1.take(o.hooks.len() as int) == option_hook_effects(a, o)
            &&& r.0.active == match next {
                Some(t) => if node_named(s.nodes, t) is Some {
                    Some(ActiveModel { node_id: t, overlay: DialogueOverlay::Off, ..a })
                } else {
                    None
                },
                None => None,
            }
        }),
{
    let (a, s, n) = current(m)->0;
    let o = n.options[index as int];
    let r = command_spec(m, RatCommand::Choose(index), items);
    let hooks = option_hook_effects(a, o);
    assert(r.1.take(hooks.len() as int) =~= hooks);
    let next = match o.next {
        Some(x) => Some(x),
        None => n.next,
    };
    match next {
        Some(t) => {
            let m2 = goto_node(m, t);
            assert(m2.scripts == m.scripts);
            assert(script_named(m2.scripts, a.script_id) == Some(s));
        },
        None => {},
    }
}

/// Starting a registered script: the conversation stands at its entry node with the
/// requested target and presentation, and the first effect records the meeting.
/// Starting an unknown script changes nothing and does nothing.
pub proof fn law_start(m: RuntimeModel, start: RatStart, items: Seq<EntryModel>)
    ensures
        ({
            let r = command_spec(m, RatCommand::Start(start), items);
            match script_named(m.scripts, start@.script_id) {
                None => r.0 == m && r.1.len() == 0,
                Some(s) => {
                    &&& r.1.len() > 0
                    &&& r.1[0] is Record
                    &&& node_named(s.nodes, s.entry) is Some ==> {
                        &&& r.0.in_dialogue
                        &&& r.0.active == Some(
                            ActiveModel {
                                script_id: start@.script_id,
                                node_id: s.entry,
                                target: start@.target,
                                presentation: start@.presentation,
                                overlay: DialogueOverlay::Off,
                            },
                        )
                    }
                },
            }
        }),
{
    lemma_script_index(m.scripts, start@.script_id);
}

/// Closing always ends the conversation, keeps the library, and stops the voice last.
pub proof fn law_close(m: RuntimeModel, items: Seq<EntryModel>)
    ensures
        ({
            let r = command_spec(m, RatCommand::Close, items);
            &&& r.0 == RuntimeModel { active: None, in_dialogue: false, ..m }
            &&& r.1.len() > 0
            &&& r.1.last() == EffectModel::StopVoice
        }),
{
}

/// Without a conversation, advancing and choosing change nothing and do nothing.
pub proof fn law_idle_commands(m: RuntimeModel, index: usize, items: Seq<EntryModel>)
    requires
        m.active is None,
    ensures
        command_spec(m, RatCommand::Advance, items) == (m, Seq::<EffectModel>::empty()),
        command_spec(m, RatCommand::Choose(index), items) == (m, Seq::<EffectModel>::empty()),
{
}

/// Opening the item picker and taking its "back" entry returns to the node as it
/// was, which is shown again (unless the conversation runs headless).
pub proof fn law_picker_back_returns(m: RuntimeModel, items: Seq<EntryModel>)
    requires
        current(m) matches Some((a, s, n)) && a.overlay == DialogueOverlay::Off && n.options.len()
            <= usize::MAX && items.len() > 0 && items.len() <= usize::MAX,
    ensures
        ({
            let (a0, s0, n) = current(m)->0;
            let m1 = command_spec(m, RatCommand::Choose(n.options.len() as usize), items).0;
            let r2 = command_spec(m1, RatCommand::Choose(items.len() as usize), items);
            &&& m1.active matches Some(a1) && a1.overlay == DialogueOverlay::InventoryPicker
            &&& r2.0 == m
            &&& !headless(a0) ==> exists|i: int| 0 <= i < r2.1.len() && #[trigger] r2.1[i] is ShowNode
        }),
{
    let (a, s, n) = current(m)->0;
    let m1 = with_overlay(m, DialogueOverlay::InventoryPicker);
    assert(command_spec(m, RatCommand::Choose(n.options.len() as usize), items).0 == m1);
    assert(script_named(m1.scripts, a.script_id) == Some(s));
    let a1 = m1.active->0;
    assert(current(m1) == Some((a1, s, n)));
    let back = with_overlay(m1, DialogueOverlay::Off);
    assert(back == m);
    let r2 = command_spec(m1, RatCommand::Choose(items.len() as usize), items);
    assert(r2 == show_spec(back, items.len(), true));
    if !headless(a) {
        let hooks = node_hook_effects(a, n.hooks);
        assert(r2.1[hooks.len() as int] is ShowNode);
    }
}

} // verus!
