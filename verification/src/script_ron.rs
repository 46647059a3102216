//! The plain form of a dialogue script, as `.ron` assets hold it, and the
//! conversions between it and `RatScript`.

use vstd::prelude::*;
use vstd::multiset::Multiset;

use crate::script::{
    clone_opt_str, clone_str, clone_strs, find_node, ids_unique, lemma_find_node, lemma_map_drop_first,
    lemma_map_take_push, node_models, node_named, opt_str, owned, position_of_node, strs,
    NodeModel, OptionModel, RatNode, RatOption, RatScript, ScriptModel,
};
use crate::text::{append_chars, chars_of, string_from_chars};
use crate::text::{ascii_lower_seq, trim_end_seq, trim_seq, trim_start_seq};
use crate::voice::{voice_preset_named, VoicePreset};

verus! {

#[derive(Debug, Clone, Copy, PartialEq, Eq, Structural)]
pub enum RatVoiceRon {
    HostileEntity,
    LostChild,
    CorruptedTransmission,
    NeutralNpc,
}

impl Default for RatVoiceRon {
    fn default() -> (r: Self)
        ensures
            r == RatVoiceRon::NeutralNpc,
    {
        RatVoiceRon::NeutralNpc
    }
}

/// The preset a `.ron` voice names.
pub open spec fn preset_of(v: RatVoiceRon) -> VoicePreset {
    match v {
        RatVoiceRon::HostileEntity => VoicePreset::HostileEntity,
        RatVoiceRon::LostChild => VoicePreset::LostChild,
        RatVoiceRon::CorruptedTransmission => VoicePreset::CorruptedTransmission,
        RatVoiceRon::NeutralNpc => VoicePreset::NeutralNpc,
    }
}

/// The `.ron` name of a preset.
pub open spec fn ron_voice_of(v: VoicePreset) -> RatVoiceRon {
    match v {
        VoicePreset::HostileEntity => RatVoiceRon::HostileEntity,
        VoicePreset::LostChild => RatVoiceRon::LostChild,
        VoicePreset::CorruptedTransmission => RatVoiceRon::CorruptedTransmission,
        VoicePreset::NeutralNpc => RatVoiceRon::NeutralNpc,
    }
}

/// The name a voice is written with in a `.ron` script (its variant name in snake
/// case).
pub open spec fn ron_voice_name(v: RatVoiceRon) -> Seq<char> {
    match v {
        RatVoiceRon::HostileEntity => "hostile_entity"@,
        RatVoiceRon::LostChild => "lost_child"@,
        RatVoiceRon::CorruptedTransmission => "corrupted_transmission"@,
        RatVoiceRon::NeutralNpc => "neutral_npc"@,
    }
}

proof fn lemma_plain_name(s: Seq<char>)
    requires
        s.len() > 0,
        forall|i: int| 0 <= i < s.len() ==> ('a' <= #[trigger] s[i] <= 'z' || s[i] == '_'),
    ensures
        ascii_lower_seq(trim_seq(s)) == s,
{
    assert(trim_start_seq(s) == s);
    assert(trim_end_seq(s) == s);
    assert(ascii_lower_seq(s) =~= s);
}

/// A voice reads the same in both script forms: the preset a `.ron` voice stands
/// for is the preset that its name names in a `.rat` script, and writing a preset
/// out gives the voice whose name names that preset.
pub proof fn law_voice_names_agree(v: RatVoiceRon, p: VoicePreset)
    ensures
        preset_of(v) == voice_preset_named(ron_voice_name(v)),
        voice_preset_named(ron_voice_name(ron_voice_of(p))) == p,
{
    reveal_strlit("hostile_entity");
    reveal_strlit("lost_child");
    reveal_strlit("corrupted_transmission");
    reveal_strlit("neutral_npc");
    lemma_plain_name("hostile_entity"@);
    lemma_plain_name("lost_child"@);
    lemma_plain_name("corrupted_transmission"@);
    lemma_plain_name("neutral_npc"@);
    reveal_strlit("hostile");
    reveal_strlit("child");
    reveal_strlit("glitch");
    let names = seq![
        "hostile_entity"@,
        "hostile"@,
        "lost_child"@,
        "child"@,
        "corrupted_transmission"@,
        "glitch"@,
        "neutral_npc"@,
    ];
    assert forall|i: int, j: int| 0 <= i < j < names.len() implies names[i] != names[j] by {
        assert(names[i].len() != names[j].len() || names[i][0] != names[j][0]);
    }
}

impl From<RatVoiceRon> for VoicePreset {
    fn from(value: RatVoiceRon) -> (r: Self) {
        match value {
            RatVoiceRon::HostileEntity => VoicePreset::HostileEntity,
            RatVoiceRon::LostChild => VoicePreset::LostChild,
            RatVoiceRon::CorruptedTransmission => VoicePreset::CorruptedTransmission,
            RatVoiceRon::NeutralNpc => VoicePreset::NeutralNpc,
        }
    }
}

impl vstd::std_specs::convert::FromSpecImpl<RatVoiceRon> for VoicePreset {
    open spec fn obeys_from_spec() -> bool {
        true
    }

    open spec fn from_spec(v: RatVoiceRon) -> VoicePreset {
        preset_of(v)
    }
}

impl From<VoicePreset> for RatVoiceRon {
    fn from(value: VoicePreset) -> (r: Self) {
        match value {
            VoicePreset::HostileEntity => RatVoiceRon::HostileEntity,
            VoicePreset::LostChild => RatVoiceRon::LostChild,
            VoicePreset::CorruptedTransmission => RatVoiceRon::CorruptedTransmission,
            VoicePreset::NeutralNpc => RatVoiceRon::NeutralNpc,
        }
    }
}

impl vstd::std_specs::convert::FromSpecImpl<VoicePreset> for RatVoiceRon {
    open spec fn obeys_from_spec() -> bool {
        true
    }

    open spec fn from_spec(v: VoicePreset) -> RatVoiceRon {
        ron_voice_of(v)
    }
}

#[derive(Debug)]
pub struct RatOptionRon {
    pub id: Option<String>,
    pub text: String,
    pub next: Option<String>,
    pub hooks: Vec<String>,
}

impl View for RatOptionRon {
    type V = OptionModel;

    open spec fn view(&self) -> OptionModel {
        OptionModel {
            id: opt_str(self.id),
            text: self.text@,
            next: opt_str(self.next),
            hooks: strs(self.hooks@),
        }
    }
}

/// The views of a list of `.ron` options.
pub open spec fn ron_option_models(v: Seq<RatOptionRon>) -> Seq<OptionModel> {
    v.map_values(|o: RatOptionRon| o@)
}

#[derive(Debug)]
pub struct RatNodeRon {
    pub id: String,
    pub speaker: String,
    pub text: String,
    pub portrait_path: String,
    pub voice: RatVoiceRon,
    pub next: Option<String>,
    pub hooks: Vec<String>,
    pub options: Vec<RatOptionRon>,
}

impl View for RatNodeRon {
    type V = NodeModel;

    open spec fn view(&self) -> NodeModel {
        NodeModel {
            id: self.id@,
            speaker: self.speaker@,
            text: self.text@,
            portrait_path: self.portrait_path@,
            voice: preset_of(self.voice),
            next: opt_str(self.next),
            hooks: strs(self.hooks@),
            options: ron_option_models(self.options@),
        }
    }
}

/// The views of a list of `.ron` nodes.
pub open spec fn ron_node_models(v: Seq<RatNodeRon>) -> Seq<NodeModel> {
    v.map_values(|n: RatNodeRon| n@)
}

#[derive(Debug)]
pub struct RatScriptRon {
    pub id: String,
    pub entry: String,
    pub nodes: Vec<RatNodeRon>,
}

impl View for RatScriptRon {
    type V = ScriptModel;

    open spec fn view(&self) -> ScriptModel {
        ScriptModel { id: self.id@, entry: self.entry@, nodes: ron_node_models(self.nodes@) }
    }
}

/// The first position `k >= from` whose node repeats the id of an earlier node.
pub open spec fn first_repeat(nodes: Seq<NodeModel>, from: int) -> Option<int>
    decreases nodes.len() - from,
{
    if from < 0 || from >= nodes.len() {
        None
    } else if find_node(nodes.take(from), nodes[from].id) is Some {
        Some(from)
    } else {
        first_repeat(nodes, from + 1)
    }
}

/// The message of a repeated node id.
pub open spec fn duplicate_node_message(id: Seq<char>) -> Seq<char> {
    "duplicate node id '"@ + id + "'"@
}

/// The message of a `.ron` script whose entry names no node.
pub open spec fn missing_entry_message(entry: Seq<char>, script: Seq<char>) -> Seq<char> {
    "entry node '"@ + entry + "' not found in script '"@ + script + "'"@
}

/// What reading a plain script gives: the script with the same nodes, unless a node
/// id repeats (the first repeat is reported) or the entry names no node.
pub open spec fn script_from_ron(v: ScriptModel) -> Result<ScriptModel, Seq<char>> {
    match first_repeat(v.nodes, 0) {
        Some(k) => Err(duplicate_node_message(v.nodes[k].id)),
        None => if node_named(v.nodes, v.entry) is None {
            Err(missing_entry_message(v.entry, v.id))
        } else {
            Ok(v)
        },
    }
}

fn options_from_ron(v: Vec<RatOptionRon>) -> (r: Vec<RatOption>)
    ensures
        r@.map_values(|o: RatOption| o@) == ron_option_models(v@),
{
    let ghost src = ron_option_models(v@);
    let mut rest = v;
    let mut out: Vec<RatOption> = Vec::new();
    while rest.len() > 0
        invariant
            out@.map_values(|o: RatOption| o@) + ron_option_models(rest@) == src,
        decreases rest.len(),
    {
        let ghost r0 = rest@;
        let ghost o0 = out@;
        let opt = rest.remove(0);
        proof {
            assert(r0 =~= seq![opt].add(rest@));
            lemma_map_drop_first(r0, |o: RatOptionRon| o@);
        }
        out.push(RatOption { id: opt.id, text: opt.text, next: opt.next, hooks: opt.hooks });
        assert(out@.map_values(|o: RatOption| o@) + ron_option_models(rest@) =~= o0.map_values(
            |o: RatOption| o@,
        ) + ron_option_models(r0));
    }
    assert(out@.map_values(|o: RatOption| o@) =~= src);
    out
}

fn node_from_ron(n: RatNodeRon) -> (r: RatNode)
    ensures
        r@ == n@,
{
    let options = options_from_ron(n.options);
    RatNode {
        id: n.id,
        speaker: n.speaker,
        text: n.text,
        portrait_path: n.portrait_path,
        voice: VoicePreset::from(n.voice),
        next: n.next,
        hooks: n.hooks,
        options,
    }
}

/// The text `a + x + b`.
pub fn text3(a: &str, x: &str, b: &str) -> (r: String)
    ensures
        r@ == a@ + x@ + b@,
{
    let mut out = chars_of(a);
    let cx = chars_of(x);
    append_chars(&mut out, &cx);
    let cb = chars_of(b);
    append_chars(&mut out, &cb);
    string_from_chars(&out)
}

/// The text `a + x + b + y + c`.
pub fn text5(a: &str, x: &str, b: &str, y: &str, c: &str) -> (r: String)
    ensures
        r@ == a@ + x@ + b@ + y@ + c@,
{
    let mut out = chars_of(a);
    let cx = chars_of(x);
    append_chars(&mut out, &cx);
    let cb = chars_of(b);
    append_chars(&mut out, &cb);
    let cy = chars_of(y);
    append_chars(&mut out, &cy);
    let cc = chars_of(c);
    append_chars(&mut out, &cc);
    string_from_chars(&out)
}

impl RatScript {
    /// Reads a plain script (see `script_from_ron`).
    pub fn try_from_ron(value: RatScriptRon) -> (r: Result<RatScript, String>)
        ensures
            match script_from_ron(value@) {
                Ok(m) => r matches Ok(s) && s@ == m,
                Err(e) => r matches Err(msg) && msg@ == e,
            },
    {
        let ghost src = value@;
        let id = value.id;
        let entry = value.entry;
        let nodes = value.nodes;
        let mut rest = nodes;
        let mut out: Vec<RatNode> = Vec::new();
        let mut k: usize = 0;
        let total: usize = rest.len();
        while rest.len() > 0
            invariant
                src == value@,
                k + rest@.len() == src.nodes.len(),
                src.nodes.len() == total,
                ron_node_models(rest@) == src.nodes.subrange(k as int, src.nodes.len() as int),
                node_models(out@) == src.nodes.take(k as int),
                first_repeat(src.nodes, 0) == first_repeat(src.nodes, k as int),
            decreases rest.len(),
        {
            let ghost r0 = rest@;
            let node = rest.remove(0);
            proof {
                assert(r0 =~= seq![node].add(rest@));
                lemma_map_drop_first(r0, |n: RatNodeRon| n@);
                assert(ron_node_models(r0)[0] == node@);
                assert(src.nodes[k as int] == node@);
                assert(ron_node_models(rest@) =~= src.nodes.subrange(k + 1, src.nodes.len() as int));
            }
            let key = chars_of(node.id.as_str());
            if position_of_node(&out, &key).is_some() {
                proof {
                    lemma_find_node(node_models(out@), key@);
                }
                let msg = text3("duplicate node id '", node.id.as_str(), "'");
                assert(key@ == src.nodes[k as int].id);
                assert(find_node(src.nodes.take(k as int), src.nodes[k as int].id) is Some);
                assert(first_repeat(src.nodes, k as int) == Some(k as int));
                assert(msg@ == duplicate_node_message(src.nodes[k as int].id));
                assert(script_from_ron(src) == Err::<ScriptModel, Seq<char>>(duplicate_node_message(src.nodes[k as int].id)));
                return Err(msg);
            }
            let built = node_from_ron(node);
            proof {
                lemma_map_take_push(src.nodes, k as int, |m: NodeModel| m);
            }
            out.push(built);
            assert(node_models(out@) =~= src.nodes.take(k + 1));
            k += 1;
        }
        assert(src.nodes.take(k as int) =~= src.nodes);
        let script = RatScript { id, entry, nodes: out };
        let entry_str = clone_str(&script.entry);
        if !script.contains_node(entry_str.as_str()) {
            let msg = text5(
                "entry node '",
                script.entry.as_str(),
                "' not found in script '",
                script.id.as_str(),
                "'",
            );
            return Err(msg);
        }
        Ok(script)
    }
}

// ---------------------------------------------------------------
// writing a script in plain form
// ---------------------------------------------------------------

/// Strings in the order in which `String` compares them: character by character
/// by code point, a proper prefix first.
pub open spec fn id_le(a: Seq<char>, b: Seq<char>) -> bool
    decreases a.len(),
{
    if a.len() == 0 {
        true
    } else if b.len() == 0 {
        false
    } else if a[0] != b[0] {
        (a[0] as int) < (b[0] as int)
    } else {
        id_le(a.drop_first(), b.drop_first())
    }
}

/// The order is total.
pub proof fn lemma_id_le_total(a: Seq<char>, b: Seq<char>)
    ensures
        id_le(a, b) || id_le(b, a),
    decreases a.len(),
{
    if a.len() > 0 && b.len() > 0 {
        if a[0] == b[0] {
            lemma_id_le_total(a.drop_first(), b.drop_first());
        }
    }
}

/// The order is transitive.
pub proof fn lemma_id_le_trans(a: Seq<char>, b: Seq<char>, c: Seq<char>)
    requires
        id_le(a, b),
        id_le(b, c),
    ensures
        id_le(a, c),
    decreases a.len(),
{
    if a.len() > 0 && b.len() > 0 && c.len() > 0 && a[0] == b[0] && b[0] == c[0] {
        lemma_id_le_trans(a.drop_first(), b.drop_first(), c.drop_first());
    }
}

/// Whether `v` is sorted by node id.
pub open spec fn sorted_by_id(v: Seq<NodeModel>) -> bool {
    forall|i: int, j: int| 0 <= i < j < v.len() ==> id_le(v[i].id, v[j].id)
}

/// Whether `a` comes no later than `b` in the order of `String`.
fn id_le_exec(a: &[char], b: &[char]) -> (r: bool)
    ensures
        r == id_le(a@, b@),
{
    let mut i: usize = 0;
    assert(a@.skip(0) =~= a@);
    assert(b@.skip(0) =~= b@);
    while i < a.len() && i < b.len() && a[i] == b[i]
        invariant
            i <= a@.len(),
            i <= b@.len(),
            id_le(a@, b@) == id_le(a@.skip(i as int), b@.skip(i as int)),
        decreases a.len() - i,
    {
        assert(a@.skip(i as int).drop_first() =~= a@.skip(i + 1));
        assert(b@.skip(i as int).drop_first() =~= b@.skip(i + 1));
        i += 1;
    }
    if i == a.len() {
        true
    } else if i == b.len() {
        false
    } else {
        a[i] < b[i]
    }
}

fn option_to_ron(o: &RatOption) -> (r: RatOptionRon)
    ensures
        r@ == o@,
{
    RatOptionRon {
        id: clone_opt_str(&o.id),
        text: clone_str(&o.text),
        next: clone_opt_str(&o.next),
        hooks: clone_strs(&o.hooks),
    }
}

fn node_to_ron(n: &RatNode) -> (r: RatNodeRon)
    ensures
        r@ == n@,
{
    let mut options: Vec<RatOptionRon> = Vec::new();
    let mut k: usize = 0;
    while k < n.options.len()
        invariant
            k <= n.options@.len(),
            ron_option_models(options@) == n@.options.take(k as int),
        decreases n.options.len() - k,
    {
        assert(n@.options[k as int] == n.options@[k as int]@);
        let ghost o0 = options@;
        options.push(option_to_ron(&n.options[k]));
        assert(ron_option_models(options@) =~= ron_option_models(o0).push(n@.options[k as int]));
        assert(n@.options.take(k + 1) =~= n@.options.take(k as int).push(n@.options[k as int]));
        k += 1;
    }
    assert(n@.options.take(k as int) =~= n@.options);
    RatNodeRon {
        id: clone_str(&n.id),
        speaker: clone_str(&n.speaker),
        text: clone_str(&n.text),
        portrait_path: clone_str(&n.portrait_path),
        voice: RatVoiceRon::from(n.voice),
        next: clone_opt_str(&n.next),
        hooks: clone_strs(&n.hooks),
        options,
    }
}

impl RatScriptRon {
    /// The plain form of a script: its id, its entry and its nodes sorted by id.
    pub fn from_script(script: &RatScript) -> (r: RatScriptRon)
        ensures
            r@.id == script@.id,
            r@.entry == script@.entry,
            r@.nodes.to_multiset() == script@.nodes.to_multiset(),
            sorted_by_id(r@.nodes),
    {
        broadcast use vstd::seq_lib::group_to_multiset_ensures;
        broadcast use vstd::multiset::group_multiset_axioms;

        let mut rest: Vec<RatNodeRon> = Vec::new();
        let mut k: usize = 0;
        while k < script.nodes.len()
            invariant
                k <= script.nodes@.len(),
                ron_node_models(rest@) == script@.nodes.take(k as int),
            decreases script.nodes.len() - k,
        {
            assert(script@.nodes[k as int] == script.nodes@[k as int]@);
            let ghost r0 = rest@;
            rest.push(node_to_ron(&script.nodes[k]));
            assert(ron_node_models(rest@) =~= ron_node_models(r0).push(script@.nodes[k as int]));
            assert(script@.nodes.take(k + 1) =~= script@.nodes.take(k as int).push(
                script@.nodes[k as int],
            ));
            k += 1;
        }
        assert(script@.nodes.take(k as int) =~= script@.nodes);
        let ghost all = script@.nodes;
        let mut out: Vec<RatNodeRon> = Vec::new();
        while rest.len() > 0
            invariant
                ron_node_models(out@).to_multiset().add(ron_node_models(rest@).to_multiset())
                    == all.to_multiset(),
                sorted_by_id(ron_node_models(out@)),
                forall|i: int, j: int|
                    0 <= i < out@.len() && 0 <= j < rest@.len() ==> id_le(
                        #[trigger] ron_node_models(out@)[i].id,
                        #[trigger] ron_node_models(rest@)[j].id,
                    ),
            decreases rest.len(),
        {
            let ghost rm = ron_node_models(rest@);
            let ghost om = ron_node_models(out@);
            let mut best: usize = 0;
            let mut i: usize = 1;
            proof {
                lemma_id_le_total(rm[0].id, rm[0].id);
            }
            while i < rest.len()
                invariant
                    rm == ron_node_models(rest@),
                    best < rest@.len(),
                    1 <= i <= rest@.len(),
                    forall|j: int| 0 <= j < i ==> id_le(rm[best as int].id, #[trigger] rm[j].id),
                decreases rest.len() - i,
            {
                let bc = chars_of(rest[best].id.as_str());
                let ic = chars_of(rest[i].id.as_str());
                assert(rm[best as int] == rest@[best as int]@);
                assert(rm[i as int] == rest@[i as int]@);
                if !id_le_exec(&bc, &ic) {
                    proof {
                        lemma_id_le_total(rm[best as int].id, rm[i as int].id);
                        assert forall|j: int| 0 <= j <= i implies id_le(
                            rm[i as int].id,
                            #[trigger] rm[j].id,
                        ) by {
                            if j < i {
                                lemma_id_le_trans(rm[i as int].id, rm[best as int].id, rm[j].id);
                            } else {
                                lemma_id_le_total(rm[i as int].id, rm[i as int].id);
                            }
                        }
                    }
                    best = i;
                } else {
                    assert(id_le(rm[best as int].id, rm[i as int].id));
                }
                i += 1;
            }
            let ghost m = rm[best as int];
            let node = rest.remove(best);
            assert(ron_node_models(rest@) =~= rm.remove(best as int));
            proof {
                assert(node@ == m);
                vstd::seq_lib::to_multiset_remove(rm, best as int);
                assert(rm.contains(m));
                vstd::seq_lib::to_multiset_contains(rm, m);
                vstd::seq_lib::to_multiset_build(om, m);
            }
            out.push(node);
            assert(ron_node_models(out@) =~= om.push(m));
            proof {
                let on = ron_node_models(out@);
                let rn = ron_node_models(rest@);
                assert(om.push(m).to_multiset() == om.to_multiset().insert(m));
                assert(on.to_multiset().add(rn.to_multiset()) =~= om.to_multiset().add(
                    rm.to_multiset(),
                ));
                assert forall|a: int, b: int| 0 <= a < b < on.len() implies id_le(
                    on[a].id,
                    on[b].id,
                ) by {
                    if b == on.len() - 1 {
                        assert(on[b] == m);
                        assert(rm[best as int] == m);
                        assert(id_le(om[a].id, rm[best as int].id));
                    } else {
                        assert(on[a] == om[a] && on[b] == om[b]);
                    }
                }
                assert forall|a: int, j: int| 0 <= a < on.len() && 0 <= j < rn.len() implies id_le(
                    #[trigger] on[a].id,
                    #[trigger] rn[j].id,
                ) by {
                    let jj = if j < best { j } else { j + 1 };
                    assert(rn[j] == rm[jj]);
                    if a == on.len() - 1 {
                        assert(on[a] == m);
                    } else {
                        assert(on[a] == om[a]);
                    }
                }
            }
        }
        assert(ron_node_models(rest@).to_multiset() =~= Multiset::<NodeModel>::empty());
        RatScriptRon { id: clone_str(&script.id), entry: clone_str(&script.entry), nodes: out }
    }
}

/// With distinct ids, a node is found under an id exactly when it is one of the
/// nodes and has that id.
proof fn lemma_named_by_membership(v: Seq<NodeModel>, x: Seq<char>)
    requires
        ids_unique(v),
    ensures
        match node_named(v, x) {
            Some(n) => v.contains(n) && n.id == x,
            None => forall|n: NodeModel| v.contains(n) ==> n.id != x,
        },
        forall|n: NodeModel| v.contains(n) && n.id == x ==> node_named(v, x) == Some(n),
{
    lemma_find_node(v, x);
    match find_node(v, x) {
        Some(k) => {
            assert(v.contains(v[k]));
            assert forall|n: NodeModel| v.contains(n) && n.id == x implies node_named(v, x) == Some(
                n,
            ) by {
                let j = choose|j: int| 0 <= j < v.len() && v[j] == n;
                if j != k {
                    assert(v[j].id != v[k].id);
                }
            }
        },
        None => {},
    }
}

/// Distinct ids leave no repeat to report.
proof fn lemma_no_repeat(v: Seq<NodeModel>, from: int)
    requires
        ids_unique(v),
        0 <= from,
    ensures
        first_repeat(v, from) is None,
    decreases v.len() - from,
{
    if from < v.len() {
        let t = v.take(from);
        lemma_find_node(t, v[from].id);
        if let Some(k) = find_node(t, v[from].id) {
            assert(t[k] == v[k]);
        }
        lemma_no_repeat(v, from + 1);
    }
}

/// The same nodes in another order keep their ids distinct.
proof fn lemma_unique_permutation(s: Seq<NodeModel>, r: Seq<NodeModel>)
    requires
        ids_unique(s),
        r.to_multiset() == s.to_multiset(),
    ensures
        ids_unique(r),
{
    broadcast use vstd::seq_lib::group_to_multiset_ensures;
    broadcast use vstd::multiset::group_multiset_axioms;

    assert(s.no_duplicates()) by {
        assert forall|i: int, j: int| 0 <= i < s.len() && 0 <= j < s.len() && i != j implies s[i]
            != s[j] by {
            if i < j {
                assert(s[i].id != s[j].id);
            } else {
                assert(s[j].id != s[i].id);
            }
        }
    }
    s.lemma_multiset_has_no_duplicates();
    r.lemma_multiset_has_no_duplicates_conv();
    assert forall|a: int, b: int| 0 <= a < b < r.len() implies r[a].id != r[b].id by {
        assert(r.contains(r[a]));
        assert(r.contains(r[b]));
        vstd::seq_lib::to_multiset_contains(r, r[a]);
        vstd::seq_lib::to_multiset_contains(r, r[b]);
        vstd::seq_lib::to_multiset_contains(s, r[a]);
        vstd::seq_lib::to_multiset_contains(s, r[b]);
        assert(s.contains(r[a]));
        assert(s.contains(r[b]));
        let p = choose|p: int| 0 <= p < s.len() && s[p] == r[a];
        let q = choose|q: int| 0 <= q < s.len() && s[q] == r[b];
        assert(r[a] != r[b]);
        if r[a].id == r[b].id {
            assert(p != q);
            if p < q {
                assert(s[p].id != s[q].id);
            } else {
                assert(s[q].id != s[p].id);
            }
        }
    }
}

/// Writing a script in plain form and reading it back gives the same script:
/// the same id and entry, and under every id the same node. This holds for a script
/// whose node ids are distinct and whose entry names one of its nodes; any order
/// of the nodes will do.
pub proof fn law_plain_round_trip(s: ScriptModel, plain_nodes: Seq<NodeModel>)
    requires
        ids_unique(s.nodes),
        node_named(s.nodes, s.entry) is Some,
        plain_nodes.to_multiset() == s.nodes.to_multiset(),
    ensures
        script_from_ron(ScriptModel { nodes: plain_nodes, ..s }) matches Ok(m) && m.id == s.id
            && m.entry == s.entry && forall|x: Seq<char>| #[trigger]
            node_named(m.nodes, x) == node_named(s.nodes, x),
{
    broadcast use vstd::seq_lib::group_to_multiset_ensures;

    lemma_unique_permutation(s.nodes, plain_nodes);
    lemma_no_repeat(plain_nodes, 0);
    assert forall|x: Seq<char>| #[trigger] node_named(plain_nodes, x) == node_named(s.nodes, x) by {
        lemma_named_by_membership(s.nodes, x);
        lemma_named_by_membership(plain_nodes, x);
        match node_named(s.nodes, x) {
            Some(n) => {
                vstd::seq_lib::to_multiset_contains(s.nodes, n);
                vstd::seq_lib::to_multiset_contains(plain_nodes, n);
                assert(plain_nodes.contains(n));
            },
            None => {
                if let Some(n) = node_named(plain_nodes, x) {
                    vstd::seq_lib::to_multiset_contains(s.nodes, n);
                    vstd::seq_lib::to_multiset_contains(plain_nodes, n);
                    assert(s.nodes.contains(n));
                }
            },
        }
    }
}

} // verus!
