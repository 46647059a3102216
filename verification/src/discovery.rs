//! The discovery database: the items the player carries and the people met,
//! with the commands that edit it and the records of interactions with them.

use vstd::prelude::*;

use crate::script::{clone_opt_str, clone_str, lemma_map_drop_first, opt_str, owned};
use crate::script_ron::text3;

verus! {

#[derive(Debug, Clone, Copy, PartialEq, Eq, Hash, Structural)]
pub enum DiscoveryKind {
    Item,
    Npc,
}

/// What a discovery entry is.
pub struct EntryModel {
    pub id: Seq<char>,
    pub title: Seq<char>,
    pub subtitle: Seq<char>,
    pub description: Seq<char>,
    pub image_path: Option<Seq<char>>,
    pub model_path: Option<Seq<char>>,
    pub seen: bool,
}

#[derive(Debug)]
pub struct DiscoveryEntry {
    pub id: String,
    pub title: String,
    pub subtitle: String,
    pub description: String,
    pub image_path: Option<String>,
    pub model_path: Option<String>,
    pub seen: bool,
}

impl View for DiscoveryEntry {
    type V = EntryModel;

    open spec fn view(&self) -> EntryModel {
        EntryModel {
            id: self.id@,
            title: self.title@,
            subtitle: self.subtitle@,
            description: self.description@,
            image_path: opt_str(self.image_path),
            model_path: opt_str(self.model_path),
            seen: self.seen,
        }
    }
}

impl DiscoveryEntry {
    /// An unseen entry with the given id and title, empty subtitle and description
    /// and no image or model.
    pub fn new(id: &str, title: &str) -> (r: Self)
        ensures
            r@ == (EntryModel {
                id: id@,
                title: title@,
                subtitle: Seq::empty(),
                description: Seq::empty(),
                image_path: None,
                model_path: None,
                seen: false,
            }),
    {
        DiscoveryEntry {
            id: owned(id),
            title: owned(title),
            subtitle: String::new(),
            description: String::new(),
            image_path: None,
            model_path: None,
            seen: false,
        }
    }

    pub fn subtitle(self, subtitle: &str) -> (r: Self)
        ensures
            r@ == (EntryModel { subtitle: subtitle@, ..self@ }),
    {
        DiscoveryEntry { subtitle: owned(subtitle), ..self }
    }

    pub fn description(self, description: &str) -> (r: Self)
        ensures
            r@ == (EntryModel { description: description@, ..self@ }),
    {
        DiscoveryEntry { description: owned(description), ..self }
    }

    pub fn image_path(self, path: &str) -> (r: Self)
        ensures
            r@ == (EntryModel { image_path: Some(path@), ..self@ }),
    {
        DiscoveryEntry { image_path: Some(owned(path)), ..self }
    }

    pub fn model_path(self, path: &str) -> (r: Self)
        ensures
            r@ == (EntryModel { model_path: Some(path@), ..self@ }),
    {
        DiscoveryEntry { model_path: Some(owned(path)), ..self }
    }

    pub fn seen(self, seen: bool) -> (r: Self)
        ensures
            r@ == (EntryModel { seen, ..self@ }),
    {
        DiscoveryEntry { seen, ..self }
    }

    pub fn duplicate(&self) -> (r: Self)
        ensures
            r@ == self@,
    {
        DiscoveryEntry {
            id: clone_str(&self.id),
            title: clone_str(&self.title),
            subtitle: clone_str(&self.subtitle),
            description: clone_str(&self.description),
            image_path: clone_opt_str(&self.image_path),
            model_path: clone_opt_str(&self.model_path),
            seen: self.seen,
        }
    }
}

impl Default for DiscoveryEntry {
    fn default() -> (r: Self)
        ensures
            r@ == (EntryModel {
                id: Seq::empty(),
                title: Seq::empty(),
                subtitle: Seq::empty(),
                description: Seq::empty(),
                image_path: None,
                model_path: None,
                seen: false,
            }),
    {
        DiscoveryEntry {
            id: String::new(),
            title: String::new(),
            subtitle: String::new(),
            description: String::new(),
            image_path: None,
            model_path: None,
            seen: false,
        }
    }
}

#[derive(Debug, Clone, Copy, PartialEq, Eq, Structural)]
pub enum DiscoveryInteractionAction {
    Collected,
    Inspected,
    Shared,
    StatusChanged,
}

#[derive(Debug)]
pub enum DiscoveryInteractionActor {
    Player,
    Speaker(String),
    System,
}

/// What an interaction's actor is.
pub enum ActorModel {
    Player,
    Speaker(Seq<char>),
    System,
}

impl View for DiscoveryInteractionActor {
    type V = ActorModel;

    open spec fn view(&self) -> ActorModel {
        match self {
            DiscoveryInteractionActor::Player => ActorModel::Player,
            DiscoveryInteractionActor::Speaker(s) => ActorModel::Speaker(s@),
            DiscoveryInteractionActor::System => ActorModel::System,
        }
    }
}

/// What an interaction record says.
pub struct InteractionModel {
    pub kind: DiscoveryKind,
    pub id: Seq<char>,
    pub action: DiscoveryInteractionAction,
    pub actor: ActorModel,
    pub script_id: Option<Seq<char>>,
    pub node_id: Option<Seq<char>>,
    pub option_id: Option<Seq<char>>,
    pub note: Option<Seq<char>>,
}

#[derive(Debug)]
pub struct DiscoveryInteraction {
    pub kind: DiscoveryKind,
    pub id: String,
    pub action: DiscoveryInteractionAction,
    pub actor: DiscoveryInteractionActor,
    pub script_id: Option<String>,
    pub node_id: Option<String>,
    pub option_id: Option<String>,
    pub note: Option<String>,
}

impl View for DiscoveryInteraction {
    type V = InteractionModel;

    open spec fn view(&self) -> InteractionModel {
        InteractionModel {
            kind: self.kind,
            id: self.id@,
            action: self.action,
            actor: self.actor@,
            script_id: opt_str(self.script_id),
            node_id: opt_str(self.node_id),
            option_id: opt_str(self.option_id),
            note: opt_str(self.note),
        }
    }
}

impl Default for DiscoveryInteraction {
    fn default() -> (r: Self)
        ensures
            r@ == (InteractionModel {
                kind: DiscoveryKind::Item,
                id: Seq::empty(),
                action: DiscoveryInteractionAction::StatusChanged,
                actor: ActorModel::System,
                script_id: None,
                node_id: None,
                option_id: None,
                note: None,
            }),
    {
        DiscoveryInteraction {
            kind: DiscoveryKind::Item,
            id: String::new(),
            action: DiscoveryInteractionAction::StatusChanged,
            actor: DiscoveryInteractionActor::System,
            script_id: None,
            node_id: None,
            option_id: None,
            note: None,
        }
    }
}

impl DiscoveryInteraction {
    /// An interaction with no script, node, option or note.
    pub fn new(
        kind: DiscoveryKind,
        id: &str,
        action: DiscoveryInteractionAction,
        actor: DiscoveryInteractionActor,
    ) -> (r: Self)
        ensures
            r@ == (InteractionModel {
                kind,
                id: id@,
                action,
                actor: actor@,
                script_id: None,
                node_id: None,
                option_id: None,
                note: None,
            }),
    {
        DiscoveryInteraction {
            kind,
            id: owned(id),
            action,
            actor,
            script_id: None,
            node_id: None,
            option_id: None,
            note: None,
        }
    }

    pub fn script(self, script_id: &str) -> (r: Self)
        ensures
            r@ == (InteractionModel { script_id: Some(script_id@), ..self@ }),
    {
        DiscoveryInteraction { script_id: Some(owned(script_id)), ..self }
    }

    pub fn node(self, node_id: &str) -> (r: Self)
        ensures
            r@ == (InteractionModel { node_id: Some(node_id@), ..self@ }),
    {
        DiscoveryInteraction { node_id: Some(owned(node_id)), ..self }
    }

    pub fn option(self, option_id: &str) -> (r: Self)
        ensures
            r@ == (InteractionModel { option_id: Some(option_id@), ..self@ }),
    {
        DiscoveryInteraction { option_id: Some(owned(option_id)), ..self }
    }

    pub fn note(self, note: &str) -> (r: Self)
        ensures
            r@ == (InteractionModel { note: Some(note@), ..self@ }),
    {
        DiscoveryInteraction { note: Some(owned(note)), ..self }
    }
}

#[derive(Debug)]
pub struct DiscoveryInteractionRecord {
    pub sequence: u64,
    pub interaction: DiscoveryInteraction,
}

impl Default for DiscoveryInteractionRecord {
    fn default() -> (r: Self)
        ensures
            r.sequence == 0,
            r.interaction@ == DiscoveryInteraction::default_model(),
    {
        DiscoveryInteractionRecord { sequence: 0, interaction: DiscoveryInteraction::default() }
    }
}

impl DiscoveryInteraction {
    /// The default interaction: an item status change by the system, with no id.
    pub open spec fn default_model() -> InteractionModel {
        InteractionModel {
            kind: DiscoveryKind::Item,
            id: Seq::empty(),
            action: DiscoveryInteractionAction::StatusChanged,
            actor: ActorModel::System,
            script_id: None,
            node_id: None,
            option_id: None,
            note: None,
        }
    }
}

#[derive(Debug)]
pub struct UiDiscoveryDbSnapshot {
    pub items: Vec<DiscoveryEntry>,
    pub npcs: Vec<DiscoveryEntry>,
    pub interactions: Vec<DiscoveryInteractionRecord>,
    pub revision: u64,
    pub next_interaction_sequence: u64,
}

impl Default for UiDiscoveryDbSnapshot {
    fn default() -> (r: Self)
        ensures
            r.items@.len() == 0,
            r.npcs@.len() == 0,
            r.interactions@.len() == 0,
            r.revision == 1,
            r.next_interaction_sequence == 1,
    {
        UiDiscoveryDbSnapshot {
            items: Vec::new(),
            npcs: Vec::new(),
            interactions: Vec::new(),
            revision: 1,
            next_interaction_sequence: 1,
        }
    }
}

#[derive(Debug)]
pub enum UiDiscoveryCommand {
    Upsert { kind: DiscoveryKind, entry: DiscoveryEntry },
    Remove { kind: DiscoveryKind, id: String },
    SetSeen { kind: DiscoveryKind, id: String, seen: bool },
    MoveItem { id: String, to_index: usize },
    DropItem { id: String },
    ClearKind { kind: DiscoveryKind },
    RecordInteraction { interaction: DiscoveryInteraction },
    ReplaceAll { snapshot: UiDiscoveryDbSnapshot },
}

// ---------------------------------------------------------------
// the database
// ---------------------------------------------------------------

/// The views of a list of entries.
pub open spec fn entry_models(v: Seq<DiscoveryEntry>) -> Seq<EntryModel> {
    v.map_values(|e: DiscoveryEntry| e@)
}

/// The position of the first entry of `list` with the given id.
pub open spec fn entry_index(list: Seq<EntryModel>, id: Seq<char>) -> Option<int>
    decreases list.len(),
{
    if list.len() == 0 {
        None
    } else {
        match entry_index(list.drop_last(), id) {
            Some(k) => Some(k),
            None => if list.last().id == id {
                Some(list.len() - 1)
            } else {
                None
            },
        }
    }
}

pub proof fn lemma_entry_index(list: Seq<EntryModel>, id: Seq<char>)
    ensures
        match entry_index(list, id) {
            Some(k) => 0 <= k < list.len() && list[k].id == id && forall|j: int|
                0 <= j < k ==> list[j].id != id,
            None => forall|j: int| 0 <= j < list.len() ==> list[j].id != id,
        },
    decreases list.len(),
{
    if list.len() > 0 {
        let t = list.drop_last();
        lemma_entry_index(t, id);
        assert forall|j: int| 0 <= j < t.len() implies t[j] == list[j] by {}
    }
}

/// `list` with `entry` stored under its id: the first entry with that id is
/// replaced, otherwise the entry is added at the end.
pub open spec fn upsert_list(list: Seq<EntryModel>, entry: EntryModel) -> Seq<EntryModel> {
    match entry_index(list, entry.id) {
        Some(k) => list.update(k, entry),
        None => list.push(entry),
    }
}

/// `list` without the entries that have the given id.
pub open spec fn without_id(list: Seq<EntryModel>, id: Seq<char>) -> Seq<EntryModel>
    decreases list.len(),
{
    if list.len() == 0 {
        Seq::empty()
    } else {
        let p = without_id(list.drop_last(), id);
        if list.last().id == id {
            p
        } else {
            p.push(list.last())
        }
    }
}

pub proof fn lemma_without_id(list: Seq<EntryModel>, id: Seq<char>)
    ensures
        without_id(list, id).len() <= list.len(),
        without_id(list, id).len() == list.len() <==> entry_index(list, id) is None,
        forall|j: int| 0 <= j < without_id(list, id).len() ==> (#[trigger] without_id(list, id)[j]).id != id,
        entry_index(list, id) is None ==> without_id(list, id) == list,
    decreases list.len(),
{
    if list.len() > 0 {
        let t = list.drop_last();
        lemma_without_id(t, id);
        if entry_index(t, id) is None && list.last().id != id {
            assert(list =~= t.push(list.last()));
        }
    }
}

/// The revision after a change: one more, wrapping around at the top.
pub open spec fn next_revision(r: u64) -> u64 {
    if r == u64::MAX {
        0
    } else {
        (r + 1) as u64
    }
}

fn bump(r: u64) -> (n: u64)
    ensures
        n == next_revision(r),
{
    if r == u64::MAX {
        0
    } else {
        r + 1
    }
}

/// What the database holds: its items, its people and its revision.
pub struct DbModel {
    pub items: Seq<EntryModel>,
    pub npcs: Seq<EntryModel>,
    pub revision: u64,
}

/// The entries of one kind.
pub open spec fn list_of(m: DbModel, kind: DiscoveryKind) -> Seq<EntryModel> {
    match kind {
        DiscoveryKind::Item => m.items,
        DiscoveryKind::Npc => m.npcs,
    }
}

/// `m` with the entries of one kind replaced and the given revision.
pub open spec fn with_list(m: DbModel, kind: DiscoveryKind, list: Seq<EntryModel>, revision: u64) -> DbModel {
    match kind {
        DiscoveryKind::Item => DbModel { items: list, npcs: m.npcs, revision },
        DiscoveryKind::Npc => DbModel { items: m.items, npcs: list, revision },
    }
}

#[derive(Debug)]
pub struct UiDiscoveryDb {
    items: Vec<DiscoveryEntry>,
    npcs: Vec<DiscoveryEntry>,
    revision: u64,
}

impl View for UiDiscoveryDb {
    type V = DbModel;

    closed spec fn view(&self) -> DbModel {
        DbModel {
            items: entry_models(self.items@),
            npcs: entry_models(self.npcs@),
            revision: self.revision,
        }
    }
}

fn find_entry(list: &Vec<DiscoveryEntry>, id: &str) -> (r: Option<usize>)
    ensures
        r matches Some(k) ==> entry_index(entry_models(list@), id@) == Some(k as int),
        r is None ==> entry_index(entry_models(list@), id@) is None,
{
    proof {
        lemma_entry_index(entry_models(list@), id@);
    }
    let mut k: usize = 0;
    while k < list.len()
        invariant
            k <= list@.len(),
            forall|j: int| 0 <= j < k ==> entry_models(list@)[j].id != id@,
            match entry_index(entry_models(list@), id@) {
                Some(m) => 0 <= m < list@.len() && entry_models(list@)[m].id == id@ && forall|
                    j: int,
                | 0 <= j < m ==> entry_models(list@)[j].id != id@,
                None => forall|j: int| 0 <= j < list@.len() ==> entry_models(list@)[j].id != id@,
            },
        decreases list.len() - k,
    {
        assert(entry_models(list@)[k as int] == list@[k as int]@);
        if list[k].id == owned(id) {
            return Some(k);
        }
        k += 1;
    }
    None
}

fn upsert_into(list: &mut Vec<DiscoveryEntry>, entry: DiscoveryEntry)
    ensures
        entry_models(final(list)@) == upsert_list(entry_models(old(list)@), entry@),
{
    proof {
        lemma_entry_index(entry_models(list@), entry.id@);
    }
    match find_entry(list, entry.id.as_str()) {
        Some(k) => {
            list.set(k, entry);
        },
        None => {
            list.push(entry);
        },
    }
    assert(entry_models(list@) =~= upsert_list(entry_models(old(list)@), entry@));
}

fn remove_from(list: &mut Vec<DiscoveryEntry>, id: &str)
    ensures
        entry_models(final(list)@) == without_id(entry_models(old(list)@), id@),
{
    let ghost src = entry_models(list@);
    let mut kept: Vec<DiscoveryEntry> = Vec::new();
    let mut rest: Vec<DiscoveryEntry> = Vec::new();
    core::mem::swap(&mut rest, list);
    let mut k: usize = 0;
    let total = rest.len();
    assert(entry_models(rest@) == src);
    while rest.len() > 0
        invariant
            k + rest@.len() == src.len(),
            src.len() == total,
            entry_models(rest@) == src.subrange(k as int, src.len() as int),
            entry_models(kept@) == without_id(src.take(k as int), id@),
        decreases rest.len(),
    {
        let ghost r0 = rest@;
        let e = rest.remove(0);
        proof {
            assert(r0 =~= seq![e].add(rest@));
            assert(entry_models(r0)[0] == e@);
            assert(src[k as int] == e@);
            lemma_map_drop_first(r0, |e: DiscoveryEntry| e@);
            assert(entry_models(rest@) =~= src.subrange(k + 1, src.len() as int));
            assert(src.take(k + 1).drop_last() =~= src.take(k as int));
        }
        let ghost k0 = kept@;
        if e.id != owned(id) {
            kept.push(e);
            assert(entry_models(kept@) =~= entry_models(k0).push(src[k as int]));
        }
        k += 1;
    }
    assert(src.take(k as int) =~= src);
    *list = kept;
}

impl UiDiscoveryDb {
    /// Stores `entry` under its id among the entries of `kind` and moves to the
    /// next revision.
    pub fn upsert(&mut self, kind: DiscoveryKind, entry: DiscoveryEntry)
        ensures
            final(self)@ == with_list(
                old(self)@,
                kind,
                upsert_list(list_of(old(self)@, kind), entry@),
                next_revision(old(self)@.revision),
            ),
    {
        match kind {
            DiscoveryKind::Item => upsert_into(&mut self.items, entry),
            DiscoveryKind::Npc => upsert_into(&mut self.npcs, entry),
        }
        self.revision = bump(self.revision);
    }

    /// Removes the entries of `kind` with the given id; tells whether there were any,
    /// and only then moves to the next revision.
    pub fn remove(&mut self, kind: DiscoveryKind, id: &str) -> (r: bool)
        ensures
            r == (entry_index(list_of(old(self)@, kind), id@) is Some),
            final(self)@ == with_list(
                old(self)@,
                kind,
                without_id(list_of(old(self)@, kind), id@),
                if r {
                    next_revision(old(self)@.revision)
                } else {
                    old(self)@.revision
                },
            ),
    {
        let before = match kind {
            DiscoveryKind::Item => self.items.len(),
            DiscoveryKind::Npc => self.npcs.len(),
        };
        proof {
            lemma_without_id(list_of(self@, kind), id@);
        }
        match kind {
            DiscoveryKind::Item => remove_from(&mut self.items, id),
            DiscoveryKind::Npc => remove_from(&mut self.npcs, id),
        }
        let after = match kind {
            DiscoveryKind::Item => self.items.len(),
            DiscoveryKind::Npc => self.npcs.len(),
        };
        let removed = after != before;
        if removed {
            self.revision = bump(self.revision);
        }
        removed
    }

    /// Sets the seen flag of the first entry of `kind` with the given id; tells
    /// whether there is one. The revision moves on only when the flag changes.
    pub fn set_seen(&mut self, kind: DiscoveryKind, id: &str, seen: bool) -> (r: bool)
        ensures
            r == (entry_index(list_of(old(self)@, kind), id@) is Some),
            match entry_index(list_of(old(self)@, kind), id@) {
                Some(k) => {
                    let e = list_of(old(self)@, kind)[k];
                    final(self)@ == with_list(
                        old(self)@,
                        kind,
                        list_of(old(self)@, kind).update(k, EntryModel { seen, ..e }),
                        if e.seen != seen {
                            next_revision(old(self)@.revision)
                        } else {
                            old(self)@.revision
                        },
                    )
                },
                None => final(self)@ == old(self)@,
            },
    {
        let found = match kind {
            DiscoveryKind::Item => find_entry(&self.items, id),
            DiscoveryKind::Npc => find_entry(&self.npcs, id),
        };
        proof {
            lemma_entry_index(list_of(self@, kind), id@);
        }
        match found {
            None => false,
            Some(k) => {
                let ghost old_list = list_of(self@, kind);
                let changed = match kind {
                    DiscoveryKind::Item => {
                        let mut e = self.items[k].duplicate();
                        let changed = e.seen != seen;
                        e.seen = seen;
                        self.items.set(k, e);
                        changed
                    },
                    DiscoveryKind::Npc => {
                        let mut e = self.npcs[k].duplicate();
                        let changed = e.seen != seen;
                        e.seen = seen;
                        self.npcs.set(k, e);
                        changed
                    },
                };
                if changed {
                    self.revision = bump(self.revision);
                }
                assert(list_of(self@, kind) =~= old_list.update(
                    k as int,
                    EntryModel { seen, ..old_list[k as int] },
                ));
                true
            },
        }
    }

    /// Removes every entry of `kind` and moves to the next revision.
    pub fn clear_kind(&mut self, kind: DiscoveryKind)
        ensures
            final(self)@ == with_list(
                old(self)@,
                kind,
                Seq::empty(),
                next_revision(old(self)@.revision),
            ),
    {
        match kind {
            DiscoveryKind::Item => self.items.clear(),
            DiscoveryKind::Npc => self.npcs.clear(),
        }
        self.revision = bump(self.revision);
        assert(list_of(self@, kind) =~= Seq::<EntryModel>::empty());
    }

    /// The entries of `kind`, in order.
    pub fn entries(&self, kind: DiscoveryKind) -> (r: &[DiscoveryEntry])
        ensures
            entry_models(r@) == list_of(self@, kind),
    {
        match kind {
            DiscoveryKind::Item => self.items.as_slice(),
            DiscoveryKind::Npc => self.npcs.as_slice(),
        }
    }

    pub fn revision(&self) -> (r: u64)
        ensures
            r == self@.revision,
    {
        self.revision
    }

    /// Applies one command: upsert, remove, set-seen and clear act as the methods of
    /// the same names; the other commands leave the database unchanged.
    pub fn apply(&mut self, cmd: UiDiscoveryCommand)
        ensures
            match cmd {
                UiDiscoveryCommand::Upsert { kind, entry } => final(self)@ == with_list(
                    old(self)@,
                    kind,
                    upsert_list(list_of(old(self)@, kind), entry@),
                    next_revision(old(self)@.revision),
                ),
                UiDiscoveryCommand::Remove { kind, id } => final(self)@ == with_list(
                    old(self)@,
                    kind,
                    without_id(list_of(old(self)@, kind), id@),
                    if entry_index(list_of(old(self)@, kind), id@) is Some {
                        next_revision(old(self)@.revision)
                    } else {
                        old(self)@.revision
                    },
                ),
                UiDiscoveryCommand::SetSeen { kind, id, seen } => match entry_index(
                    list_of(old(self)@, kind),
                    id@,
                ) {
                    Some(k) => {
                        let e = list_of(old(self)@, kind)[k];
                        final(self)@ == with_list(
                            old(self)@,
                            kind,
                            list_of(old(self)@, kind).update(k, EntryModel { seen, ..e }),
                            if e.seen != seen {
                                next_revision(old(self)@.revision)
                            } else {
                                old(self)@.revision
                            },
                        )
                    },
                    None => final(self)@ == old(self)@,
                },
                UiDiscoveryCommand::ClearKind { kind } => final(self)@ == with_list(
                    old(self)@,
                    kind,
                    Seq::empty(),
                    next_revision(old(self)@.revision),
                ),
                _ => final(self)@ == old(self)@,
            },
    {
        match cmd {
            UiDiscoveryCommand::Upsert { kind, entry } => self.upsert(kind, entry),
            UiDiscoveryCommand::Remove { kind, id } => {
                self.remove(kind, id.as_str());
            },
            UiDiscoveryCommand::SetSeen { kind, id, seen } => {
                self.set_seen(kind, id.as_str(), seen);
            },
            UiDiscoveryCommand::ClearKind { kind } => self.clear_kind(kind),
            _ => {},
        }
    }
}

/// The database a new game starts with: no items and one known person.
pub open spec fn initial_db() -> DbModel {
    DbModel {
        items: Seq::empty(),
        npcs: seq![
            EntryModel {
                id: "D."@,
                title: "Mr. D."@,
                subtitle: "room 400"@,
                description: "what day is today? Doomsday?"@,
                image_path: None,
                model_path: None,
                seen: true,
            },
        ],
        revision: 1,
    }
}

impl Default for UiDiscoveryDb {
    fn default() -> (r: Self)
        ensures
            r@ == initial_db(),
    {
        let mut npcs: Vec<DiscoveryEntry> = Vec::new();
        npcs.push(
            DiscoveryEntry::new("D.", "Mr. D.").subtitle("room 400").description(
                "what day is today? Doomsday?",
            ).seen(true),
        );
        let items: Vec<DiscoveryEntry> = Vec::new();
        let r = UiDiscoveryDb { items, npcs, revision: 1 };
        assert(entry_models(r.items@) =~= Seq::<EntryModel>::empty());
        assert(entry_models(r.npcs@) =~= initial_db().npcs);
        r
    }
}

// ---------------------------------------------------------------
// laws of the database
// ---------------------------------------------------------------

/// The entry with the given id.
pub open spec fn entry_named(list: Seq<EntryModel>, id: Seq<char>) -> Option<EntryModel> {
    match entry_index(list, id) {
        Some(k) => Some(list[k]),
        None => None,
    }
}

/// After an upsert the entry is found under its id, every other id finds what it
/// found before, and the entries of the other kind are untouched.
pub proof fn law_upsert_then_lookup(m: DbModel, kind: DiscoveryKind, e: EntryModel)
    ensures
        ({
            let after = with_list(m, kind, upsert_list(list_of(m, kind), e), next_revision(m.revision));
            &&& entry_named(list_of(after, kind), e.id) == Some(e)
            &&& forall|other: Seq<char>|
                other != e.id ==> entry_named(list_of(after, kind), other) == entry_named(
                    list_of(m, kind),
                    other,
                )
            &&& list_of(after, if kind == DiscoveryKind::Item {
                DiscoveryKind::Npc
            } else {
                DiscoveryKind::Item
            }) == list_of(m, if kind == DiscoveryKind::Item {
                DiscoveryKind::Npc
            } else {
                DiscoveryKind::Item
            })
        }),
{
    let list = list_of(m, kind);
    let up = upsert_list(list, e);
    lemma_entry_index(list, e.id);
    lemma_entry_index(up, e.id);
    match entry_index(list, e.id) {
        Some(k) => {
            assert(up[k] == e);
            assert forall|j: int| 0 <= j < k implies up[j].id != e.id by {
                assert(up[j] == list[j]);
            }
        },
        None => {
            assert(up[list.len() as int] == e);
            assert forall|j: int| 0 <= j < list.len() implies up[j].id != e.id by {
                assert(up[j] == list[j]);
            }
        },
    }
    assert forall|other: Seq<char>| other != e.id implies entry_named(up, other) == entry_named(
        list,
        other,
    ) by {
        lemma_entry_index(list, other);
        lemma_entry_index(up, other);
        match entry_index(list, other) {
            Some(k) => {
                assert(up[k] == list[k]);
                assert forall|j: int| 0 <= j < k implies up[j].id != other by {
                    assert(up[j].id == list[j].id || up[j] == e);
                }
                if let Some(k2) = entry_index(up, other) {
                    if k2 > k {
                        assert(up[k].id == other);
                    }
                }
            },
            None => {
                assert forall|j: int| 0 <= j < up.len() implies up[j].id != other by {
                    if j < list.len() {
                        assert(up[j].id == list[j].id || up[j] == e);
                    } else {
                        assert(up[j] == e);
                    }
                }
            },
        }
    }
}

/// After a removal no entry has the id.
pub proof fn law_remove_then_absent(list: Seq<EntryModel>, id: Seq<char>)
    ensures
        entry_named(without_id(list, id), id) is None,
{
    lemma_without_id(list, id);
    lemma_entry_index(without_id(list, id), id);
}

/// Every change moves the revision to a new value.
pub proof fn law_revision_moves(r: u64)
    ensures
        next_revision(r) != r,
{
}

// ---------------------------------------------------------------
// picking an item up
// ---------------------------------------------------------------

/// What an item's metadata file says of it.
#[derive(Debug)]
pub struct ItemMeta {
    pub id: String,
    pub name: String,
    pub subtitle: String,
    pub description: String,
}

/// The metadata file of an item whose model file is named `name` (without its
/// extensions), used when the item names none.
pub fn default_item_meta_path(name: &str) -> (r: String)
    ensures
        r@ == "items/"@ + name@ + ".item.meta"@,
{
    text3("items/", name, ".item.meta")
}

/// The two commands a pickup sends to the database: the item is stored, unseen,
/// with its model's first scene as preview; and the pickup is recorded.
pub fn pickup_commands(meta: &ItemMeta, model: &str) -> (r: (UiDiscoveryCommand, UiDiscoveryCommand))
    ensures
        r.0 matches UiDiscoveryCommand::Upsert { kind, entry } && kind == DiscoveryKind::Item
            && entry@ == (EntryModel {
            id: meta.id@,
            title: meta.name@,
            subtitle: meta.subtitle@,
            description: meta.description@,
            image_path: None,
            model_path: Some(model@ + "#Scene0"@),
            seen: false,
        }),
        r.1 matches UiDiscoveryCommand::RecordInteraction { interaction } && interaction@ == (
        InteractionModel {
            kind: DiscoveryKind::Item,
            id: meta.id@,
            action: DiscoveryInteractionAction::Collected,
            actor: ActorModel::Player,
            script_id: None,
            node_id: None,
            option_id: None,
            note: Some("inventory.pickup"@),
        }),
{
    let scene = text3(model, "#Scene0", "");
    proof {
        reveal_strlit("");
        assert(model@ + "#Scene0"@ + ""@ =~= model@ + "#Scene0"@);
    }
    let entry = DiscoveryEntry::new(meta.id.as_str(), meta.name.as_str()).subtitle(
        meta.subtitle.as_str(),
    ).description(meta.description.as_str()).model_path(scene.as_str()).seen(false);
    let interaction = DiscoveryInteraction::new(
        DiscoveryKind::Item,
        meta.id.as_str(),
        DiscoveryInteractionAction::Collected,
        DiscoveryInteractionActor::Player,
    ).note("inventory.pickup");
    (
        UiDiscoveryCommand::Upsert { kind: DiscoveryKind::Item, entry },
        UiDiscoveryCommand::RecordInteraction { interaction },
    )
}

} // verus!
