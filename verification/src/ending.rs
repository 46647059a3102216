//! Ending screens: the payload an ending shows, the catalog that keeps them in the
//! order they were first added, and the commands that edit and show them.

use vstd::prelude::*;

use crate::script::{clone_str, clone_strs, lemma_map_drop_first, lemma_map_take_push, owned, strs};
use crate::text::{append_chars, chars_of, string_from_chars};

verus! {

/// What an ending shows.
pub struct EndingModel {
    pub id: Seq<char>,
    pub title: Seq<char>,
    pub subtitle: Seq<char>,
    pub narrative: Seq<char>,
    pub status_lines: Seq<Seq<char>>,
}

#[derive(Debug)]
pub struct UiEndingPayload {
    pub id: String,
    pub title: String,
    pub subtitle: String,
    pub narrative: String,
    pub status_lines: Vec<String>,
}

impl View for UiEndingPayload {
    type V = EndingModel;

    open spec fn view(&self) -> EndingModel {
        EndingModel {
            id: self.id@,
            title: self.title@,
            subtitle: self.subtitle@,
            narrative: self.narrative@,
            status_lines: strs(self.status_lines@),
        }
    }
}

/// The ending `id` before anything is said of it.
pub open spec fn placeholder_ending(id: Seq<char>) -> EndingModel {
    EndingModel {
        id,
        title: "END // UNKNOWN"@,
        subtitle: "archive pending"@,
        narrative: "No narrative provided."@,
        status_lines: seq!["timeline integrity: [reconstructing]"@],
    }
}

/// The views of a list of `&str`.
pub open spec fn str_views(v: Seq<&str>) -> Seq<Seq<char>> {
    v.map_values(|s: &str| s@)
}

impl UiEndingPayload {
    /// An ending with the given id and placeholder texts.
    pub fn new(id: &str) -> (r: Self)
        ensures
            r@ == placeholder_ending(id@),
    {
        let mut lines: Vec<String> = Vec::new();
        lines.push(owned("timeline integrity: [reconstructing]"));
        let r = UiEndingPayload {
            id: owned(id),
            title: owned("END // UNKNOWN"),
            subtitle: owned("archive pending"),
            narrative: owned("No narrative provided."),
            status_lines: lines,
        };
        assert(strs(r.status_lines@) =~= seq!["timeline integrity: [reconstructing]"@]);
        r
    }

    pub fn title(self, value: &str) -> (r: Self)
        ensures
            r@ == (EndingModel { title: value@, ..self@ }),
    {
        UiEndingPayload { title: owned(value), ..self }
    }

    pub fn subtitle(self, value: &str) -> (r: Self)
        ensures
            r@ == (EndingModel { subtitle: value@, ..self@ }),
    {
        UiEndingPayload { subtitle: owned(value), ..self }
    }

    pub fn narrative(self, value: &str) -> (r: Self)
        ensures
            r@ == (EndingModel { narrative: value@, ..self@ }),
    {
        UiEndingPayload { narrative: owned(value), ..self }
    }

    /// Replaces the status lines by `lines`, in order.
    pub fn status_lines(self, lines: &[&str]) -> (r: Self)
        ensures
            r@ == (EndingModel { status_lines: str_views(lines@), ..self@ }),
    {
        let mut out: Vec<String> = Vec::new();
        let mut k: usize = 0;
        while k < lines.len()
            invariant
                k <= lines@.len(),
                strs(out@) == str_views(lines@.take(k as int)),
            decreases lines.len() - k,
        {
            proof {
                lemma_map_take_push(lines@, k as int, |s: &str| s@);
            }
            out.push(owned(lines[k]));
            k += 1;
            assert(strs(out@) =~= str_views(lines@.take(k as int)));
        }
        assert(lines@.take(k as int) =~= lines@);
        UiEndingPayload { status_lines: out, ..self }
    }

    pub fn duplicate(&self) -> (r: Self)
        ensures
            r@ == self@,
    {
        UiEndingPayload {
            id: clone_str(&self.id),
            title: clone_str(&self.title),
            subtitle: clone_str(&self.subtitle),
            narrative: clone_str(&self.narrative),
            status_lines: clone_strs(&self.status_lines),
        }
    }
}

/// The views of a list of endings.
pub open spec fn ending_models(v: Seq<UiEndingPayload>) -> Seq<EndingModel> {
    v.map_values(|e: UiEndingPayload| e@)
}

/// The position of the first ending of `list` with the given id.
pub open spec fn ending_index(list: Seq<EndingModel>, id: Seq<char>) -> Option<int>
    decreases list.len(),
{
    if list.len() == 0 {
        None
    } else {
        match ending_index(list.drop_last(), id) {
            Some(k) => Some(k),
            None => if list.last().id == id {
                Some(list.len() - 1)
            } else {
                None
            },
        }
    }
}

pub proof fn lemma_ending_index(list: Seq<EndingModel>, id: Seq<char>)
    ensures
        match ending_index(list, id) {
            Some(k) => 0 <= k < list.len() && list[k].id == id && forall|j: int|
                0 <= j < k ==> list[j].id != id,
            None => forall|j: int| 0 <= j < list.len() ==> list[j].id != id,
        },
    decreases list.len(),
{
    if list.len() > 0 {
        let t = list.drop_last();
        lemma_ending_index(t, id);
        assert forall|j: int| 0 <= j < t.len() implies t[j] == list[j] by {}
    }
}

/// `list` with `e` stored under its id: an ending with that id is replaced where it
/// stands, otherwise `e` comes last.
pub open spec fn upsert_ending(list: Seq<EndingModel>, e: EndingModel) -> Seq<EndingModel> {
    match ending_index(list, e.id) {
        Some(k) => list.update(k, e),
        None => list.push(e),
    }
}

/// `list` without the endings that have the given id.
pub open spec fn without_ending(list: Seq<EndingModel>, id: Seq<char>) -> Seq<EndingModel>
    decreases list.len(),
{
    if list.len() == 0 {
        Seq::empty()
    } else {
        let p = without_ending(list.drop_last(), id);
        if list.last().id == id {
            p
        } else {
            p.push(list.last())
        }
    }
}

/// The ending with the given id.
pub open spec fn ending_named(list: Seq<EndingModel>, id: Seq<char>) -> Option<EndingModel> {
    match ending_index(list, id) {
        Some(k) => Some(list[k]),
        None => None,
    }
}

/// No two endings share an id.
pub open spec fn ending_ids_unique(list: Seq<EndingModel>) -> bool {
    forall|a: int, b: int| 0 <= a < b < list.len() ==> list[a].id != list[b].id
}

/// The endings known to the game, each under its id, in the order in which they
/// were first added (the order the debug menu lists them in).
#[derive(Debug)]
pub struct UiEndingCatalog {
    endings: Vec<UiEndingPayload>,
}

impl View for UiEndingCatalog {
    type V = Seq<EndingModel>;

    closed spec fn view(&self) -> Seq<EndingModel> {
        ending_models(self.endings@)
    }
}

fn find_ending(list: &Vec<UiEndingPayload>, id: &str) -> (r: Option<usize>)
    ensures
        r matches Some(k) ==> ending_index(ending_models(list@), id@) == Some(k as int),
        r is None ==> ending_index(ending_models(list@), id@) is None,
{
    proof {
        lemma_ending_index(ending_models(list@), id@);
    }
    let key = owned(id);
    let mut k: usize = 0;
    while k < list.len()
        invariant
            k <= list@.len(),
            key@ == id@,
            forall|j: int| 0 <= j < k ==> ending_models(list@)[j].id != id@,
            match ending_index(ending_models(list@), id@) {
                Some(m) => 0 <= m < list@.len() && ending_models(list@)[m].id == id@ && forall|
                    j: int,
                | 0 <= j < m ==> ending_models(list@)[j].id != id@,
                None => forall|j: int|
                    0 <= j < list@.len() ==> ending_models(list@)[j].id != id@,
            },
        decreases list.len() - k,
    {
        assert(ending_models(list@)[k as int] == list@[k as int]@);
        if list[k].id == key {
            return Some(k);
        }
        k += 1;
    }
    None
}

/// What the game does with the ending screen after a command.
#[derive(Debug)]
pub enum EndingAction {
    /// Open the ending screen with this payload (closing one that is open).
    Open(UiEndingPayload),
    /// Close the ending screen.
    Close,
    /// Leave the screen as it is.
    Nothing,
}

#[derive(Debug)]
pub enum UiEndingCommand {
    Upsert(UiEndingPayload),
    Remove { id: String },
    Show { id: String },
    ShowPayload(UiEndingPayload),
    Close,
}

/// What an ending action is.
pub enum ActionModel {
    Open(EndingModel),
    Close,
    Nothing,
}

impl View for EndingAction {
    type V = ActionModel;

    open spec fn view(&self) -> ActionModel {
        match self {
            EndingAction::Open(p) => ActionModel::Open(p@),
            EndingAction::Close => ActionModel::Close,
            EndingAction::Nothing => ActionModel::Nothing,
        }
    }
}

/// What a command does to the catalog, and what it shows.
pub open spec fn ending_command_spec(list: Seq<EndingModel>, cmd: UiEndingCommand) -> (
    Seq<EndingModel>,
    ActionModel,
) {
    match cmd {
        UiEndingCommand::Upsert(p) => (upsert_ending(list, p@), ActionModel::Nothing),
        UiEndingCommand::Remove { id } => (without_ending(list, id@), ActionModel::Nothing),
        UiEndingCommand::Show { id } => (
            list,
            match ending_named(list, id@) {
                Some(e) => ActionModel::Open(e),
                None => ActionModel::Nothing,
            },
        ),
        UiEndingCommand::ShowPayload(p) => (list, ActionModel::Open(p@)),
        UiEndingCommand::Close => (list, ActionModel::Close),
    }
}

/// The ending the game ships with.
pub open spec fn collapse_ending() -> EndingModel {
    EndingModel {
        id: "collapse"@,
        title: "END | SIGNAL COLLAPSE"@,
        subtitle: "your mind broke before sunrise"@,
        narrative: "You never had the chance to get out of there."@,
        status_lines: seq!["timeline integrity: fragmented"@],
    }
}

/// The endings the game ships with.
pub fn default_endings() -> (r: Vec<UiEndingPayload>)
    ensures
        ending_models(r@) == seq![collapse_ending()],
{
    let lines: [&str; 1] = ["timeline integrity: fragmented"];
    let collapse = UiEndingPayload::new("collapse").title("END | SIGNAL COLLAPSE").subtitle(
        "your mind broke before sunrise",
    ).narrative("You never had the chance to get out of there.").status_lines(&lines);
    assert(str_views(lines@) =~= seq!["timeline integrity: fragmented"@]);
    let mut r: Vec<UiEndingPayload> = Vec::new();
    r.push(collapse);
    assert(ending_models(r@) =~= seq![collapse_ending()]);
    r
}

impl UiEndingCatalog {
    /// An empty catalog.
    pub fn new() -> (r: Self)
        ensures
            r@ == Seq::<EndingModel>::empty(),
    {
        let r = UiEndingCatalog { endings: Vec::new() };
        assert(r@ =~= Seq::<EndingModel>::empty());
        r
    }

    /// Stores `payload` under its id: an ending with that id is replaced and keeps
    /// its place, otherwise the new one comes last.
    pub fn upsert(&mut self, payload: UiEndingPayload)
        ensures
            final(self)@ == upsert_ending(old(self)@, payload@),
    {
        proof {
            lemma_ending_index(self@, payload.id@);
        }
        match find_ending(&self.endings, payload.id.as_str()) {
            Some(k) => {
                self.endings.set(k, payload);
            },
            None => {
                self.endings.push(payload);
            },
        }
        assert(self@ =~= upsert_ending(old(self)@, payload@));
    }

    /// Removes the ending with the given id.
    pub fn remove(&mut self, id: &str)
        ensures
            final(self)@ == without_ending(old(self)@, id@),
    {
        let ghost src = self@;
        let key = owned(id);
        let mut kept: Vec<UiEndingPayload> = Vec::new();
        let mut rest: Vec<UiEndingPayload> = Vec::new();
        core::mem::swap(&mut rest, &mut self.endings);
        let mut k: usize = 0;
        let total = rest.len();
        while rest.len() > 0
            invariant
                k + rest@.len() == src.len(),
                src.len() == total,
                key@ == id@,
                ending_models(rest@) == src.subrange(k as int, src.len() as int),
                ending_models(kept@) == without_ending(src.take(k as int), id@),
            decreases rest.len(),
        {
            let ghost r0 = rest@;
            let e = rest.remove(0);
            proof {
                assert(r0 =~= seq![e].add(rest@));
                assert(ending_models(r0)[0] == e@);
                assert(src[k as int] == e@);
                lemma_map_drop_first(r0, |e: UiEndingPayload| e@);
                assert(ending_models(rest@) =~= src.subrange(k + 1, src.len() as int));
                assert(src.take(k + 1).drop_last() =~= src.take(k as int));
            }
            let ghost k0 = kept@;
            if e.id != key {
                kept.push(e);
                assert(ending_models(kept@) =~= ending_models(k0).push(src[k as int]));
            }
            k += 1;
        }
        assert(src.take(k as int) =~= src);
        self.endings = kept;
    }

    /// The ending with the given id, if the catalog has one.
    pub fn get(&self, id: &str) -> (r: Option<&UiEndingPayload>)
        ensures
            match ending_named(self@, id@) {
                Some(e) => r matches Some(p) && p@ == e,
                None => r is None,
            },
    {
        proof {
            lemma_ending_index(self@, id@);
        }
        match find_ending(&self.endings, id) {
            Some(k) => Some(&self.endings[k]),
            None => None,
        }
    }

    /// The ids of the endings, in the order in which they were first added.
    pub fn debug_ids(&self) -> (r: Vec<String>)
        ensures
            strs(r@) == self@.map_values(|e: EndingModel| e.id),
    {
        let mut out: Vec<String> = Vec::new();
        let mut k: usize = 0;
        while k < self.endings.len()
            invariant
                k <= self.endings@.len(),
                strs(out@) == self@.take(k as int).map_values(|e: EndingModel| e.id),
            decreases self.endings.len() - k,
        {
            assert(self@[k as int] == self.endings@[k as int]@);
            let ghost o0 = out@;
            out.push(clone_str(&self.endings[k].id));
            assert(strs(out@) =~= strs(o0).push(self@[k as int].id));
            k += 1;
            assert(strs(out@) =~= self@.take(k as int).map_values(|e: EndingModel| e.id));
        }
        assert(self@.take(k as int) =~= self@);
        out
    }

    /// Fills an empty catalog with the endings the game ships with; a catalog that
    /// holds anything is left as it is.
    pub fn populate_defaults(&mut self)
        ensures
            final(self)@ == if old(self)@.len() == 0 {
                seq![collapse_ending()]
            } else {
                old(self)@
            },
    {
        if self.endings.len() > 0 {
            return;
        }
        let defaults = default_endings();
        let mut rest = defaults;
        let ghost src = ending_models(rest@);
        let mut k: usize = 0;
        let total = rest.len();
        assert(self@ =~= Seq::<EndingModel>::empty());
        while rest.len() > 0
            invariant
                k + rest@.len() == src.len(),
                src.len() == total,
                src == seq![collapse_ending()],
                ending_models(rest@) == src.subrange(k as int, src.len() as int),
                k == 0 ==> self@ == Seq::<EndingModel>::empty(),
                k == 1 ==> self@ == seq![collapse_ending()],
            decreases rest.len(),
        {
            let ghost r0 = rest@;
            let e = rest.remove(0);
            proof {
                assert(r0 =~= seq![e].add(rest@));
                assert(ending_models(r0)[0] == e@);
                lemma_map_drop_first(r0, |e: UiEndingPayload| e@);
                assert(ending_models(rest@) =~= src.subrange(k + 1, src.len() as int));
            }
            self.upsert(e);
            k += 1;
        }
    }

    /// Carries out a command and says what the ending screen does.
    pub fn apply(&mut self, cmd: UiEndingCommand) -> (r: EndingAction)
        ensures
            final(self)@ == ending_command_spec(old(self)@, cmd).0,
            r@ == ending_command_spec(old(self)@, cmd).1,
    {
        match cmd {
            UiEndingCommand::Upsert(p) => {
                self.upsert(p);
                EndingAction::Nothing
            },
            UiEndingCommand::Remove { id } => {
                self.remove(id.as_str());
                EndingAction::Nothing
            },
            UiEndingCommand::Show { id } => match self.get(id.as_str()) {
                Some(p) => EndingAction::Open(p.duplicate()),
                None => EndingAction::Nothing,
            },
            UiEndingCommand::ShowPayload(p) => EndingAction::Open(p),
            UiEndingCommand::Close => EndingAction::Close,
        }
    }
}

impl Default for UiEndingCatalog {
    fn default() -> (r: Self)
        ensures
            r@ == Seq::<EndingModel>::empty(),
    {
        UiEndingCatalog::new()
    }
}

/// The number of steps of the hold-to-continue bar.
pub const HOLD_BAR_STEPS: usize = 14;

/// The text of the hold-to-continue bar with `filled` of its steps filled.
pub open spec fn hold_bar_spec(filled: nat) -> Seq<char> {
    let f = if filled <= HOLD_BAR_STEPS { filled } else { HOLD_BAR_STEPS as nat };
    "hold to continue ["@ + Seq::new(f, |i: int| '■') + Seq::new(
        (HOLD_BAR_STEPS - f) as nat,
        |i: int| '·',
    ) + "]"@
}

/// The hold-to-continue bar with `filled` of its steps filled (at most all of them).
pub fn hold_bar_text(filled: usize) -> (r: String)
    ensures
        r@ == hold_bar_spec(filled as nat),
{
    let f: usize = if filled <= HOLD_BAR_STEPS {
        filled
    } else {
        HOLD_BAR_STEPS
    };
    let mut out = chars_of("hold to continue [");
    let ghost head = out@;
    let mut k: usize = 0;
    while k < HOLD_BAR_STEPS
        invariant
            k <= HOLD_BAR_STEPS,
            f <= HOLD_BAR_STEPS,
            out@ == head + Seq::new(if k <= f { k as nat } else { f as nat }, |i: int| '■')
                + Seq::new(if k <= f { 0 } else { (k - f) as nat }, |i: int| '·'),
        decreases HOLD_BAR_STEPS - k,
    {
        let ghost before = out@;
        if k < f {
            out.push('■');
            assert(out@ =~= head + Seq::new((k + 1) as nat, |i: int| '■') + Seq::new(
                0,
                |i: int| '·',
            ));
        } else {
            out.push('·');
            assert(out@ =~= head + Seq::new(f as nat, |i: int| '■') + Seq::new(
                (k + 1 - f) as nat,
                |i: int| '·',
            ));
        }
        k += 1;
    }
    let close = chars_of("]");
    append_chars(&mut out, &close);
    string_from_chars(&out)
}

proof fn lemma_without_ending(list: Seq<EndingModel>, id: Seq<char>)
    ensures
        forall|j: int|
            0 <= j < without_ending(list, id).len() ==> (#[trigger] without_ending(list, id)[j]).id
                != id,
        forall|j: int|
            0 <= j < without_ending(list, id).len() ==> list.contains(
                #[trigger] without_ending(list, id)[j],
            ),
        ending_ids_unique(list) ==> ending_ids_unique(without_ending(list, id)),
    decreases list.len(),
{
    if list.len() > 0 {
        let t = list.drop_last();
        lemma_without_ending(t, id);
        let p = without_ending(t, id);
        assert forall|j: int| 0 <= j < p.len() implies list.contains(#[trigger] p[j]) by {
            let w = choose|w: int| 0 <= w < t.len() && t[w] == p[j];
            assert(list[w] == p[j]);
        }
        if list.last().id != id {
            let q = p.push(list.last());
            assert forall|j: int| 0 <= j < q.len() implies list.contains(#[trigger] q[j]) by {
                if j < p.len() {
                    assert(q[j] == p[j]);
                } else {
                    assert(list[list.len() - 1] == q[j]);
                }
            }
            if ending_ids_unique(list) {
                assert(ending_ids_unique(t));
                assert forall|a: int, b: int| 0 <= a < b < q.len() implies q[a].id != q[b].id by {
                    if b == q.len() - 1 {
                        let w = choose|w: int| 0 <= w < t.len() && t[w] == p[a];
                        assert(list[w] == q[a]);
                        assert(list[list.len() - 1] == q[b]);
                    }
                }
            }
        }
    }
}

/// Storing an ending: it is found under its id, every other id finds what it found
/// before, ids stay distinct, and an ending that was there keeps its place.
pub proof fn law_upsert_then_get(list: Seq<EndingModel>, e: EndingModel)
    requires
        ending_ids_unique(list),
    ensures
        ending_named(upsert_ending(list, e), e.id) == Some(e),
        forall|other: Seq<char>|
            other != e.id ==> ending_named(upsert_ending(list, e), other) == ending_named(
                list,
                other,
            ),
        ending_ids_unique(upsert_ending(list, e)),
        upsert_ending(list, e).map_values(|x: EndingModel| x.id) == if ending_index(
            list,
            e.id,
        ) is Some {
            list.map_values(|x: EndingModel| x.id)
        } else {
            list.map_values(|x: EndingModel| x.id).push(e.id)
        },
{
    let after = upsert_ending(list, e);
    lemma_ending_index(list, e.id);
    lemma_ending_index(after, e.id);
    match ending_index(list, e.id) {
        Some(k) => {
            assert(after[k] == e);
            assert forall|j: int| 0 <= j < k implies after[j].id != e.id by {
                assert(after[j] == list[j]);
            }
            assert(after.map_values(|x: EndingModel| x.id) =~= list.map_values(
                |x: EndingModel| x.id,
            ));
        },
        None => {
            assert(after[list.len() as int] == e);
            assert forall|j: int| 0 <= j < list.len() implies after[j].id != e.id by {
                assert(after[j] == list[j]);
            }
            assert(after.map_values(|x: EndingModel| x.id) =~= list.map_values(
                |x: EndingModel| x.id,
            ).push(e.id));
        },
    }
    assert forall|other: Seq<char>| other != e.id implies ending_named(after, other)
        == ending_named(list, other) by {
        lemma_ending_index(list, other);
        lemma_ending_index(after, other);
        match ending_index(list, other) {
            Some(k) => {
                assert(after[k] == list[k]);
                assert forall|j: int| 0 <= j < k implies after[j].id != other by {
                    assert(after[j].id == list[j].id || after[j] == e);
                }
                if let Some(k2) = ending_index(after, other) {
                    if k2 > k {
                        assert(after[k].id == other);
                    }
                }
            },
            None => {
                assert forall|j: int| 0 <= j < after.len() implies after[j].id != other by {
                    if j < list.len() {
                        assert(after[j].id == list[j].id || after[j] == e);
                    } else {
                        assert(after[j] == e);
                    }
                }
            },
        }
    }
    assert forall|a: int, b: int| 0 <= a < b < after.len() implies after[a].id != after[b].id by {
        if after[a].id == after[b].id {
            if after[a].id == e.id {
                assert(after[b].id == e.id);
            } else {
                assert(a < list.len() && after[a] == list[a]);
                assert(b < list.len() ==> after[b] == list[b]);
            }
        }
    }
}

/// After an ending is removed it is gone, and ids stay distinct.
pub proof fn law_remove_then_get(list: Seq<EndingModel>, id: Seq<char>)
    requires
        ending_ids_unique(list),
    ensures
        ending_named(without_ending(list, id), id) is None,
        ending_ids_unique(without_ending(list, id)),
{
    lemma_without_ending(list, id);
    lemma_ending_index(without_ending(list, id), id);
}

/// Every command keeps the ids of the catalog distinct.
pub proof fn law_catalog_ids_stay_unique(list: Seq<EndingModel>, cmd: UiEndingCommand)
    requires
        ending_ids_unique(list),
    ensures
        ending_ids_unique(ending_command_spec(list, cmd).0),
{
    match cmd {
        UiEndingCommand::Upsert(p) => law_upsert_then_get(list, p@),
        UiEndingCommand::Remove { id } => law_remove_then_get(list, id@),
        _ => {},
    }
}

/// The next value of a counter that wraps around at the top.
pub open spec fn wrapping_next(i: usize) -> usize {
    if i == usize::MAX {
        0
    } else {
        (i + 1) as usize
    }
}

/// The ending the debug key shows next: the catalog is cycled through in order,
/// `cycle_index` counting the presses; an empty catalog shows nothing.
pub fn next_debug_ending(catalog: &UiEndingCatalog, cycle_index: &mut usize) -> (r: Option<String>)
    ensures
        catalog@.len() == 0 ==> (r is None && *final(cycle_index) == *old(cycle_index)),
        catalog@.len() > 0 ==> (r matches Some(id) && id@ == catalog@[(*old(cycle_index) as int)
            % (catalog@.len() as int)].id),
        catalog@.len() > 0 ==> *final(cycle_index) == wrapping_next(*old(cycle_index)),
{
    let ids = catalog.debug_ids();
    let ghost names = catalog@.map_values(|e: EndingModel| e.id);
    assert(strs(ids@).len() == ids@.len());
    assert(names.len() == catalog@.len());
    if ids.len() == 0 {
        return None;
    }
    let idx = *cycle_index % ids.len();
    let selected = clone_str(&ids[idx]);
    assert(strs(ids@)[idx as int] == ids@[idx as int]@);
    assert(names[idx as int] == catalog@[idx as int].id);
    *cycle_index = if *cycle_index == usize::MAX {
        0
    } else {
        *cycle_index + 1
    };
    Some(selected)
}

/// Showing an ending by id right after storing it opens exactly what was stored.
pub proof fn law_show_after_upsert(list: Seq<EndingModel>, p: UiEndingPayload)
    requires
        ending_ids_unique(list),
    ensures
        ({
            let after = ending_command_spec(list, UiEndingCommand::Upsert(p)).0;
            ending_command_spec(after, UiEndingCommand::Show { id: p.id }).1 == ActionModel::Open(p@)
        }),
{
    law_upsert_then_get(list, p@);
}

} // verus!
