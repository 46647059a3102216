//! Control of the inventory screen: the items sit in a grid of three columns;
//! keys move the selection, drop the selected item or move it within the list, and
//! every change asks for the screen to be rebuilt. The mouse picks, drags, moves and
//! drops items, and opening the screen keeps the selection on the list.

use vstd::prelude::*;

use crate::discovery::{entry_models, DiscoveryEntry};
use crate::script::clone_str;

verus! {

/// The number of columns of the inventory grid.
pub const INVENTORY_COLUMNS: usize = 3;

/// A key the inventory screen reacts to.
#[derive(Debug, Clone, Copy, PartialEq, Eq, Structural)]
pub enum InventoryKey {
    /// Escape.
    Close,
    /// Left arrow or `a`.
    Left,
    /// Right arrow or `d`.
    Right,
    /// Up arrow or `w`: one row up.
    Up,
    /// Down arrow or `s`: one row down.
    Down,
    /// `q` or Delete.
    Drop,
    /// `r`: move the selected item one place back.
    MoveBack,
    /// `f`: move the selected item one place forward.
    MoveForward,
}

/// What the game does after an inventory key.
#[derive(Debug, PartialEq, Eq)]
pub enum InventoryAction {
    Nothing,
    /// Close the inventory.
    Close,
    /// Rebuild the inventory for the new selection.
    Reopen,
    /// Drop the item with this id and rebuild the inventory.
    Drop { id: String },
    /// Move the item with this id to position `to_index` and rebuild the inventory.
    Move { id: String, to_index: usize },
}

/// What an inventory action is.
pub enum InventoryActionModel {
    Nothing,
    Close,
    Reopen,
    Drop(Seq<char>),
    Move(Seq<char>, nat),
}

impl View for InventoryAction {
    type V = InventoryActionModel;

    open spec fn view(&self) -> InventoryActionModel {
        match self {
            InventoryAction::Nothing => InventoryActionModel::Nothing,
            InventoryAction::Close => InventoryActionModel::Close,
            InventoryAction::Reopen => InventoryActionModel::Reopen,
            InventoryAction::Drop { id } => InventoryActionModel::Drop(id@),
            InventoryAction::Move { id, to_index } => InventoryActionModel::Move(id@, *to_index as nat),
        }
    }
}

/// A selection that moved to `to` from `from`: a rebuild when it changed.
pub open spec fn moved(from: nat, to: nat) -> (nat, InventoryActionModel) {
    if to != from {
        (to, InventoryActionModel::Reopen)
    } else {
        (from, InventoryActionModel::Nothing)
    }
}

/// The selection and the action after `key`, with `ids` the ids of the items in
/// order and `selected` the selection before (kept within the list first).
pub open spec fn inventory_key_spec(selected: nat, ids: Seq<Seq<char>>, key: InventoryKey) -> (
    nat,
    InventoryActionModel,
) {
    if key == InventoryKey::Close {
        (selected, InventoryActionModel::Close)
    } else if ids.len() == 0 {
        (selected, InventoryActionModel::Nothing)
    } else {
        let last = (ids.len() - 1) as nat;
        let s = if selected <= last {
            selected
        } else {
            last
        };
        match key {
            InventoryKey::Left => moved(s, if s > 0 {
                (s - 1) as nat
            } else {
                s
            }),
            InventoryKey::Right => moved(s, if s + 1 < ids.len() {
                s + 1
            } else {
                s
            }),
            InventoryKey::Up => moved(s, if s >= INVENTORY_COLUMNS {
                (s - INVENTORY_COLUMNS) as nat
            } else {
                0
            }),
            InventoryKey::Down => moved(s, if s + INVENTORY_COLUMNS <= last {
                (s + INVENTORY_COLUMNS) as nat
            } else {
                last
            }),
            InventoryKey::Drop => (
                if s >= last && s > 0 {
                    (s - 1) as nat
                } else {
                    s
                },
                InventoryActionModel::Drop(ids[s as int]),
            ),
            InventoryKey::MoveBack => {
                let target = if s > 0 {
                    (s - 1) as nat
                } else {
                    0
                };
                if target != s {
                    (target, InventoryActionModel::Move(ids[s as int], target))
                } else {
                    (s, InventoryActionModel::Nothing)
                }
            },
            InventoryKey::MoveForward => {
                let target = if s + 1 <= last {
                    s + 1
                } else {
                    last
                };
                if target != s {
                    (target, InventoryActionModel::Move(ids[s as int], target))
                } else {
                    (s, InventoryActionModel::Nothing)
                }
            },
            _ => (s, InventoryActionModel::Nothing),
        }
    }
}

/// The ids of a list of entries.
pub open spec fn entry_ids(items: Seq<DiscoveryEntry>) -> Seq<Seq<char>> {
    entry_models(items).map_values(|e: crate::discovery::EntryModel| e.id)
}

/// Reacts to an inventory key (see `inventory_key_spec`); gives the new selection
/// and the action.
pub fn inventory_key(selected: usize, items: &[DiscoveryEntry], key: InventoryKey) -> (r: (
    usize,
    InventoryAction,
))
    ensures
        (r.0 as nat, r.1@) == inventory_key_spec(selected as nat, entry_ids(items@), key),
{
    let ghost ids = entry_ids(items@);
    assert(ids.len() == items@.len());
    if key == InventoryKey::Close {
        return (selected, InventoryAction::Close);
    }
    let len = items.len();
    if len == 0 {
        return (selected, InventoryAction::Nothing);
    }
    let last = len - 1;
    let s = if selected <= last {
        selected
    } else {
        last
    };
    assert(ids[s as int] == items@[s as int]@.id);
    match key {
        InventoryKey::Left => {
            let to = if s > 0 {
                s - 1
            } else {
                s
            };
            if to != s {
                (to, InventoryAction::Reopen)
            } else {
                (s, InventoryAction::Nothing)
            }
        },
        InventoryKey::Right => {
            let to = if s + 1 < len {
                s + 1
            } else {
                s
            };
            if to != s {
                (to, InventoryAction::Reopen)
            } else {
                (s, InventoryAction::Nothing)
            }
        },
        InventoryKey::Up => {
            let to = if s >= INVENTORY_COLUMNS {
                s - INVENTORY_COLUMNS
            } else {
                0
            };
            if to != s {
                (to, InventoryAction::Reopen)
            } else {
                (s, InventoryAction::Nothing)
            }
        },
        InventoryKey::Down => {
            let to = if last >= INVENTORY_COLUMNS && s <= last - INVENTORY_COLUMNS {
                s + INVENTORY_COLUMNS
            } else {
                last
            };
            if to != s {
                (to, InventoryAction::Reopen)
            } else {
                (s, InventoryAction::Nothing)
            }
        },
        InventoryKey::Drop => {
            let id = clone_str(&items[s].id);
            let sel = if s >= last && s > 0 {
                s - 1
            } else {
                s
            };
            (sel, InventoryAction::Drop { id })
        },
        InventoryKey::MoveBack => {
            let target = if s > 0 {
                s - 1
            } else {
                0
            };
            if target != s {
                (target, InventoryAction::Move { id: clone_str(&items[s].id), to_index: target })
            } else {
                (s, InventoryAction::Nothing)
            }
        },
        InventoryKey::MoveForward => {
            let target = if s < last {
                s + 1
            } else {
                last
            };
            if target != s {
                (target, InventoryAction::Move { id: clone_str(&items[s].id), to_index: target })
            } else {
                (s, InventoryAction::Nothing)
            }
        },
        InventoryKey::Close => (selected, InventoryAction::Close),
    }
}

/// The selection when the inventory opens: kept on the list, the last item when it
/// was past the end, and `0` for an empty list.
pub open spec fn open_selection_spec(selected: nat, len: nat) -> nat {
    if len == 0 {
        0
    } else if selected < len {
        selected
    } else {
        (len - 1) as nat
    }
}

/// Opening the inventory: the selection kept on the list (see `open_selection_spec`)
/// and, when the selected item has not been seen yet, its id, to be marked seen.
pub fn inventory_open_selection(selected: usize, items: &[DiscoveryEntry]) -> (r: (
    usize,
    Option<String>,
))
    ensures
        r.0 as nat == open_selection_spec(selected as nat, items@.len()),
        (r.0 < items@.len() && !items@[r.0 as int].seen) ==> (r.1 matches Some(id) && id@
            == items@[r.0 as int].id@),
        !(r.0 < items@.len() && !items@[r.0 as int].seen) ==> r.1 is None,
{
    let len = items.len();
    let sel = if len == 0 {
        0
    } else if selected < len {
        selected
    } else {
        len - 1
    };
    if sel < len && !items[sel].seen {
        (sel, Some(clone_str(&items[sel].id)))
    } else {
        (sel, None)
    }
}

/// What the game does when the mouse button is released over the inventory.
#[derive(Debug, PartialEq, Eq)]
pub enum ReleaseAction {
    Nothing,
    /// Drop the item with this id and rebuild the inventory.
    Drop { id: String },
    /// Move the item with this id to position `to_index` and rebuild the inventory.
    Move { id: String, to_index: usize },
    /// Mark the item with this id as seen, and rebuild the inventory when `reopen`.
    MarkSeen { id: String, reopen: bool },
}

/// What a release action is.
pub enum ReleaseActionModel {
    Nothing,
    Drop(Seq<char>),
    Move(Seq<char>, nat),
    MarkSeen(Seq<char>, bool),
}

impl View for ReleaseAction {
    type V = ReleaseActionModel;

    open spec fn view(&self) -> ReleaseActionModel {
        match self {
            ReleaseAction::Nothing => ReleaseActionModel::Nothing,
            ReleaseAction::Drop { id } => ReleaseActionModel::Drop(id@),
            ReleaseAction::Move { id, to_index } => ReleaseActionModel::Move(id@, *to_index as nat),
            ReleaseAction::MarkSeen { id, reopen } => ReleaseActionModel::MarkSeen(id@, *reopen),
        }
    }
}

/// The selection and the action when the mouse button is released. `pressed` is
/// the slot the press started on, `hover` the slot under the cursor, `dragging`
/// whether the item was dragged far enough to be picked up, and `in_drop_zone`
/// whether it was released outside the panel. A dragged item released outside the
/// panel is dropped (the selection steps back when it was on the last item); one
/// released on another slot moves there and takes the selection; one released on
/// its own slot is selected and marked seen. A click without a drag, released on
/// the slot it started on, selects that item, marks it seen and rebuilds the screen.
/// Anything else changes nothing.
pub open spec fn release_spec(
    selected: nat,
    ids: Seq<Seq<char>>,
    pressed: Option<usize>,
    hover: Option<usize>,
    dragging: bool,
    in_drop_zone: bool,
) -> (nat, ReleaseActionModel) {
    match pressed {
        Some(o) if (o as nat) < ids.len() => {
            let id = ids[o as int];
            let len = ids.len();
            if dragging && in_drop_zone {
                (
                    if selected >= len - 1 && selected > 0 {
                        (selected - 1) as nat
                    } else {
                        selected
                    },
                    ReleaseActionModel::Drop(id),
                )
            } else if dragging {
                match hover {
                    Some(t) => if t != o && (t as nat) < len {
                        (t as nat, ReleaseActionModel::Move(id, t as nat))
                    } else {
                        (o as nat, ReleaseActionModel::MarkSeen(id, false))
                    },
                    None => (selected, ReleaseActionModel::Nothing),
                }
            } else if hover == Some(o) {
                (o as nat, ReleaseActionModel::MarkSeen(id, true))
            } else {
                (selected, ReleaseActionModel::Nothing)
            }
        },
        _ => (selected, ReleaseActionModel::Nothing),
    }
}

/// Reacts to the release of the mouse button over the inventory (see
/// `release_spec`); gives the new selection and the action.
pub fn inventory_release(
    selected: usize,
    items: &[DiscoveryEntry],
    pressed: Option<usize>,
    hover: Option<usize>,
    dragging: bool,
    in_drop_zone: bool,
) -> (r: (usize, ReleaseAction))
    ensures
        (r.0 as nat, r.1@) == release_spec(
            selected as nat,
            entry_ids(items@),
            pressed,
            hover,
            dragging,
            in_drop_zone,
        ),
{
    let ghost ids = entry_ids(items@);
    assert(ids.len() == items@.len());
    let len = items.len();
    match pressed {
        Some(o) => {
            if o >= len {
                return (selected, ReleaseAction::Nothing);
            }
            assert(ids[o as int] == items@[o as int]@.id);
            let id = clone_str(&items[o].id);
            if dragging && in_drop_zone {
                let sel = if selected >= len - 1 && selected > 0 {
                    selected - 1
                } else {
                    selected
                };
                (sel, ReleaseAction::Drop { id })
            } else if dragging {
                match hover {
                    Some(t) => if t != o && t < len {
                        (t, ReleaseAction::Move { id, to_index: t })
                    } else {
                        (o, ReleaseAction::MarkSeen { id, reopen: false })
                    },
                    None => (selected, ReleaseAction::Nothing),
                }
            } else if hover == Some(o) {
                (o, ReleaseAction::MarkSeen { id, reopen: true })
            } else {
                (selected, ReleaseAction::Nothing)
            }
        },
        None => (selected, ReleaseAction::Nothing),
    }
}

/// Whatever the key, a non-empty inventory keeps its selection on one of its items.
pub proof fn law_inventory_selection_in_range(selected: nat, ids: Seq<Seq<char>>, key: InventoryKey)
    requires
        ids.len() > 0,
        selected < ids.len(),
    ensures
        inventory_key_spec(selected, ids, key).0 < ids.len(),
{
}

/// Whatever the mouse did, releasing the button keeps a selection that was on one
/// of the items on one of the items.
pub proof fn law_release_selection_in_range(
    selected: nat,
    ids: Seq<Seq<char>>,
    pressed: Option<usize>,
    hover: Option<usize>,
    dragging: bool,
    in_drop_zone: bool,
)
    requires
        selected < ids.len(),
    ensures
        release_spec(selected, ids, pressed, hover, dragging, in_drop_zone).0 < ids.len(),
{
}

} // verus!
