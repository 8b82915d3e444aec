//! The checklist that `--interactive` opens to choose which planned items to act on.

use vstd::prelude::*;
use super::model::{ticked, Checklist, KeyCode};
use crate::plan::{Item, Plan};

verus! {

/// Where a key press leaves the checklist.
#[derive(Clone, Copy, Debug, PartialEq, Eq, Structural)]
pub enum Pick {
    /// Keep choosing.
    Open,
    /// Act on the ticked items.
    Confirm,
    /// Act on nothing.
    Cancel,
}

/// A checklist of `items`, every box set to `preselected`, the cursor on the first.
pub fn picker(items: Vec<Item>, preselected: bool) -> (r: Checklist)
    ensures
        r.items == items,
        r.checked@ == Seq::new(items@.len(), |i: int| preselected),
        r.selected == 0,
        r.warnings@.len() == 0,
{
    Checklist::new(items, Vec::new(), preselected)
}

/// What a key does: arrows (or `k`/`j`) move within the list, space ticks the current item,
/// `a` ticks all or none, enter confirms, `q` or escape cancels; other keys do nothing.
pub fn pick_key(list: &mut Checklist, code: KeyCode) -> (r: Pick)
    requires
        old(list).selected < old(list).items@.len(),
        old(list).items@.len() == old(list).checked@.len(),
    ensures
        final(list).selected < final(list).items@.len(),
        final(list).items@.len() == final(list).checked@.len(),
        final(list).items == old(list).items,
        final(list).warnings == old(list).warnings,
        final(list).offset == old(list).offset,
        match code {
            KeyCode::Up | KeyCode::Char('k') => {
                &&& r == Pick::Open
                &&& final(list).selected == if old(list).selected > 0 { old(list).selected - 1 } else { 0 }
                &&& final(list).checked == old(list).checked
            },
            KeyCode::Down | KeyCode::Char('j') => {
                &&& r == Pick::Open
                &&& final(list).selected == if old(list).selected + 1 < old(list).items@.len() {
                    old(list).selected + 1
                } else {
                    old(list).items@.len() - 1
                }
                &&& final(list).checked == old(list).checked
            },
            KeyCode::Char(' ') => {
                let i = old(list).selected as int;
                &&& r == Pick::Open
                &&& final(list).selected == old(list).selected
                &&& final(list).checked@ == old(list).checked@.update(i, !old(list).checked@[i])
            },
            KeyCode::Char('a') => {
                let all = forall|k: int| 0 <= k < old(list).checked@.len() ==> #[trigger] old(list).checked@[k];
                &&& r == Pick::Open
                &&& final(list).selected == old(list).selected
                &&& final(list).checked@ == Seq::new(old(list).checked@.len(), |k: int| !all)
            },
            KeyCode::Enter => r == Pick::Confirm && *final(list) == *old(list),
            KeyCode::Char('q') | KeyCode::Esc => r == Pick::Cancel && *final(list) == *old(list),
            _ => r == Pick::Open && *final(list) == *old(list),
        },
{
    match code {
        KeyCode::Up | KeyCode::Char('k') => {
            list.selected = if list.selected > 0 { list.selected - 1 } else { 0 };
            Pick::Open
        },
        KeyCode::Down | KeyCode::Char('j') => {
            let last = list.items.len() - 1;
            list.selected = if list.selected < last { list.selected + 1 } else { last };
            Pick::Open
        },
        KeyCode::Char(' ') => {
            let i = list.selected;
            let v = list.checked[i];
            list.checked.set(i, !v);
            Pick::Open
        },
        KeyCode::Char('a') => {
            list.toggle_all();
            Pick::Open
        },
        KeyCode::Enter => Pick::Confirm,
        KeyCode::Char('q') | KeyCode::Esc => Pick::Cancel,
        _ => Pick::Open,
    }
}

/// What the checklist hands back: the ticked items when confirmed, nothing when cancelled.
pub fn picked(list: &Checklist, outcome: Pick) -> (r: Vec<Item>)
    ensures
        outcome == Pick::Confirm ==> r@ == ticked(list.items@, list.checked@),
        outcome != Pick::Confirm ==> r@.len() == 0,
{
    if outcome == Pick::Confirm {
        let p: Plan = list.plan();
        p.items
    } else {
        Vec::new()
    }
}

} // verus!
