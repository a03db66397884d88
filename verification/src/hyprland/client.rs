//! Choosing terminal windows among the windows Hyprland reports.
use vstd::prelude::*;

use super::types::{area_of, HyprlandWindow};
use crate::text::{chars_eq, chars_of};

verus! {

/// A kitty window, on the given workspace when one is given.
pub open spec fn is_kitty_on(w: HyprlandWindow, workspace: Option<i32>) -> bool {
    w.class@ == "kitty"@ && match workspace {
        Some(id) => w.workspace.id == id,
        None => true,
    }
}

/// Index `i` holds the largest eligible window, and the last one of that size
/// (as `Iterator::max_by_key` picks).
pub open spec fn is_last_largest(ws: Seq<HyprlandWindow>, workspace: Option<i32>, i: int) -> bool {
    &&& 0 <= i < ws.len()
    &&& is_kitty_on(ws[i], workspace)
    &&& forall|j: int|
        0 <= j < ws.len() && is_kitty_on(#[trigger] ws[j], workspace) ==> area_of(ws[j]) <= area_of(
            ws[i],
        ) && (j > i ==> area_of(ws[j]) < area_of(ws[i]))
}

/// The eligible windows, in order.
pub open spec fn kitty_windows(ws: Seq<HyprlandWindow>, workspace: Option<i32>) -> Seq<HyprlandWindow>
    decreases ws.len(),
{
    if ws.len() == 0 {
        Seq::empty()
    } else {
        let init = kitty_windows(ws.drop_last(), workspace);
        if is_kitty_on(ws.last(), workspace) {
            init.push(ws.last())
        } else {
            init
        }
    }
}

fn is_kitty_window(w: &HyprlandWindow, workspace: Option<i32>) -> (r: bool)
    ensures
        r == is_kitty_on(*w, workspace),
{
    let kitty = chars_of("kitty");
    let class = chars_of(w.class.as_str());
    chars_eq(&class, &kitty) && match workspace {
        Some(id) => w.workspace.id == id,
        None => true,
    }
}

fn index_of_largest(windows: &Vec<HyprlandWindow>, workspace: Option<i32>) -> (r: Option<usize>)
    ensures
        match r {
            Some(i) => is_last_largest(windows@, workspace, i as int),
            None => forall|j: int| 0 <= j < windows@.len() ==> !is_kitty_on(#[trigger] windows@[j], workspace),
        },
{
    let mut best: Option<usize> = None;
    let mut best_area: u64 = 0;
    let mut i: usize = 0;
    while i < windows.len()
        invariant
            i <= windows@.len(),
            match best {
                Some(b) => b < i && is_kitty_on(windows@[b as int], workspace) && best_area == area_of(
                    windows@[b as int],
                ) && forall|j: int|
                    0 <= j < i && is_kitty_on(#[trigger] windows@[j], workspace) ==> area_of(windows@[j])
                        <= best_area && (j > b ==> area_of(windows@[j]) < best_area),
                None => forall|j: int| 0 <= j < i ==> !is_kitty_on(#[trigger] windows@[j], workspace),
            },
        decreases windows.len() - i,
    {
        if is_kitty_window(&windows[i], workspace) {
            let a = windows[i].area();
            let replace = match best {
                Some(_) => a >= best_area,
                None => true,
            };
            if replace {
                best = Some(i);
                best_area = a;
            }
        }
        i += 1;
    }
    best
}

/// The largest kitty window on `workspace` (the last of equal size), taken
/// out of the windows Hyprland reported.
pub fn find_largest_kitty(windows: Vec<HyprlandWindow>, workspace: i32) -> (r: Option<HyprlandWindow>)
    ensures
        match r {
            Some(w) => exists|i: int| is_last_largest(windows@, Some(workspace), i) && w == windows@[i],
            None => forall|j: int| 0 <= j < windows@.len() ==> !is_kitty_on(#[trigger] windows@[j], Some(workspace)),
        },
{
    let mut windows = windows;
    let ghost all = windows@;
    match index_of_largest(&windows, Some(workspace)) {
        Some(i) => {
            let w = windows.swap_remove(i);
            assert(is_last_largest(all, Some(workspace), i as int));
            Some(w)
        },
        None => None,
    }
}

/// The largest kitty window on any workspace (the last of equal size).
pub fn find_largest_kitty_any_workspace(windows: Vec<HyprlandWindow>) -> (r: Option<HyprlandWindow>)
    ensures
        match r {
            Some(w) => exists|i: int| is_last_largest(windows@, None, i) && w == windows@[i],
            None => forall|j: int| 0 <= j < windows@.len() ==> !is_kitty_on(#[trigger] windows@[j], None),
        },
{
    let mut windows = windows;
    let ghost all = windows@;
    match index_of_largest(&windows, None) {
        Some(i) => {
            let w = windows.swap_remove(i);
            assert(is_last_largest(all, None, i as int));
            Some(w)
        },
        None => None,
    }
}

/// The kitty windows, in order.
pub fn list_kitty_windows(windows: Vec<HyprlandWindow>) -> (r: Vec<HyprlandWindow>)
    ensures
        r@ == kitty_windows(windows@, None),
{
    let mut rest = windows;
    let ghost all = rest@;
    let mut kept_rev: Vec<HyprlandWindow> = Vec::new();
    while rest.len() > 0
        invariant
            rest@ == all.take(rest@.len() as int),
            rest@.len() <= all.len(),
            kitty_windows(all, None) == kitty_windows(rest@, None) + kept_rev@.reverse(),
        decreases rest@.len(),
    {
        let ghost before = rest@;
        let w = rest.pop().unwrap();
        assert(before.drop_last() == rest@);
        assert(rest@ =~= all.take(rest@.len() as int));
        if is_kitty_window(&w, None) {
            let ghost kr = kept_rev@;
            kept_rev.push(w);
            assert(kept_rev@.reverse() =~= seq![w] + kr.reverse());
        }
    }
    assert(kitty_windows(rest@, None) =~= Seq::<HyprlandWindow>::empty());
    let mut r: Vec<HyprlandWindow> = Vec::new();
    let ghost target = kept_rev@.reverse();
    while kept_rev.len() > 0
        invariant
            target =~= r@ + kept_rev@.reverse(),
        decreases kept_rev@.len(),
    {
        let ghost kr = kept_rev@;
        let w = kept_rev.pop().unwrap();
        r.push(w);
        assert(kr.reverse() =~= seq![w] + kept_rev@.reverse());
    }
    assert(r@ =~= target);
    r
}


proof fn lemma_kitty_member(ws: Seq<HyprlandWindow>, workspace: Option<i32>, j: int)
    requires
        0 <= j < ws.len(),
        is_kitty_on(ws[j], workspace),
    ensures
        kitty_windows(ws, workspace).contains(ws[j]),
    decreases ws.len(),
{
    let init = kitty_windows(ws.drop_last(), workspace);
    if j == ws.len() - 1 {
        assert(init.push(ws.last())[init.len() as int] == ws[j]);
    } else {
        lemma_kitty_member(ws.drop_last(), workspace, j);
        assert(ws.drop_last()[j] == ws[j]);
        let k = choose|k: int| 0 <= k < init.len() && init[k] == ws[j];
        if is_kitty_on(ws.last(), workspace) {
            assert(init.push(ws.last())[k] == ws[j]);
        }
    }
}

proof fn lemma_no_kitty_empty(ws: Seq<HyprlandWindow>, workspace: Option<i32>)
    requires
        forall|j: int| 0 <= j < ws.len() ==> !is_kitty_on(#[trigger] ws[j], workspace),
    ensures
        kitty_windows(ws, workspace).len() == 0,
    decreases ws.len(),
{
    if ws.len() > 0 {
        assert forall|j: int| 0 <= j < ws.drop_last().len() implies !is_kitty_on(
            #[trigger] ws.drop_last()[j],
            workspace,
        ) by {
            assert(ws.drop_last()[j] == ws[j]);
        }
        lemma_no_kitty_empty(ws.drop_last(), workspace);
        assert(!is_kitty_on(ws[ws.len() - 1], workspace));
    }
}

/// The largest kitty window is one of the kitty windows that are listed, and
/// there is none exactly when that list is empty.
pub proof fn law_largest_kitty_is_listed(ws: Seq<HyprlandWindow>, workspace: Option<i32>)
    ensures
        forall|i: int| #[trigger]
            is_last_largest(ws, workspace, i) ==> kitty_windows(ws, workspace).contains(ws[i]),
        (forall|j: int| 0 <= j < ws.len() ==> !is_kitty_on(#[trigger] ws[j], workspace))
            <==> kitty_windows(ws, workspace).len() == 0,
{
    assert forall|i: int| #[trigger] is_last_largest(ws, workspace, i) implies kitty_windows(
        ws,
        workspace,
    ).contains(ws[i]) by {
        lemma_kitty_member(ws, workspace, i);
    }
    if forall|j: int| 0 <= j < ws.len() ==> !is_kitty_on(#[trigger] ws[j], workspace) {
        lemma_no_kitty_empty(ws, workspace);
    } else {
        let j = choose|j: int| 0 <= j < ws.len() && is_kitty_on(#[trigger] ws[j], workspace);
        lemma_kitty_member(ws, workspace, j);
    }
}
} // verus!
