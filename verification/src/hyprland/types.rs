//! Windows and workspaces as Hyprland describes them.
use vstd::prelude::*;

verus! {

/// A Hyprland workspace.
#[derive(Debug, Clone, PartialEq, Eq)]
pub struct Workspace {
    pub id: i32,
    pub name: String,
}

/// A window as `hyprctl clients -j` describes it.
#[derive(Debug, Clone, PartialEq, Eq)]
pub struct HyprlandWindow {
    pub address: String,
    pub pid: u32,
    pub class: String,
    pub title: String,
    pub workspace: Workspace,
    pub at: [i32; 2],
    pub size: [u32; 2],
}

/// The area of a window in pixels.
pub open spec fn area_of(w: HyprlandWindow) -> nat {
    (w.size@[0] as nat) * (w.size@[1] as nat)
}

impl HyprlandWindow {
    /// The area of the window: width times height.
    pub fn area(&self) -> (r: u64)
        ensures
            r == area_of(*self),
    {
        let w = self.size[0] as u64;
        let h = self.size[1] as u64;
        assert(w * h <= u64::MAX) by (nonlinear_arith)
            requires
                w <= u32::MAX,
                h <= u32::MAX,
        ;
        w * h
    }
}

} // verus!
