//! The status menu and the selection in a list.

use vstd::prelude::*;
use vstd::string::*;
use crate::sync::Plan;
use crate::text::{str_eq, str_trim, trimmed};

verus! {

/// What has to be typed to confirm that all data is to be cleared.
pub const CLEAR_CONFIRMATION: &'static str = "ClearAllData";

/// An entry of the status menu.
#[derive(Debug, Clone, Copy, PartialEq, Eq, Structural)]
pub enum MenuItem {
    SyncNow,
    ManageSubscription,
    SelectPlan,
    Logout,
    Login,
    ClearAllData,
    Close,
}

impl MenuItem {
    /// The text of the entry.
    pub fn label(&self) -> (s: &'static str)
        ensures
            s@ == match *self {
                MenuItem::SyncNow => "Sync Now"@,
                MenuItem::ManageSubscription => "Manage Subscription"@,
                MenuItem::SelectPlan => "Select Plan"@,
                MenuItem::Logout => "Logout"@,
                MenuItem::Login => "Login"@,
                MenuItem::ClearAllData => "Clear All Data"@,
                MenuItem::Close => "Close"@,
            },
    {
        match self {
            MenuItem::SyncNow => "Sync Now",
            MenuItem::ManageSubscription => "Manage Subscription",
            MenuItem::SelectPlan => "Select Plan",
            MenuItem::Logout => "Logout",
            MenuItem::Login => "Login",
            MenuItem::ClearAllData => "Clear All Data",
            MenuItem::Close => "Close",
        }
    }
}

/// The entries of the status menu for a login state and a plan.
///
/// Someone logged in can log out, and manage the subscription on a paid plan
/// or select a plan on the free one; while the plan is not known neither is
/// offered. Nobody logged in can log in.
pub open spec fn spec_status_menu(logged_in: bool, plan: Option<Plan>) -> Seq<MenuItem> {
    if !logged_in {
        seq![MenuItem::SyncNow, MenuItem::Login, MenuItem::ClearAllData, MenuItem::Close]
    } else {
        match plan {
            None => seq![
                MenuItem::SyncNow,
                MenuItem::Logout,
                MenuItem::ClearAllData,
                MenuItem::Close,
            ],
            Some(p) => seq![
                MenuItem::SyncNow,
                if p.paid() {
                    MenuItem::ManageSubscription
                } else {
                    MenuItem::SelectPlan
                },
                MenuItem::Logout,
                MenuItem::ClearAllData,
                MenuItem::Close,
            ],
        }
    }
}

/// The entries of the status menu, top to bottom.
pub fn status_menu(logged_in: bool, plan: Option<Plan>) -> (r: Vec<MenuItem>)
    ensures
        r@ == spec_status_menu(logged_in, plan),
        3 <= r@.len() <= 5,
{
    let mut items: Vec<MenuItem> = Vec::new();
    items.push(MenuItem::SyncNow);
    if logged_in {
        match plan {
            Some(p) => {
                if p.is_paid() {
                    items.push(MenuItem::ManageSubscription);
                } else {
                    items.push(MenuItem::SelectPlan);
                }
            },
            None => {},
        }
        items.push(MenuItem::Logout);
    } else {
        items.push(MenuItem::Login);
    }
    items.push(MenuItem::ClearAllData);
    items.push(MenuItem::Close);
    items
}

/// The entry below the selected one in a menu of `len` entries; below the last
/// entry comes the first. With nothing selected the first entry is taken.
pub fn menu_down(selected: Option<usize>, len: usize) -> (r: usize)
    requires
        len > 0,
    ensures
        r < len,
        r == match selected {
            Some(i) => if i >= len - 1 {
                0
            } else {
                i + 1
            },
            None => 0,
        },
{
    match selected {
        Some(i) => {
            if i >= len - 1 {
                0
            } else {
                i + 1
            }
        },
        None => 0,
    }
}

/// The entry above the selected one in a menu of `len` entries; above the first
/// entry comes the last. With nothing selected the first entry is taken.
pub fn menu_up(selected: Option<usize>, len: usize) -> (r: usize)
    requires
        len > 0,
    ensures
        r == match selected {
            Some(i) => if i == 0 {
                len - 1
            } else {
                i - 1
            },
            None => 0,
        },
{
    match selected {
        Some(i) => {
            if i == 0 {
                len - 1
            } else {
                i - 1
            }
        },
        None => 0,
    }
}

/// Where the selection of a list of `len` entries is after a move by `delta`:
/// it stops at both ends. With nothing selected the first entry is taken; in an
/// empty list the selection stays as it is.
pub open spec fn spec_move_selection(selected: Option<usize>, delta: i32, len: usize) -> Option<
    usize,
> {
    if len == 0 {
        selected
    } else {
        match selected {
            None => Some(0),
            Some(i) => if i + delta < 0 {
                Some(0)
            } else if i + delta >= len {
                Some((len - 1) as usize)
            } else {
                Some((i + delta) as usize)
            },
        }
    }
}

/// Moves the selection of a list by `delta` entries.
pub fn move_selection(selected: Option<usize>, delta: i32, len: usize) -> (r: Option<usize>)
    ensures
        r == spec_move_selection(selected, delta, len),
        len > 0 ==> (r matches Some(i) && i < len),
{
    if len == 0 {
        return selected;
    }
    match selected {
        None => Some(0),
        Some(i) => {
            let wide: i64 = delta as i64;
            if wide < 0 {
                let back: u64 = (0 - wide) as u64;
                if back > i as u64 {
                    Some(0)
                } else {
                    let at: usize = i - back as usize;
                    if at >= len {
                        Some(len - 1)
                    } else {
                        Some(at)
                    }
                }
            } else {
                let forward: u64 = wide as u64;
                if i >= len || forward >= (len - i) as u64 {
                    Some(len - 1)
                } else {
                    Some(i + forward as usize)
                }
            }
        },
    }
}

/// Whether what was typed confirms that all data is to be cleared: it must be
/// `ClearAllData`, white space around it aside.
pub fn confirms_clear(input: &str) -> (r: bool)
    ensures
        r == (trimmed(input@) == CLEAR_CONFIRMATION@),
{
    str_eq(str_trim(input), CLEAR_CONFIRMATION)
}

} // verus!
