use risu::menu::{
    confirms_clear, menu_down, menu_up, move_selection, status_menu, MenuItem, CLEAR_CONFIRMATION,
};
use risu::sync::Plan;

#[test]
fn a_guest_can_log_in() {
    assert_eq!(
        status_menu(false, None),
        vec![MenuItem::SyncNow, MenuItem::Login, MenuItem::ClearAllData, MenuItem::Close]
    );
    assert_eq!(status_menu(false, Some(Plan::Pro)), status_menu(false, None));
}

#[test]
fn a_paid_account_can_manage_its_subscription() {
    for plan in [Plan::Pro, Plan::Dev] {
        assert_eq!(
            status_menu(true, Some(plan)),
            vec![
                MenuItem::SyncNow,
                MenuItem::ManageSubscription,
                MenuItem::Logout,
                MenuItem::ClearAllData,
                MenuItem::Close
            ]
        );
    }
}

#[test]
fn a_free_account_can_select_a_plan() {
    assert_eq!(
        status_menu(true, Some(Plan::Free)),
        vec![
            MenuItem::SyncNow,
            MenuItem::SelectPlan,
            MenuItem::Logout,
            MenuItem::ClearAllData,
            MenuItem::Close
        ]
    );
}

#[test]
fn an_account_of_unknown_plan_is_offered_neither() {
    assert_eq!(
        status_menu(true, None),
        vec![MenuItem::SyncNow, MenuItem::Logout, MenuItem::ClearAllData, MenuItem::Close]
    );
}

#[test]
fn menu_entries_have_their_texts() {
    assert_eq!(MenuItem::SyncNow.label(), "Sync Now");
    assert_eq!(MenuItem::ManageSubscription.label(), "Manage Subscription");
    assert_eq!(MenuItem::SelectPlan.label(), "Select Plan");
    assert_eq!(MenuItem::Logout.label(), "Logout");
    assert_eq!(MenuItem::Login.label(), "Login");
    assert_eq!(MenuItem::ClearAllData.label(), "Clear All Data");
    assert_eq!(MenuItem::Close.label(), "Close");
}

#[test]
fn the_menu_wraps_around_at_both_ends() {
    assert_eq!(menu_down(None, 4), 0);
    assert_eq!(menu_down(Some(0), 4), 1);
    assert_eq!(menu_down(Some(2), 4), 3);
    assert_eq!(menu_down(Some(3), 4), 0);
    assert_eq!(menu_down(Some(9), 4), 0);
    assert_eq!(menu_down(Some(0), 1), 0);
    assert_eq!(menu_up(None, 4), 0);
    assert_eq!(menu_up(Some(0), 4), 3);
    assert_eq!(menu_up(Some(3), 4), 2);
    assert_eq!(menu_up(Some(0), 1), 0);
}

#[test]
fn the_selection_stops_at_both_ends() {
    assert_eq!(move_selection(None, 1, 3), Some(0));
    assert_eq!(move_selection(None, -1, 3), Some(0));
    assert_eq!(move_selection(Some(0), 1, 3), Some(1));
    assert_eq!(move_selection(Some(1), 1, 3), Some(2));
    assert_eq!(move_selection(Some(2), 1, 3), Some(2));
    assert_eq!(move_selection(Some(2), -1, 3), Some(1));
    assert_eq!(move_selection(Some(0), -1, 3), Some(0));
    assert_eq!(move_selection(Some(1), 100, 3), Some(2));
    assert_eq!(move_selection(Some(1), -100, 3), Some(0));
    assert_eq!(move_selection(Some(1), i32::MAX, 3), Some(2));
    assert_eq!(move_selection(Some(1), i32::MIN, 3), Some(0));
    assert_eq!(move_selection(Some(7), 0, 3), Some(2));
    assert_eq!(move_selection(Some(7), -6, 3), Some(1));
}

#[test]
fn the_selection_of_an_empty_list_stays() {
    assert_eq!(move_selection(None, 1, 0), None);
    assert_eq!(move_selection(Some(2), -1, 0), Some(2));
}

#[test]
fn clearing_needs_the_exact_words() {
    assert_eq!(CLEAR_CONFIRMATION, "ClearAllData");
    assert!(confirms_clear("ClearAllData"));
    assert!(confirms_clear("  ClearAllData\t"));
    assert!(!confirms_clear("clearalldata"));
    assert!(!confirms_clear("Clear All Data"));
    assert!(!confirms_clear(""));
}
