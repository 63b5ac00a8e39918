use ide_shell::contextmenu::ContextMenuState;
use ide_shell::workspace::activity_panel::editor::Editor;
use ide_shell::workspace::activity_panel::welcome::Welcome;
use ide_shell::workspace::activity_panel::{Activity, ActivityPanel, MenuAction};
use ide_shell::WorkspaceCommand;

fn editors_on(panel: &ActivityPanel, file: usize) -> usize {
    panel
        .tabs()
        .into_iter()
        .filter(|tab| panel.activity(*tab) == Some(Activity::Editor(Editor::new(file))))
        .count()
}

fn active_is_valid(panel: &ActivityPanel) -> bool {
    match panel.active_activity() {
        Some(tab) => panel.tabs().contains(&tab),
        None => true,
    }
}

#[test]
fn panel_starts_with_the_welcome_page_in_front() {
    let panel = ActivityPanel::default();
    assert_eq!(panel.tabs(), vec![0]);
    assert_eq!(panel.activity(0), Some(Activity::Welcome(Welcome::new())));
    assert_eq!(panel.active_activity(), Some(0));
    assert!(panel.is_active(0));
    assert!(!panel.is_empty());
    assert!(!panel.context_menu().is_shown());
    assert_eq!(panel.context_menu().position(), (0, 0));
}

#[test]
fn opening_a_file_appends_an_editor_and_brings_it_to_the_front() {
    let mut panel = ActivityPanel::default();
    panel.open_file(4);
    assert_eq!(panel.tabs(), vec![0, 1]);
    assert_eq!(panel.activity(1), Some(Activity::Editor(Editor::new(4))));
    assert_eq!(panel.active_activity(), Some(1));
}

#[test]
fn opening_a_file_again_reuses_its_tab() {
    let mut panel = ActivityPanel::default();
    panel.open_file(4);
    panel.open_file(9);
    assert_eq!(panel.tabs(), vec![0, 1, 2]);
    assert_eq!(panel.active_activity(), Some(2));
    for _ in 0..5 {
        panel.open_file(4);
        assert_eq!(panel.tabs(), vec![0, 1, 2]);
        assert_eq!(panel.active_activity(), Some(1));
        assert_eq!(editors_on(&panel, 4), 1);
    }
    assert_eq!(editors_on(&panel, 9), 1);
    assert_eq!(editors_on(&panel, 5), 0);
}

#[test]
fn no_file_gets_a_second_editor_however_files_are_opened() {
    let mut panel = ActivityPanel::default();
    let files = [3usize, 1, 3, 2, 1, 1, 3, 0, 2, 0, 3];
    for (step, file) in files.iter().enumerate() {
        panel.handle_command(WorkspaceCommand::OpenFile(*file));
        assert_eq!(editors_on(&panel, *file), 1);
        if step % 4 == 3 {
            let first = panel.tabs()[0];
            panel.close_tab(first);
        }
        for probe in 0..4 {
            assert!(editors_on(&panel, probe) <= 1);
        }
        assert!(active_is_valid(&panel));
    }
}

#[test]
fn closing_the_tab_in_front_brings_the_first_remaining_one_forward() {
    // [A, B, C] with B in front: closing B leaves [A, C] with A in front.
    let mut panel = ActivityPanel::default();
    panel.close_all_tabs();
    panel.open_file(10);
    panel.open_file(11);
    panel.open_file(12);
    let tabs = panel.tabs();
    let (a, b, c) = (tabs[0], tabs[1], tabs[2]);
    panel.activate(b);
    assert_eq!(panel.active_activity(), Some(b));
    panel.close_tab(b);
    assert_eq!(panel.tabs(), vec![a, c]);
    assert_eq!(panel.active_activity(), Some(a));
}

#[test]
fn closing_another_tab_leaves_the_front_alone() {
    let mut panel = ActivityPanel::default();
    panel.open_file(10);
    panel.open_file(11);
    assert_eq!(panel.active_activity(), Some(2));
    panel.close_tab(1);
    assert_eq!(panel.tabs(), vec![0, 2]);
    assert_eq!(panel.active_activity(), Some(2));
}

#[test]
fn closing_the_last_tab_leaves_nothing_in_front() {
    let mut panel = ActivityPanel::default();
    panel.close_tab(0);
    assert!(panel.tabs().is_empty());
    assert_eq!(panel.active_activity(), None);
    assert!(panel.is_empty());
}

#[test]
fn closing_a_tab_that_is_not_there_changes_no_tab() {
    let mut panel = ActivityPanel::default();
    panel.open_file(3);
    panel.close_tab(17);
    assert_eq!(panel.tabs(), vec![0, 1]);
    assert_eq!(panel.active_activity(), Some(1));
    panel.close_tab(1);
    panel.close_tab(1);
    assert_eq!(panel.tabs(), vec![0]);
    assert_eq!(panel.active_activity(), Some(0));
}

#[test]
fn closing_all_tabs_empties_the_panel_whatever_it_held() {
    let mut empty = ActivityPanel::default();
    empty.close_all_tabs();
    empty.close_all_tabs();
    assert!(empty.tabs().is_empty());
    assert_eq!(empty.active_activity(), None);

    let mut full = ActivityPanel::default();
    full.open_file(1);
    full.open_file(2);
    full.split_tab(1);
    full.open_context_menu(3, 4);
    full.close_all_tabs();
    assert!(full.tabs().is_empty());
    assert_eq!(full.active_activity(), None);
    assert!(full.is_empty());
    assert!(!full.context_menu().is_shown());
}

#[test]
fn a_closed_file_can_be_opened_again_in_a_new_tab() {
    let mut panel = ActivityPanel::default();
    panel.open_file(3);
    panel.close_tab(1);
    panel.open_file(3);
    assert_eq!(panel.tabs(), vec![0, 2]);
    assert_eq!(panel.active_activity(), Some(2));
    assert_eq!(editors_on(&panel, 3), 1);
}

#[test]
fn splitting_an_editor_gives_a_second_tab_on_the_same_file() {
    let mut panel = ActivityPanel::default();
    panel.open_file(6);
    panel.activate(0);
    panel.split_tab(1);
    assert_eq!(panel.tabs(), vec![0, 1, 2]);
    assert_eq!(panel.activity(1), Some(Activity::Editor(Editor::new(6))));
    assert_eq!(panel.activity(2), Some(Activity::Editor(Editor::new(6))));
    // The tab in front stays in front.
    assert_eq!(panel.active_activity(), Some(0));
    assert_eq!(editors_on(&panel, 6), 2);
}

#[test]
fn splitting_the_welcome_page_gives_a_second_welcome_page() {
    let mut panel = ActivityPanel::default();
    panel.split_tab(0);
    assert_eq!(panel.tabs(), vec![0, 1]);
    assert_eq!(panel.activity(1), Some(Activity::Welcome(Welcome::new())));
    assert_eq!(panel.active_activity(), Some(0));
}

#[test]
fn splitting_a_tab_that_was_never_created_changes_nothing() {
    let mut panel = ActivityPanel::default();
    panel.split_tab(5);
    assert_eq!(panel.tabs(), vec![0]);
    assert_eq!(panel.activity(1), None);
    assert_eq!(panel.active_activity(), Some(0));
}

#[test]
fn opening_after_a_split_goes_to_the_first_tab_on_the_file() {
    let mut panel = ActivityPanel::default();
    panel.open_file(6);
    panel.split_tab(1);
    panel.activate(0);
    panel.open_file(6);
    assert_eq!(panel.tabs(), vec![0, 1, 2]);
    assert_eq!(panel.active_activity(), Some(1));
    panel.close_tab(1);
    panel.open_file(6);
    assert_eq!(panel.tabs(), vec![0, 2]);
    assert_eq!(panel.active_activity(), Some(2));
}

#[test]
fn clicking_a_tab_brings_it_to_the_front_only_if_it_is_open() {
    let mut panel = ActivityPanel::default();
    panel.open_file(1);
    panel.activate(0);
    assert_eq!(panel.active_activity(), Some(0));
    assert!(panel.is_active(0));
    assert!(!panel.is_active(1));
    panel.close_tab(1);
    panel.activate(1);
    assert_eq!(panel.active_activity(), Some(0));
    panel.activate(40);
    assert_eq!(panel.active_activity(), Some(0));
    assert!(panel.is_open(0));
    assert!(!panel.is_open(1));
}

#[test]
fn the_tab_in_front_is_always_open_or_none() {
    let mut panel = ActivityPanel::default();
    let mut seed: u32 = 12345;
    for _ in 0..400 {
        seed = seed.wrapping_mul(1664525).wrapping_add(1013904223);
        let pick = ((seed >> 16) % 12) as usize;
        match (seed >> 8) % 6 {
            0 | 1 => panel.open_file(pick % 5),
            2 => panel.close_tab(pick),
            3 => panel.split_tab(pick),
            4 => panel.activate(pick),
            _ => {
                if pick == 0 {
                    panel.close_all_tabs()
                } else {
                    panel.select_menu_action(MenuAction::CloseTab, pick)
                }
            }
        }
        assert!(active_is_valid(&panel));
        let tabs = panel.tabs();
        for (i, tab) in tabs.iter().enumerate() {
            assert!(panel.activity(*tab).is_some());
            assert!(!tabs[..i].contains(tab));
        }
        assert_eq!(panel.is_empty(), tabs.is_empty());
    }
}

#[test]
fn only_editors_offer_a_close_button() {
    assert!(Activity::Editor(Editor::new(1)).closable());
    assert!(!Activity::Welcome(Welcome::new()).closable());
    assert!(Activity::Editor(Editor::new(1)).edits(1));
    assert!(!Activity::Editor(Editor::new(1)).edits(2));
    assert!(!Activity::Welcome(Welcome::new()).edits(0));
    assert_eq!(Activity::Editor(Editor::new(8)).duplicate(), Activity::Editor(Editor::new(8)));
    assert_eq!(Welcome::new().label(), "Welcome");
}

#[test]
fn a_secondary_click_shows_the_menu_at_the_pointer() {
    let mut panel = ActivityPanel::default();
    panel.open_context_menu(120, -7);
    assert!(panel.context_menu().is_shown());
    assert_eq!(panel.context_menu().position(), (120, -7));
    // Nothing but the menu changed.
    assert_eq!(panel.tabs(), vec![0]);
    assert_eq!(panel.active_activity(), Some(0));
}

#[test]
fn choosing_a_menu_entry_does_the_transition_and_hides_the_menu() {
    let mut panel = ActivityPanel::default();
    panel.open_file(2);
    panel.open_context_menu(5, 6);
    panel.select_menu_action(MenuAction::SplitTab, 1);
    assert!(!panel.context_menu().is_shown());
    assert_eq!(panel.context_menu().position(), (5, 6));
    assert_eq!(panel.tabs(), vec![0, 1, 2]);
    assert_eq!(panel.active_activity(), Some(1));

    panel.open_context_menu(7, 8);
    panel.select_menu_action(MenuAction::CloseTab, 1);
    assert!(!panel.context_menu().is_shown());
    assert_eq!(panel.tabs(), vec![0, 2]);
    assert_eq!(panel.active_activity(), Some(0));

    panel.open_context_menu(9, 10);
    panel.select_menu_action(MenuAction::CloseAllTabs, 0);
    assert!(!panel.context_menu().is_shown());
    assert!(panel.tabs().is_empty());
    assert_eq!(panel.active_activity(), None);
}

#[test]
fn closing_a_tab_directly_hides_the_menu_and_splitting_does_not() {
    let mut panel = ActivityPanel::default();
    panel.open_context_menu(1, 1);
    panel.split_tab(0);
    assert!(panel.context_menu().is_shown());
    panel.close_tab(1);
    assert!(!panel.context_menu().is_shown());
}

#[test]
fn the_menu_on_its_own_opens_and_goes() {
    let mut menu = ContextMenuState::new();
    assert!(!menu.is_shown());
    assert_eq!(menu.position(), (0, 0));
    menu.open_at(31, 42);
    assert!(menu.is_shown());
    assert_eq!(menu.position(), (31, 42));
    menu.dismiss();
    assert!(!menu.is_shown());
    assert_eq!(menu.position(), (31, 42));
}

#[test]
fn subscribers_see_what_the_panel_holds() {
    let mut panel = ActivityPanel::default();
    panel.open_file(3);
    panel.open_file(4);
    panel.close_tab(1);
    assert_eq!(panel.tab_list().lock_ref().to_vec(), panel.tabs());
    assert_eq!(panel.active_cell().get(), panel.active_activity());
    assert_eq!(panel.active_cell().get(), Some(2));
}
