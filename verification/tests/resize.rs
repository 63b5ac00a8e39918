use ide_shell::resizer::{candidate_size, committed_size, size_bound, ResizeConfig, ResizeController, SIZE_LIMIT};
use ide_shell::sidebar::explorer::Explorer;
use ide_shell::sidebar::search::Search;
use ide_shell::sidebar::{Panel, Sidebar, DEFAULT_PANEL_SIZE, MENU_SIZE_PX, RESIZER_PX};
use ide_shell::workspace::console::Console;
use ide_shell::workspace::{workspace_width, Workspace, DEFAULT_CONSOLE_HEIGHT, RESIZER_HEIGHT};
use ide_shell::WorkspaceCommand;

#[test]
fn the_bound_is_four_fifths_of_the_viewport_rounded_down() {
    assert_eq!(size_bound(1000), 800);
    assert_eq!(size_bound(0), 0);
    assert_eq!(size_bound(1), 0);
    assert_eq!(size_bound(4), 3);
    assert_eq!(size_bound(5), 4);
    assert_eq!(size_bound(438), 350);
    assert_eq!(size_bound(u32::MAX), SIZE_LIMIT);
    assert_eq!(SIZE_LIMIT, 3435973836);
}

#[test]
fn the_bound_agrees_with_eighty_percent_in_floating_point() {
    for viewport in [0u32, 1, 2, 3, 4, 5, 6, 7, 99, 100, 101, 438, 1023, 1024, 1920, 65535, 1 << 24] {
        assert_eq!(size_bound(viewport), (0.8 * viewport as f64) as u32);
    }
}

#[test]
fn a_candidate_is_the_position_less_the_offset_within_the_bound() {
    assert_eq!(candidate_size(170, 50, 1000), 120);
    assert_eq!(candidate_size(230, 50, 1000), 180);
    assert_eq!(candidate_size(400, 50, 1000), 350);
    assert_eq!(candidate_size(30, 50, 1000), 0);
    assert_eq!(candidate_size(50, 50, 1000), 0);
    assert_eq!(candidate_size(2000, 50, 1000), 800);
    assert_eq!(candidate_size(850, 50, 1000), 800);
    assert_eq!(candidate_size(851, 50, 1000), 800);
    assert_eq!(candidate_size(849, 50, 1000), 799);
    assert_eq!(candidate_size(1000, 50, 438), 350);
    assert_eq!(candidate_size(u32::MAX, 0, u32::MAX), SIZE_LIMIT);
    assert_eq!(candidate_size(300, 0, 1000), 300);
}

#[test]
fn the_band_snaps_keeps_or_commits() {
    // side panel: low 150, high 200
    assert_eq!(committed_size(200, 0, 150, 200), 0);
    assert_eq!(committed_size(200, 120, 150, 200), 0);
    assert_eq!(committed_size(200, 150, 150, 200), 0);
    assert_eq!(committed_size(260, 151, 150, 200), 260);
    assert_eq!(committed_size(260, 180, 150, 200), 260);
    assert_eq!(committed_size(260, 200, 150, 200), 260);
    assert_eq!(committed_size(260, 201, 150, 200), 201);
    assert_eq!(committed_size(260, 350, 150, 200), 350);
    // console: low 75, high 150
    assert_eq!(committed_size(200, 75, 75, 150), 0);
    assert_eq!(committed_size(200, 76, 75, 150), 200);
    assert_eq!(committed_size(200, 150, 75, 150), 200);
    assert_eq!(committed_size(200, 151, 75, 150), 151);
}

#[test]
fn a_configuration_is_valid_if_its_band_and_default_are() {
    let good = ResizeConfig { offset: 50, low: 150, high: 200, default_size: 200 };
    assert!(good.is_valid());
    assert!(!ResizeConfig { low: 201, ..good }.is_valid());
    assert!(!ResizeConfig { default_size: 0, ..good }.is_valid());
    assert!(!ResizeConfig { default_size: SIZE_LIMIT + 1, ..good }.is_valid());
    assert!(ResizeConfig { default_size: SIZE_LIMIT, low: 200, ..good }.is_valid());
}

#[test]
fn a_handle_starts_at_rest_at_the_default_size() {
    let handle = ResizeController::new(ResizeConfig { offset: 0, low: 10, high: 20, default_size: 33 });
    assert_eq!(handle.size(), 33);
    assert!(!handle.is_active());
    assert!(!handle.is_hovered());
    assert!(!handle.is_highlighted());
    assert_eq!(handle.size_cell().get(), 33);
    assert!(!handle.active_cell().get());
    assert!(!handle.hover_cell().get());
}

#[test]
fn a_handle_follows_the_pointer_only_while_it_is_held() {
    let mut handle = ResizeController::new(ResizeConfig { offset: 10, low: 100, high: 200, default_size: 150 });
    handle.pointer_move(510, 1000);
    assert_eq!(handle.size(), 150);
    handle.pointer_down();
    assert!(handle.is_active());
    assert!(handle.is_highlighted());
    handle.pointer_move(510, 1000);
    assert_eq!(handle.size(), 500);
    handle.pointer_move(160, 1000);
    assert_eq!(handle.size(), 500);
    handle.pointer_move(60, 1000);
    assert_eq!(handle.size(), 0);
    handle.pointer_move(160, 1000);
    assert_eq!(handle.size(), 0);
    assert!(handle.pointer_up());
    assert!(!handle.is_active());
    assert_eq!(handle.size(), 150);
    handle.pointer_move(510, 1000);
    assert_eq!(handle.size(), 150);
    assert!(!handle.pointer_up());
    assert_eq!(handle.size(), 150);
}

#[test]
fn hovering_lights_the_handle_and_leaves_the_size_alone() {
    let mut handle = ResizeController::new(ResizeConfig { offset: 0, low: 1, high: 2, default_size: 7 });
    handle.set_hover(true);
    assert!(handle.is_hovered());
    assert!(handle.is_highlighted());
    assert!(!handle.is_active());
    assert_eq!(handle.size(), 7);
    handle.set_hover(false);
    assert!(!handle.is_hovered());
    assert!(!handle.is_highlighted());
}

#[test]
fn the_side_bar_starts_with_the_explorer_shown() {
    let sidebar = Sidebar::default();
    assert_eq!(sidebar.panel_count(), 2);
    assert!(matches!(sidebar.panel(0), Some(Panel::Explorer(_))));
    assert!(matches!(sidebar.panel(1), Some(Panel::Search(_))));
    assert_eq!(sidebar.panel(2), None);
    assert_eq!(sidebar.active_panel(), Some(0));
    assert!(sidebar.is_panel_active(0));
    assert!(!sidebar.is_panel_active(1));
    assert_eq!(sidebar.panel_size(), DEFAULT_PANEL_SIZE);
    assert_eq!(DEFAULT_PANEL_SIZE, 200);
    assert_eq!(sidebar.width(), 254);
    assert_eq!(sidebar.width(), MENU_SIZE_PX + RESIZER_PX + DEFAULT_PANEL_SIZE);
    assert!(!sidebar.resizer().is_active());
}

#[test]
fn panels_have_their_tooltips() {
    assert_eq!(Search::default().tooltip(), "Search");
    assert_eq!(Explorer::default().tooltip(), "Explorer");
    assert_eq!(Panel::Search(Search::default()).tooltip(), "Search");
    assert_eq!(Panel::Explorer(Explorer::default()).tooltip(), "Explorer");
    assert_eq!(Explorer::default().workspace(), 0);
    assert_eq!(Explorer::new(3).workspace(), 3);
}

#[test]
fn clicking_an_icon_toggles_its_panel() {
    let mut sidebar = Sidebar::default();
    sidebar.toggle_panel(0);
    assert_eq!(sidebar.active_panel(), None);
    assert_eq!(sidebar.width(), 50);
    sidebar.toggle_panel(0);
    assert_eq!(sidebar.active_panel(), Some(0));
    sidebar.toggle_panel(1);
    assert_eq!(sidebar.active_panel(), Some(1));
    assert!(sidebar.is_panel_active(1));
    assert!(!sidebar.is_panel_active(0));
    sidebar.toggle_panel(1);
    assert_eq!(sidebar.active_panel(), None);
    sidebar.toggle_panel(1);
    assert_eq!(sidebar.active_panel(), Some(1));
    assert_eq!(sidebar.active_panel_cell().get(), Some(1));
}

#[test]
fn clicking_where_no_icon_is_changes_nothing() {
    let mut sidebar = Sidebar::default();
    sidebar.toggle_panel(2);
    assert_eq!(sidebar.active_panel(), Some(0));
    sidebar.toggle_panel(0);
    sidebar.toggle_panel(9);
    assert_eq!(sidebar.active_panel(), None);
}

#[test]
fn a_drag_to_candidate_120_commits_zero() {
    let mut sidebar = Sidebar::default();
    sidebar.pointer_down();
    sidebar.pointer_move(170, 1000);
    assert_eq!(sidebar.panel_size(), 0);
}

#[test]
fn a_drag_to_candidate_180_keeps_the_size_from_before() {
    let mut sidebar = Sidebar::default();
    sidebar.pointer_down();
    sidebar.pointer_move(350, 1000);
    assert_eq!(sidebar.panel_size(), 300);
    sidebar.pointer_up();
    sidebar.pointer_down();
    sidebar.pointer_move(230, 1000);
    assert_eq!(sidebar.panel_size(), 300);
    sidebar.pointer_up();
    assert_eq!(sidebar.panel_size(), 300);
    assert_eq!(sidebar.active_panel(), Some(0));
    assert_eq!(sidebar.width(), 354);
}

#[test]
fn a_drag_to_candidate_350_commits_the_clamped_value() {
    let mut sidebar = Sidebar::default();
    sidebar.pointer_down();
    sidebar.pointer_move(400, 1000);
    assert_eq!(sidebar.panel_size(), 350);
    // In a window 438 wide the bound is 350: a pointer far to the right
    // proposes 350 after clamping.
    let mut narrow = Sidebar::default();
    narrow.pointer_down();
    narrow.pointer_move(1000, 438);
    assert_eq!(narrow.panel_size(), 350);
    narrow.pointer_up();
    assert_eq!(narrow.panel_size(), 350);
    assert_eq!(narrow.active_panel(), Some(0));
}

#[test]
fn collapsing_the_panel_closes_it_and_resets_the_width() {
    let mut sidebar = Sidebar::default();
    sidebar.pointer_down();
    sidebar.pointer_move(500, 1000);
    assert_eq!(sidebar.panel_size(), 450);
    sidebar.pointer_move(100, 1000);
    assert_eq!(sidebar.panel_size(), 0);
    assert_eq!(sidebar.active_panel(), Some(0));
    assert_eq!(sidebar.width(), 54);
    sidebar.pointer_up();
    assert_eq!(sidebar.active_panel(), None);
    assert_eq!(sidebar.panel_size(), 200);
    assert!(!sidebar.resizer().is_active());
    assert_eq!(sidebar.width(), 50);
    // The next activation starts at the default width.
    sidebar.toggle_panel(1);
    assert_eq!(sidebar.active_panel(), Some(1));
    assert_eq!(sidebar.panel_size(), 200);
    assert_eq!(sidebar.width(), 254);
}

#[test]
fn a_pointer_left_of_the_window_counts_as_zero() {
    let mut sidebar = Sidebar::default();
    sidebar.pointer_down();
    sidebar.pointer_move(-40, 1000);
    assert_eq!(sidebar.panel_size(), 0);
    let mut other = Sidebar::default();
    other.pointer_down();
    other.pointer_move(i32::MIN, 1000);
    assert_eq!(other.panel_size(), 0);
    other.pointer_move(i32::MAX, u32::MAX);
    assert_eq!(other.panel_size(), i32::MAX as u32 - 50);
}

#[test]
fn the_side_bar_ignores_the_pointer_unless_the_handle_is_held() {
    let mut sidebar = Sidebar::default();
    sidebar.pointer_move(600, 1000);
    assert_eq!(sidebar.panel_size(), 200);
    sidebar.pointer_up();
    assert_eq!(sidebar.active_panel(), Some(0));
    assert_eq!(sidebar.panel_size(), 200);
    sidebar.pointer_over();
    assert!(sidebar.resizer().is_hovered());
    assert!(sidebar.resizer().is_highlighted());
    sidebar.pointer_move(600, 1000);
    assert_eq!(sidebar.panel_size(), 200);
    sidebar.pointer_out();
    assert!(!sidebar.resizer().is_hovered());
}

#[test]
fn the_work_area_starts_with_the_default_console() {
    let workspace = Workspace::default();
    assert_eq!(workspace.console_height(), DEFAULT_CONSOLE_HEIGHT);
    assert_eq!(DEFAULT_CONSOLE_HEIGHT, 200);
    assert_eq!(RESIZER_HEIGHT, 4);
    assert_eq!(workspace.console, Console::default());
    assert_eq!(workspace.activity_panel.tabs(), vec![0]);
    assert_eq!(workspace.activity_panel_height(1000), 796);
    assert_eq!(workspace.activity_panel_height(204), 0);
    assert_eq!(workspace.activity_panel_height(205), 1);
    assert_eq!(workspace.activity_panel_height(100), 0);
    assert_eq!(workspace.activity_panel_height(0), 0);
}

#[test]
fn the_work_area_takes_what_the_side_bar_leaves() {
    assert_eq!(workspace_width(1000, 254), 746);
    assert_eq!(workspace_width(254, 254), 0);
    assert_eq!(workspace_width(100, 254), 0);
    assert_eq!(workspace_width(u32::MAX, 0), u32::MAX);
}

#[test]
fn the_console_has_its_own_band() {
    let mut workspace = Workspace::default();
    workspace.pointer_down();
    // 1000 high, pointer at 696: 1000 - (696 + 4) = 300.
    workspace.pointer_move(696, 1000);
    assert_eq!(workspace.console_height(), 300);
    // 1000 - (846 + 4) = 150: in the band, kept.
    workspace.pointer_move(846, 1000);
    assert_eq!(workspace.console_height(), 300);
    // 1000 - (845 + 4) = 151: above the band.
    workspace.pointer_move(845, 1000);
    assert_eq!(workspace.console_height(), 151);
    // 1000 - (920 + 4) = 76: in the band.
    workspace.pointer_move(920, 1000);
    assert_eq!(workspace.console_height(), 151);
    // 1000 - (921 + 4) = 75: collapses.
    workspace.pointer_move(921, 1000);
    assert_eq!(workspace.console_height(), 0);
    assert_eq!(workspace.activity_panel_height(1000), 996);
    workspace.pointer_up();
    // The console is never taken away: it is back at its default height.
    assert_eq!(workspace.console_height(), 200);
    assert!(!workspace.resizer.is_active());
}

#[test]
fn the_console_stays_within_four_fifths_of_the_window() {
    let mut workspace = Workspace::default();
    workspace.pointer_down();
    workspace.pointer_move(0, 1000);
    assert_eq!(workspace.console_height(), 800);
    workspace.pointer_move(-5, 1000);
    assert_eq!(workspace.console_height(), 800);
    workspace.pointer_move(196, 1000);
    assert_eq!(workspace.console_height(), 800);
    workspace.pointer_move(197, 1000);
    assert_eq!(workspace.console_height(), 799);
    workspace.pointer_move(5000, 1000);
    assert_eq!(workspace.console_height(), 0);
}

#[test]
fn the_console_handle_hovers_and_rests() {
    let mut workspace = Workspace::default();
    workspace.pointer_enter();
    assert!(workspace.resizer.is_hovered());
    workspace.pointer_move(100, 1000);
    assert_eq!(workspace.console_height(), 200);
    workspace.pointer_leave();
    assert!(!workspace.resizer.is_hovered());
    workspace.pointer_up();
    assert_eq!(workspace.console_height(), 200);
}

#[test]
fn the_work_area_hands_commands_to_its_tabs() {
    let mut workspace = Workspace::default();
    workspace.handle_command(WorkspaceCommand::OpenFile(2));
    workspace.handle_command(WorkspaceCommand::OpenFile(2));
    assert_eq!(workspace.activity_panel.tabs(), vec![0, 1]);
    assert_eq!(workspace.activity_panel.active_activity(), Some(1));
    assert_eq!(workspace.console_height(), 200);
}
