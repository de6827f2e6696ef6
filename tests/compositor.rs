use wayforge::client_data::{ClientData, ClientOrigin};
use wayforge::geometry::{dragged_location, Fixed, Point};
use wayforge::state::{
    client_compositor_state, ButtonState, CoreError, CursorImageStatus, WayforgeState,
};

const BTN_LEFT: u32 = 0x110;
const BTN_RIGHT: u32 = 0x111;

fn px(x: i32, y: i32) -> Fixed {
    Fixed { x: x * 256, y: y * 256 }
}

/// One client (1) with surfaces 10, 11 and 12, and a second client (2) with
/// surface 20.
fn two_clients() -> WayforgeState {
    let mut st = WayforgeState::new(2);
    st.client_connected(1, ClientOrigin::Native);
    st.client_connected(2, ClientOrigin::XWayland);
    st.surface_created(10, 1).unwrap();
    st.surface_created(11, 1).unwrap();
    st.surface_created(12, 1).unwrap();
    st.surface_created(20, 2).unwrap();
    st
}

fn location_of(st: &WayforgeState, surface: u64) -> Point {
    st.windows.iter().find(|w| w.surface == surface).unwrap().location
}

#[test]
fn move_arithmetic_rounds_to_whole_pixels() {
    let r = dragged_location(Point { x: 100, y: 100 }, px(10, 10), Fixed { x: 15 * 256, y: 17 * 256 });
    assert_eq!(r, Point { x: 105, y: 107 });
    let half = dragged_location(Point { x: 100, y: 100 }, px(10, 10), Fixed { x: 10 * 256 + 128, y: 10 * 256 + 127 });
    assert_eq!(half, Point { x: 101, y: 100 });
}

#[test]
fn move_arithmetic_rounds_negative_halves_away_from_zero() {
    let r = dragged_location(Point { x: 0, y: 0 }, Fixed { x: 0, y: 0 }, Fixed { x: -128, y: -127 });
    assert_eq!(r, Point { x: -1, y: 0 });
    let left = dragged_location(Point { x: 5, y: 5 }, px(100, 100), px(90, 120));
    assert_eq!(left, Point { x: -5, y: 25 });
}

#[test]
fn move_arithmetic_saturates_at_the_coordinate_range() {
    let r = dragged_location(Point { x: i32::MAX, y: i32::MIN }, px(0, 0), px(10, -10));
    assert_eq!(r, Point { x: i32::MAX, y: i32::MIN });
}

#[test]
fn configure_is_sent_once_then_window_is_shown() {
    let mut st = two_clients();
    assert_eq!(st.new_toplevel(10), Ok(()));
    assert_eq!(st.windows.len(), 1);
    assert_eq!(st.windows[0].workspace, st.active_workspace);
    assert_eq!(st.windows[0].location, Point { x: 0, y: 0 });
    assert!(!st.windows[0].mapped);
    assert!(!st.windows[0].initial_configure_sent);

    assert_eq!(st.commit(10), Ok(true));
    assert!(st.windows[0].initial_configure_sent);
    assert!(!st.windows[0].mapped);

    assert_eq!(st.commit(10), Ok(false));
    assert!(st.windows[0].mapped);
    assert_eq!(st.commit(10), Ok(false));
}

#[test]
fn commit_of_plain_surface_sends_nothing() {
    let mut st = two_clients();
    assert_eq!(st.commit(20), Ok(false));
    assert!(st.windows.is_empty());
}

#[test]
fn commit_of_unknown_surface_is_an_orphan() {
    let mut st = two_clients();
    assert_eq!(st.commit(99), Err(CoreError::OrphanSurface));
    assert_eq!(st.new_toplevel(99), Err(CoreError::OrphanSurface));
    assert!(st.windows.is_empty());
}

#[test]
fn surface_of_unknown_client_is_refused() {
    let mut st = two_clients();
    assert_eq!(st.surface_created(30, 3), Err(CoreError::UnknownClient));
    assert_eq!(st.commit(30), Err(CoreError::OrphanSurface));
}

#[test]
fn client_records_are_looked_up_by_client() {
    let st = two_clients();
    assert_eq!(
        client_compositor_state(&st.clients, 2),
        Ok(ClientData { client: 2, origin: ClientOrigin::XWayland })
    );
    assert_eq!(client_compositor_state(&st.clients, 5), Err(CoreError::UnknownClient));
}

#[test]
fn reconnecting_client_keeps_its_record() {
    let mut st = two_clients();
    st.client_connected(1, ClientOrigin::XWayland);
    assert_eq!(st.clients.len(), 2);
    assert_eq!(client_compositor_state(&st.clients, 1).unwrap().origin, ClientOrigin::Native);
}

#[test]
fn windows_cascade_per_workspace() {
    let mut st = two_clients();
    st.new_toplevel(10).unwrap();
    st.new_toplevel(11).unwrap();
    st.set_active_workspace(1);
    st.new_toplevel(20).unwrap();
    st.set_active_workspace(0);
    st.new_toplevel(12).unwrap();
    assert_eq!(location_of(&st, 10), Point { x: 0, y: 0 });
    assert_eq!(location_of(&st, 11), Point { x: 32, y: 32 });
    assert_eq!(location_of(&st, 12), Point { x: 64, y: 64 });
    assert_eq!(location_of(&st, 20), Point { x: 0, y: 0 });
    assert!(!st.is_workspace_empty(1));

    st.toplevel_destroyed(10);
    assert_eq!(location_of(&st, 11), Point { x: 0, y: 0 });
    assert_eq!(location_of(&st, 12), Point { x: 32, y: 32 });
}

#[test]
fn promoting_twice_keeps_one_window() {
    let mut st = two_clients();
    st.new_toplevel(10).unwrap();
    st.commit(10).unwrap();
    assert_eq!(st.new_toplevel(10), Ok(()));
    assert_eq!(st.windows.len(), 1);
    assert!(st.windows[0].initial_configure_sent);
}

#[test]
fn destroying_last_window_resets_cursor() {
    let mut st = two_clients();
    st.new_toplevel(10).unwrap();
    st.new_toplevel(11).unwrap();
    st.cursor_image(CursorImageStatus::Surface(10));
    st.toplevel_destroyed(10);
    assert_eq!(st.cursor_status, CursorImageStatus::Surface(10));
    st.toplevel_destroyed(11);
    assert!(st.is_workspace_empty(0));
    assert_eq!(st.cursor_status, CursorImageStatus::Default);
}

#[test]
fn hidden_cursor_returns_to_default_when_workspace_empties() {
    let mut st = two_clients();
    st.new_toplevel(10).unwrap();
    st.cursor_image(CursorImageStatus::Hidden);
    st.toplevel_destroyed(10);
    assert_eq!(st.cursor_status, CursorImageStatus::Default);
}

#[test]
fn destroying_window_elsewhere_keeps_cursor_while_active_workspace_has_windows() {
    let mut st = two_clients();
    st.new_toplevel(10).unwrap();
    st.set_active_workspace(1);
    st.new_toplevel(20).unwrap();
    st.set_active_workspace(0);
    st.cursor_image(CursorImageStatus::Named(4));
    st.toplevel_destroyed(20);
    assert_eq!(st.cursor_status, CursorImageStatus::Named(4));
    assert!(st.is_workspace_empty(1));
}

#[test]
fn selection_follows_most_recent_focus() {
    let mut st = two_clients();
    assert_eq!(st.seat.selection_owner, None);
    st.set_pointer_focus(Some(10)).unwrap();
    assert_eq!(st.seat.selection_owner, Some(1));
    st.set_keyboard_focus(Some(20)).unwrap();
    assert_eq!(st.seat.selection_owner, Some(2));
    assert_eq!(st.seat.pointer_focus, Some(10));
    assert_eq!(st.seat.keyboard_focus, Some(20));
    st.set_pointer_focus(None).unwrap();
    assert_eq!(st.seat.pointer_focus, None);
    assert_eq!(st.seat.selection_owner, Some(2));
    st.set_pointer_focus(Some(11)).unwrap();
    assert_eq!(st.seat.selection_owner, Some(1));
}

#[test]
fn focus_on_unknown_surface_changes_nothing() {
    let mut st = two_clients();
    st.set_keyboard_focus(Some(20)).unwrap();
    assert_eq!(st.set_pointer_focus(Some(99)), Err(CoreError::OrphanSurface));
    assert_eq!(st.set_keyboard_focus(Some(99)), Err(CoreError::OrphanSurface));
    assert_eq!(st.seat.keyboard_focus, Some(20));
    assert_eq!(st.seat.pointer_focus, None);
    assert_eq!(st.seat.selection_owner, Some(2));
}

/// A window for surface 10 at (100, 100) with the left button held at
/// (10, 10), press serial 7.
fn pressed_on_window() -> WayforgeState {
    let mut st = two_clients();
    st.new_toplevel(10).unwrap();
    st.windows[0].location = Point { x: 100, y: 100 };
    st.set_pointer_focus(Some(10)).unwrap();
    assert_eq!(st.pointer_motion(px(10, 10)), Some(10));
    assert_eq!(st.pointer_button(BTN_LEFT, ButtonState::Pressed, 7), Some(10));
    st
}

#[test]
fn move_grab_drags_window_with_pointer() {
    let mut st = pressed_on_window();
    assert_eq!(st.move_request(10, 7), Ok(()));
    let grab = st.seat.active_grab.unwrap();
    assert_eq!(grab.window, 10);
    assert_eq!(grab.initial_window_location, Point { x: 100, y: 100 });
    assert_eq!(grab.start_data().location, px(10, 10));
    assert_eq!(grab.start_data().serial, 7);

    assert_eq!(st.pointer_motion(px(15, 17)), None);
    assert_eq!(location_of(&st, 10), Point { x: 105, y: 107 });
    assert_eq!(st.seat.pointer_location, px(15, 17));
    assert_eq!(st.pointer_motion(px(5, 0)), None);
    assert_eq!(location_of(&st, 10), Point { x: 95, y: 90 });
    assert_eq!(st.passthrough_target(), Some(10));
}

#[test]
fn second_grab_is_refused() {
    let mut st = pressed_on_window();
    st.new_toplevel(11).unwrap();
    st.move_request(10, 7).unwrap();
    let first = st.seat.active_grab;
    assert_eq!(st.move_request(11, 7), Err(CoreError::GrabAlreadyActive));
    assert_eq!(st.move_request(10, 7), Err(CoreError::GrabAlreadyActive));
    assert_eq!(st.seat.active_grab, first);
}

#[test]
fn grab_ends_when_every_button_is_released() {
    let mut st = pressed_on_window();
    st.pointer_button(BTN_RIGHT, ButtonState::Pressed, 8);
    st.move_request(10, 8).unwrap();
    assert_eq!(st.pointer_button(BTN_LEFT, ButtonState::Released, 9), Some(10));
    assert!(st.seat.active_grab.is_some());
    assert_eq!(st.seat.pressed, vec![BTN_RIGHT]);
    st.pointer_button(BTN_RIGHT, ButtonState::Released, 10);
    assert!(st.seat.pressed.is_empty());
    assert_eq!(st.seat.active_grab, None);

    assert_eq!(st.pointer_motion(px(50, 50)), Some(10));
    assert_eq!(location_of(&st, 10), Point { x: 100, y: 100 });
}

#[test]
fn pressing_held_button_again_keeps_one_entry() {
    let mut st = pressed_on_window();
    st.pointer_button(BTN_LEFT, ButtonState::Pressed, 8);
    assert_eq!(st.seat.pressed, vec![BTN_LEFT]);
    assert_eq!(st.seat.last_press.unwrap().serial, 8);
}

#[test]
fn move_request_with_stale_serial_is_refused() {
    let mut st = pressed_on_window();
    assert_eq!(st.move_request(10, 6), Err(CoreError::InvalidGrabStartData));
    assert_eq!(st.seat.active_grab, None);
    st.pointer_button(BTN_LEFT, ButtonState::Released, 8);
    assert_eq!(st.move_request(10, 7), Err(CoreError::InvalidGrabStartData));
    assert_eq!(st.pointer_motion(px(40, 40)), Some(10));
    assert_eq!(location_of(&st, 10), Point { x: 100, y: 100 });
}

#[test]
fn move_request_without_press_or_window_is_refused() {
    let mut st = two_clients();
    st.new_toplevel(10).unwrap();
    assert_eq!(st.move_request(10, 0), Err(CoreError::InvalidGrabStartData));
    st.pointer_button(BTN_LEFT, ButtonState::Pressed, 3);
    assert_eq!(st.move_request(20, 3), Err(CoreError::OrphanSurface));
    assert_eq!(st.seat.active_grab, None);
}

#[test]
fn destroyed_surface_becomes_an_orphan() {
    let mut st = two_clients();
    st.surface_destroyed(11);
    assert_eq!(st.commit(11), Err(CoreError::OrphanSurface));
    assert_eq!(st.set_pointer_focus(Some(11)), Err(CoreError::OrphanSurface));
    assert_eq!(st.commit(10), Ok(false));
    assert_eq!(st.surfaces.len(), 3);
}

#[test]
fn disconnected_client_is_unknown() {
    let mut st = two_clients();
    st.client_disconnected(1);
    assert_eq!(st.clients, vec![ClientData { client: 2, origin: ClientOrigin::XWayland }]);
    assert_eq!(st.commit(10), Err(CoreError::UnknownClient));
    assert_eq!(st.commit(20), Ok(false));
    assert_eq!(st.surface_created(13, 1), Err(CoreError::UnknownClient));
    assert_eq!(client_compositor_state(&st.clients, 1), Err(CoreError::UnknownClient));
}

#[test]
fn cascade_starts_over_after_sixteen_windows() {
    let mut st = WayforgeState::new(1);
    st.client_connected(1, ClientOrigin::Native);
    for id in 100..117u64 {
        st.surface_created(id, 1).unwrap();
        st.new_toplevel(id).unwrap();
    }
    assert_eq!(st.windows.len(), 17);
    assert_eq!(location_of(&st, 100), Point { x: 0, y: 0 });
    assert_eq!(location_of(&st, 115), Point { x: 480, y: 480 });
    assert_eq!(location_of(&st, 116), Point { x: 0, y: 0 });
}

#[test]
fn focus_on_surface_of_disconnected_client_is_refused() {
    let mut st = two_clients();
    st.set_keyboard_focus(Some(20)).unwrap();
    st.client_disconnected(1);
    assert_eq!(st.set_pointer_focus(Some(10)), Err(CoreError::UnknownClient));
    assert_eq!(st.set_keyboard_focus(Some(11)), Err(CoreError::UnknownClient));
    assert_eq!(st.seat.pointer_focus, None);
    assert_eq!(st.seat.keyboard_focus, Some(20));
    assert_eq!(st.seat.selection_owner, Some(2));
}

#[test]
fn disconnect_takes_the_selection_away() {
    let mut st = two_clients();
    st.set_pointer_focus(Some(10)).unwrap();
    assert_eq!(st.seat.selection_owner, Some(1));
    st.client_disconnected(2);
    assert_eq!(st.seat.selection_owner, Some(1));
    st.client_disconnected(1);
    assert_eq!(st.seat.selection_owner, None);
    assert_eq!(st.seat.pointer_focus, Some(10));
}

#[test]
fn toplevel_of_disconnected_client_is_refused() {
    let mut st = two_clients();
    st.client_disconnected(1);
    assert_eq!(st.new_toplevel(10), Err(CoreError::UnknownClient));
    assert!(st.windows.is_empty());
}

#[test]
fn client_lookup_returns_the_first_record() {
    let clients = vec![
        ClientData { client: 4, origin: ClientOrigin::Native },
        ClientData { client: 3, origin: ClientOrigin::XWayland },
        ClientData { client: 3, origin: ClientOrigin::Native },
    ];
    assert_eq!(
        client_compositor_state(&clients, 3),
        Ok(ClientData { client: 3, origin: ClientOrigin::XWayland })
    );
}
