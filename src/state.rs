use crate::buttons::{press_button, release_button};
use crate::client_data::{client_ids_unique, find_client, has_client, ClientData, ClientOrigin};
use crate::geometry::{Fixed, Point};
use crate::move_grab::{relocated, GrabStartData, MoveSurfaceGrab};
use crate::seat::Seat;
use crate::window::{
    find_window, has_window, is_workspace_empty, layout, refresh_geometry, workspace_holds_any,
    Window,
};
use vstd::prelude::*;

verus! {

/// Why a request was ignored.
#[derive(Clone, Copy, Debug, PartialEq, Eq, Structural)]
pub enum CoreError {
    /// The client has no record.
    UnknownClient,
    /// The surface is not known, so no client backs it.
    OrphanSurface,
    /// A grab already owns the pointer; the first one stays.
    GrabAlreadyActive,
    /// The request does not name a button press that is still held.
    InvalidGrabStartData,
}

/// What the pointer looks like.
#[derive(Clone, Copy, Debug, PartialEq, Eq, Structural)]
pub enum CursorImageStatus {
    Hidden,
    /// The compositor's own arrow.
    Default,
    /// A cursor of the theme, by its index.
    Named(u32),
    /// A surface that a client drew.
    Surface(u64),
}

/// A drawable surface and the client that owns it.
#[derive(Clone, Copy, Debug, PartialEq, Eq, Structural)]
pub struct Surface {
    pub id: u64,
    pub client: u64,
}

/// The client that owns surface `id`, by its latest registration.
pub open spec fn client_of_surface(ss: Seq<Surface>, id: u64) -> Option<u64>
    decreases ss.len(),
{
    if ss.len() == 0 {
        None
    } else if ss.last().id == id {
        Some(ss.last().client)
    } else {
        client_of_surface(ss.drop_last(), id)
    }
}

/// The client that owns surface `id`, if the surface is known.
pub fn surface_client(surfaces: &Vec<Surface>, id: u64) -> (r: Option<u64>)
    ensures
        r == client_of_surface(surfaces@, id),
{
    let mut r: Option<u64> = None;
    let mut i: usize = 0;
    while i < surfaces.len()
        invariant
            i <= surfaces@.len(),
            r == client_of_surface(surfaces@.take(i as int), id),
        decreases surfaces@.len() - i,
    {
        assert(surfaces@.take(i as int + 1).drop_last() =~= surfaces@.take(i as int));
        if surfaces[i].id == id {
            r = Some(surfaces[i].client);
        }
        i = i + 1;
    }
    assert(surfaces@.take(i as int) =~= surfaces@);
    r
}

/// The first record of `client`, or `UnknownClient` where it has none.
pub fn client_compositor_state(clients: &Vec<ClientData>, client: u64) -> (r: Result<
    ClientData,
    CoreError,
>)
    ensures
        r matches Ok(d) ==> exists|i: int|
            0 <= i < clients@.len() && clients@[i] == d && d.client == client && forall|j: int|
                0 <= j < i ==> clients@[j].client != client,
        r is Err <==> !has_client(clients@, client),
        r is Err ==> r == Err::<ClientData, CoreError>(CoreError::UnknownClient),
{
    match find_client(clients, client) {
        Some(i) => Ok(clients[i]),
        None => Err(CoreError::UnknownClient),
    }
}

/// Whether no two windows wrap the same surface.
pub open spec fn window_surfaces_unique(ws: Seq<Window>) -> bool {
    forall|i: int, j: int|
        0 <= i < ws.len() && 0 <= j < ws.len() && ws[i].surface == ws[j].surface ==> i == j
}

/// A window after a commit of its surface: the first commit sends its
/// configuration, a commit after that shows it.
pub open spec fn committed_window(w: Window) -> Window {
    if !w.initial_configure_sent {
        Window { initial_configure_sent: true, ..w }
    } else {
        Window { mapped: true, ..w }
    }
}

/// `ws` after a commit of `surface`.
pub open spec fn committed(ws: Seq<Window>, surface: u64) -> Seq<Window> {
    Seq::new(
        ws.len(),
        |i: int|
            if ws[i].surface == surface {
                committed_window(ws[i])
            } else {
                ws[i]
            },
    )
}

/// Whether a commit of `surface` sends the window's first configuration.
pub open spec fn commit_configures(ws: Seq<Window>, surface: u64) -> bool {
    exists|i: int| 0 <= i < ws.len() && ws[i].surface == surface && !ws[i].initial_configure_sent
}

/// The initial configuration of a window goes out once: after a commit of
/// its surface the window counts as configured, so a second commit with
/// nothing changed in between sends no configuration; and no commit shows a
/// window that was not configured before.
pub proof fn lemma_configure_sent_once(ws: Seq<Window>, surface: u64)
    ensures
        forall|i: int|
            0 <= i < ws.len() && ws[i].surface == surface ==> #[trigger] committed(
                ws,
                surface,
            )[i].initial_configure_sent,
        !commit_configures(committed(ws, surface), surface),
        forall|i: int|
            0 <= i < ws.len() && #[trigger] committed(ws, surface)[i].mapped && !ws[i].mapped
                ==> ws[i].initial_configure_sent,
{
}

/// A focus change of the seat.
#[derive(Clone, Copy, Debug, PartialEq, Eq, Structural)]
pub enum FocusOp {
    Pointer(Option<u64>),
    Keyboard(Option<u64>),
}

pub open spec fn focus_target(op: FocusOp) -> Option<u64> {
    match op {
        FocusOp::Pointer(t) => t,
        FocusOp::Keyboard(t) => t,
    }
}

/// Why focusing `target` is refused: it names a surface that is unknown, or
/// whose client has no record (see `surface_error`). Clearing focus is never
/// refused.
pub open spec fn focus_error(s: WayforgeState, target: Option<u64>) -> Option<CoreError> {
    match target {
        Some(id) => s.surface_error(id),
        None => None,
    }
}

/// The state after a focus change. Focus goes to the target; the selection
/// goes to the client of a focused surface, and stays where it was when the
/// focus is cleared.
pub open spec fn focus_step(s: WayforgeState, op: FocusOp) -> WayforgeState {
    let t = focus_target(op);
    if focus_error(s, t) is Some {
        s
    } else {
        let owner = match t {
            Some(id) => client_of_surface(s.surfaces@, id),
            None => s.seat.selection_owner,
        };
        let seat = match op {
            FocusOp::Pointer(t) => Seat { pointer_focus: t, selection_owner: owner, ..s.seat },
            FocusOp::Keyboard(t) => Seat { keyboard_focus: t, selection_owner: owner, ..s.seat },
        };
        WayforgeState { seat, ..s }
    }
}

/// The state after the focus changes `ops`, in order.
pub open spec fn focus_run(s: WayforgeState, ops: Seq<FocusOp>) -> WayforgeState
    decreases ops.len(),
{
    if ops.len() == 0 {
        s
    } else {
        focus_step(focus_run(s, ops.drop_last()), ops.last())
    }
}

/// The client of the surface named by the latest of `ops` that focused a
/// surface whose client has a record, or the selection owner before them
/// where none did.
pub open spec fn latest_focused_client(s: WayforgeState, ops: Seq<FocusOp>) -> Option<u64>
    decreases ops.len(),
{
    if ops.len() == 0 {
        s.seat.selection_owner
    } else {
        match focus_target(ops.last()) {
            Some(id) => if s.surface_error(id) is None {
                client_of_surface(s.surfaces@, id)
            } else {
                latest_focused_client(s, ops.drop_last())
            },
            None => latest_focused_client(s, ops.drop_last()),
        }
    }
}

/// After any sequence of pointer and keyboard focus changes, the selection
/// belongs to the client of the most recently focused surface; where the
/// sequence focused none, it stays with its owner before.
pub proof fn lemma_selection_follows_latest_focus(s: WayforgeState, ops: Seq<FocusOp>)
    ensures
        focus_run(s, ops).seat.selection_owner == latest_focused_client(s, ops),
        focus_run(s, ops).surfaces == s.surfaces,
        focus_run(s, ops).clients == s.clients,
    decreases ops.len(),
{
    if ops.len() > 0 {
        lemma_selection_follows_latest_focus(s, ops.drop_last());
    }
}

/// Why a move of the window of `surface` from the press `serial` is refused.
pub open spec fn grab_error(s: WayforgeState, surface: u64, serial: u32) -> Option<CoreError> {
    if s.seat.active_grab is Some {
        Some(CoreError::GrabAlreadyActive)
    } else if !has_window(s.windows@, surface) {
        Some(CoreError::OrphanSurface)
    } else {
        match s.seat.last_press {
            Some(p) => if p.serial == serial && s.seat.pressed@.contains(p.button) {
                None
            } else {
                Some(CoreError::InvalidGrabStartData)
            },
            None => Some(CoreError::InvalidGrabStartData),
        }
    }
}

/// Position of the window that wraps `surface`.
pub open spec fn window_index(ws: Seq<Window>, surface: u64) -> int {
    choose|i: int| 0 <= i < ws.len() && ws[i].surface == surface
}

/// The state after a request to move the window of `surface` from the press
/// `serial`: unchanged where it is refused, else with a move grab that starts
/// from that press and from the window's current place.
pub open spec fn grab_step(s: WayforgeState, surface: u64, serial: u32) -> WayforgeState {
    if grab_error(s, surface, serial) is Some {
        s
    } else {
        let grab = MoveSurfaceGrab {
            start_data: s.seat.last_press.unwrap(),
            window: surface,
            initial_window_location: s.windows@[window_index(s.windows@, surface)].location,
        };
        WayforgeState { seat: Seat { active_grab: Some(grab), ..s.seat }, ..s }
    }
}

/// A request for a grab while one is active is refused, and the active grab
/// stays exactly as it was.
pub proof fn lemma_grab_exclusive(s: WayforgeState, surface: u64, serial: u32)
    requires
        s.seat.active_grab is Some,
    ensures
        grab_error(s, surface, serial) == Some(CoreError::GrabAlreadyActive),
        grab_step(s, surface, serial).seat.active_grab == s.seat.active_grab,
{
}

/// Once no button is held, no grab owns the pointer.
pub proof fn lemma_no_grab_without_buttons(s: WayforgeState)
    requires
        s.wf(),
        s.seat.pressed@.len() == 0,
    ensures
        s.seat.active_grab is None,
{
}

/// A window is shown only after its first configuration was sent: every
/// operation keeps this, so it holds in every reachable state.
pub proof fn lemma_mapped_after_configure(s: WayforgeState, i: int)
    requires
        s.wf(),
        0 <= i < s.windows@.len(),
        s.windows@[i].mapped,
    ensures
        s.windows@[i].initial_configure_sent,
{
}

/// Whether a button went down or up.
#[derive(Clone, Copy, Debug, PartialEq, Eq, Structural)]
pub enum ButtonState {
    Pressed,
    Released,
}

/// The whole state of the compositor's policy: clients, surfaces, the
/// windows of every workspace, the seat and the cursor.
#[derive(Clone, Debug)]
pub struct WayforgeState {
    pub clients: Vec<ClientData>,
    pub surfaces: Vec<Surface>,
    /// Every window, in insertion order.
    pub windows: Vec<Window>,
    pub workspace_count: usize,
    pub active_workspace: usize,
    pub seat: Seat,
    pub cursor_status: CursorImageStatus,
}

impl WayforgeState {
    pub open spec fn wf(&self) -> bool {
        &&& 0 < self.workspace_count
        &&& self.active_workspace < self.workspace_count
        &&& client_ids_unique(self.clients@)
        &&& window_surfaces_unique(self.windows@)
        &&& forall|i: int|
            0 <= i < self.windows@.len() ==> self.windows@[i].workspace < self.workspace_count
        &&& forall|i: int|
            0 <= i < self.windows@.len() && #[trigger] self.windows@[i].mapped
                ==> self.windows@[i].initial_configure_sent
        &&& self.seat.wf()
    }

    /// A compositor with `workspace_count` workspaces, the first one active,
    /// and nothing connected.
    pub fn new(workspace_count: usize) -> (r: WayforgeState)
        requires
            workspace_count > 0,
        ensures
            r.wf(),
            r.workspace_count == workspace_count,
            r.active_workspace == 0,
            r.clients@.len() == 0,
            r.surfaces@.len() == 0,
            r.windows@.len() == 0,
            r.cursor_status == CursorImageStatus::Default,
            r.seat.pointer_focus is None,
            r.seat.keyboard_focus is None,
            r.seat.selection_owner is None,
            r.seat.pressed@.len() == 0,
            r.seat.active_grab is None,
    {
        WayforgeState {
            clients: Vec::new(),
            surfaces: Vec::new(),
            windows: Vec::new(),
            workspace_count,
            active_workspace: 0,
            seat: Seat::new(),
            cursor_status: CursorImageStatus::Default,
        }
    }

    /// Attaches a fresh record to a client that has just connected; a client
    /// that already has one keeps it.
    pub fn client_connected(&mut self, client: u64, origin: ClientOrigin)
        ensures
            old(self).wf() ==> final(self).wf(),
            has_client(final(self).clients@, client),
            has_client(old(self).clients@, client) ==> *final(self) == *old(self),
            !has_client(old(self).clients@, client) ==> final(self).clients@ == old(
                self,
            ).clients@.push(ClientData { client, origin }),
            final(self).surfaces == old(self).surfaces,
            final(self).windows == old(self).windows,
            final(self).seat == old(self).seat,
            final(self).workspace_count == old(self).workspace_count,
            final(self).active_workspace == old(self).active_workspace,
            final(self).cursor_status == old(self).cursor_status,
    {
        if find_client(&self.clients, client).is_none() {
            let ghost before = self.clients@;
            self.clients.push(ClientData { client, origin });
            assert(self.clients@[self.clients@.len() - 1].client == client);
            proof {
                if client_ids_unique(before) {
                    assert forall|i: int, j: int|
                        0 <= i < self.clients@.len() && 0 <= j < self.clients@.len()
                            && self.clients@[i].client == self.clients@[j].client implies i == j by {
                        if i < before.len() && j == before.len() {
                            assert(before[i].client == client);
                        }
                        if j < before.len() && i == before.len() {
                            assert(before[j].client == client);
                        }
                    }
                }
            }
        }
    }

    /// Registers surface `id` for `client`; `UnknownClient` where the client
    /// has no record.
    pub fn surface_created(&mut self, id: u64, client: u64) -> (r: Result<(), CoreError>)
        ensures
            r is Ok <==> has_client(old(self).clients@, client),
            r is Err ==> r == Err::<(), CoreError>(CoreError::UnknownClient) && *final(self) == *old(
                self,
            ),
            r is Ok ==> final(self).surfaces@ == old(self).surfaces@.push(Surface { id, client }),
            r is Ok ==> client_of_surface(final(self).surfaces@, id) == Some(client),
            final(self).clients == old(self).clients,
            final(self).windows == old(self).windows,
            final(self).seat == old(self).seat,
            final(self).workspace_count == old(self).workspace_count,
            final(self).active_workspace == old(self).active_workspace,
            final(self).cursor_status == old(self).cursor_status,
    {
        match find_client(&self.clients, client) {
            None => Err(CoreError::UnknownClient),
            Some(_) => {
                self.surfaces.push(Surface { id, client });
                assert(self.surfaces@.drop_last() =~= old(self).surfaces@);
                Ok(())
            },
        }
    }
    /// Why a request about `surface` is refused: an unknown surface is an
    /// orphan, a surface whose client has no record names an unknown client.
    pub open spec fn surface_error(&self, surface: u64) -> Option<CoreError> {
        match client_of_surface(self.surfaces@, surface) {
            None => Some(CoreError::OrphanSurface),
            Some(c) => if has_client(self.clients@, c) {
                None
            } else {
                Some(CoreError::UnknownClient)
            },
        }
    }

    fn check_surface(&self, surface: u64) -> (r: Result<(), CoreError>)
        ensures
            r matches Err(e) ==> self.surface_error(surface) == Some(e),
            r is Ok ==> self.surface_error(surface) is None,
    {
        match surface_client(&self.surfaces, surface) {
            None => Err(CoreError::OrphanSurface),
            Some(c) => match find_client(&self.clients, c) {
                None => Err(CoreError::UnknownClient),
                Some(_) => Ok(()),
            },
        }
    }

    /// A client committed `surface`. Its content goes to the renderer; if a
    /// window wraps it, the window's first commit asks for its initial
    /// configuration to be sent (`Ok(true)`), and a commit after that shows
    /// the window. Refused while the surface has no client behind it.
    pub fn commit(&mut self, surface: u64) -> (r: Result<bool, CoreError>)
        requires
            old(self).wf(),
        ensures
            final(self).wf(),
            old(self).surface_error(surface) matches Some(e) ==> r == Err::<bool, CoreError>(e)
                && *final(self) == *old(self),
            old(self).surface_error(surface) is None ==> r == Ok::<bool, CoreError>(
                commit_configures(old(self).windows@, surface),
            ),
            final(self).windows@ == if old(self).surface_error(surface) is None {
                committed(old(self).windows@, surface)
            } else {
                old(self).windows@
            },
            final(self).clients == old(self).clients,
            final(self).surfaces == old(self).surfaces,
            final(self).seat == old(self).seat,
            final(self).workspace_count == old(self).workspace_count,
            final(self).active_workspace == old(self).active_workspace,
            final(self).cursor_status == old(self).cursor_status,
    {
        if let Err(e) = self.check_surface(surface) {
            return Err(e);
        }
        let ghost before = self.windows@;
        match find_window(&self.windows, surface) {
            None => {
                assert(self.windows@ =~= committed(before, surface));
                Ok(false)
            },
            Some(i) => {
                let mut w = self.windows[i];
                let configure = !w.initial_configure_sent;
                if configure {
                    w.initial_configure_sent = true;
                } else {
                    w.mapped = true;
                }
                self.windows.set(i, w);
                assert(self.windows@ =~= committed(before, surface));
                assert(configure == commit_configures(before, surface));
                Ok(configure)
            },
        }
    }

    /// A surface was promoted to a toplevel: it becomes a window of the active
    /// workspace, placed at the origin until the workspace is laid out again,
    /// which happens at once. A surface that is already a window stays as it is.
    pub fn new_toplevel(&mut self, surface: u64) -> (r: Result<(), CoreError>)
        requires
            old(self).wf(),
        ensures
            final(self).wf(),
            old(self).surface_error(surface) matches Some(e) ==> r == Err::<(), CoreError>(e),
            old(self).surface_error(surface) is None ==> r is Ok,
            r is Err || has_window(old(self).windows@, surface) ==> *final(self) == *old(self),
            r is Ok && !has_window(old(self).windows@, surface) ==> final(self).windows@ == layout(
                old(self).windows@.push(
                    Window {
                        surface,
                        workspace: old(self).active_workspace,
                        location: Point { x: 0, y: 0 },
                        mapped: false,
                        initial_configure_sent: false,
                    },
                ),
                old(self).active_workspace,
            ),
            final(self).clients == old(self).clients,
            final(self).surfaces == old(self).surfaces,
            final(self).seat == old(self).seat,
            final(self).workspace_count == old(self).workspace_count,
            final(self).active_workspace == old(self).active_workspace,
            final(self).cursor_status == old(self).cursor_status,
    {
        self.check_surface(surface)?;
        if find_window(&self.windows, surface).is_some() {
            return Ok(());
        }
        let ghost before = self.windows@;
        let window = Window::new(surface, self.active_workspace);
        self.windows.push(window);
        let ghost pushed = self.windows@;
        assert forall|i: int, j: int|
            0 <= i < pushed.len() && 0 <= j < pushed.len() && pushed[i].surface == pushed[j].surface
                implies i == j by {
            if i < before.len() && j == before.len() {
                assert(before[i].surface == surface);
            }
            if j < before.len() && i == before.len() {
                assert(before[j].surface == surface);
            }
        }
        refresh_geometry(&mut self.windows, self.active_workspace);
        assert(window_surfaces_unique(self.windows@));
        Ok(())
    }

    /// The toplevel role of `surface` was destroyed: its window leaves its
    /// workspace, the active workspace is laid out again, and once that
    /// workspace is empty the cursor returns to the default image.
    pub fn toplevel_destroyed(&mut self, surface: u64)
        requires
            old(self).wf(),
        ensures
            final(self).wf(),
            !has_window(old(self).windows@, surface) ==> final(self).windows@ == layout(
                old(self).windows@,
                old(self).active_workspace,
            ),
            has_window(old(self).windows@, surface) ==> exists|i: int|
                0 <= i < old(self).windows@.len() && old(self).windows@[i].surface == surface
                    && final(self).windows@ == layout(
                    old(self).windows@.remove(i),
                    old(self).active_workspace,
                ),
            final(self).cursor_status == if workspace_holds_any(
                final(self).windows@,
                old(self).active_workspace,
            ) {
                old(self).cursor_status
            } else {
                CursorImageStatus::Default
            },
            final(self).clients == old(self).clients,
            final(self).surfaces == old(self).surfaces,
            final(self).seat == old(self).seat,
            final(self).workspace_count == old(self).workspace_count,
            final(self).active_workspace == old(self).active_workspace,
    {
        let ghost before = self.windows@;
        if let Some(i) = find_window(&self.windows, surface) {
            self.windows.remove(i);
            let ghost removed = self.windows@;
            assert(removed =~= before.remove(i as int));
            assert forall|a: int, b: int|
                0 <= a < removed.len() && 0 <= b < removed.len() && removed[a].surface
                    == removed[b].surface implies a == b by {
                let a2 = if a < i { a } else { a + 1 };
                let b2 = if b < i { b } else { b + 1 };
                assert(before[a2].surface == before[b2].surface);
            }
            assert forall|a: int| 0 <= a < removed.len() implies #[trigger] removed[a].workspace
                < self.workspace_count && (removed[a].mapped ==> removed[a].initial_configure_sent) by {
                let a2 = if a < i { a } else { a + 1 };
                assert(removed[a] == before[a2]);
            }
        }
        refresh_geometry(&mut self.windows, self.active_workspace);
        if is_workspace_empty(&self.windows, self.active_workspace) {
            self.cursor_status = CursorImageStatus::Default;
        }
    }
    fn focus_client(&self, target: Option<u64>) -> (r: Result<Option<u64>, CoreError>)
        ensures
            r matches Err(e) ==> focus_error(*self, target) == Some(e),
            r is Ok ==> focus_error(*self, target) is None,
            r matches Ok(o) ==> o == match target {
                Some(id) => client_of_surface(self.surfaces@, id),
                None => self.seat.selection_owner,
            },
    {
        match target {
            None => Ok(self.seat.selection_owner),
            Some(id) => {
                self.check_surface(id)?;
                Ok(surface_client(&self.surfaces, id))
            },
        }
    }

    /// Gives pointer focus to `target` (see `focus_step`); refused, with
    /// nothing changed, for a surface that is unknown or whose client has no
    /// record.
    pub fn set_pointer_focus(&mut self, target: Option<u64>) -> (r: Result<(), CoreError>)
        ensures
            *final(self) == focus_step(*old(self), FocusOp::Pointer(target)),
            focus_error(*old(self), target) matches Some(e) ==> r == Err::<(), CoreError>(e),
            focus_error(*old(self), target) is None ==> r is Ok,
            old(self).wf() ==> final(self).wf(),
    {
        let owner = self.focus_client(target)?;
        self.seat.pointer_focus = target;
        self.seat.selection_owner = owner;
        Ok(())
    }

    /// Gives keyboard focus to `target` (see `focus_step`); refused, with
    /// nothing changed, for a surface that is unknown or whose client has no
    /// record.
    pub fn set_keyboard_focus(&mut self, target: Option<u64>) -> (r: Result<(), CoreError>)
        ensures
            *final(self) == focus_step(*old(self), FocusOp::Keyboard(target)),
            focus_error(*old(self), target) matches Some(e) ==> r == Err::<(), CoreError>(e),
            focus_error(*old(self), target) is None ==> r is Ok,
            old(self).wf() ==> final(self).wf(),
    {
        let owner = self.focus_client(target)?;
        self.seat.keyboard_focus = target;
        self.seat.selection_owner = owner;
        Ok(())
    }

    /// The pointer moved to `location`. Under a grab the motion is delivered
    /// with no focus and the grabbed window follows the pointer; otherwise it
    /// goes to the pointer focus. The result is the surface it is delivered
    /// to, if any.
    pub fn pointer_motion(&mut self, location: Fixed) -> (r: Option<u64>)
        requires
            old(self).wf(),
        ensures
            final(self).wf(),
            final(self).seat == (Seat { pointer_location: location, ..old(self).seat }),
            old(self).seat.active_grab matches Some(g) ==> r is None && final(self).windows@
                == relocated(old(self).windows@, g.window, g.target_spec(location)),
            old(self).seat.active_grab is None ==> r == old(self).seat.pointer_focus
                && final(self).windows == old(self).windows,
            final(self).clients == old(self).clients,
            final(self).surfaces == old(self).surfaces,
            final(self).workspace_count == old(self).workspace_count,
            final(self).active_workspace == old(self).active_workspace,
            final(self).cursor_status == old(self).cursor_status,
    {
        self.seat.pointer_location = location;
        match self.seat.active_grab {
            Some(g) => {
                let ghost before = self.windows@;
                let r = g.motion(&mut self.windows, location);
                assert forall|i: int, j: int|
                    0 <= i < self.windows@.len() && 0 <= j < self.windows@.len()
                        && self.windows@[i].surface == self.windows@[j].surface implies i == j by {
                    assert(before[i].surface == before[j].surface);
                }
                assert forall|i: int| 0 <= i < self.windows@.len() implies #[trigger] self.windows@[
                i].workspace < self.workspace_count && (self.windows@[i].mapped
                    ==> self.windows@[i].initial_configure_sent) by {
                    assert(self.windows@[i].workspace == before[i].workspace);
                    assert(self.windows@[i].mapped == before[i].mapped);
                }
                r
            },
            None => self.seat.pointer_focus,
        }
    }

    /// A button went down or up. The event is delivered to the pointer focus
    /// as it is, grab or not (the result); then the held buttons are updated,
    /// a press is remembered as the start of a possible grab, and a grab ends
    /// once no button is held.
    pub fn pointer_button(&mut self, button: u32, state: ButtonState, serial: u32) -> (r: Option<
        u64,
    >)
        requires
            old(self).wf(),
        ensures
            final(self).wf(),
            r == old(self).seat.pointer_focus,
            forall|b: u32|
                final(self).seat.pressed@.contains(b) <==> if state == ButtonState::Pressed {
                    old(self).seat.pressed@.contains(b) || b == button
                } else {
                    old(self).seat.pressed@.contains(b) && b != button
                },
            final(self).seat.last_press == if state == ButtonState::Pressed {
                Some(
                    GrabStartData { serial, button, location: old(self).seat.pointer_location },
                )
            } else {
                old(self).seat.last_press
            },
            final(self).seat.active_grab == if final(self).seat.pressed@.len() == 0 {
                None
            } else {
                old(self).seat.active_grab
            },
            final(self).seat.pointer_location == old(self).seat.pointer_location,
            final(self).seat.pointer_focus == old(self).seat.pointer_focus,
            final(self).seat.keyboard_focus == old(self).seat.keyboard_focus,
            final(self).seat.selection_owner == old(self).seat.selection_owner,
            final(self).clients == old(self).clients,
            final(self).surfaces == old(self).surfaces,
            final(self).windows == old(self).windows,
            final(self).workspace_count == old(self).workspace_count,
            final(self).active_workspace == old(self).active_workspace,
            final(self).cursor_status == old(self).cursor_status,
    {
        let delivered = self.seat.pointer_focus;
        match state {
            ButtonState::Pressed => {
                press_button(&mut self.seat.pressed, button);
                assert(self.seat.pressed@.contains(button));
                self.seat.last_press = Some(
                    GrabStartData { serial, button, location: self.seat.pointer_location },
                );
            },
            ButtonState::Released => {
                release_button(&mut self.seat.pressed, button);
            },
        }
        if let Some(g) = self.seat.active_grab {
            if g.button(&self.seat.pressed) {
                self.seat.active_grab = None;
            }
        }
        delivered
    }

    /// Where an axis, frame, gesture or relative motion event goes: to the
    /// pointer focus, whether or not a grab is active, since a move grab only
    /// takes motion and buttons.
    pub fn passthrough_target(&self) -> (r: Option<u64>)
        ensures
            r == self.seat.pointer_focus,
    {
        self.seat.pointer_focus
    }

    /// A client asked to move the window of `surface`, from its button press
    /// `serial`. Starts a move grab from that press and the window's current
    /// place, unless a grab is active already, the surface has no window, or
    /// the serial is not the latest press of a button still held.
    pub fn move_request(&mut self, surface: u64, serial: u32) -> (r: Result<(), CoreError>)
        requires
            old(self).wf(),
        ensures
            final(self).wf(),
            *final(self) == grab_step(*old(self), surface, serial),
            grab_error(*old(self), surface, serial) matches Some(e) ==> r == Err::<(), CoreError>(e),
            grab_error(*old(self), surface, serial) is None ==> r is Ok,
    {
        if self.seat.active_grab.is_some() {
            return Err(CoreError::GrabAlreadyActive);
        }
        let i = match find_window(&self.windows, surface) {
            Some(i) => i,
            None => {
                return Err(CoreError::OrphanSurface);
            },
        };
        let start = match self.seat.last_press {
            Some(p) => p,
            None => {
                return Err(CoreError::InvalidGrabStartData);
            },
        };
        if start.serial != serial || crate::buttons::contains_button(
            &self.seat.pressed,
            start.button,
        ).is_none() {
            return Err(CoreError::InvalidGrabStartData);
        }
        self.seat.active_grab = Some(
            MoveSurfaceGrab {
                start_data: start,
                window: surface,
                initial_window_location: self.windows[i].location,
            },
        );
        proof {
            let w = window_index(old(self).windows@, surface);
            assert(old(self).windows@[i as int].surface == surface);
            assert(old(self).windows@[w].surface == surface);
        }
        Ok(())
    }

    /// The cursor image a client or the seat asked for.
    pub fn cursor_image(&mut self, image: CursorImageStatus)
        ensures
            *final(self) == (WayforgeState { cursor_status: image, ..*old(self) }),
    {
        self.cursor_status = image;
    }

    /// Makes workspace `k` the active one.
    pub fn set_active_workspace(&mut self, k: usize)
        requires
            old(self).wf(),
            k < old(self).workspace_count,
        ensures
            final(self).wf(),
            *final(self) == (WayforgeState { active_workspace: k, ..*old(self) }),
    {
        self.active_workspace = k;
    }

    /// Whether workspace `k` holds no window.
    pub fn is_workspace_empty(&self, k: usize) -> (r: bool)
        ensures
            r == !workspace_holds_any(self.windows@, k),
    {
        is_workspace_empty(&self.windows, k)
    }
    /// A client destroyed `surface`: it is no longer known, so later requests
    /// about it are orphans. Every other surface keeps its owner.
    pub fn surface_destroyed(&mut self, surface: u64)
        requires
            old(self).wf(),
        ensures
            final(self).wf(),
            client_of_surface(final(self).surfaces@, surface) is None,
            forall|other: u64|
                other != surface ==> client_of_surface(final(self).surfaces@, other)
                    == client_of_surface(old(self).surfaces@, other),
            final(self).clients == old(self).clients,
            final(self).windows == old(self).windows,
            final(self).seat == old(self).seat,
            final(self).workspace_count == old(self).workspace_count,
            final(self).active_workspace == old(self).active_workspace,
            final(self).cursor_status == old(self).cursor_status,
    {
        let ghost before = self.surfaces@;
        let mut kept: Vec<Surface> = Vec::new();
        let mut i: usize = 0;
        while i < self.surfaces.len()
            invariant
                self.surfaces@ == before,
                i <= before.len(),
                forall|x: u64|
                    client_of_surface(kept@, x) == if x == surface {
                        None
                    } else {
                        client_of_surface(before.take(i as int), x)
                    },
            decreases before.len() - i,
        {
            assert(before.take(i as int + 1).drop_last() =~= before.take(i as int));
            let s = self.surfaces[i];
            let ghost prev = kept@;
            let ghost upto = before.take(i as int + 1);
            assert(upto.last() == s);
            if s.id != surface {
                kept.push(s);
                assert(kept@.drop_last() =~= prev);
            }
            assert forall|x: u64|
                client_of_surface(kept@, x) == if x == surface {
                    None
                } else {
                    client_of_surface(upto, x)
                } by {
                assert(client_of_surface(prev, x) == if x == surface {
                    None
                } else {
                    client_of_surface(before.take(i as int), x)
                });
            }
            i = i + 1;
        }
        assert(before.take(i as int) =~= before);
        self.surfaces = kept;
    }

    /// A client disconnected: its record goes, so requests about its
    /// surfaces now name an unknown client, and it loses the selection if it
    /// held it. Every other client keeps its record.
    pub fn client_disconnected(&mut self, client: u64)
        requires
            old(self).wf(),
        ensures
            final(self).wf(),
            !has_client(final(self).clients@, client),
            forall|other: u64|
                other != client ==> (has_client(final(self).clients@, other) <==> has_client(
                    old(self).clients@,
                    other,
                )),
            forall|d: ClientData| #[trigger]
                final(self).clients@.contains(d) ==> old(self).clients@.contains(d),
            final(self).surfaces == old(self).surfaces,
            final(self).windows == old(self).windows,
            final(self).seat == (Seat {
                selection_owner: if old(self).seat.selection_owner == Some(client) {
                    None
                } else {
                    old(self).seat.selection_owner
                },
                ..old(self).seat
            }),
            final(self).workspace_count == old(self).workspace_count,
            final(self).active_workspace == old(self).active_workspace,
            final(self).cursor_status == old(self).cursor_status,
    {
        let ghost before = self.clients@;
        let mut kept: Vec<ClientData> = Vec::new();
        let mut i: usize = 0;
        while i < self.clients.len()
            invariant
                self.clients@ == before,
                i <= before.len(),
                client_ids_unique(before),
                client_ids_unique(kept@),
                forall|j: int| 0 <= j < kept@.len() ==> kept@[j].client != client,
                forall|d: ClientData| #[trigger] kept@.contains(d) ==> before.contains(d),
                forall|other: u64|
                    other != client ==> (has_client(kept@, other) <==> exists|j: int|
                        0 <= j < i && before[j].client == other),
            decreases before.len() - i,
        {
            let d = self.clients[i];
            if d.client != client {
                let ghost prev = kept@;
                assert(!has_client(prev, d.client)) by {
                    if has_client(prev, d.client) {
                        let j = choose|j: int| 0 <= j < i && before[j].client == d.client;
                        assert(before[i as int].client == d.client);
                    }
                }
                kept.push(d);
                assert forall|a: int, b: int|
                    0 <= a < kept@.len() && 0 <= b < kept@.len() && kept@[a].client
                        == kept@[b].client implies a == b by {
                    if a < prev.len() && b == prev.len() {
                        assert(prev[a].client == d.client);
                    }
                    if b < prev.len() && a == prev.len() {
                        assert(prev[b].client == d.client);
                    }
                }
                assert(kept@[prev.len() as int] == d);
                assert forall|e: ClientData| #[trigger] kept@.contains(e) implies before.contains(e) by {
                    let j = choose|j: int| 0 <= j < kept@.len() && kept@[j] == e;
                    if j < prev.len() {
                        assert(prev[j] == e);
                        assert(prev.contains(e));
                    } else {
                        assert(before[i as int] == e);
                    }
                }
                assert forall|other: u64| other != client implies (has_client(kept@, other) <==> exists|j: int|
                    0 <= j < i + 1 && before[j].client == other) by {
                    if has_client(kept@, other) {
                        let j = choose|j: int| 0 <= j < kept@.len() && kept@[j].client == other;
                        if j < prev.len() {
                            assert(prev[j].client == other);
                            assert(has_client(prev, other));
                        } else {
                            assert(before[i as int].client == other);
                        }
                    }
                    if exists|j: int| 0 <= j < i + 1 && before[j].client == other {
                        let j = choose|j: int| 0 <= j < i + 1 && before[j].client == other;
                        if j < i {
                            assert(before[j].client == other);
                            assert(has_client(prev, other));
                            let k = choose|k: int| 0 <= k < prev.len() && prev[k].client == other;
                            assert(kept@[k].client == other);
                        } else {
                            assert(kept@[prev.len() as int].client == other);
                        }
                    }
                }
            } else {
                assert forall|other: u64| other != client implies (has_client(kept@, other) <==> exists|j: int|
                    0 <= j < i + 1 && before[j].client == other) by {
                    if exists|j: int| 0 <= j < i + 1 && before[j].client == other {
                        let j = choose|j: int| 0 <= j < i + 1 && before[j].client == other;
                        assert(j < i);
                    }
                }
            }
            i = i + 1;
        }
        self.clients = kept;
        if self.seat.selection_owner == Some(client) {
            self.seat.selection_owner = None;
        }
    }
}

} // verus!
