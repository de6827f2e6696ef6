use crate::geometry::Point;
use vstd::prelude::*;

verus! {

/// How far each further window of a workspace is pushed right and down.
pub const CASCADE_STEP: i32 = 32;

/// After this many windows the cascade starts again at the origin.
pub const CASCADE_LENGTH: usize = 16;

/// A surface promoted to a managed toplevel window.
#[derive(Clone, Copy, Debug, PartialEq, Eq, Structural)]
pub struct Window {
    /// The surface this window wraps.
    pub surface: u64,
    /// The workspace that holds it.
    pub workspace: usize,
    /// Its place in the space.
    pub location: Point,
    /// Whether it is shown.
    pub mapped: bool,
    /// Whether its first configuration has been sent to the client.
    pub initial_configure_sent: bool,
}

impl Window {
    /// A freshly promoted window: in `workspace`, at the origin, not shown and
    /// not configured yet.
    pub fn new(surface: u64, workspace: usize) -> (r: Window)
        ensures
            r == (Window {
                surface,
                workspace,
                location: Point { x: 0, y: 0 },
                mapped: false,
                initial_configure_sent: false,
            }),
    {
        Window {
            surface,
            workspace,
            location: Point { x: 0, y: 0 },
            mapped: false,
            initial_configure_sent: false,
        }
    }
}

/// How many of `ws` belong to workspace `k`.
pub open spec fn count_in(ws: Seq<Window>, k: usize) -> nat
    decreases ws.len(),
{
    if ws.len() == 0 {
        0
    } else {
        count_in(ws.drop_last(), k) + if ws.last().workspace == k {
            1nat
        } else {
            0nat
        }
    }
}

/// Where the window that comes `n`-th in its workspace is placed.
pub open spec fn cascade(n: nat) -> Point {
    Point {
        x: ((n % CASCADE_LENGTH as nat) * CASCADE_STEP as nat) as i32,
        y: ((n % CASCADE_LENGTH as nat) * CASCADE_STEP as nat) as i32,
    }
}

/// The windows `ws` after workspace `k` has been laid out: each of its
/// windows at the cascade place of its rank in insertion order, every other
/// window as it was.
pub open spec fn layout(ws: Seq<Window>, k: usize) -> Seq<Window> {
    Seq::new(
        ws.len(),
        |i: int|
            if ws[i].workspace == k {
                Window { location: cascade(count_in(ws.take(i), k)), ..ws[i] }
            } else {
                ws[i]
            },
    )
}

pub proof fn lemma_count_in_bounded(ws: Seq<Window>, k: usize)
    ensures
        count_in(ws, k) <= ws.len(),
    decreases ws.len(),
{
    if ws.len() > 0 {
        lemma_count_in_bounded(ws.drop_last(), k);
    }
}

fn cascade_place(n: usize) -> (r: Point)
    ensures
        r == cascade(n as nat),
{
    let step: usize = n % CASCADE_LENGTH;
    let offset: i32 = step as i32 * CASCADE_STEP;
    Point { x: offset, y: offset }
}

/// Lays out workspace `k` (see `layout`).
pub fn refresh_geometry(windows: &mut Vec<Window>, k: usize)
    ensures
        final(windows)@ == layout(old(windows)@, k),
{
    let ghost before = windows@;
    let mut i: usize = 0;
    let mut n: usize = 0;
    while i < windows.len()
        invariant
            windows@.len() == before.len(),
            i <= before.len(),
            n == count_in(before.take(i as int), k),
            forall|j: int| 0 <= j < i ==> windows@[j] == layout(before, k)[j],
            forall|j: int| i <= j < before.len() ==> windows@[j] == before[j],
        decreases before.len() - i,
    {
        proof {
            assert(before.take(i as int + 1).drop_last() =~= before.take(i as int));
            lemma_count_in_bounded(before.take(i as int), k);
        }
        if windows[i].workspace == k {
            let mut w = windows[i];
            w.location = cascade_place(n);
            windows.set(i, w);
            n = n + 1;
        }
        i = i + 1;
    }
    assert(windows@ =~= layout(before, k));
}

/// Whether workspace `k` holds any of `ws`.
pub open spec fn workspace_holds_any(ws: Seq<Window>, k: usize) -> bool {
    exists|i: int| 0 <= i < ws.len() && ws[i].workspace == k
}

/// Whether no window of `windows` belongs to workspace `k`.
pub fn is_workspace_empty(windows: &Vec<Window>, k: usize) -> (r: bool)
    ensures
        r == !workspace_holds_any(windows@, k),
{
    let mut i: usize = 0;
    while i < windows.len()
        invariant
            i <= windows@.len(),
            forall|j: int| 0 <= j < i ==> windows@[j].workspace != k,
        decreases windows@.len() - i,
    {
        if windows[i].workspace == k {
            return false;
        }
        i = i + 1;
    }
    true
}

pub open spec fn has_window(ws: Seq<Window>, surface: u64) -> bool {
    exists|i: int| 0 <= i < ws.len() && ws[i].surface == surface
}

/// Position of the window that wraps `surface`, if there is one.
pub fn find_window(windows: &Vec<Window>, surface: u64) -> (r: Option<usize>)
    ensures
        r matches Some(i) ==> i < windows@.len() && windows@[i as int].surface == surface,
        r is None <==> !has_window(windows@, surface),
{
    let mut i: usize = 0;
    while i < windows.len()
        invariant
            i <= windows@.len(),
            forall|j: int| 0 <= j < i ==> windows@[j].surface != surface,
        decreases windows@.len() - i,
    {
        if windows[i].surface == surface {
            return Some(i);
        }
        i = i + 1;
    }
    None
}

} // verus!
