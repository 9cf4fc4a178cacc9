//! Window descriptions and the launcher that builds the windows.

use vstd::prelude::*;
use crate::context::Data;
use crate::geometry::Size;
use crate::shell::{PlatformError, PlatformRequest, WindowBuilder, WindowHandle};
use crate::widgetbox::{WidgetArena, WidgetBox};
use crate::win_handler::{window_id_ok, AppState, DruidHandler, MAX_WINDOWS};
use crate::window::{Window, WindowId, WindowIds};
use crate::windowbox::{WindowBox, WindowType};

verus! {

/// Most windows a launcher describes.
pub const MAX_LAUNCH_WINDOWS: usize = 2;

/// A description of a window to open: its root widget, an optional initial
/// size, and the id it will have.
#[derive(Clone, Copy, Debug, PartialEq, Eq, Structural)]
pub struct WindowDesc {
    pub root: WidgetBox,
    pub size: Option<Size>,
    pub id: WindowId,
}

/// What a list of window descriptions holds, in order.
pub uninterp spec fn desc_list(v: heapless::Vec<WindowDesc, 2>) -> Seq<WindowDesc>;

/// Relies on heapless::Vec::new: the new vector is empty.
#[verifier::external_body]
fn descs_new() -> (r: heapless::Vec<WindowDesc, 2>)
    ensures
        desc_list(r) == Seq::<WindowDesc>::empty(),
{
    heapless::Vec::new()
}

/// Relies on heapless::Vec::push: the item is appended when the length is
/// below the capacity, and the vector is left as it was otherwise.
#[verifier::external_body]
fn descs_push(v: &mut heapless::Vec<WindowDesc, 2>, d: WindowDesc) -> (r: bool)
    ensures
        desc_list(*old(v)).len() < 2 ==> r && desc_list(*final(v)) == desc_list(*old(v)).push(d),
        desc_list(*old(v)).len() >= 2 ==> !r && desc_list(*final(v)) == desc_list(*old(v)),
{
    v.push(d).is_ok()
}

/// Relies on heapless::Vec::len: the number of items, at most the capacity.
#[verifier::external_body]
fn descs_len(v: &heapless::Vec<WindowDesc, 2>) -> (r: usize)
    ensures
        r == desc_list(*v).len(),
        r <= 2,
{
    v.len()
}

/// Relies on indexing a heapless::Vec: the item at a position below the
/// length.
#[verifier::external_body]
fn descs_get(v: &heapless::Vec<WindowDesc, 2>, i: usize) -> (r: WindowDesc)
    requires
        i < desc_list(*v).len(),
    ensures
        r == desc_list(*v)[i as int],
{
    v[i]
}

impl WindowDesc {
    /// A window around `root`, with the next window id.
    pub fn new(root: WidgetBox, ids: &mut WindowIds) -> (r: WindowDesc)
        requires
            old(ids).wf(),
            old(ids).next < u32::MAX,
        ensures
            final(ids).wf(),
            r.id.0 >= 1,
            r.root == root,
            r.size is None,
            r.id.0 == old(ids).next,
            final(ids).next == old(ids).next + 1,
    {
        WindowDesc { root, size: None, id: WindowId::next(ids) }
    }

    /// Sets the size the window is created with.
    pub fn window_size(self, size: Size) -> (r: WindowDesc)
        ensures
            r == (WindowDesc { size: Some(size), ..self }),
    {
        WindowDesc { size: Some(size), ..self }
    }

    /// Why the window could not be built in `state`, if it could not.
    pub open spec fn build_error<D: Data>(self, state: AppState<D>) -> Option<PlatformError> {
        self.error_with(state.widgets)
    }

    /// Why the window could not be built over `widgets`, if it could not:
    /// its id lies outside the window registry, or its root is not
    /// registered.
    pub open spec fn error_with(self, widgets: WidgetArena) -> Option<PlatformError> {
        if !window_id_ok(self.id) {
            Some(PlatformError::WindowIdOutOfRange)
        } else if !widgets.is_registered(self.root.0 as int) {
            Some(PlatformError::UnregisteredRoot)
        } else {
            None
        }
    }

    /// Registers the window and its handler in `state` and builds the
    /// platform window.
    pub fn build_native<D: Data>(&self, state: &mut AppState<D>) -> (r: Result<WindowHandle, PlatformError>)
        requires
            old(state).wf(),
        ensures
            final(state).wf(),
            final(state).widgets == old(state).widgets,
            final(state).data == old(state).data,
            match self.build_error(*old(state)) {
                Some(e) => r == Err::<WindowHandle, PlatformError>(e),
                None => r matches Ok(h) && h.window_id == self.id.0 && h.handler.window_id == self.id
                    && final(state).windows@[self.id.0 as int] == WindowBox(WindowType::Window(Window {
                        root: self.root,
                        size: Size { width: 0, height: 0 },
                        root_rect: crate::geometry::Rect {
                            origin: crate::geometry::Point { x: 0, y: 0 },
                            size: Size { width: 0, height: 0 },
                        },
                    })),
            },
    {
        let handler = DruidHandler::new_shared(self.id);
        let mut builder = WindowBuilder::new();
        builder.set_handler(handler);
        if let Some(size) = self.size {
            builder.set_size(size);
        }
        if self.id.0 < 1 || self.id.0 as usize >= MAX_WINDOWS {
            return Err(PlatformError::WindowIdOutOfRange);
        }
        if self.root.0 >= state.widgets.next {
            return Err(PlatformError::UnregisteredRoot);
        }
        let window = Window::new(self.root);
        state.add_window(self.id, window);
        state.add_handler(self.id, handler);
        Ok(builder.build())
    }
}

/// Sets up an application: holds the descriptions of its windows and
/// builds them at launch.
#[derive(Debug)]
pub struct AppLauncher {
    pub windows: heapless::Vec<WindowDesc, 2>,
}

impl AppLauncher {
    /// A launcher with one window.
    pub fn with_window(window: WindowDesc) -> (r: AppLauncher)
        ensures
            desc_list(r.windows) == seq![window],
    {
        let mut windows = descs_new();
        let pushed = descs_push(&mut windows, window);
        proof {
            assert(desc_list(windows) =~= seq![window]);
        }
        AppLauncher { windows }
    }

    /// Logging is left to the platform; the launcher is returned unchanged.
    pub fn use_simple_logger(self) -> (r: AppLauncher)
        ensures
            desc_list(r.windows) == desc_list(self.windows),
    {
        self
    }

    /// Builds the application state from the widgets and the initial data,
    /// builds every described window in order, and returns the state with
    /// the requests to show each window. Fails with the first window that
    /// cannot be built.
    pub fn launch<D: Data>(self, widgets: WidgetArena, data: D) -> (r: Result<(AppState<D>, Vec<PlatformRequest>), PlatformError>)
        requires
            widgets.wf(),
        ensures
            r matches Ok((state, requests)) ==> {
                &&& state.wf()
                &&& state.widgets == widgets
                &&& state.data == data
                &&& requests@.len() == desc_list(self.windows).len()
                &&& forall|i: int| 0 <= i < requests@.len() ==>
                    #[trigger] requests@[i] == PlatformRequest::Show(desc_list(self.windows)[i].id.0)
            },
            (forall|i: int| 0 <= i < desc_list(self.windows).len() ==> (#[trigger] desc_list(self.windows)[i]).error_with(widgets) is None)
                <==> r is Ok,
            r matches Err(e) ==> exists|i: int| 0 <= i < desc_list(self.windows).len()
                && (#[trigger] desc_list(self.windows)[i]).error_with(widgets) == Some(e)
                && forall|k: int| 0 <= k < i ==> (#[trigger] desc_list(self.windows)[k]).error_with(widgets) is None,
    {
        let mut state = AppState::new(widgets, data);
        let n = descs_len(&self.windows);
        let mut requests: Vec<PlatformRequest> = Vec::new();
        let mut i: usize = 0;
        while i < n
            invariant
                n == desc_list(self.windows).len(),
                i <= n,
                state.wf(),
                state.widgets == widgets,
                state.data == data,
                forall|k: int| 0 <= k < i ==> (#[trigger] desc_list(self.windows)[k]).error_with(widgets) is None,
                requests@.len() == i,
                forall|k: int| 0 <= k < i ==> #[trigger] requests@[k] == PlatformRequest::Show(desc_list(self.windows)[k].id.0),
            decreases n - i,
        {
            let desc = descs_get(&self.windows, i);
            let handle = match desc.build_native(&mut state) {
                Ok(h) => h,
                Err(e) => {
                    proof {
                        assert(desc_list(self.windows)[i as int].error_with(widgets) == Some(e));
                    }
                    return Err(e);
                },
            };
            requests.push(handle.show());
            i = i + 1;
        }
        Ok((state, requests))
    }
}

} // verus!
