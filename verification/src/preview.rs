//! What the preview panes show: the path on screen for the first selected
//! frame and the size it was rendered at, the export preview and its
//! generation, and when a new render is needed.
use crate::editor::counted_text;
use crate::text::{decimal, push_str};
use crate::types::FrameItem;
use crate::ui::{
    immediate_preview_path, preview_path_is_proxy, same_path, should_refresh_preview, PreviewRenderSize,
};
use vstd::prelude::*;

verus! {

/// The state of the preview panes.
#[derive(Debug)]
pub struct PreviewState {
    /// The path shown in the preview panes.
    pub path: Option<String>,
    /// The frame the preview belongs to.
    pub frame_id: Option<u64>,
    /// The size previews should be rendered at.
    pub target_size: PreviewRenderSize,
    /// The size of the render on screen; `None` while a stand-in is shown.
    pub rendered_size: Option<PreviewRenderSize>,
    /// The export preview on screen.
    pub export_path: Option<String>,
    /// The size the export preview was rendered at.
    pub export_rendered_size: Option<PreviewRenderSize>,
    /// Bumped whenever the export preview stops matching the settings, so
    /// that renders started earlier are ignored.
    pub export_generation: u64,
}

/// Whether `p` is only a stand-in for `frame`'s preview: its source image
/// or its thumbnail.
pub open spec fn proxy_path(frame: FrameItem, p: Seq<char>) -> bool {
    same_path(p, frame.source_path@) || match frame.thumbnail_path {
        Some(t) => same_path(p, t@),
        None => false,
    }
}

/// Whether a render of `rendered` size is missing or smaller than `target`.
pub open spec fn needs_render(rendered: Option<PreviewRenderSize>, target: PreviewRenderSize) -> bool {
    match rendered {
        None => true,
        Some(r) => !(r.width >= target.width && r.height >= target.height),
    }
}

/// The path shown at once for `frame` while its render is made: the one on
/// screen when it already belongs to the frame and is a real render (or
/// not a stand-in), else the source image.
pub open spec fn stand_in(s: PreviewState, frame: FrameItem) -> Seq<char> {
    match s.path {
        Some(p) => if s.frame_id == Some(frame.id) && (s.rendered_size is Some || !proxy_path(frame, p@)) {
            p@
        } else {
            frame.source_path@
        },
        None => frame.source_path@,
    }
}

impl PreviewState {
    /// `b` is `a` with the export preview dropped and a new generation.
    pub open spec fn export_dropped(a: PreviewState, b: PreviewState) -> bool {
        &&& b.export_path is None
        &&& b.export_rendered_size is None
        &&& b.export_generation == (if a.export_generation == u64::MAX {
            0
        } else {
            (a.export_generation + 1) as u64
        })
    }

    /// Nothing shown yet, rendering at `target_size`.
    pub fn new(target_size: PreviewRenderSize) -> (s: Self)
        ensures
            s.path is None,
            s.frame_id is None,
            s.target_size == target_size,
            s.rendered_size is None,
            s.export_path is None,
            s.export_rendered_size is None,
            s.export_generation == 0,
    {
        PreviewState {
            path: None,
            frame_id: None,
            target_size,
            rendered_size: None,
            export_path: None,
            export_rendered_size: None,
            export_generation: 0,
        }
    }

    /// The export preview no longer matches the settings.
    pub fn invalidate_export(&mut self)
        ensures
            Self::export_dropped(*old(self), *final(self)),
            final(self).path == old(self).path,
            final(self).frame_id == old(self).frame_id,
            final(self).target_size == old(self).target_size,
            final(self).rendered_size == old(self).rendered_size,
    {
        self.export_generation = self.export_generation.wrapping_add(1);
        self.export_path = None;
        self.export_rendered_size = None;
    }

    /// No frame is selected: nothing is shown.
    pub fn clear(&mut self)
        ensures
            final(self).path is None,
            final(self).frame_id is None,
            final(self).rendered_size is None,
            final(self).target_size == old(self).target_size,
            Self::export_dropped(*old(self), *final(self)),
    {
        self.frame_id = None;
        self.path = None;
        self.rendered_size = None;
        self.invalidate_export();
    }

    /// The preview follows `frame`, the first selected one. With a cached
    /// render at the target size it is shown at once; otherwise a stand-in
    /// is shown and the result says that a render at the target size is
    /// needed.
    pub fn show_frame(&mut self, frame: &FrameItem, cached_path: Option<String>, playback_active: bool) -> (render: bool)
        ensures
            final(self).frame_id == Some(frame.id),
            final(self).target_size == old(self).target_size,
            Self::export_dropped(*old(self), *final(self)),
            match cached_path {
                Some(c) => {
                    &&& !render
                    &&& final(self).path == Some(c)
                    &&& final(self).rendered_size == Some(old(self).target_size)
                },
                None => {
                    &&& render
                    &&& final(self).path is Some
                    &&& final(self).path->0@ == stand_in(*old(self), *frame)
                    &&& final(self).rendered_size is None
                },
            },
    {
        let ghost before = *self;
        self.invalidate_export();
        let same_frame = match self.frame_id {
            Some(id) => id == frame.id,
            None => false,
        };
        self.frame_id = Some(frame.id);
        match cached_path {
            Some(c) => {
                self.path = Some(c);
                self.rendered_size = Some(self.target_size);
                false
            },
            None => {
                let current: Option<String> = match &self.path {
                    Some(p) => if same_frame && (self.rendered_size.is_some() || !preview_path_is_proxy(frame, p.as_str())) {
                        Some(p.clone())
                    } else {
                        None
                    },
                    None => None,
                };
                let fallback = immediate_preview_path(frame, None, current.as_ref(), playback_active);
                self.path = Some(fallback);
                self.rendered_size = None;
                proof {
                    assert(before.frame_id == Some(frame.id) <==> same_frame);
                }
                true
            },
        }
    }

    /// A preview render of `frame_id` at `render_size` finished, with
    /// `usable_path` when its file is there and `primary` the first
    /// selected frame now. It is shown only if its frame is still the first
    /// selected one; the result says whether a larger render is needed.
    pub fn preview_ready(
        &mut self,
        primary: Option<u64>,
        frame_id: u64,
        render_size: PreviewRenderSize,
        usable_path: Option<String>,
    ) -> (rerender: bool)
        ensures
            final(self).target_size == old(self).target_size,
            final(self).export_path == old(self).export_path,
            final(self).export_rendered_size == old(self).export_rendered_size,
            final(self).export_generation == old(self).export_generation,
            if primary == Some(frame_id) {
                &&& final(self).frame_id == Some(frame_id)
                &&& match usable_path {
                    Some(p) => {
                        &&& final(self).path == Some(p)
                        &&& final(self).rendered_size == Some(render_size)
                        &&& rerender == needs_render(Some(render_size), old(self).target_size)
                    },
                    None => {
                        &&& final(self).path == old(self).path
                        &&& final(self).rendered_size == old(self).rendered_size
                        &&& !rerender
                    },
                }
            } else {
                &&& final(self).frame_id == old(self).frame_id
                &&& final(self).path == old(self).path
                &&& final(self).rendered_size == old(self).rendered_size
                &&& !rerender
            },
    {
        let current = match primary {
            Some(p) => p == frame_id,
            None => false,
        };
        if !current {
            return false;
        }
        self.frame_id = Some(frame_id);
        match usable_path {
            Some(p) => {
                self.rendered_size = Some(render_size);
                self.path = Some(p);
                should_refresh_preview(self.rendered_size, self.target_size)
            },
            None => false,
        }
    }

    /// An export preview render of `frame_id` for `generation` finished;
    /// it is shown only if the settings have not changed since and its
    /// frame is still the first selected one.
    pub fn export_preview_ready(
        &mut self,
        primary: Option<u64>,
        frame_id: u64,
        generation: u64,
        render_size: PreviewRenderSize,
        usable_path: Option<String>,
    )
        ensures
            final(self).path == old(self).path,
            final(self).frame_id == old(self).frame_id,
            final(self).target_size == old(self).target_size,
            final(self).rendered_size == old(self).rendered_size,
            final(self).export_generation == old(self).export_generation,
            if generation == old(self).export_generation && primary == Some(frame_id) && usable_path is Some {
                &&& final(self).export_path == usable_path
                &&& final(self).export_rendered_size == Some(render_size)
            } else {
                &&& final(self).export_path == old(self).export_path
                &&& final(self).export_rendered_size == old(self).export_rendered_size
            },
    {
        let current = match primary {
            Some(p) => p == frame_id,
            None => false,
        };
        if generation == self.export_generation && current {
            if let Some(p) = usable_path {
                self.export_path = Some(p);
                self.export_rendered_size = Some(render_size);
            }
        }
    }

    /// A cached export preview at the target size is shown.
    pub fn show_cached_export(&mut self, path: String)
        ensures
            final(self).export_path == Some(path),
            final(self).export_rendered_size == Some(old(self).target_size),
            final(self).export_generation == old(self).export_generation,
            final(self).path == old(self).path,
            final(self).frame_id == old(self).frame_id,
            final(self).target_size == old(self).target_size,
            final(self).rendered_size == old(self).rendered_size,
    {
        self.export_path = Some(path);
        self.export_rendered_size = Some(self.target_size);
    }

    /// The preview pane of the page shown (when `on_active_tab`) now
    /// renders at `size`. The result says whether the first selected frame
    /// (if `has_primary`) needs a new render.
    pub fn layout_changed(&mut self, on_active_tab: bool, size: PreviewRenderSize, has_primary: bool) -> (rerender: bool)
        ensures
            if on_active_tab && size != old(self).target_size {
                &&& final(self).target_size == size
                &&& rerender == (has_primary && needs_render(old(self).rendered_size, size))
            } else {
                &&& final(self).target_size == old(self).target_size
                &&& !rerender
            },
            final(self).path == old(self).path,
            final(self).frame_id == old(self).frame_id,
            final(self).rendered_size == old(self).rendered_size,
            final(self).export_path == old(self).export_path,
            final(self).export_rendered_size == old(self).export_rendered_size,
            final(self).export_generation == old(self).export_generation,
    {
        if on_active_tab && size != self.target_size {
            self.target_size = size;
            has_primary && should_refresh_preview(self.rendered_size, self.target_size)
        } else {
            false
        }
    }

    /// Another page is shown: its pane has not been rendered for yet.
    pub fn tab_changed(&mut self)
        ensures
            final(self).rendered_size is None,
            final(self).path == old(self).path,
            final(self).frame_id == old(self).frame_id,
            final(self).target_size == old(self).target_size,
            final(self).export_path == old(self).export_path,
            final(self).export_rendered_size == old(self).export_rendered_size,
            final(self).export_generation == old(self).export_generation,
    {
        self.rendered_size = None;
    }

    /// The export preview to show: the export render when it covers the
    /// target size, else the plain preview.
    pub fn export_pane_path(&self) -> (r: Option<String>)
        ensures
            r == if self.export_path is Some && !needs_render(self.export_rendered_size, self.target_size) {
                self.export_path
            } else {
                self.path
            },
    {
        match &self.export_path {
            Some(p) => if !should_refresh_preview(self.export_rendered_size, self.target_size) {
                Some(p.clone())
            } else {
                self.path.clone()
            },
            None => self.path.clone(),
        }
    }
}

/// The status after a preview render of a frame failed.
pub open spec fn preview_failure(frame_id: u64, error: Seq<char>) -> Seq<char> {
    "Preview failed for frame "@ + decimal(frame_id as nat) + ": "@ + error
}

pub fn preview_failure_text(frame_id: u64, error: &str) -> (s: String)
    ensures
        s@ == preview_failure(frame_id, error@),
{
    let mut s = counted_text("Preview failed for frame ", frame_id, ": ");
    push_str(&mut s, error);
    s
}

/// The status after an export preview render of a frame ended: its error,
/// or, when the frame is still the first selected one, that it is shown;
/// `None` leaves the status as it was.
pub open spec fn export_preview_status(frame_id: u64, error: Option<Seq<char>>, current: bool) -> Option<Seq<char>> {
    match error {
        Some(e) => Some("Export preview failed for frame "@ + decimal(frame_id as nat) + ": "@ + e),
        None => if current {
            Some("Export preview refreshed with the current export settings."@)
        } else {
            None
        },
    }
}

pub fn export_preview_status_text(frame_id: u64, error: Option<&str>, current: bool) -> (r: Option<String>)
    ensures
        match r {
            Some(s) => export_preview_status(frame_id, match error {
                Some(e) => Some(e@),
                None => None,
            }, current) == Some(s@),
            None => export_preview_status(frame_id, match error {
                Some(e) => Some(e@),
                None => None,
            }, current) is None,
        },
{
    match error {
        Some(e) => {
            let mut s = counted_text("Export preview failed for frame ", frame_id, ": ");
            push_str(&mut s, e);
            Some(s)
        },
        None => if current {
            Some(crate::text::text_of("Export preview refreshed with the current export settings."))
        } else {
            None
        },
    }
}

} // verus!
