//! The image operations that turn a source image into a rendered frame:
//! rotation, flips, crop clamped to the image, and resizing.
use crate::types::{CropRect, FitMode, ResizeTarget, TransformSpec};
use vstd::prelude::*;

verus! {

/// One step applied to an image.
#[derive(Debug, Clone, Copy, PartialEq, Eq, Structural)]
pub enum ImageOp {
    Rotate90,
    Rotate180,
    Rotate270,
    FlipHorizontal,
    FlipVertical,
    Crop(CropRect),
    Fit(ResizeTarget, FitMode),
}

/// The number of quarter turns, between 0 and 3.
pub open spec fn quarter_turns(turns: i32) -> int {
    (turns as int) % 4
}

/// A crop rectangle moved and shrunk to lie inside a `width` x `height`
/// image, at least one pixel on each side.
pub open spec fn clamped_crop(c: CropRect, width: u32, height: u32) -> CropRect {
    let x = if c.x as int <= width - 1 {
        c.x as int
    } else if width >= 1 {
        width - 1
    } else {
        0
    };
    let y = if c.y as int <= height - 1 {
        c.y as int
    } else if height >= 1 {
        height - 1
    } else {
        0
    };
    let max_w = if width >= x {
        width - x
    } else {
        0
    };
    let max_h = if height >= y {
        height - y
    } else {
        0
    };
    let w = if (c.width as int) < max_w {
        c.width as int
    } else {
        max_w
    };
    let h = if (c.height as int) < max_h {
        c.height as int
    } else {
        max_h
    };
    CropRect {
        x: x as u32,
        y: y as u32,
        width: if w >= 1 {
            w as u32
        } else {
            1
        },
        height: if h >= 1 {
            h as u32
        } else {
            1
        },
    }
}

pub open spec fn rotation_ops(q: int) -> Seq<ImageOp> {
    if q == 1 {
        seq![ImageOp::Rotate90]
    } else if q == 2 {
        seq![ImageOp::Rotate180]
    } else if q == 3 {
        seq![ImageOp::Rotate270]
    } else {
        Seq::empty()
    }
}

pub open spec fn flip_ops(t: TransformSpec) -> Seq<ImageOp> {
    (if t.flip_horizontal {
        seq![ImageOp::FlipHorizontal]
    } else {
        Seq::empty()
    }) + (if t.flip_vertical {
        seq![ImageOp::FlipVertical]
    } else {
        Seq::empty()
    })
}

/// The size of the image after the rotation.
pub open spec fn turned_size(width: u32, height: u32, q: int) -> (u32, u32) {
    if q % 2 == 1 {
        (height, width)
    } else {
        (width, height)
    }
}

pub open spec fn crop_ops(t: TransformSpec, w: u32, h: u32) -> Seq<ImageOp> {
    match t.crop {
        Some(c) => seq![ImageOp::Crop(clamped_crop(c, w, h))],
        None => Seq::empty(),
    }
}

pub open spec fn fit_ops(t: TransformSpec, export_size: Option<(ResizeTarget, FitMode)>) -> Seq<ImageOp> {
    (match t.resize {
        Some(r) => seq![ImageOp::Fit(r, t.fit_mode)],
        None => Seq::empty(),
    }) + (match export_size {
        Some((r, f)) => seq![ImageOp::Fit(r, f)],
        None => Seq::empty(),
    })
}

/// The operations for a source image of `width` x `height`: the rotation,
/// the flips, the crop (clamped to the rotated image), the frame's own
/// resize with its fit mode, then the export size with the export's fit.
pub open spec fn plan(
    width: u32,
    height: u32,
    t: TransformSpec,
    export_size: Option<(ResizeTarget, FitMode)>,
) -> Seq<ImageOp> {
    let q = quarter_turns(t.rotate_quarter_turns);
    let (w, h) = turned_size(width, height, q);
    rotation_ops(q) + flip_ops(t) + crop_ops(t, w, h) + fit_ops(t, export_size)
}

pub(crate) fn quarter_turns_of(turns: i32) -> (q: i32)
    ensures
        q == quarter_turns(turns),
        0 <= q < 4,
{
    let r = turns % 4;
    if r < 0 {
        r + 4
    } else {
        r
    }
}

fn clamp_crop(c: CropRect, width: u32, height: u32) -> (r: CropRect)
    ensures
        r == clamped_crop(c, width, height),
{
    let x = if c.x < width.saturating_sub(1) {
        c.x
    } else {
        width.saturating_sub(1)
    };
    let y = if c.y < height.saturating_sub(1) {
        c.y
    } else {
        height.saturating_sub(1)
    };
    let max_width = width.saturating_sub(x);
    let max_height = height.saturating_sub(y);
    let w = if c.width < max_width {
        c.width
    } else {
        max_width
    };
    let h = if c.height < max_height {
        c.height
    } else {
        max_height
    };
    CropRect {
        x,
        y,
        width: if w >= 1 {
            w
        } else {
            1
        },
        height: if h >= 1 {
            h
        } else {
            1
        },
    }
}

fn rotation_list(q: i32) -> (ops: Vec<ImageOp>)
    ensures
        ops@ == rotation_ops(q as int),
{
    let mut ops: Vec<ImageOp> = Vec::new();
    if q == 1 {
        ops.push(ImageOp::Rotate90);
    } else if q == 2 {
        ops.push(ImageOp::Rotate180);
    } else if q == 3 {
        ops.push(ImageOp::Rotate270);
    }
    assert(ops@ =~= rotation_ops(q as int));
    ops
}

fn flip_list(t: &TransformSpec) -> (ops: Vec<ImageOp>)
    ensures
        ops@ == flip_ops(*t),
{
    let mut ops: Vec<ImageOp> = Vec::new();
    if t.flip_horizontal {
        ops.push(ImageOp::FlipHorizontal);
    }
    if t.flip_vertical {
        ops.push(ImageOp::FlipVertical);
    }
    assert(ops@ =~= flip_ops(*t));
    ops
}

fn crop_list(t: &TransformSpec, w: u32, h: u32) -> (ops: Vec<ImageOp>)
    ensures
        ops@ == crop_ops(*t, w, h),
{
    let mut ops: Vec<ImageOp> = Vec::new();
    match t.crop {
        Some(c) => ops.push(ImageOp::Crop(clamp_crop(c, w, h))),
        None => {},
    }
    assert(ops@ =~= crop_ops(*t, w, h));
    ops
}

fn fit_list(t: &TransformSpec, export_size: Option<(ResizeTarget, FitMode)>) -> (ops: Vec<ImageOp>)
    ensures
        ops@ == fit_ops(*t, export_size),
{
    let mut ops: Vec<ImageOp> = Vec::new();
    match t.resize {
        Some(rs) => ops.push(ImageOp::Fit(rs, t.fit_mode)),
        None => {},
    }
    match export_size {
        Some((rs, f)) => ops.push(ImageOp::Fit(rs, f)),
        None => {},
    }
    assert(ops@ =~= fit_ops(*t, export_size));
    ops
}

/// The operations that render a frame of the given source size.
pub fn transform_plan(
    width: u32,
    height: u32,
    transform: &TransformSpec,
    export_size: Option<(ResizeTarget, FitMode)>,
) -> (ops: Vec<ImageOp>)
    ensures
        ops@ == plan(width, height, *transform, export_size),
{
    let q = quarter_turns_of(transform.rotate_quarter_turns);
    let (w, h) = if q % 2 == 1 {
        (height, width)
    } else {
        (width, height)
    };
    assert((w, h) == turned_size(width, height, q as int));
    let mut ops = rotation_list(q);
    let mut flips = flip_list(transform);
    let mut crops = crop_list(transform, w, h);
    let mut fits = fit_list(transform, export_size);
    ops.append(&mut flips);
    ops.append(&mut crops);
    ops.append(&mut fits);
    ops
}

/// A clamped crop lies inside any image of at least one pixel, keeps at
/// least one pixel on each side, and leaves a crop that already fits
/// unchanged.
pub proof fn law_clamped_crop_fits(c: CropRect, width: u32, height: u32)
    requires
        width >= 1,
        height >= 1,
    ensures
        ({
            let r = clamped_crop(c, width, height);
            &&& r.width >= 1
            &&& r.height >= 1
            &&& r.x + r.width <= width
            &&& r.y + r.height <= height
        }),
        c.width >= 1 && c.height >= 1 && c.x + c.width <= width && c.y + c.height <= height ==> clamped_crop(
            c,
            width,
            height,
        ) == c,
{
}

} // verus!
