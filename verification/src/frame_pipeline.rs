//! From raw frames to display updates.
use crate::diff::{
    different_rects, find_different_rects, hold_changes, holds_picture, lemma_difference_covered,
    lemma_no_difference, lemma_no_more_than_tiles, pixel, tell_differences, tile_differs, Rect,
};
use crate::display::AspectMode;
use crate::letterbox::{
    compute_letterbox_rect, draw_letterboxed, law_letterbox_inside, letterboxed, placement, sampled,
    Picture,
};
use crate::pixels::{bytes_as_slice, bytes_clone, bytes_from_slice, bytes_from_vec, contents};
use crate::update::{span, BitmapUpdate, BitmapView, DesktopSize, DisplayUpdate, PixelFormat};
use bytes::Bytes;
use std::collections::VecDeque;
use vstd::prelude::*;
use vstd::set_lib::lemma_set_disjoint_lens;

verus! {

/// The frame that the client has been brought up to.
struct PrevFrame {
    data: Bytes,
    stride: usize,
    width: usize,
    height: usize,
}

impl PrevFrame {
    spec fn view(&self) -> Picture {
        Picture {
            data: contents(self.data),
            width: self.width as nat,
            height: self.height as nat,
            stride: self.stride as nat,
        }
    }
}

/// Processes raw BGRA frames into RDP display updates.
///
/// Owns the letterbox transform, dirty-region detection, and the sub-region
/// update queue. Callers push raw pixel data in; updates drain one at a time.
pub struct BgraFramePipeline {
    target_size: DesktopSize,
    aspect_mode: AspectMode,
    prev: Option<PrevFrame>,
    pending: VecDeque<BitmapUpdate>,
}

/// The mathematical content of a [`BgraFramePipeline`].
#[verifier::ext_equal]
pub struct PipelineView {
    pub target_size: DesktopSize,
    pub aspect_mode: AspectMode,
    /// The last frame that was accepted.
    pub prev: Option<Picture>,
    /// The updates that have not been drained yet, oldest first.
    pub pending: Seq<BitmapView>,
}

/// Frames of the given size have to be brought to the size of the desktop.
pub open spec fn needs_letterbox(p: PipelineView, width: nat, height: nat) -> bool {
    p.aspect_mode == AspectMode::Fit && (width != p.target_size.width || height
        != p.target_size.height)
}

/// The picture that the client is to see for a raw frame.
pub open spec fn shown(p: PipelineView, frame: Picture) -> Picture {
    if needs_letterbox(p, frame.width, frame.height) {
        letterboxed(frame, p.target_size.width as nat, p.target_size.height as nat)
    } else {
        frame
    }
}

/// A picture as one bitmap. Sizes are 16 bits wide on the wire.
pub open spec fn whole(picture: Picture) -> BitmapView {
    BitmapView {
        x: 0,
        y: 0,
        width: picture.width as u16 as int,
        height: picture.height as u16 as int,
        stride: picture.stride as int,
        data: picture.data,
    }
}

/// A bitmap has at least one pixel and a row length.
pub open spec fn sendable(picture: Picture) -> bool {
    picture.width as u16 != 0 && picture.height as u16 != 0 && picture.stride != 0
}

/// The pixels in all of the rectangles.
pub open spec fn area(rects: Seq<Rect>) -> nat
    decreases rects.len(),
{
    if rects.len() == 0 {
        0
    } else {
        area(rects.drop_last()) + rects.last().width as nat * rects.last().height as nat
    }
}

/// The rectangle, in 16-bit coordinates, is not empty and lies on the bitmap.
pub open spec fn on_bitmap(bitmap: BitmapView, r: Rect) -> bool {
    &&& r.width as u16 != 0
    &&& r.height as u16 != 0
    &&& r.x as u16 + r.width as u16 <= bitmap.width
    &&& r.y as u16 + r.height as u16 <= bitmap.height
}

/// The parts of a bitmap in the given rectangles.
pub open spec fn parts(bitmap: BitmapView, rects: Seq<Rect>) -> Seq<BitmapView>
    decreases rects.len(),
{
    if rects.len() == 0 {
        seq![]
    } else {
        let r = rects.last();
        let before = parts(bitmap, rects.drop_last());
        if on_bitmap(bitmap, r) {
            before.push(
                bitmap.part(
                    r.x as u16 as int,
                    r.y as u16 as int,
                    r.width as u16 as int,
                    r.height as u16 as int,
                ),
            )
        } else {
            before
        }
    }
}

/// Two pictures can be compared: they have the same size.
pub open spec fn same_size(prev: Option<Picture>, next: Picture) -> bool {
    prev matches Some(p) && p.width == next.width && p.height == next.height
}

/// Where the next picture differs from the one before.
pub open spec fn dirty(prev: Picture, next: Picture) -> Seq<Rect> {
    different_rects(
        prev.data,
        prev.stride as int,
        next.data,
        next.stride as int,
        next.width as int,
        next.height as int,
    )
}

/// What has to be sent so that the client sees the next picture: all of it
/// where there is nothing to compare it with or more than half has changed,
/// else the parts that have changed.
pub open spec fn updates_for(prev: Option<Picture>, next: Picture) -> Seq<BitmapView> {
    if !same_size(prev, next) {
        seq![whole(next)]
    } else {
        let rects = dirty(prev->Some_0, next);
        if rects.len() == 0 {
            seq![]
        } else if area(rects) > next.width * next.height / 2 {
            seq![whole(next)]
        } else {
            parts(whole(next), rects)
        }
    }
}

/// The picture lies inside its data.
pub open spec fn complete(picture: Picture) -> bool {
    holds_picture(
        picture.data,
        picture.stride as int,
        picture.width as int,
        picture.height as int,
    )
}

/// A frame that can be processed: its pixels can be sampled where it has to be
/// scaled, and pictures that are compared lie inside their data.
pub open spec fn can_push(p: PipelineView, frame: Picture) -> bool {
    &&& needs_letterbox(p, frame.width, frame.height) ==> {
        let place = placement(
            frame.width,
            frame.height,
            p.target_size.width as nat,
            p.target_size.height as nat,
        );
        &&& p.target_size.width * p.target_size.height * 4 <= isize::MAX
        &&& frame.can_fill(place.width, place.height)
    }
    &&& sendable(shown(p, frame)) && same_size(p.prev, shown(p, frame)) ==> {
        &&& complete(p.prev->Some_0)
        &&& complete(shown(p, frame))
    }
}

/// The state after a frame was pushed. A frame without pixels is dropped.
pub open spec fn after_push(p: PipelineView, frame: Picture) -> PipelineView {
    let next = shown(p, frame);
    if sendable(next) {
        PipelineView {
            prev: Some(next),
            pending: p.pending + updates_for(p.prev, next),
            ..p
        }
    } else {
        p
    }
}

/// The pixel at `(x, y)` of a client that showed `before` there, once it has
/// drawn the updates.
pub open spec fn painted(updates: Seq<BitmapView>, x: int, y: int, before: Seq<u8>) -> Seq<u8>
    decreases updates.len(),
{
    if updates.len() == 0 {
        before
    } else {
        let u = updates.last();
        if touches(u, x, y) {
            pixel(u.data, u.stride, x - u.x, y - u.y)
        } else {
            painted(updates.drop_last(), x, y, before)
        }
    }
}

/// A client that shows the previous picture shows the next one once it has
/// drawn the updates. Where there is nothing to compare the picture with, what
/// the client showed does not matter.
pub open spec fn bring_up_to_date(
    updates: Seq<BitmapView>,
    prev: Option<Picture>,
    next: Picture,
) -> bool {
    forall|x: int, y: int, before: Seq<u8>|
        {
            &&& 0 <= x < next.width
            &&& 0 <= y < next.height
            &&& same_size(prev, next) ==> before == pixel(
                prev->Some_0.data,
                prev->Some_0.stride as int,
                x,
                y,
            )
        } ==> #[trigger] painted(updates, x, y, before) == pixel(
            next.data,
            next.stride as int,
            x,
            y,
        )
}

/// No update touches a tile in which the two pictures agree.
pub open spec fn touch_changes_only(
    updates: Seq<BitmapView>,
    prev: Picture,
    next: Picture,
) -> bool {
    forall|i: int, x: int, y: int|
        0 <= i < updates.len() && #[trigger] touches(updates[i], x, y) ==> tile_differs(
            prev.data,
            prev.stride as int,
            next.data,
            next.stride as int,
            next.width as int,
            next.height as int,
            x,
            y,
        )
}

/// The changed rectangles are what they are called: what comparing two pictures
/// tells of them.
pub open spec fn told(prev: Picture, next: Picture) -> bool {
    tell_differences(
        dirty(prev, next),
        prev.data,
        prev.stride as int,
        next.data,
        next.stride as int,
        next.width as int,
        next.height as int,
    )
}

/// Every tile in which the two pictures differ is in the set.
pub open spec fn hold_changed_tiles(
    tiles: Set<(int, int)>,
    prev: Picture,
    next: Picture,
) -> bool {
    hold_changes(
        tiles,
        prev.data,
        prev.stride as int,
        next.data,
        next.stride as int,
        next.width as int,
        next.height as int,
    )
}

/// A picture that lies inside its data, has pixels, and fits the wire.
pub open spec fn proper(picture: Picture) -> bool {
    &&& 0 < picture.width <= u16::MAX
    &&& 0 < picture.height <= u16::MAX
    &&& complete(picture)
}

/// The state after some frames were pushed, the first one first.
pub open spec fn after_pushes(p: PipelineView, frames: Seq<Picture>) -> PipelineView
    decreases frames.len(),
{
    if frames.len() == 0 {
        p
    } else {
        after_push(after_pushes(p, frames.drop_last()), frames.last())
    }
}

/// The changed rectangles are told when the frame at position `i` is pushed after
/// those before it.
pub open spec fn told_at(p: PipelineView, frames: Seq<Picture>, i: int) -> bool {
    i > 0 && same_size(Some(shown(p, frames[i - 1])), shown(p, frames[i])) ==> told(
        shown(p, frames[i - 1]),
        shown(p, frames[i]),
    )
}

/// The update draws the pixel at `(x, y)`.
pub open spec fn touches(u: BitmapView, x: int, y: int) -> bool {
    u.x <= x < u.x + u.width && u.y <= y < u.y + u.height
}

/// A client whose screen shows `screen` shows the last frame once it has drawn
/// what is queued.
pub open spec fn in_step(p: PipelineView, screen: spec_fn(int, int) -> Seq<u8>) -> bool {
    p.prev matches Some(prev) ==> forall|x: int, y: int|
        0 <= x < prev.width && 0 <= y < prev.height ==> #[trigger] painted(
            p.pending,
            x,
            y,
            screen(x, y),
        ) == pixel(prev.data, prev.stride as int, x, y)
}

/// The two pictures show the same.
pub open spec fn look_alike(a: Picture, b: Picture) -> bool {
    &&& a.width == b.width
    &&& a.height == b.height
    &&& forall|x: int, y: int|
        0 <= x < a.width && 0 <= y < a.height ==> #[trigger] pixel(a.data, a.stride as int, x, y)
            == pixel(b.data, b.stride as int, x, y)
}

/// A part of a bitmap shows the pixels of the whole.
proof fn lemma_part_pixel(b: BitmapView, rx: int, ry: int, rw: int, rh: int, x: int, y: int)
    requires
        b.sound(),
        0 <= rx <= x < rx + rw <= b.width,
        0 <= ry <= y < ry + rh <= b.height,
    ensures
        pixel(b.part(rx, ry, rw, rh).data, b.stride, x - rx, y - ry) == pixel(
            b.data,
            b.stride,
            x,
            y,
        ),
{
    let s = b.stride;
    let start = ry * s + rx * 4;
    let end = start + span(rw, rh, s);
    let at = (y - ry) * s + (x - rx) * 4;
    assert(y * s == ry * s + (y - ry) * s) by (nonlinear_arith);
    assert(0 <= (y - ry) * s <= (rh - 1) * s && 0 <= ry * s) by (nonlinear_arith)
        requires
            0 <= y - ry <= rh - 1,
            0 <= ry,
            0 <= s,
    ;
    assert(ry * s + (rh - 1) * s <= (b.height - 1) * s) by (nonlinear_arith)
        requires
            ry + rh <= b.height,
            0 <= s,
    ;
    assert(0 <= start <= end <= b.data.len());
    assert(b.data.subrange(start, end).subrange(at, at + 4) =~= b.data.subrange(
        start + at,
        start + at + 4,
    ));
}

/// Drawing the parts in some rectangles changes the pixels in them to those of
/// the whole, and no others.
proof fn lemma_parts_painted(b: BitmapView, rects: Seq<Rect>, x: int, y: int, before: Seq<u8>)
    requires
        b.sound(),
        b.x == 0,
        b.y == 0,
        b.width <= u16::MAX,
        b.height <= u16::MAX,
        forall|i: int|
            0 <= i < rects.len() ==> {
                let r = #[trigger] rects[i];
                &&& 0 < r.width
                &&& 0 < r.height
                &&& r.x + r.width <= b.width
                &&& r.y + r.height <= b.height
            },
    ensures
        painted(parts(b, rects), x, y, before) == (if exists|i: int|
            0 <= i < rects.len() && #[trigger] rects[i].covers(x, y) {
            pixel(b.data, b.stride, x, y)
        } else {
            before
        }),
    decreases rects.len(),
{
    if rects.len() > 0 {
        let r = rects.last();
        let rest = rects.drop_last();
        assert(r == rects[rects.len() - 1]);
        assert forall|i: int| 0 <= i < rest.len() implies {
            let r = #[trigger] rest[i];
            &&& 0 < r.width
            &&& 0 < r.height
            &&& r.x + r.width <= b.width
            &&& r.y + r.height <= b.height
        } by {
            assert(rest[i] == rects[i]);
        }
        lemma_parts_painted(b, rest, x, y, before);
        let sofar = parts(b, rest);
        let part = b.part(r.x as int, r.y as int, r.width as int, r.height as int);
        assert(parts(b, rects) == sofar.push(part));
        assert(sofar.push(part).drop_last() =~= sofar);
        assert(sofar.push(part).last() == part);
        if r.covers(x, y) {
            assert(rects[rects.len() - 1].covers(x, y));
            lemma_part_pixel(
                b,
                r.x as int,
                r.y as int,
                r.width as int,
                r.height as int,
                x,
                y,
            );
        } else if exists|i: int| 0 <= i < rest.len() && #[trigger] rest[i].covers(x, y) {
            let i = choose|i: int| 0 <= i < rest.len() && #[trigger] rest[i].covers(x, y);
            assert(rects[i].covers(x, y));
        } else {
            assert forall|i: int| 0 <= i < rects.len() implies !#[trigger] rects[i].covers(
                x,
                y,
            ) by {
                if i < rest.len() {
                    assert(!rest[i].covers(x, y));
                }
            }
        }
    }
}

/// The parts in some rectangles touch only what the rectangles cover.
proof fn lemma_parts_inside(b: BitmapView, rects: Seq<Rect>, i: int, x: int, y: int)
    requires
        b.x == 0,
        b.y == 0,
        b.width <= u16::MAX,
        b.height <= u16::MAX,
        forall|i: int|
            0 <= i < rects.len() ==> {
                let r = #[trigger] rects[i];
                &&& 0 < r.width
                &&& 0 < r.height
                &&& r.x + r.width <= b.width
                &&& r.y + r.height <= b.height
            },
        0 <= i < parts(b, rects).len(),
        touches(parts(b, rects)[i], x, y),
    ensures
        exists|k: int| 0 <= k < rects.len() && #[trigger] rects[k].covers(x, y),
    decreases rects.len(),
{
    if rects.len() > 0 {
        let r = rects.last();
        let rest = rects.drop_last();
        let sofar = parts(b, rest);
        assert(r == rects[rects.len() - 1]);
        assert forall|i: int| 0 <= i < rest.len() implies {
            let r = #[trigger] rest[i];
            &&& 0 < r.width
            &&& 0 < r.height
            &&& r.x + r.width <= b.width
            &&& r.y + r.height <= b.height
        } by {
            assert(rest[i] == rects[i]);
        }
        assert(parts(b, rects) == sofar.push(
            b.part(r.x as int, r.y as int, r.width as int, r.height as int),
        ));
        if i < sofar.len() {
            assert(parts(b, rects)[i] == sofar[i]);
            lemma_parts_inside(b, rest, i, x, y);
            let k = choose|k: int| 0 <= k < rest.len() && #[trigger] rest[k].covers(x, y);
            assert(rects[k].covers(x, y));
        } else {
            assert(rects[rects.len() - 1].covers(x, y));
        }
    }
}

/// The parts in the rectangles that tell the differences touch changed tiles
/// only.
proof fn lemma_dirty_touches_changes(prev: Picture, next: Picture)
    requires
        next.width <= u16::MAX,
        next.height <= u16::MAX,
        told(prev, next),
    ensures
        touch_changes_only(parts(whole(next), dirty(prev, next)), prev, next),
{
    let b = whole(next);
    let rects = dirty(prev, next);
    assert forall|i: int, x: int, y: int|
        0 <= i < parts(b, rects).len() && #[trigger] touches(
            parts(b, rects)[i],
            x,
            y,
        ) implies tile_differs(
        prev.data,
        prev.stride as int,
        next.data,
        next.stride as int,
        next.width as int,
        next.height as int,
        x,
        y,
    ) by {
        lemma_parts_inside(b, rects, i, x, y);
        let k = choose|k: int| 0 <= k < rects.len() && #[trigger] rects[k].covers(x, y);
        assert(rects[k].covers(x, y));
    }
}

/// One bitmap of the whole picture brings a client up to date.
proof fn lemma_whole_painted(prev: Option<Picture>, next: Picture)
    requires
        next.width <= u16::MAX,
        next.height <= u16::MAX,
    ensures
        bring_up_to_date(seq![whole(next)], prev, next),
{
    let b = whole(next);
    assert(seq![b].last() == b);
}

/// The parts in the rectangles that tell the differences bring a client up to
/// date.
proof fn lemma_dirty_painted(prev: Picture, next: Picture)
    requires
        0 < next.width <= u16::MAX,
        0 < next.height <= u16::MAX,
        complete(next),
        prev.width == next.width,
        prev.height == next.height,
        told(prev, next),
    ensures
        bring_up_to_date(parts(whole(next), dirty(prev, next)), Some(prev), next),
{
    let b = whole(next);
    let rects = dirty(prev, next);
    assert forall|x: int, y: int, before: Seq<u8>|
        {
            &&& 0 <= x < next.width
            &&& 0 <= y < next.height
            &&& before == pixel(prev.data, prev.stride as int, x, y)
        } implies #[trigger] painted(parts(b, rects), x, y, before) == pixel(
        next.data,
        next.stride as int,
        x,
        y,
    ) by {
        lemma_parts_painted(b, rects, x, y, before);
        if pixel(prev.data, prev.stride as int, x, y) != pixel(
            next.data,
            next.stride as int,
            x,
            y,
        ) {
            let i = lemma_difference_covered(
                rects,
                prev.data,
                prev.stride as int,
                next.data,
                next.stride as int,
                next.width as int,
                next.height as int,
                x,
                y,
            );
            assert(rects[i].covers(x, y));
        }
    }
}

/// What is sent for a picture brings a client up to date.
proof fn lemma_updates_painted(prev: Option<Picture>, next: Picture)
    requires
        0 < next.width <= u16::MAX,
        0 < next.height <= u16::MAX,
        same_size(prev, next) ==> complete(next) && told(prev->Some_0, next),
    ensures
        bring_up_to_date(updates_for(prev, next), prev, next),
{
    lemma_whole_painted(prev, next);
    if same_size(prev, next) {
        lemma_dirty_painted(prev->Some_0, next);
        let rects = dirty(prev->Some_0, next);
        if rects.len() == 0 {
            assert(parts(whole(next), rects) =~= Seq::<BitmapView>::empty());
        }
    }
}

/// There are no more parts than rectangles.
proof fn lemma_parts_len(b: BitmapView, rects: Seq<Rect>)
    ensures
        parts(b, rects).len() <= rects.len(),
    decreases rects.len(),
{
    if rects.len() > 0 {
        lemma_parts_len(b, rects.drop_last());
    }
}

/// No more updates are sent than tiles have changed.
proof fn lemma_updates_few(prev: Picture, next: Picture, tiles: Set<(int, int)>)
    requires
        prev.width == next.width,
        prev.height == next.height,
        told(prev, next),
        tiles.finite(),
        hold_changed_tiles(tiles, prev, next),
    ensures
        updates_for(Some(prev), next).len() <= tiles.len(),
{
    let rects = dirty(prev, next);
    lemma_parts_len(whole(next), rects);
    lemma_no_more_than_tiles(
        rects,
        prev.data,
        prev.stride as int,
        next.data,
        next.stride as int,
        next.width as int,
        next.height as int,
        tiles,
    );
}

/// The rectangle covers the upper left pixel of the tile.
spec fn covers_corner(r: Rect, tile: (int, int)) -> bool {
    r.covers(64 * tile.0, 64 * tile.1)
}

/// The tiles of `columns` columns and `rows` rows from `(x, y)` on.
spec fn block(x: int, y: int, columns: int, rows: int) -> Set<(int, int)> {
    Set::new(|t: (int, int)| x <= t.0 < x + columns && y <= t.1 < y + rows)
}

/// A block has as many tiles as columns times rows.
proof fn lemma_block_len(x: int, y: int, columns: int, rows: int)
    requires
        0 <= columns,
        0 <= rows,
    ensures
        block(x, y, columns, rows).finite(),
        block(x, y, columns, rows).len() == columns * rows,
    decreases columns, rows,
{
    let b = block(x, y, columns, rows);
    if columns == 0 || rows == 0 {
        assert(b =~= Set::empty());
        assert(columns * rows == 0) by (nonlinear_arith)
            requires
                columns == 0 || rows == 0,
        ;
    } else if columns == 1 {
        lemma_block_len(x, y, 1, rows - 1);
        assert(b =~= block(x, y, 1, rows - 1).insert((x, y + rows - 1)));
    } else {
        let left = block(x, y, columns - 1, rows);
        let right = block(x + columns - 1, y, 1, rows);
        lemma_block_len(x, y, columns - 1, rows);
        lemma_block_len(x + columns - 1, y, 1, rows);
        assert(b =~= left + right);
        lemma_set_disjoint_lens(left, right);
        assert(columns * rows == (columns - 1) * rows + 1 * rows) by (nonlinear_arith);
    }
}

/// Rectangles that start at tiles and do not overlap have no more pixels than the
/// tiles that they touch.
proof fn lemma_area_of_tiles(rects: Seq<Rect>, tiles: Set<(int, int)>)
    requires
        tiles.finite(),
        forall|i: int|
            0 <= i < rects.len() ==> {
                let r = #[trigger] rects[i];
                0 < r.width && 0 < r.height && r.x % 64 == 0 && r.y % 64 == 0
            },
        forall|i: int, j: int, x: int, y: int|
            0 <= i < j < rects.len() ==> !(#[trigger] rects[i].covers(x, y)
                && #[trigger] rects[j].covers(x, y)),
        forall|i: int, t: (int, int)|
            0 <= i < rects.len() && #[trigger] covers_corner(rects[i], t) ==> tiles.contains(t),
    ensures
        area(rects) <= 4096 * tiles.len(),
    decreases rects.len(),
{
    if rects.len() > 0 {
        let n = rects.len() - 1;
        let r = rects[n];
        let rest = rects.drop_last();
        let columns = (r.width + 63) / 64;
        let rows = (r.height + 63) / 64;
        let own = block(r.x as int / 64, r.y as int / 64, columns, rows);
        let others = tiles.difference(own);
        lemma_block_len(r.x as int / 64, r.y as int / 64, columns, rows);
        assert forall|t: (int, int)| #[trigger] own.contains(t) implies covers_corner(r, t)
            && tiles.contains(t) by {
            assert(covers_corner(rects[n], t));
        }
        assert forall|i: int, t: (int, int)|
            0 <= i < rest.len() && #[trigger] covers_corner(rest[i], t) implies others.contains(
            t,
        ) by {
            assert(covers_corner(rects[i], t));
            if own.contains(t) {
                assert(covers_corner(rects[n], t));
                assert(rects[i].covers(64 * t.0, 64 * t.1));
                assert(rects[n].covers(64 * t.0, 64 * t.1));
            }
        }
        assert forall|i: int, j: int, x: int, y: int| 0 <= i < j < rest.len() implies !(
        #[trigger] rest[i].covers(x, y) && #[trigger] rest[j].covers(x, y)) by {
            assert(rest[i] == rects[i] && rest[j] == rects[j]);
        }
        assert forall|i: int| 0 <= i < rest.len() implies {
            let r = #[trigger] rest[i];
            0 < r.width && 0 < r.height && r.x % 64 == 0 && r.y % 64 == 0
        } by {
            assert(rest[i] == rects[i]);
        }
        lemma_area_of_tiles(rest, others);
        assert(others + own =~= tiles);
        lemma_set_disjoint_lens(others, own);
        assert(r.width * r.height <= 4096 * (columns * rows)) by (nonlinear_arith)
            requires
                0 < r.width <= 64 * columns,
                0 < r.height <= 64 * rows,
        ;
        assert(rects.last() == r);
    }
}

/// Why a picture cannot be sent as a bitmap.
#[derive(Debug, Clone, Copy, PartialEq, Eq, Structural)]
pub enum BitmapError {
    ZeroWidth,
    ZeroHeight,
    ZeroStride,
}

/// A whole picture as one bitmap.
pub fn make_bitmap(data: Bytes, w: usize, h: usize, stride: usize) -> (r: Result<
    BitmapUpdate,
    BitmapError,
>)
    ensures
        match r {
            Ok(b) => {
                &&& b@ == whole(
                    Picture {
                        data: contents(data),
                        width: w as nat,
                        height: h as nat,
                        stride: stride as nat,
                    },
                )
                &&& b.format == PixelFormat::BgrA32
                &&& b.width != 0 && b.height != 0 && b.stride != 0
            },
            Err(BitmapError::ZeroWidth) => w as u16 == 0,
            Err(BitmapError::ZeroHeight) => w as u16 != 0 && h as u16 == 0,
            Err(BitmapError::ZeroStride) => w as u16 != 0 && h as u16 != 0 && stride == 0,
        },
{
    let width: u16 = w as u16;
    let height: u16 = h as u16;
    if width == 0 {
        Err(BitmapError::ZeroWidth)
    } else if height == 0 {
        Err(BitmapError::ZeroHeight)
    } else if stride == 0 {
        Err(BitmapError::ZeroStride)
    } else {
        Ok(BitmapUpdate { x: 0, y: 0, width, height, format: PixelFormat::BgrA32, data, stride })
    }
}

/// The rectangles have more pixels than `limit`.
fn area_exceeds(rects: &Vec<Rect>, limit: u64) -> (r: bool)
    requires
        limit <= u64::MAX / 4,
        forall|i: int|
            0 <= i < rects@.len() ==> (#[trigger] rects@[i]).width as int * rects@[i].height as int
                <= u64::MAX / 2,
    ensures
        r == (area(rects@) > limit),
{
    let mut total: u64 = 0;
    let mut i: usize = 0;
    proof {
        assert(rects@.take(0).len() == 0);
    }
    while i < rects.len()
        invariant
            i <= rects@.len(),
            total <= limit,
            limit <= u64::MAX / 4,
            total == area(rects@.take(i as int)),
            forall|i: int|
                0 <= i < rects@.len() ==> (#[trigger] rects@[i]).width as int
                    * rects@[i].height as int <= u64::MAX / 2,
        decreases rects@.len() - i,
    {
        let r = rects[i];
        proof {
            assert(rects@.take(i + 1).drop_last() =~= rects@.take(i as int));
            assert(rects@.take(i + 1).last() == r);
            assert(r == rects@[i as int]);
        }
        let more: u64 = r.width as u64 * r.height as u64;
        total = total + more;
        i += 1;
        if total > limit {
            proof {
                lemma_area_grows(rects@, i as int);
            }
            return true;
        }
    }
    proof {
        assert(rects@.take(rects@.len() as int) =~= rects@);
    }
    false
}

/// The first rectangles have no more pixels than all of them.
proof fn lemma_area_grows(rects: Seq<Rect>, n: int)
    requires
        0 <= n <= rects.len(),
    ensures
        area(rects.take(n)) <= area(rects),
    decreases rects.len() - n,
{
    if n < rects.len() {
        let next = rects.take(n + 1);
        assert(next.drop_last() =~= rects.take(n));
        lemma_area_grows(rects, n + 1);
    } else {
        assert(rects.take(n) =~= rects);
    }
}

/// A picture of which every row has a pixel lies inside data of the given
/// length.
fn lies_inside(len: usize, stride: usize, width: usize, height: usize) -> (r: bool)
    requires
        height > 0,
    ensures
        r == (width * 4 <= stride && (height - 1) * stride + width * 4 <= len),
{
    let row: u128 = width as u128 * 4;
    proof {
        assert(0 <= (height - 1) * stride <= 0xffff_ffff_ffff_ffff * 0xffff_ffff_ffff_ffff)
            by (nonlinear_arith)
            requires
                0 <= height - 1 <= 0xffff_ffff_ffff_ffff,
                0 <= stride <= 0xffff_ffff_ffff_ffff,
        ;
    }
    row <= stride as u128 && row <= len as u128 && (height as u128 - 1) * stride as u128 <= len
        as u128 - row
}

/// A picture with data of the given length can be sampled to fill a place.
fn can_sample(
    len: usize,
    src_w: usize,
    src_h: usize,
    src_stride: usize,
    width: usize,
    height: usize,
) -> (r: bool)
    ensures
        r == (width > 0 && height > 0 ==> {
            &&& (width - 1) * src_w <= usize::MAX
            &&& (height - 1) * src_h <= usize::MAX
            &&& sampled(height - 1, src_h as nat, height as nat) * src_stride + sampled(
                width - 1,
                src_w as nat,
                width as nat,
            ) * 4 + 4 <= len
        }),
{
    if width == 0 || height == 0 {
        return true;
    }
    let across: usize = match (width - 1).checked_mul(src_w) {
        Some(n) => n,
        None => {
            return false;
        },
    };
    let down: usize = match (height - 1).checked_mul(src_h) {
        Some(n) => n,
        None => {
            return false;
        },
    };
    let src_x: u128 = (across / width) as u128;
    let src_y: u128 = (down / height) as u128;
    proof {
        assert(src_y == sampled(height - 1, src_h as nat, height as nat));
        assert(src_x == sampled(width - 1, src_w as nat, width as nat));
        assert(0 <= src_y * src_stride <= 0xffff_ffff_ffff_ffff * 0xffff_ffff_ffff_ffff)
            by (nonlinear_arith)
            requires
                0 <= src_y <= 0xffff_ffff_ffff_ffff,
                0 <= src_stride <= 0xffff_ffff_ffff_ffff,
        ;
    }
    let end: u128 = src_x * 4 + 4;
    let row: u128 = src_y * src_stride as u128;
    row <= len as u128 && row + end <= len as u128
}

/// A picture on a desktop lies inside its data.
proof fn lemma_letterboxed_complete(frame: Picture, width: nat, height: nat)
    ensures
        complete(letterboxed(frame, width, height)),
{
    let w = width as int;
    let h = height as int;
    assert((h - 1) * (w * 4) + w * 4 == w * h * 4) by (nonlinear_arith);
}

/// The queued updates, as the client will see them.
pub open spec fn views(updates: Seq<BitmapUpdate>) -> Seq<BitmapView> {
    updates.map_values(|b: BitmapUpdate| b@)
}

impl BgraFramePipeline {
    pub closed spec fn view(&self) -> PipelineView {
        PipelineView {
            target_size: self.target_size,
            aspect_mode: self.aspect_mode,
            prev: match self.prev {
                Some(p) => Some(p@),
                None => None,
            },
            pending: views(self.pending@),
        }
    }

    pub fn new(target_size: DesktopSize, aspect_mode: AspectMode) -> (p: Self)
        ensures
            p@ == (PipelineView { target_size, aspect_mode, prev: None, pending: seq![] }),
    {
        BgraFramePipeline { target_size, aspect_mode, prev: None, pending: VecDeque::new() }
    }

    pub fn set_target(&mut self, size: DesktopSize)
        ensures
            final(self)@ == (PipelineView { target_size: size, ..old(self)@ }),
    {
        self.target_size = size;
    }

    /// Clear frame history and pending updates. Call after stream recreation.
    pub fn reset(&mut self)
        ensures
            final(self)@ == (PipelineView { prev: None, pending: seq![], ..old(self)@ }),
    {
        self.prev = None;
        self.pending.clear();
    }

    /// Drain one queued update. Returns `None` when all updates for the last
    /// pushed frame have been consumed.
    pub fn pop_update(&mut self) -> (update: Option<DisplayUpdate>)
        ensures
            match update {
                None => old(self)@.pending.len() == 0 && final(self)@ == old(self)@,
                Some(DisplayUpdate::Bitmap(b)) => {
                    &&& old(self)@.pending.len() > 0
                    &&& b@ == old(self)@.pending[0]
                    &&& final(self)@ == (PipelineView {
                        pending: old(self)@.pending.drop_first(),
                        ..old(self)@
                    })
                },
                Some(_) => false,
            },
    {
        let ghost queue = self.pending@;
        match self.pending.pop_front() {
            Some(b) => {
                proof {
                    assert(views(queue.drop_first()) =~= views(queue).drop_first());
                    assert(self.pending@ =~= queue.drop_first());
                }
                Some(DisplayUpdate::Bitmap(b))
            },
            None => None,
        }
    }

    fn needs_crop_scale(&self, frame_w: usize, frame_h: usize) -> (r: bool)
        ensures
            r == needs_letterbox(self@, frame_w as nat, frame_h as nat),
    {
        if self.aspect_mode != AspectMode::Fit {
            return false;
        }
        let t = self.target_size;
        frame_w != t.width as usize || frame_h != t.height as usize
    }

    fn letterbox_bgra(&self, src: &[u8], src_w: usize, src_h: usize, src_stride: usize) -> (r: (
        Bytes,
        usize,
        usize,
        usize,
    ))
        requires
            self@.target_size.width * self@.target_size.height * 4 <= isize::MAX,
            ({
                let t = self@.target_size;
                let p = placement(src_w as nat, src_h as nat, t.width as nat, t.height as nat);
                (Picture {
                    data: src@,
                    width: src_w as nat,
                    height: src_h as nat,
                    stride: src_stride as nat,
                }).can_fill(p.width, p.height)
            }),
        ensures
            (Picture {
                data: contents(r.0),
                width: r.1 as nat,
                height: r.2 as nat,
                stride: r.3 as nat,
            }) == letterboxed(
                Picture {
                    data: src@,
                    width: src_w as nat,
                    height: src_h as nat,
                    stride: src_stride as nat,
                },
                self@.target_size.width as nat,
                self@.target_size.height as nat,
            ),
    {
        let dst_w: u16 = self.target_size.width;
        let dst_h: u16 = self.target_size.height;
        let dst: Vec<u8> = draw_letterboxed(src, src_w, src_h, src_stride, dst_w, dst_h);
        (bytes_from_vec(dst), dst_w as usize, dst_h as usize, dst_w as usize * 4)
    }

    /// Whether a raw BGRA frame can be processed: every pixel that is needed of
    /// it, and of the frame before, lies inside its data.
    pub fn accepts_frame(&self, data: &[u8], src_w: usize, src_h: usize, src_stride: usize) -> (r:
        bool)
        ensures
            r == can_push(
                self@,
                Picture {
                    data: data@,
                    width: src_w as nat,
                    height: src_h as nat,
                    stride: src_stride as nat,
                },
            ),
    {
        let ghost frame = Picture {
            data: data@,
            width: src_w as nat,
            height: src_h as nat,
            stride: src_stride as nat,
        };
        let len: usize = data.len();
        if self.needs_crop_scale(src_w, src_h) {
            let t = self.target_size;
            proof {
                assert(t.width * t.height <= 0xffff * 0xffff) by (nonlinear_arith)
                    requires
                        t.width <= 0xffff,
                        t.height <= 0xffff,
                ;
            }
            let pixels: u64 = t.width as u64 * t.height as u64;
            if pixels * 4 > isize::MAX as u64 {
                return false;
            }
            let (_, _, pw, ph) = compute_letterbox_rect(
                src_w,
                src_h,
                t.width as usize,
                t.height as usize,
            );
            if !can_sample(len, src_w, src_h, src_stride, pw, ph) {
                return false;
            }
            proof {
                lemma_letterboxed_complete(frame, t.width as nat, t.height as nat);
                assert(shown(self@, frame) == letterboxed(
                    frame,
                    t.width as nat,
                    t.height as nat,
                ));
            }
            match &self.prev {
                None => true,
                Some(p) => {
                    if t.width != 0 && t.height != 0 && p.width == t.width as usize && p.height
                        == t.height as usize {
                        lies_inside(bytes_as_slice(&p.data).len(), p.stride, p.width, p.height)
                    } else {
                        true
                    }
                },
            }
        } else {
            let width: u16 = src_w as u16;
            let height: u16 = src_h as u16;
            proof {
                assert(0usize as u16 == 0);
            }
            match &self.prev {
                None => true,
                Some(p) => {
                    if width != 0 && height != 0 && src_stride != 0 && p.width == src_w && p.height
                        == src_h {
                        lies_inside(bytes_as_slice(&p.data).len(), p.stride, p.width, p.height)
                            && lies_inside(len, src_stride, src_w, src_h)
                    } else {
                        true
                    }
                },
            }
        }
    }

    /// Process a raw BGRA frame. Queues zero or more updates that can be
    /// drained via `pop_update`.
    pub fn push_frame(&mut self, data: &[u8], src_w: usize, src_h: usize, src_stride: usize)
        requires
            can_push(
                old(self)@,
                Picture {
                    data: data@,
                    width: src_w as nat,
                    height: src_h as nat,
                    stride: src_stride as nat,
                },
            ),
        ensures
            ({
                let frame = Picture {
                    data: data@,
                    width: src_w as nat,
                    height: src_h as nat,
                    stride: src_stride as nat,
                };
                let prev = old(self)@.prev;
                let next = shown(old(self)@, frame);
                let updates = updates_for(prev, next);
                &&& final(self)@ == after_push(old(self)@, frame)
                &&& sendable(next) && next.width <= u16::MAX && next.height <= u16::MAX
                    ==> bring_up_to_date(updates, prev, next)
                &&& sendable(next) && prev is Some && look_alike(prev->Some_0, next) ==> updates
                    == Seq::<BitmapView>::empty()
                &&& sendable(next) && next.width <= u16::MAX && next.height <= u16::MAX
                    && same_size(prev, next) && updates != seq![whole(next)] ==> touch_changes_only(
                    updates,
                    prev->Some_0,
                    next,
                )
                &&& sendable(next) && same_size(prev, next) ==> told(prev->Some_0, next)
                &&& sendable(next) && same_size(prev, next) ==> forall|tiles: Set<(int, int)>|
                    tiles.finite() && #[trigger] hold_changed_tiles(tiles, prev->Some_0, next)
                        ==> updates.len() <= tiles.len()
                &&& (sendable(next) ==> next.width <= u16::MAX && next.height <= u16::MAX)
                    ==> forall|screen: spec_fn(int, int) -> Seq<u8>| #[trigger]
                    in_step(old(self)@, screen) ==> in_step(final(self)@, screen)
            }),
    {
        let ghost frame = Picture {
            data: data@,
            width: src_w as nat,
            height: src_h as nat,
            stride: src_stride as nat,
        };
        let ghost start = self@;
        let (data, w, h, stride) = if self.needs_crop_scale(src_w, src_h) {
            self.letterbox_bgra(data, src_w, src_h, src_stride)
        } else {
            (bytes_from_slice(data), src_w, src_h, src_stride)
        };
        let ghost next = shown(start, frame);
        assert(next == (Picture {
            data: contents(data),
            width: w as nat,
            height: h as nat,
            stride: stride as nat,
        }));
        let new_bitmap = match make_bitmap(bytes_clone(&data), w, h, stride) {
            Ok(b) => b,
            Err(_) => {
                return ;
            },
        };
        assert(w > 0 && h > 0) by {
            assert(0usize as u16 == 0);
        }
        let diffs: Option<Vec<Rect>> = match &self.prev {
            // First frame → full refresh
            None => None,
            Some(p) => {
                if p.width != w || p.height != h {
                    // Resolution change → full refresh
                    None
                } else {
                    Some(
                        find_different_rects(
                            bytes_as_slice(&p.data),
                            p.stride,
                            bytes_as_slice(&data),
                            stride,
                            w,
                            h,
                        ),
                    )
                }
            },
        };
        let ghost queue = self.pending@;
        let len: usize = bytes_as_slice(&data).len();
        self.prev = Some(PrevFrame { data, stride, width: w, height: h });
        match diffs {
            None => {
                proof {
                    if w <= u16::MAX && h <= u16::MAX {
                        lemma_updates_painted(start.prev, next);
                        lemma_push_in_step(start, frame);
                    }
                }
                self.pending.push_back(new_bitmap);
                assert(views(queue.push(new_bitmap)) =~= views(queue).push(new_bitmap@));
            },
            Some(rects) => {
                let ghost prev = start.prev->Some_0;
                proof {
                    assert(rects@ == dirty(prev, next));
                    lemma_fits(next, len as nat);
                    if look_alike(prev, next) {
                        lemma_no_difference(
                            rects@,
                            prev.data,
                            prev.stride as int,
                            next.data,
                            next.stride as int,
                            w as int,
                            h as int,
                        );
                    }
                    assert(told(prev, next));
                    if w <= u16::MAX && h <= u16::MAX {
                        lemma_updates_painted(start.prev, next);
                        lemma_dirty_touches_changes(prev, next);
                        lemma_push_in_step(start, frame);
                    }
                    assert forall|tiles: Set<(int, int)>|
                        tiles.finite() && #[trigger] hold_changed_tiles(
                            tiles,
                            prev,
                            next,
                        ) implies updates_for(start.prev, next).len() <= tiles.len() by {
                        lemma_updates_few(prev, next, tiles);
                    }
                    assert forall|i: int| 0 <= i < rects@.len() implies (#[trigger] rects@[i]).width
                        as int * rects@[i].height as int <= u64::MAX / 2 by {
                        let r = rects@[i];
                        assert(r.width * r.height <= w * h) by (nonlinear_arith)
                            requires
                                r.width <= w,
                                r.height <= h,
                        ;
                    }
                }
                if rects.len() == 0 {
                    assert(views(queue) =~= views(queue) + Seq::<BitmapView>::empty());
                    assert(parts(whole(next), rects@) =~= Seq::<BitmapView>::empty());
                    return ;
                }
                // Large change — send the whole frame rather than many small rects.
                let half: u64 = w as u64 * h as u64 / 2;
                if area_exceeds(&rects, half) {
                    self.pending.push_back(new_bitmap);
                    assert(views(queue.push(new_bitmap)) =~= views(queue).push(new_bitmap@));
                    return ;
                }
                let mut i: usize = 0;
                proof {
                    assert(rects@.take(0).len() == 0);
                    assert(views(queue) + parts(whole(next), rects@.take(0)) =~= views(queue));
                }
                while i < rects.len()
                    invariant
                        i <= rects@.len(),
                        new_bitmap@ == whole(next),
                        new_bitmap@.sound(),
                        self.prev is Some,
                        self@ == (PipelineView {
                            prev: Some(next),
                            pending: start.pending + parts(whole(next), rects@.take(i as int)),
                            ..start
                        }),
                    decreases rects@.len() - i,
                {
                    let r = rects[i];
                    let ghost now = self.pending@;
                    proof {
                        assert(rects@.take(i + 1).drop_last() =~= rects@.take(i as int));
                        assert(rects@.take(i + 1).last() == r);
                    }
                    match new_bitmap.sub(
                        r.x as u16,
                        r.y as u16,
                        r.width as u16,
                        r.height as u16,
                    ) {
                        Some(part) => {
                            self.pending.push_back(part);
                            proof {
                                assert(views(now.push(part)) =~= views(now).push(part@));
                                let old_parts = parts(whole(next), rects@.take(i as int));
                                assert((start.pending + old_parts).push(part@)
                                    =~= start.pending + old_parts.push(part@));
                            }
                        },
                        None => {},
                    }
                    i += 1;
                }
                assert(rects@.take(rects@.len() as int) =~= rects@);
            },
        }
    }
}

/// Cutting a number off to 16 bits does not make it larger.
proof fn lemma_truncated(n: nat)
    requires
        n <= u64::MAX,
    ensures
        n as u16 <= n,
{
    let m = n as u64;
    assert(m as u16 <= m) by (bit_vector);
}

/// A picture inside its data has no more pixels than the data has room for.
proof fn lemma_fits(p: Picture, len: nat)
    requires
        complete(p),
        0 < p.width <= usize::MAX,
        0 < p.height <= usize::MAX,
        p.data.len() <= len,
    ensures
        4 * (p.width * p.height) <= len,
        p.width as u16 != 0 && p.height as u16 != 0 ==> whole(p).sound(),
{
    let w = p.width as int;
    let h = p.height as int;
    let s = p.stride as int;
    assert((h - 1) * s >= (h - 1) * (w * 4)) by (nonlinear_arith)
        requires
            s >= w * 4,
            h >= 1,
    ;
    assert((h - 1) * (w * 4) + w * 4 == 4 * (w * h)) by (nonlinear_arith);
    let w1 = p.width as u16 as int;
    let h1 = p.height as u16 as int;
    lemma_truncated(p.width);
    lemma_truncated(p.height);
    assert((h1 - 1) * s <= (h - 1) * s) by (nonlinear_arith)
        requires
            h1 <= h,
            s >= 0,
    ;
}

/// The first frame is sent whole, after what is still queued.
pub proof fn law_first_frame_is_sent_whole(p: PipelineView, frame: Picture)
    requires
        p.prev is None,
        sendable(shown(p, frame)),
    ensures
        after_push(p, frame).pending == p.pending.push(whole(shown(p, frame))),
{
    assert(p.pending + seq![whole(shown(p, frame))] =~= p.pending.push(whole(shown(p, frame))));
}

/// After a reset the next frame is sent whole and alone, whatever was shown or
/// queued before.
pub proof fn law_reset_makes_next_frame_first(p: PipelineView, frame: Picture)
    requires
        sendable(shown(p, frame)),
    ensures
        after_push(PipelineView { prev: None, pending: seq![], ..p }, frame).pending == seq![
            whole(shown(p, frame)),
        ],
{
    let fresh = PipelineView { prev: None, pending: seq![], ..p };
    law_first_frame_is_sent_whole(fresh, frame);
    assert(fresh.pending.push(whole(shown(p, frame))) =~= seq![whole(shown(p, frame))]);
}

/// A frame of another size than the one before is sent whole.
pub proof fn law_size_change_is_sent_whole(p: PipelineView, frame: Picture)
    requires
        sendable(shown(p, frame)),
        p.prev matches Some(prev) && (prev.width != shown(p, frame).width || prev.height != shown(
            p,
            frame,
        ).height),
    ensures
        after_push(p, frame).pending == p.pending.push(whole(shown(p, frame))),
{
    assert(p.pending + seq![whole(shown(p, frame))] =~= p.pending.push(whole(shown(p, frame))));
}

/// A frame of which more than half has changed is sent as one bitmap.
pub proof fn law_large_change_is_sent_whole(p: PipelineView, frame: Picture)
    requires
        sendable(shown(p, frame)),
        same_size(p.prev, shown(p, frame)),
        area(dirty(p.prev->Some_0, shown(p, frame))) > shown(p, frame).width * shown(
            p,
            frame,
        ).height / 2,
    ensures
        after_push(p, frame).pending == p.pending.push(whole(shown(p, frame))),
{
    assert(area(Seq::<Rect>::empty()) == 0);
    assert(dirty(p.prev->Some_0, shown(p, frame)).len() > 0);
    assert(p.pending + seq![whole(shown(p, frame))] =~= p.pending.push(whole(shown(p, frame))));
}

/// Only changed tiles are sent where they make up no more than half of the
/// picture. That the changed rectangles are told is what
/// [`BgraFramePipeline::push_frame`] ensures.
pub proof fn law_small_change_is_sent_in_parts(
    prev: Picture,
    next: Picture,
    tiles: Set<(int, int)>,
)
    requires
        proper(next),
        prev.width == next.width,
        prev.height == next.height,
        told(prev, next),
        tiles.finite(),
        hold_changed_tiles(tiles, prev, next),
        2 * (4096 * tiles.len()) <= next.width * next.height,
    ensures
        updates_for(Some(prev), next) == parts(whole(next), dirty(prev, next)),
        updates_for(Some(prev), next).len() <= tiles.len(),
        touch_changes_only(updates_for(Some(prev), next), prev, next),
{
    let rects = dirty(prev, next);
    assert forall|i: int, t: (int, int)|
        0 <= i < rects.len() && #[trigger] covers_corner(rects[i], t) implies tiles.contains(t) by {
        assert(rects[i].covers(64 * t.0, 64 * t.1));
        assert(tile_differs(
            prev.data,
            prev.stride as int,
            next.data,
            next.stride as int,
            next.width as int,
            next.height as int,
            64 * t.0,
            64 * t.1,
        ));
        assert((64 * t.0) / 64 == t.0 && (64 * t.1) / 64 == t.1);
    }
    lemma_area_of_tiles(rects, tiles);
    if rects.len() == 0 {
        assert(parts(whole(next), rects) =~= Seq::<BitmapView>::empty());
    }
    lemma_updates_few(prev, next, tiles);
    lemma_dirty_touches_changes(prev, next);
}

/// In native mode frames are shown as they are, whatever the target size.
pub proof fn law_native_ignores_target(p: PipelineView, frame: Picture, size: DesktopSize)
    requires
        p.aspect_mode == AspectMode::Native,
    ensures
        shown(p, frame) == frame,
        after_push(PipelineView { target_size: size, ..p }, frame) == (PipelineView {
            target_size: size,
            ..after_push(p, frame)
        }),
{
}

/// In fit mode what is shown has the target size.
pub proof fn law_fit_has_target_size(p: PipelineView, frame: Picture)
    requires
        p.aspect_mode == AspectMode::Fit,
    ensures
        shown(p, frame).width == p.target_size.width,
        shown(p, frame).height == p.target_size.height,
{
}

/// Drawing updates in two goes is drawing them in one.
proof fn lemma_painted_in_turn(
    a: Seq<BitmapView>,
    b: Seq<BitmapView>,
    x: int,
    y: int,
    before: Seq<u8>,
)
    ensures
        painted(a + b, x, y, before) == painted(b, x, y, painted(a, x, y, before)),
    decreases b.len(),
{
    if b.len() == 0 {
        assert(a + b =~= a);
    } else {
        assert((a + b).drop_last() =~= a + b.drop_last());
        assert((a + b).last() == b.last());
        lemma_painted_in_turn(a, b.drop_last(), x, y, before);
    }
}

/// Pushing a frame keeps every client in step, where the new updates bring a client
/// from the last frame to the new one.
proof fn lemma_push_in_step(p: PipelineView, frame: Picture)
    requires
        sendable(shown(p, frame)) ==> bring_up_to_date(
            updates_for(p.prev, shown(p, frame)),
            p.prev,
            shown(p, frame),
        ),
    ensures
        forall|screen: spec_fn(int, int) -> Seq<u8>| #[trigger]
            in_step(p, screen) ==> in_step(after_push(p, frame), screen),
{
    let next = shown(p, frame);
    assert forall|screen: spec_fn(int, int) -> Seq<u8>| #[trigger]
        in_step(p, screen) implies in_step(after_push(p, frame), screen) by {
        if sendable(next) {
            let after = after_push(p, frame);
            let updates = updates_for(p.prev, next);
            assert forall|x: int, y: int|
                0 <= x < next.width && 0 <= y < next.height implies #[trigger] painted(
                after.pending,
                x,
                y,
                screen(x, y),
            ) == pixel(next.data, next.stride as int, x, y) by {
                let before = painted(p.pending, x, y, screen(x, y));
                lemma_painted_in_turn(p.pending, updates, x, y, screen(x, y));
                assert(painted(updates, x, y, before) == pixel(
                    next.data,
                    next.stride as int,
                    x,
                    y,
                ));
            }
        }
    }
}

/// A proper frame is accepted after any proper frame, and what is shown for it is
/// proper.
pub proof fn law_proper_frame_is_accepted(p: PipelineView, frame: Picture)
    requires
        proper(frame),
        p.prev matches Some(prev) ==> proper(prev),
        p.target_size.width > 0,
        p.target_size.height > 0,
        p.target_size.width * p.target_size.height * 4 <= isize::MAX,
    ensures
        can_push(p, frame),
        sendable(shown(p, frame)),
        proper(shown(p, frame)),
        after_push(p, frame).prev == Some(shown(p, frame)),
{
    let next = shown(p, frame);
    if needs_letterbox(p, frame.width, frame.height) {
        let w = p.target_size.width as nat;
        let h = p.target_size.height as nat;
        let place = placement(frame.width, frame.height, w, h);
        law_letterbox_inside(frame.width, frame.height, w, h);
        lemma_letterboxed_complete(frame, w, h);
        lemma_complete_fills(frame, place.width, place.height);
    }
}

/// A picture inside its data can be sampled to fill a place on a desktop.
proof fn lemma_complete_fills(frame: Picture, width: nat, height: nat)
    requires
        proper(frame),
        width <= u16::MAX,
        height <= u16::MAX,
    ensures
        frame.can_fill(width, height),
{
    if width > 0 && height > 0 {
        let fw = frame.width as int;
        let fh = frame.height as int;
        let s = frame.stride as int;
        let w = width as int;
        let h = height as int;
        assert(0 <= (w - 1) * fw <= 0xffff * 0xffff && (w - 1) * fw < w * fw) by (nonlinear_arith)
            requires
                1 <= w <= 0xffff,
                1 <= fw <= 0xffff,
        ;
        assert(0 <= (h - 1) * fh <= 0xffff * 0xffff && (h - 1) * fh < h * fh) by (nonlinear_arith)
            requires
                1 <= h <= 0xffff,
                1 <= fh <= 0xffff,
        ;
        let x = sampled(w - 1, frame.width, width);
        let y = sampled(h - 1, frame.height, height);
        assert(0 <= (w - 1) * fw / w < fw) by (nonlinear_arith)
            requires
                w >= 1,
                0 <= (w - 1) * fw < w * fw,
        ;
        assert(0 <= (h - 1) * fh / h < fh) by (nonlinear_arith)
            requires
                h >= 1,
                0 <= (h - 1) * fh < h * fh,
        ;
        assert(y * s <= (fh - 1) * s) by (nonlinear_arith)
            requires
                y <= fh - 1,
                s >= 0,
        ;
    }
}

/// Pushing a frame keeps a client in step: if it would show the last frame once
/// it has drawn what was queued, it will show the new frame once it has drawn
/// what is queued then. No changed pixel is missed.
pub proof fn law_push_keeps_client_in_step(
    p: PipelineView,
    frame: Picture,
    screen: spec_fn(int, int) -> Seq<u8>,
)
    requires
        in_step(p, screen),
        sendable(shown(p, frame)) ==> proper(shown(p, frame)),
        same_size(p.prev, shown(p, frame)) ==> told(p.prev->Some_0, shown(p, frame)),
    ensures
        in_step(after_push(p, frame), screen),
{
    if sendable(shown(p, frame)) {
        lemma_updates_painted(p.prev, shown(p, frame));
    }
    lemma_push_in_step(p, frame);
}

/// Whatever frames are pushed, a client that draws what is queued shows the last
/// one, letterboxed in fit mode. This holds from a new pipeline and from a reset
/// on, whatever the client showed then, as long as the frames are proper. That
/// the changed rectangles are told at every push is what
/// [`BgraFramePipeline::push_frame`] ensures.
pub proof fn law_client_follows_all_frames(
    p: PipelineView,
    frames: Seq<Picture>,
    screen: spec_fn(int, int) -> Seq<u8>,
)
    requires
        p.prev is None,
        p.target_size.width > 0,
        p.target_size.height > 0,
        p.target_size.width * p.target_size.height * 4 <= isize::MAX,
        forall|i: int| 0 <= i < frames.len() ==> proper(#[trigger] frames[i]),
        forall|i: int| 0 <= i < frames.len() ==> #[trigger] told_at(p, frames, i),
    ensures
        forall|i: int|
            0 <= i < frames.len() ==> can_push(
                after_pushes(p, frames.take(i)),
                #[trigger] frames[i],
            ),
        ({
            let after = after_pushes(p, frames);
            &&& in_step(after, screen)
            &&& after.target_size == p.target_size
            &&& after.aspect_mode == p.aspect_mode
            &&& after.prev matches Some(prev) ==> proper(prev)
            &&& frames.len() > 0 ==> {
                let last = shown(p, frames.last());
                &&& after.prev == Some(last)
                &&& forall|x: int, y: int|
                    0 <= x < last.width && 0 <= y < last.height ==> #[trigger] painted(
                        after.pending,
                        x,
                        y,
                        screen(x, y),
                    ) == pixel(last.data, last.stride as int, x, y)
            }
        }),
    decreases frames.len(),
{
    if frames.len() > 0 {
        let before = frames.drop_last();
        let frame = frames.last();
        assert forall|i: int| 0 <= i < before.len() implies proper(#[trigger] before[i]) by {
            assert(before[i] == frames[i]);
        }
        assert(proper(frames[frames.len() - 1]));
        assert forall|i: int| 0 <= i < before.len() implies #[trigger] told_at(p, before, i) by {
            assert(told_at(p, frames, i));
        }
        assert(told_at(p, frames, frames.len() - 1));
        law_client_follows_all_frames(p, before, screen);
        let q = after_pushes(p, before);
        law_proper_frame_is_accepted(q, frame);
        assert(shown(q, frame) == shown(p, frame));
        law_push_keeps_client_in_step(q, frame, screen);
        assert(after_pushes(p, frames) == after_push(q, frame));
        assert forall|i: int| 0 <= i < frames.len() implies can_push(
            after_pushes(p, frames.take(i)),
            #[trigger] frames[i],
        ) by {
            if i < before.len() {
                assert(frames.take(i) =~= before.take(i));
                assert(before[i] == frames[i]);
            } else {
                assert(frames.take(i) =~= before);
            }
        }
    }
}

/// Drawing the oldest queued update keeps a client in step.
pub proof fn law_drain_keeps_client_in_step(p: PipelineView, screen: spec_fn(int, int) -> Seq<u8>)
    requires
        in_step(p, screen),
        p.pending.len() > 0,
    ensures
        in_step(
            PipelineView { pending: p.pending.drop_first(), ..p },
            |x: int, y: int| painted(seq![p.pending[0]], x, y, screen(x, y)),
        ),
{
    let first = seq![p.pending[0]];
    let rest = p.pending.drop_first();
    let drawn = |x: int, y: int| painted(first, x, y, screen(x, y));
    if p.prev is Some {
        let prev = p.prev->Some_0;
        assert forall|x: int, y: int| 0 <= x < prev.width && 0 <= y < prev.height implies #[trigger] painted(
            rest,
            x,
            y,
            drawn(x, y),
        ) == pixel(prev.data, prev.stride as int, x, y) by {
            lemma_painted_in_turn(first, rest, x, y, screen(x, y));
            assert(first + rest =~= p.pending);
            assert(painted(p.pending, x, y, screen(x, y)) == pixel(
                prev.data,
                prev.stride as int,
                x,
                y,
            ));
        }
    }
}

/// A client that has drawn everything shows the last frame.
pub proof fn law_drained_client_shows_last_frame(
    p: PipelineView,
    screen: spec_fn(int, int) -> Seq<u8>,
    x: int,
    y: int,
)
    requires
        in_step(p, screen),
        p.pending.len() == 0,
        p.prev matches Some(prev) && 0 <= x < prev.width && 0 <= y < prev.height,
    ensures
        screen(x, y) == pixel(p.prev->Some_0.data, p.prev->Some_0.stride as int, x, y),
{
    assert(painted(p.pending, x, y, screen(x, y)) == screen(x, y));
}

/// In fit mode a frame of the target size, in width and in height, is shown as
/// it is; any other is drawn on a desktop of the target size.
pub proof fn law_fitting_frame_is_shown_as_it_is(p: PipelineView, frame: Picture)
    ensures
        frame.width == p.target_size.width && frame.height == p.target_size.height ==> shown(
            p,
            frame,
        ) == frame,
        p.aspect_mode == AspectMode::Fit && !(frame.width == p.target_size.width && frame.height
            == p.target_size.height) ==> shown(p, frame) == letterboxed(
            frame,
            p.target_size.width as nat,
            p.target_size.height as nat,
        ),
{
}

/// A push only adds to the queue: what was queued stays queued first. The
/// settings of the pipeline stay as they are.
pub proof fn law_push_keeps_the_queue(p: PipelineView, frame: Picture)
    ensures
        ({
            let after = after_push(p, frame);
            &&& p.pending.len() <= after.pending.len()
            &&& after.pending.take(p.pending.len() as int) == p.pending
            &&& after.target_size == p.target_size
            &&& after.aspect_mode == p.aspect_mode
        }),
{
    assert(after_push(p, frame).pending.take(p.pending.len() as int) =~= p.pending);
}

/// A frame that shows no pixels is dropped: nothing is queued, and the next
/// frame is compared with the one before.
pub proof fn law_empty_frame_is_dropped(p: PipelineView, frame: Picture)
    requires
        shown(p, frame).width == 0 || shown(p, frame).height == 0 || shown(p, frame).stride == 0,
    ensures
        after_push(p, frame) == p,
{
}

/// A picture that is sent whole starts at the origin and has its own size and
/// pixels.
pub proof fn law_whole_picture(picture: Picture)
    requires
        picture.width <= u16::MAX,
        picture.height <= u16::MAX,
    ensures
        ({
            let b = whole(picture);
            &&& b.x == 0
            &&& b.y == 0
            &&& b.width == picture.width
            &&& b.height == picture.height
            &&& b.stride == picture.stride
            &&& b.data == picture.data
        }),
{
}

/// The area of rectangles is that of each, added up.
pub proof fn law_area_adds_up(rects: Seq<Rect>, r: Rect)
    ensures
        area(rects.push(r)) == area(rects) + r.width * r.height,
        area(Seq::<Rect>::empty()) == 0,
{
    assert(rects.push(r).drop_last() =~= rects);
}

/// The parts of a bitmap come in the order of their rectangles, one for each
/// rectangle that lies on the bitmap, at its place and of its size.
pub proof fn law_parts_come_in_order(b: BitmapView, rects: Seq<Rect>)
    requires
        b.x == 0,
        b.y == 0,
        b.width <= u16::MAX,
        b.height <= u16::MAX,
        forall|i: int|
            0 <= i < rects.len() ==> {
                let r = #[trigger] rects[i];
                &&& 0 < r.width
                &&& 0 < r.height
                &&& r.x + r.width <= b.width
                &&& r.y + r.height <= b.height
            },
    ensures
        parts(b, rects).len() == rects.len(),
        forall|i: int|
            0 <= i < rects.len() ==> {
                let part = #[trigger] parts(b, rects)[i];
                &&& part.x == rects[i].x
                &&& part.y == rects[i].y
                &&& part.width == rects[i].width
                &&& part.height == rects[i].height
                &&& part.stride == b.stride
            },
    decreases rects.len(),
{
    if rects.len() > 0 {
        let before = rects.drop_last();
        assert forall|i: int| 0 <= i < before.len() implies {
            let r = #[trigger] before[i];
            &&& 0 < r.width
            &&& 0 < r.height
            &&& r.x + r.width <= b.width
            &&& r.y + r.height <= b.height
        } by {
            assert(before[i] == rects[i]);
        }
        law_parts_come_in_order(b, before);
        let r = rects[rects.len() - 1];
        assert(r == rects.last());
        assert(on_bitmap(b, r));
        assert forall|i: int| 0 <= i < rects.len() implies {
            let part = #[trigger] parts(b, rects)[i];
            &&& part.x == rects[i].x
            &&& part.y == rects[i].y
            &&& part.width == rects[i].width
            &&& part.height == rects[i].height
            &&& part.stride == b.stride
        } by {
            if i < before.len() {
                assert(parts(b, rects)[i] == parts(b, before)[i]);
            }
        }
    }
}

} // verus!
