//! Which parts of a picture have changed.
use ironrdp_graphics::diff::find_different_rects_sub;
use vstd::prelude::*;
use vstd::set_lib::lemma_len_subset;

verus! {

/// A rectangle of pixels.
#[derive(Debug, Clone, Copy, PartialEq, Eq, Structural)]
pub struct Rect {
    pub x: usize,
    pub y: usize,
    pub width: usize,
    pub height: usize,
}

impl Rect {
    /// The pixel at `(x, y)` lies in the rectangle.
    pub open spec fn covers(self, x: int, y: int) -> bool {
        &&& self.x <= x < self.x + self.width
        &&& self.y <= y < self.y + self.height
    }
}

/// The four bytes of the pixel at `(x, y)`.
pub open spec fn pixel(data: Seq<u8>, stride: int, x: int, y: int) -> Seq<u8> {
    data.subrange(y * stride + x * 4, y * stride + x * 4 + 4)
}

/// `height` rows of `width` pixels, `stride` bytes apart, lie inside the data.
pub open spec fn holds_picture(data: Seq<u8>, stride: int, width: int, height: int) -> bool {
    &&& width * 4 <= stride
    &&& (height - 1) * stride + width * 4 <= data.len()
}

/// The side of the square tiles in which pictures are compared.
pub open spec fn tile_side() -> int {
    64
}

/// Some pixel in the tile that holds `(x, y)` differs between the two pictures.
pub open spec fn tile_differs(
    image1: Seq<u8>,
    stride1: int,
    image2: Seq<u8>,
    stride2: int,
    width: int,
    height: int,
    x: int,
    y: int,
) -> bool {
    exists|qx: int, qy: int|
        {
            &&& 0 <= qx < width
            &&& 0 <= qy < height
            &&& qx / tile_side() == x / tile_side()
            &&& qy / tile_side() == y / tile_side()
            &&& #[trigger] pixel(image1, stride1, qx, qy) != pixel(image2, stride2, qx, qy)
        }
}

/// The rectangle is made of whole tiles, cut off at the edge of the picture.
pub open spec fn made_of_tiles(r: Rect, width: int, height: int) -> bool {
    &&& r.x % 64 == 0
    &&& r.y % 64 == 0
    &&& (r.x + r.width) % 64 == 0 || r.x + r.width == width
    &&& (r.y + r.height) % 64 == 0 || r.y + r.height == height
}

/// The rectangles lie inside the picture, are made of whole tiles, do not
/// overlap, and together are the tiles in which the two pictures differ.
pub open spec fn tell_differences(
    rects: Seq<Rect>,
    image1: Seq<u8>,
    stride1: int,
    image2: Seq<u8>,
    stride2: int,
    width: int,
    height: int,
) -> bool {
    &&& forall|i: int|
        0 <= i < rects.len() ==> {
            let r = #[trigger] rects[i];
            &&& 0 < r.width
            &&& 0 < r.height
            &&& r.x + r.width <= width
            &&& r.y + r.height <= height
            &&& made_of_tiles(r, width, height)
        }
    &&& forall|i: int, j: int, x: int, y: int|
        0 <= i < j < rects.len() ==> !(#[trigger] rects[i].covers(x, y)
            && #[trigger] rects[j].covers(x, y))
    &&& forall|x: int, y: int|
        0 <= x < width && 0 <= y < height && #[trigger] tile_differs(
            image1,
            stride1,
            image2,
            stride2,
            width,
            height,
            x,
            y,
        ) ==> exists|i: int| 0 <= i < rects.len() && #[trigger] rects[i].covers(x, y)
    &&& forall|i: int, x: int, y: int|
        0 <= i < rects.len() && #[trigger] rects[i].covers(x, y) ==> tile_differs(
            image1,
            stride1,
            image2,
            stride2,
            width,
            height,
            x,
            y,
        )
}

/// Every tile in which the two pictures differ is in the set. A tile is told by
/// its column and row.
pub open spec fn hold_changes(
    tiles: Set<(int, int)>,
    image1: Seq<u8>,
    stride1: int,
    image2: Seq<u8>,
    stride2: int,
    width: int,
    height: int,
) -> bool {
    forall|x: int, y: int|
        0 <= x < width && 0 <= y < height && #[trigger] tile_differs(
            image1,
            stride1,
            image2,
            stride2,
            width,
            height,
            x,
            y,
        ) ==> tiles.contains((x / tile_side(), y / tile_side()))
}

/// The rectangles in which two pictures of the same size differ.
pub uninterp spec fn different_rects(
    image1: Seq<u8>,
    stride1: int,
    image2: Seq<u8>,
    stride2: int,
    width: int,
    height: int,
) -> Seq<Rect>;

/// `ironrdp_graphics::diff::find_different_rects_sub::<4>` on two pictures of
/// the same size, at offset `(0, 0)`.
///
/// The rectangles depend on the arguments alone. They are made of whole tiles
/// of 64 by 64 pixels, cut off at the edge of the picture; a tile belongs to
/// exactly one of them if some byte of it differs, and to none otherwise. How
/// neighbouring tiles are put together is left to the name. The function
/// panics where a picture does not lie inside its data.
#[verifier::external_body]
pub(crate) fn find_different_rects(
    image1: &[u8],
    stride1: usize,
    image2: &[u8],
    stride2: usize,
    width: usize,
    height: usize,
) -> (rects: Vec<Rect>)
    requires
        width > 0,
        height > 0,
        holds_picture(image1@, stride1 as int, width as int, height as int),
        holds_picture(image2@, stride2 as int, width as int, height as int),
    ensures
        rects@ == different_rects(
            image1@,
            stride1 as int,
            image2@,
            stride2 as int,
            width as int,
            height as int,
        ),
        tell_differences(
            rects@,
            image1@,
            stride1 as int,
            image2@,
            stride2 as int,
            width as int,
            height as int,
        ),
{
    find_different_rects_sub::<4>(
        image1, stride1, width, height, image2, stride2, width, height, 0, 0,
    )
    .into_iter()
    .map(|r| Rect { x: r.x, y: r.y, width: r.width, height: r.height })
    .collect()
}

/// Rectangles that tell the differences leave out no pixel that differs.
pub proof fn lemma_difference_covered(
    rects: Seq<Rect>,
    image1: Seq<u8>,
    stride1: int,
    image2: Seq<u8>,
    stride2: int,
    width: int,
    height: int,
    x: int,
    y: int,
) -> (i: int)
    requires
        tell_differences(rects, image1, stride1, image2, stride2, width, height),
        0 <= x < width,
        0 <= y < height,
        pixel(image1, stride1, x, y) != pixel(image2, stride2, x, y),
    ensures
        0 <= i < rects.len(),
        rects[i].covers(x, y),
{
    assert(tile_differs(image1, stride1, image2, stride2, width, height, x, y));
    choose|i: int| 0 <= i < rects.len() && #[trigger] rects[i].covers(x, y)
}

/// Where two pictures agree there is nothing to tell.
pub proof fn lemma_no_difference(
    rects: Seq<Rect>,
    image1: Seq<u8>,
    stride1: int,
    image2: Seq<u8>,
    stride2: int,
    width: int,
    height: int,
)
    requires
        tell_differences(rects, image1, stride1, image2, stride2, width, height),
        forall|x: int, y: int|
            0 <= x < width && 0 <= y < height ==> #[trigger] pixel(image1, stride1, x, y) == pixel(
                image2,
                stride2,
                x,
                y,
            ),
    ensures
        rects.len() == 0,
{
    if rects.len() > 0 {
        let r = rects[0];
        assert(rects[0].covers(r.x as int, r.y as int));
        assert(tile_differs(
            image1,
            stride1,
            image2,
            stride2,
            width,
            height,
            r.x as int,
            r.y as int,
        ));
    }
}

/// There are no more rectangles than tiles in which the pictures differ.
pub proof fn lemma_no_more_than_tiles(
    rects: Seq<Rect>,
    image1: Seq<u8>,
    stride1: int,
    image2: Seq<u8>,
    stride2: int,
    width: int,
    height: int,
    tiles: Set<(int, int)>,
)
    requires
        tell_differences(rects, image1, stride1, image2, stride2, width, height),
        hold_changes(tiles, image1, stride1, image2, stride2, width, height),
        tiles.finite(),
    ensures
        rects.len() <= tiles.len(),
{
    let corners = Seq::new(
        rects.len(),
        |i: int| (rects[i].x as int / tile_side(), rects[i].y as int / tile_side()),
    );
    assert forall|i: int, j: int| 0 <= i < j < corners.len() implies corners[i] != corners[j] by {
        let a = rects[i];
        let b = rects[j];
        if corners[i] == corners[j] {
            assert(a.x == b.x && a.y == b.y);
            assert(rects[i].covers(a.x as int, a.y as int));
            assert(rects[j].covers(a.x as int, a.y as int));
        }
    }
    assert(corners.no_duplicates());
    corners.unique_seq_to_set();
    assert forall|t: (int, int)| #[trigger] corners.to_set().contains(t) implies tiles.contains(
        t,
    ) by {
        let i = choose|i: int| 0 <= i < corners.len() && corners[i] == t;
        let r = rects[i];
        assert(rects[i].covers(r.x as int, r.y as int));
        assert(tile_differs(
            image1,
            stride1,
            image2,
            stride2,
            width,
            height,
            r.x as int,
            r.y as int,
        ));
    }
    lemma_len_subset(corners.to_set(), tiles);
}

} // verus!
