//! Frames of a remote desktop and the rectangles that update them.

use vstd::arithmetic::div_mod::{lemma_fundamental_div_mod, lemma_fundamental_div_mod_converse};
use vstd::prelude::*;

verus! {

/// The size of a desktop in pixels.
#[derive(Clone, Copy, Debug, PartialEq, Eq, Structural)]
pub struct RemoteDesktopSize {
    pub width: u32,
    pub height: u32,
}

/// A rectangle of a desktop in pixels.
#[derive(Clone, Copy, Debug, PartialEq, Eq, Structural)]
pub struct RemoteDesktopRect {
    pub x: u32,
    pub y: u32,
    pub width: u32,
    pub height: u32,
}

/// How pixels are written: four bytes, red first.
#[derive(Clone, Copy, Debug, PartialEq, Eq, Structural)]
pub enum RemoteDesktopFrameFormat {
    Rgba8,
}

impl RemoteDesktopRect {
    pub fn new(x: u32, y: u32, width: u32, height: u32) -> (r: Self)
        ensures
            r == (RemoteDesktopRect { x, y, width, height }),
    {
        RemoteDesktopRect { x, y, width, height }
    }

    /// Whether the pixel at column `x` and row `y` lies in the rectangle.
    pub open spec fn has(self, x: int, y: int) -> bool {
        self.x <= x < self.x + self.width && self.y <= y < self.y + self.height
    }

    /// Whether the rectangle lies inside another.
    pub open spec fn inside(self, outer: RemoteDesktopRect) -> bool {
        &&& outer.x <= self.x && self.x + self.width <= outer.x + outer.width
        &&& outer.y <= self.y && self.y + self.height <= outer.y + outer.height
    }

    /// The number of bytes that the pixels of the rectangle take.
    pub open spec fn byte_count(self) -> int {
        self.width * self.height * 4
    }

    fn is_inside(&self, outer: &RemoteDesktopRect) -> (r: bool)
        ensures
            r == self.inside(*outer),
    {
        outer.x <= self.x && self.x as u64 + self.width as u64 <= outer.x as u64
            + outer.width as u64 && outer.y <= self.y && self.y as u64 + self.height as u64
            <= outer.y as u64 + outer.height as u64
    }

    /// Whether a buffer holds exactly the pixels of the rectangle.
    fn is_filled_by(&self, len: usize) -> (r: bool)
        ensures
            r == (len == self.byte_count()),
    {
        let w: u128 = self.width as u128;
        let h: u128 = self.height as u128;
        assert(w * h <= 0xffff_ffff * 0xffff_ffff) by (nonlinear_arith)
            requires
                w <= 0xffff_ffff,
                h <= 0xffff_ffff,
        ;
        len as u128 == w * h * 4
    }
}

/// The rectangle that a whole desktop takes.
pub open spec fn whole(size: RemoteDesktopSize) -> RemoteDesktopRect {
    RemoteDesktopRect { x: 0, y: 0, width: size.width, height: size.height }
}

/// The byte at `i` of a buffer over `area` after the pixels of `part` were drawn into it.
pub open spec fn drawn_byte(
    area: RemoteDesktopRect,
    old_bytes: Seq<u8>,
    part: RemoteDesktopRect,
    new_bytes: Seq<u8>,
    i: int,
) -> u8 {
    let x = area.x + (i / 4) % (area.width as int);
    let y = area.y + (i / 4) / (area.width as int);
    if part.has(x, y) {
        new_bytes[((y - part.y) * part.width + (x - part.x)) * 4 + i % 4]
    } else {
        old_bytes[i]
    }
}

/// A buffer over `area` after the pixels of `part` were drawn into it.
pub open spec fn drawn(
    area: RemoteDesktopRect,
    old_bytes: Seq<u8>,
    part: RemoteDesktopRect,
    new_bytes: Seq<u8>,
) -> Seq<u8> {
    Seq::new(old_bytes.len(), |i: int| drawn_byte(area, old_bytes, part, new_bytes, i))
}

/// Whether the pixel of byte `i` comes before row `row` and column `col` of `part`.
spec fn is_done(
    area: RemoteDesktopRect,
    part: RemoteDesktopRect,
    i: int,
    row: int,
    col: int,
) -> bool {
    let x = area.x + (i / 4) % (area.width as int);
    let y = area.y + (i / 4) / (area.width as int);
    part.has(x, y) && (y - part.y < row || (y - part.y == row && x - part.x < col))
}

spec fn partly_drawn(
    area: RemoteDesktopRect,
    old_bytes: Seq<u8>,
    part: RemoteDesktopRect,
    new_bytes: Seq<u8>,
    row: int,
    col: int,
) -> Seq<u8> {
    Seq::new(
        old_bytes.len(),
        |i: int|
            if is_done(area, part, i, row, col) {
                drawn_byte(area, old_bytes, part, new_bytes, i)
            } else {
                old_bytes[i]
            },
    )
}

/// The pixel of `area` that row `row` and column `col` of `part` fall on.
spec fn target(area: RemoteDesktopRect, part: RemoteDesktopRect, row: int, col: int) -> int {
    (part.y - area.y + row) * area.width + (part.x - area.x + col)
}

proof fn lemma_target(
    area: RemoteDesktopRect,
    part: RemoteDesktopRect,
    row: int,
    col: int,
)
    requires
        part.inside(area),
        0 <= row < part.height,
        0 <= col < part.width,
    ensures
        0 <= target(area, part, row, col) < area.width * area.height,
        target(area, part, row, col) % (area.width as int) == part.x - area.x + col,
        target(area, part, row, col) / (area.width as int) == part.y - area.y + row,
        0 <= row * part.width + col < part.width * part.height,
{
    let w = area.width as int;
    let y = part.y - area.y + row;
    let x = part.x - area.x + col;
    let q = target(area, part, row, col);
    assert(q == w * y + x) by (nonlinear_arith)
        requires
            q == y * w + x,
    ;
    assert(q == y * w + x);
    lemma_fundamental_div_mod_converse(q, w, y, x);
    assert(0 <= y * w + x < w * area.height) by (nonlinear_arith)
        requires
            0 <= y,
            y < area.height,
            0 <= x,
            x < w,
    ;
    assert(0 <= row * part.width + col < part.width * part.height) by (nonlinear_arith)
        requires
            0 <= row,
            row < part.height,
            0 <= col,
            col < part.width,
    ;
}

proof fn lemma_only_target(
    area: RemoteDesktopRect,
    part: RemoteDesktopRect,
    row: int,
    col: int,
    i: int,
)
    requires
        part.inside(area),
        0 <= row < part.height,
        0 <= col < part.width,
        0 <= i,
        area.width > 0,
    ensures
        is_done(area, part, i, row, col + 1) <==> (is_done(area, part, i, row, col) || i / 4
            == target(area, part, row, col)),
        i / 4 == target(area, part, row, col) ==> !is_done(area, part, i, row, col),
{
    lemma_target(area, part, row, col);
    let q = i / 4;
    let w = area.width as int;
    lemma_fundamental_div_mod(q, w);
    let x = q % w;
    let y = q / w;
    assert(q == w * y + x);
    if part.has(area.x + x, area.y + y) && area.y + y - part.y == row && area.x + x - part.x == col {
        assert(w * y == y * w) by (nonlinear_arith);
        assert(q == target(area, part, row, col));
    }
}

/// Draws the pixels of `part` into a buffer over `area`.
fn draw(
    area: &RemoteDesktopRect,
    bytes: &mut Vec<u8>,
    part: &RemoteDesktopRect,
    new_bytes: &Vec<u8>,
)
    requires
        part.inside(*area),
        old(bytes)@.len() == area.byte_count(),
        new_bytes@.len() == part.byte_count(),
    ensures
        final(bytes)@ == drawn(*area, old(bytes)@, *part, new_bytes@),
{
    let ghost start = bytes@;
    let left: usize = (part.x - area.x) as usize;
    let top: usize = (part.y - area.y) as usize;
    let width: usize = part.width as usize;
    let height: usize = part.height as usize;
    let area_width: usize = area.width as usize;
    if width == 0 || height == 0 {
        assert(drawn(*area, start, *part, new_bytes@) =~= start);
        return;
    }
    let mut row: usize = 0;
    let mut source: usize = 0;
    proof {
        assert(partly_drawn(*area, start, *part, new_bytes@, 0, 0) =~= start);
        assert(0 * width == 0);
    }
    while row < height
        invariant
            row <= height,
            part.inside(*area),
            left == part.x - area.x,
            top == part.y - area.y,
            0 < width == part.width,
            0 < height == part.height,
            area_width == area.width,
            start.len() == area.byte_count(),
            new_bytes@.len() == part.byte_count(),
            bytes@ == partly_drawn(*area, start, *part, new_bytes@, row as int, 0),
            source == row * width * 4,
        decreases height - row,
    {
        let mut col: usize = 0;
        while col < width
            invariant
                col <= width,
                row < height,
                part.inside(*area),
                left == part.x - area.x,
                top == part.y - area.y,
                0 < width == part.width,
                0 < height == part.height,
                area_width == area.width,
                start.len() == area.byte_count(),
                new_bytes@.len() == part.byte_count(),
                bytes@ == partly_drawn(*area, start, *part, new_bytes@, row as int, col as int),
                source == (row * width + col) * 4,
            decreases width - col,
        {
            let ghost q = target(*area, *part, row as int, col as int);
            proof {
                lemma_target(*area, *part, row as int, col as int);
                assert((top + row) * area_width + (left + col) == q);
                assert(0 <= (top + row) * area_width) by (nonlinear_arith);
                assert(bytes@.len() == start.len());
                assert(area.byte_count() == area.width * area.height * 4);
                assert(q * 4 + 4 <= bytes.len());
                assert(part.byte_count() == part.width * part.height * 4);
                assert(source + 4 <= new_bytes.len());
            }
            let at: usize = ((top + row) * area_width + (left + col)) * 4;
            let ghost before = bytes@;
            bytes.set(at, new_bytes[source]);
            bytes.set(at + 1, new_bytes[source + 1]);
            bytes.set(at + 2, new_bytes[source + 2]);
            bytes.set(at + 3, new_bytes[source + 3]);
            proof {
                let next = partly_drawn(*area, start, *part, new_bytes@, row as int, col + 1);
                assert forall|i: int| 0 <= i < bytes@.len() implies bytes@[i] == next[i] by {
                    lemma_only_target(*area, *part, row as int, col as int, i);
                    if i / 4 == q {
                        assert(at <= i < at + 4);
                        assert(i % 4 == i - at);
                        assert(bytes@[i] == new_bytes@[source + (i - at)]);
                        assert(is_done(*area, *part, i, row as int, col + 1));
                        assert(drawn_byte(*area, start, *part, new_bytes@, i) == new_bytes@[(row
                            * part.width + col) * 4 + i % 4]);
                    } else {
                        assert(!(at <= i < at + 4));
                        assert(bytes@[i] == before[i]);
                    }
                }
                assert(bytes@ =~= next);
            }
            col = col + 1;
            source = source + 4;
        }
        proof {
            let here = partly_drawn(*area, start, *part, new_bytes@, row as int, width as int);
            let next = partly_drawn(*area, start, *part, new_bytes@, row + 1, 0);
            assert(here =~= next);
            assert((row * width + width) * 4 == (row + 1) * width * 4) by (nonlinear_arith);
        }
        row = row + 1;
    }
    assert(bytes@ =~= drawn(*area, start, *part, new_bytes@));
}

/// The picture of a whole desktop.
#[derive(Debug, PartialEq, Eq)]
pub struct RemoteDesktopFrame {
    pub size: RemoteDesktopSize,
    pub format: RemoteDesktopFrameFormat,
    pub graphics_epoch: u64,
    pub bytes: Vec<u8>,
}

/// New pixels for a part of a desktop.
#[derive(Debug, PartialEq, Eq)]
pub struct RemoteDesktopFrameUpdate {
    pub size: RemoteDesktopSize,
    pub rect: RemoteDesktopRect,
    pub format: RemoteDesktopFrameFormat,
    pub graphics_epoch: u64,
    pub bytes: Vec<u8>,
}

#[verifier::ext_equal]
pub struct FrameView {
    pub size: RemoteDesktopSize,
    pub format: RemoteDesktopFrameFormat,
    pub graphics_epoch: u64,
    pub bytes: Seq<u8>,
}

#[verifier::ext_equal]
pub struct UpdateView {
    pub size: RemoteDesktopSize,
    pub rect: RemoteDesktopRect,
    pub format: RemoteDesktopFrameFormat,
    pub graphics_epoch: u64,
    pub bytes: Seq<u8>,
}

impl View for RemoteDesktopFrame {
    type V = FrameView;

    open spec fn view(&self) -> FrameView {
        FrameView {
            size: self.size,
            format: self.format,
            graphics_epoch: self.graphics_epoch,
            bytes: self.bytes@,
        }
    }
}

impl View for RemoteDesktopFrameUpdate {
    type V = UpdateView;

    open spec fn view(&self) -> UpdateView {
        UpdateView {
            size: self.size,
            rect: self.rect,
            format: self.format,
            graphics_epoch: self.graphics_epoch,
            bytes: self.bytes@,
        }
    }
}

/// Whether a frame holds all its pixels.
pub open spec fn is_full(frame: FrameView) -> bool {
    frame.bytes.len() == whole(frame.size).byte_count()
}

/// Whether an update lies on its desktop and holds all its pixels.
pub open spec fn is_sound(update: UpdateView) -> bool {
    update.rect.inside(whole(update.size)) && update.bytes.len() == update.rect.byte_count()
}

/// Whether an update can be drawn into a frame: they belong to the same desktop and lineage, and
/// both hold their pixels.
pub open spec fn fits(frame: FrameView, update: UpdateView) -> bool {
    &&& frame.size == update.size && frame.format == update.format && frame.graphics_epoch
        == update.graphics_epoch
    &&& is_full(frame)
    &&& is_sound(update)
}

/// A frame after a fitting update.
pub open spec fn updated(frame: FrameView, update: UpdateView) -> FrameView {
    FrameView {
        bytes: drawn(whole(frame.size), frame.bytes, update.rect, update.bytes),
        ..frame
    }
}

/// Whether two updates can become one: one of the rectangles holds the other.
pub open spec fn joins(first: UpdateView, second: UpdateView) -> bool {
    &&& first.size == second.size && first.format == second.format && first.graphics_epoch
        == second.graphics_epoch
    &&& is_sound(first)
    &&& is_sound(second)
    &&& first.rect.inside(second.rect) || second.rect.inside(first.rect)
}

/// One update in place of two: the later pixels over the earlier ones.
pub open spec fn merged(first: UpdateView, second: UpdateView) -> UpdateView {
    if first.rect.inside(second.rect) {
        second
    } else {
        UpdateView { bytes: drawn(first.rect, first.bytes, second.rect, second.bytes), ..first }
    }
}

impl RemoteDesktopFrame {
    pub fn new(size: RemoteDesktopSize, format: RemoteDesktopFrameFormat, bytes: Vec<u8>) -> (r: Self)
        ensures
            r == (RemoteDesktopFrame { size, format, graphics_epoch: 0, bytes }),
    {
        RemoteDesktopFrame { size, format, graphics_epoch: 0, bytes }
    }

    /// Draws an update into the frame; one that does not fit is refused and changes nothing.
    pub fn apply_update(&mut self, update: &RemoteDesktopFrameUpdate) -> (applied: bool)
        ensures
            applied == fits(old(self)@, update@),
            final(self)@ == (if applied {
                updated(old(self)@, update@)
            } else {
                old(self)@
            }),
    {
        let area = RemoteDesktopRect::new(0, 0, self.size.width, self.size.height);
        if self.size != update.size || self.format != update.format || self.graphics_epoch
            != update.graphics_epoch || !area.is_filled_by(self.bytes.len())
            || !update.rect.is_inside(&area) || !update.rect.is_filled_by(update.bytes.len()) {
            return false;
        }
        draw(&area, &mut self.bytes, &update.rect, &update.bytes);
        true
    }
}

impl RemoteDesktopFrameUpdate {
    pub fn new(
        size: RemoteDesktopSize,
        rect: RemoteDesktopRect,
        format: RemoteDesktopFrameFormat,
        bytes: Vec<u8>,
    ) -> (r: Self)
        ensures
            r == (RemoteDesktopFrameUpdate { size, rect, format, graphics_epoch: 0, bytes }),
    {
        RemoteDesktopFrameUpdate { size, rect, format, graphics_epoch: 0, bytes }
    }

    fn holds_its_pixels(&self) -> (r: bool)
        ensures
            r == is_sound(self@),
    {
        let area = RemoteDesktopRect::new(0, 0, self.size.width, self.size.height);
        self.rect.is_inside(&area) && self.rect.is_filled_by(self.bytes.len())
    }

    /// Takes a later update into this one; where they cannot become one, nothing changes.
    pub fn merge(&mut self, later: &RemoteDesktopFrameUpdate) -> (joined: bool)
        ensures
            joined == joins(old(self)@, later@),
            final(self)@ == (if joined {
                merged(old(self)@, later@)
            } else {
                old(self)@
            }),
    {
        if self.size != later.size || self.format != later.format || self.graphics_epoch
            != later.graphics_epoch || !self.holds_its_pixels() || !later.holds_its_pixels() {
            return false;
        }
        if self.rect.is_inside(&later.rect) {
            self.rect = later.rect;
            self.bytes = copy_bytes(&later.bytes);
            return true;
        }
        if later.rect.is_inside(&self.rect) {
            draw(&self.rect, &mut self.bytes, &later.rect, &later.bytes);
            return true;
        }
        false
    }
}

fn copy_bytes(bytes: &Vec<u8>) -> (r: Vec<u8>)
    ensures
        r@ == bytes@,
{
    let mut out: Vec<u8> = Vec::new();
    let mut i: usize = 0;
    while i < bytes.len()
        invariant
            i <= bytes.len(),
            out@ == bytes@.take(i as int),
        decreases bytes.len() - i,
    {
        out.push(bytes[i]);
        assert(bytes@.take(i as int).push(bytes@[i as int]) == bytes@.take(i + 1));
        i = i + 1;
    }
    assert(bytes@.take(i as int) == bytes@);
    out
}

proof fn lemma_redrawn(
    first: UpdateView,
    second: UpdateView,
    x: int,
    y: int,
    c: int,
)
    requires
        is_sound(first),
        second.rect.inside(first.rect),
        first.rect.has(x, y),
        0 <= c < 4,
    ensures
        ({
            let j = ((y - first.rect.y) * first.rect.width + (x - first.rect.x)) * 4 + c;
            &&& 0 <= j < first.bytes.len()
            &&& drawn(first.rect, first.bytes, second.rect, second.bytes)[j] == (
            if second.rect.has(x, y) {
                second.bytes[((y - second.rect.y) * second.rect.width + (x - second.rect.x)) * 4
                    + c]
            } else {
                first.bytes[j]
            })
        }),
{
    let w = first.rect.width as int;
    let h = first.rect.height as int;
    let row = y - first.rect.y;
    let col = x - first.rect.x;
    let k = row * w + col;
    let j = k * 4 + c;
    assert(0 <= k < w * h) by (nonlinear_arith)
        requires
            0 <= row,
            row < h,
            0 <= col,
            col < w,
            k == row * w + col,
    ;
    lemma_fundamental_div_mod_converse(k, w, row, col);
    assert(j / 4 == k);
    assert(j % 4 == c);
}

/// Drawing a merged update gives the same frame as drawing the two updates one after the other.
pub proof fn law_merge_keeps_the_picture(frame: FrameView, first: UpdateView, second: UpdateView)
    requires
        joins(first, second),
        fits(frame, first),
    ensures
        fits(updated(frame, first), second),
        fits(frame, merged(first, second)),
        updated(frame, merged(first, second)) == updated(updated(frame, first), second),
{
    let area = whole(frame.size);
    let once = updated(frame, merged(first, second)).bytes;
    let twice = updated(updated(frame, first), second).bytes;
    if !first.rect.inside(second.rect) {
        assert(merged(first, second).bytes.len() == first.bytes.len());
    }
    assert forall|i: int| 0 <= i < frame.bytes.len() implies once[i] == twice[i] by {
        let x = area.x + (i / 4) % (area.width as int);
        let y = area.y + (i / 4) / (area.width as int);
        if first.rect.inside(second.rect) {
            if !second.rect.has(x, y) {
                assert(!first.rect.has(x, y));
            }
        } else if first.rect.has(x, y) {
            lemma_redrawn(first, second, x, y, i % 4);
        } else {
            assert(!second.rect.has(x, y));
        }
    }
    assert(once =~= twice);
}

/// Drawing goes pixel by pixel: a pixel of the drawn part has its new colour, any other keeps the
/// one it had. The rows of a picture follow each other, with four bytes for each pixel.
pub proof fn law_pixels_are_drawn_in_place(
    area: RemoteDesktopRect,
    old_bytes: Seq<u8>,
    part: RemoteDesktopRect,
    new_bytes: Seq<u8>,
    x: int,
    y: int,
    channel: int,
)
    requires
        area.has(x, y),
        0 <= channel < 4,
        old_bytes.len() == area.byte_count(),
    ensures
        ({
            let at = ((y - area.y) * area.width + (x - area.x)) * 4 + channel;
            let from = ((y - part.y) * part.width + (x - part.x)) * 4 + channel;
            &&& 0 <= at < old_bytes.len()
            &&& part.x <= x < part.x + part.width && part.y <= y < part.y + part.height ==> drawn(
                area,
                old_bytes,
                part,
                new_bytes,
            )[at] == new_bytes[from]
            &&& !(part.x <= x < part.x + part.width && part.y <= y < part.y + part.height)
                ==> drawn(area, old_bytes, part, new_bytes)[at] == old_bytes[at]
        }),
        drawn(area, old_bytes, part, new_bytes).len() == old_bytes.len(),
{
    let w = area.width as int;
    let row = y - area.y;
    let col = x - area.x;
    let k = row * w + col;
    let at = k * 4 + channel;
    lemma_fundamental_div_mod_converse(at, 4, k, channel);
    assert(k == w * row + col) by (nonlinear_arith)
        requires
            k == row * w + col,
    ;
    lemma_fundamental_div_mod_converse(k, w, row, col);
    assert(0 <= k < w * area.height) by (nonlinear_arith)
        requires
            k == row * w + col,
            0 <= row < area.height,
            0 <= col < w,
    ;
    assert(area.byte_count() == (w * area.height) * 4);
}

/// A desktop starts at its upper left corner; a picture is full where it has four bytes for each
/// of its pixels.
pub proof fn law_pictures_have_four_bytes_for_a_pixel(frame: FrameView, update: UpdateView)
    ensures
        whole(frame.size).x == 0 && whole(frame.size).y == 0,
        whole(frame.size).width == frame.size.width,
        whole(frame.size).height == frame.size.height,
        is_full(frame) <==> frame.bytes.len() == frame.size.width * frame.size.height * 4,
        is_sound(update) <==> update.rect.x + update.rect.width <= update.size.width && update.rect.y
            + update.rect.height <= update.size.height && update.bytes.len() == update.rect.width
            * update.rect.height * 4,
{
}

/// An update is drawn only into a full picture of the same size, form and lineage; it changes
/// the pixels and nothing else.
pub proof fn law_updates_fit_their_picture(frame: FrameView, update: UpdateView)
    ensures
        fits(frame, update) <==> frame.size == update.size && frame.format == update.format
            && frame.graphics_epoch == update.graphics_epoch && is_full(frame) && is_sound(update),
        updated(frame, update).size == frame.size,
        updated(frame, update).format == frame.format,
        updated(frame, update).graphics_epoch == frame.graphics_epoch,
        updated(frame, update).bytes.len() == frame.bytes.len(),
{
}

/// Two updates become one only where one of their rectangles holds the other; the merged one has
/// the larger of them.
pub proof fn law_nested_updates_are_joined(first: UpdateView, second: UpdateView)
    ensures
        joins(first, second) ==> first.size == second.size && first.format == second.format
            && first.graphics_epoch == second.graphics_epoch && (first.rect.inside(second.rect)
            || second.rect.inside(first.rect)),
        joins(first, second) && first.rect.inside(second.rect) ==> merged(first, second) == second,
        joins(first, second) && !first.rect.inside(second.rect) ==> merged(first, second).rect
            == first.rect && merged(first, second).bytes.len() == first.bytes.len()
            && merged(first, second).graphics_epoch == first.graphics_epoch,
        joins(first, second) ==> joins(second, first),
{
}

} // verus!
