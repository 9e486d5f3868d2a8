//! Tiling of the compositor's windows: one window fills the screen; several
//! windows share it as equal columns, the last column taking the remainder.

use vstd::prelude::*;

verus! {

/// Where one tiled window goes and how it is configured.
#[derive(Clone, Copy, Debug)]
pub struct TileGeometry {
    pub x: i32,
    pub y: i32,
    pub width: i32,
    pub height: i32,
    /// Whether the window is put in the fullscreen state (else that state is cleared).
    pub fullscreen: bool,
    /// Whether the window is raised to the top when it is mapped.
    pub raise: bool,
}

/// Rust's integer division, which rounds toward zero.
pub open spec fn trunc_div(a: int, b: int) -> int
    recommends
        b > 0,
{
    if a >= 0 {
        a / b
    } else {
        -((-a) / b)
    }
}

/// The geometry of window `i` of `n` on a `w` by `h` screen.
pub open spec fn tile_spec(w: int, h: int, n: int, i: int) -> (int, int, int, int, bool, bool) {
    if n == 1 {
        (0, 0, w, h, true, true)
    } else {
        let col = trunc_div(w, n);
        let x = i * col;
        let width = if i + 1 == n {
            w - x
        } else {
            col
        };
        (x, 0, width, h, false, i + 1 == n)
    }
}

pub open spec fn tile_view(t: TileGeometry) -> (int, int, int, int, bool, bool) {
    (t.x as int, t.y as int, t.width as int, t.height as int, t.fullscreen, t.raise)
}

proof fn lemma_column_bounds(w: int, n: int, i: int)
    requires
        n >= 1,
        0 <= i < n,
    ensures
        w >= 0 ==> 0 <= i * trunc_div(w, n) <= w,
        w < 0 ==> w <= i * trunc_div(w, n) <= 0,
{
    if w >= 0 {
        assert(0 <= i * (w / n) <= w) by (nonlinear_arith)
            requires
                w >= 0,
                n >= 1,
                0 <= i < n,
        ;
    } else {
        let v = -w;
        assert(0 <= i * (v / n) <= v) by (nonlinear_arith)
            requires
                v > 0,
                n >= 1,
                0 <= i < n,
        ;
        assert(i * (-(v / n)) == -(i * (v / n))) by (nonlinear_arith);
    }
}

/// The geometry of `n` windows tiled on a `screen_w` by `screen_h` screen, in
/// window order.
pub fn retile_geometry(screen_w: i32, screen_h: i32, n: usize) -> (r: Vec<TileGeometry>)
    requires
        n <= i32::MAX,
    ensures
        r@.len() == n,
        forall|i: int|
            0 <= i < n ==> #[trigger] tile_view(r@[i]) == tile_spec(
                screen_w as int,
                screen_h as int,
                n as int,
                i,
            ),
{
    let mut r: Vec<TileGeometry> = Vec::new();
    if n == 0 {
        return r;
    }
    if n == 1 {
        r.push(
            TileGeometry {
                x: 0,
                y: 0,
                width: screen_w,
                height: screen_h,
                fullscreen: true,
                raise: true,
            },
        );
        return r;
    }
    let nn = n as i32;
    let col_w = screen_w / nn;
    proof {
        assert(col_w == trunc_div(screen_w as int, n as int));
    }
    let mut index: usize = 0;
    while index < n
        invariant
            n >= 2,
            n <= i32::MAX,
            nn == n,
            col_w == trunc_div(screen_w as int, n as int),
            index <= n,
            r@.len() == index,
            forall|i: int|
                0 <= i < index ==> #[trigger] tile_view(r@[i]) == tile_spec(
                    screen_w as int,
                    screen_h as int,
                    n as int,
                    i,
                ),
        decreases n - index,
    {
        proof {
            lemma_column_bounds(screen_w as int, n as int, index as int);
        }
        let x = (index as i32) * col_w;
        let last = index + 1 == n;
        let w = if last {
            screen_w - x
        } else {
            col_w
        };
        r.push(TileGeometry { x, y: 0, width: w, height: screen_h, fullscreen: false, raise: last });
        index = index + 1;
    }
    r
}

/// With a screen of non-negative width, the tiled windows fill the width
/// from the left edge, each starting where the one before it ends.
pub proof fn lemma_tiles_fill_width(w: int, h: int, n: int)
    requires
        w >= 0,
        n >= 1,
    ensures
        tile_spec(w, h, n, 0).0 == 0,
        forall|i: int|
            0 <= i < n - 1 ==> #[trigger] tile_spec(w, h, n, i + 1).0 == tile_spec(w, h, n, i).0
                + tile_spec(w, h, n, i).2,
        tile_spec(w, h, n, n - 1).0 + tile_spec(w, h, n, n - 1).2 == w,
{
    assert forall|i: int| 0 <= i < n - 1 implies #[trigger] tile_spec(w, h, n, i + 1).0 == tile_spec(
        w,
        h,
        n,
        i,
    ).0 + tile_spec(w, h, n, i).2 by {
        assert((i + 1) * (w / n) == i * (w / n) + w / n) by (nonlinear_arith);
    }
}

/// The window to focus after `removed` is closed: the last remaining window
/// where the focused one was closed, else the focused one.
pub fn focus_after_removal(remaining: &Vec<u64>, focused: Option<u64>, removed: u64) -> (r: Option<u64>)
    ensures
        focused == Some(removed) ==> r == (if remaining@.len() > 0 {
            Some(remaining@.last())
        } else {
            None
        }),
        focused != Some(removed) ==> r == focused,
{
    match focused {
        Some(f) => if f == removed {
            if remaining.len() > 0 {
                Some(remaining[remaining.len() - 1])
            } else {
                None
            }
        } else {
            focused
        },
        None => None,
    }
}

/// The windows of `s` other than `w`, in their order.
pub open spec fn without(s: Seq<u64>, w: u64) -> Seq<u64>
    decreases s.len(),
{
    if s.len() == 0 {
        s
    } else {
        let rest = without(s.drop_last(), w);
        if s.last() == w {
            rest
        } else {
            rest.push(s.last())
        }
    }
}

proof fn lemma_without_len(s: Seq<u64>, w: u64)
    ensures
        without(s, w).len() <= s.len(),
    decreases s.len(),
{
    if s.len() > 0 {
        lemma_without_len(s.drop_last(), w);
    }
}

/// Taking out a window that is not there changes nothing.
pub proof fn lemma_without_absent(s: Seq<u64>, w: u64)
    requires
        !s.contains(w),
    ensures
        without(s, w) == s,
    decreases s.len(),
{
    if s.len() > 0 {
        assert(!s.drop_last().contains(w)) by {
            if s.drop_last().contains(w) {
                let k = choose|k: int| 0 <= k < s.drop_last().len() && s.drop_last()[k] == w;
                assert(s[k] == w);
            }
        }
        lemma_without_absent(s.drop_last(), w);
        assert(s.last() != w) by {
            assert(s[s.len() - 1] == s.last());
        }
        assert(s.drop_last().push(s.last()) =~= s);
    }
}

/// A window stays exactly when it is not the one taken out.
pub proof fn lemma_without_contains(s: Seq<u64>, w: u64, x: u64)
    ensures
        without(s, w).contains(x) <==> (s.contains(x) && x != w),
    decreases s.len(),
{
    if s.len() > 0 {
        lemma_without_contains(s.drop_last(), w, x);
        let rest = without(s.drop_last(), w);
        if s.contains(x) && x != w {
            let k = choose|k: int| 0 <= k < s.len() && s[k] == x;
            if k < s.len() - 1 {
                assert(s.drop_last()[k] == x);
            }
            if s.last() != w {
                assert(rest.push(s.last())[rest.len() as int] == s.last());
                if rest.contains(x) {
                    let j = choose|j: int| 0 <= j < rest.len() && rest[j] == x;
                    assert(rest.push(s.last())[j] == x);
                }
            }
        }
        if without(s, w).contains(x) {
            let j = choose|j: int| 0 <= j < without(s, w).len() && without(s, w)[j] == x;
            if s.last() != w && j == rest.len() {
                assert(s[s.len() - 1] == x);
            } else {
                assert(rest[j] == x);
                let k = choose|k: int| 0 <= k < s.drop_last().len() && s.drop_last()[k] == x;
                assert(s[k] == x);
            }
        }
    }
}

fn windows_without(ws: &Vec<u64>, w: u64) -> (r: Vec<u64>)
    ensures
        r@ == without(ws@, w),
{
    let mut kept: Vec<u64> = Vec::new();
    let mut i: usize = 0;
    proof {
        assert(ws@.take(0) =~= Seq::<u64>::empty());
    }
    while i < ws.len()
        invariant
            i <= ws@.len(),
            kept@ == without(ws@.take(i as int), w),
        decreases ws@.len() - i,
    {
        proof {
            assert(ws@.take(i + 1).drop_last() =~= ws@.take(i as int));
            assert(ws@.take(i + 1).last() == ws@[i as int]);
        }
        let x = ws[i];
        if x != w {
            kept.push(x);
        }
        i = i + 1;
    }
    proof {
        assert(ws@.take(ws@.len() as int) =~= ws@);
    }
    kept
}

/// The compositor's tiled windows, by id, in the order they were opened,
/// on a screen of the given size.
#[derive(Debug)]
pub struct TilingLayout {
    pub screen_w: i32,
    pub screen_h: i32,
    pub windows: Vec<u64>,
}

impl TilingLayout {
    /// Whether `tiles` gives, in window order, the geometry of each window.
    pub open spec fn tiled(&self, tiles: Seq<TileGeometry>) -> bool {
        &&& tiles.len() == self.windows@.len()
        &&& forall|i: int|
            0 <= i < tiles.len() ==> #[trigger] tile_view(tiles[i]) == tile_spec(
                self.screen_w as int,
                self.screen_h as int,
                self.windows@.len() as int,
                i,
            )
    }

    /// A layout with no windows.
    pub fn new(screen_w: i32, screen_h: i32) -> (l: Self)
        ensures
            l.screen_w == screen_w,
            l.screen_h == screen_h,
            l.windows@ == Seq::<u64>::empty(),
    {
        TilingLayout { screen_w, screen_h, windows: Vec::new() }
    }

    /// Adds a window after the others and tiles them again; returns the
    /// geometry of each window, in window order.
    pub fn add_window(&mut self, window: u64) -> (tiles: Vec<TileGeometry>)
        requires
            old(self).windows@.len() < i32::MAX,
        ensures
            final(self).screen_w == old(self).screen_w,
            final(self).screen_h == old(self).screen_h,
            final(self).windows@ == old(self).windows@.push(window),
            final(self).tiled(tiles@),
    {
        self.windows.push(window);
        self.retile()
    }

    /// Takes every copy of a window out and tiles the rest again; returns
    /// the geometry of each remaining window, in window order.
    pub fn remove_window(&mut self, window: u64) -> (tiles: Vec<TileGeometry>)
        requires
            old(self).windows@.len() <= i32::MAX,
        ensures
            final(self).screen_w == old(self).screen_w,
            final(self).screen_h == old(self).screen_h,
            final(self).windows@ == without(old(self).windows@, window),
            final(self).tiled(tiles@),
    {
        let kept = windows_without(&self.windows, window);
        proof {
            lemma_without_len(self.windows@, window);
        }
        self.windows = kept;
        self.retile()
    }

    /// The geometry of each window, in window order: one window fills the
    /// screen; several share it as columns.
    pub fn retile(&self) -> (tiles: Vec<TileGeometry>)
        requires
            self.windows@.len() <= i32::MAX,
        ensures
            self.tiled(tiles@),
    {
        retile_geometry(self.screen_w, self.screen_h, self.windows.len())
    }
}

/// Closing a window that was just opened gives back the windows from before.
pub proof fn law_remove_undoes_add(windows: Seq<u64>, window: u64)
    requires
        !windows.contains(window),
    ensures
        without(windows.push(window), window) == windows,
{
    assert(windows.push(window).drop_last() =~= windows);
    lemma_without_absent(windows, window);
}

/// After a window is closed, it is no longer tiled, and every other window
/// still is.
pub proof fn law_removed_window_gone(windows: Seq<u64>, window: u64, other: u64)
    requires
        other != window,
    ensures
        !without(windows, window).contains(window),
        without(windows, window).contains(other) <==> windows.contains(other),
{
    lemma_without_contains(windows, window, window);
    lemma_without_contains(windows, window, other);
}

/// Every tile spans the screen's full height from its top edge, and the tiles
/// stand side by side: a single window fills the screen, several windows each
/// get a column, the columns but the last one screen width divided by the
/// number of windows (rounded toward zero) wide.
pub proof fn law_tiles_span_height(w: int, h: int, n: int, i: int)
    requires
        n >= 1,
        0 <= i < n,
    ensures
        tile_spec(w, h, n, i).1 == 0,
        tile_spec(w, h, n, i).3 == h,
        n == 1 ==> tile_spec(w, h, n, i).0 == 0 && tile_spec(w, h, n, i).2 == w,
        n > 1 && i + 1 < n ==> tile_spec(w, h, n, i).2 == trunc_div(w, n),
        n > 1 ==> tile_spec(w, h, n, i).0 == i * trunc_div(w, n),
{
}

} // verus!
