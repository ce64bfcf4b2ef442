use vstd::prelude::*;

verus! {

/// A software frame of `width` by `height` pixels, row after row.
pub struct Canvas {
    pub buffer: Vec<u32>,
    pub width: usize,
    pub height: usize,
}

impl Canvas {
    pub open spec fn wf(&self) -> bool {
        self.buffer@.len() == self.width * self.height
    }

    /// A canvas of `width` by `height` pixels, all of colour `c`.
    pub fn new(width: usize, height: usize, c: u32) -> (r: Canvas)
        requires
            width * height <= usize::MAX,
        ensures
            r.wf(),
            r.width == width,
            r.height == height,
            r.buffer@ == Seq::new((width * height) as nat, |_i: int| c),
    {
        let n = width * height;
        let mut buffer: Vec<u32> = Vec::new();
        let mut i: usize = 0;
        while i < n
            invariant
                i <= n,
                n == width * height,
                buffer@ == Seq::new(i as nat, |_i: int| c),
            decreases n - i,
        {
            buffer.push(c);
            i = i + 1;
            assert(buffer@ =~= Seq::new(i as nat, |_i: int| c));
        }
        Canvas { buffer, width, height }
    }
}

/// The colour of a packed `0xRRGGBB` value (the low 32 bits).
pub open spec fn color_of(color: i64) -> u32 {
    color as u32
}

/// Paints every pixel of the canvas in one colour.
pub fn ui_clear(canvas: &mut Canvas, color: i64)
    requires
        old(canvas).wf(),
    ensures
        final(canvas).wf(),
        final(canvas).width == old(canvas).width,
        final(canvas).height == old(canvas).height,
        final(canvas).buffer@ == Seq::new(old(canvas).buffer@.len(), |_i: int| color_of(color)),
{
    let c = color as u32;
    let n = canvas.buffer.len();
    let mut k: usize = 0;
    while k < n
        invariant
            n == canvas.buffer@.len(),
            canvas.width == old(canvas).width,
            canvas.height == old(canvas).height,
            n == old(canvas).buffer@.len(),
            k <= n,
            forall|m: int| 0 <= m < k ==> canvas.buffer@[m] == c,
        decreases n - k,
    {
        canvas.buffer.set(k, c);
        k = k + 1;
    }
    assert(canvas.buffer@ =~= Seq::new(old(canvas).buffer@.len(), |_i: int| color_of(color)));
}

/// Pixel (`i`, `j`) lies in the rectangle at (`x`, `y`) of size `w` by `h`.
pub open spec fn in_rect(i: int, j: int, x: int, y: int, w: int, h: int) -> bool {
    x <= i < x + w && y <= j < y + h
}

/// Fills the rectangle at (`x`, `y`) of size `w` by `h`; what falls outside
/// the canvas is clipped.
pub fn ui_draw_rect(canvas: &mut Canvas, x: i64, y: i64, w: i64, h: i64, color: i64)
    requires
        old(canvas).wf(),
    ensures
        final(canvas).wf(),
        final(canvas).width == old(canvas).width,
        final(canvas).height == old(canvas).height,
        forall|m: int|
            0 <= m < old(canvas).buffer@.len() ==> #[trigger] final(canvas).buffer@[m] == if in_rect(
                m % old(canvas).width as int,
                m / old(canvas).width as int,
                x as int,
                y as int,
                w as int,
                h as int,
            ) {
                color_of(color)
            } else {
                old(canvas).buffer@[m]
            },
{
    let c = color as u32;
    let n = canvas.buffer.len();
    let bw = canvas.width;
    if bw == 0 {
        assert(n == 0) by (nonlinear_arith)
            requires
                n == bw * canvas.height,
                bw == 0,
        ;
        return;
    }
    let mut k: usize = 0;
    while k < n
        invariant
            n == canvas.buffer@.len(),
            n == old(canvas).buffer@.len(),
            bw == canvas.width,
            bw > 0,
            canvas.width == old(canvas).width,
            canvas.height == old(canvas).height,
            k <= n,
            forall|m: int|
                0 <= m < k ==> #[trigger] canvas.buffer@[m] == if in_rect(
                    m % bw as int,
                    m / bw as int,
                    x as int,
                    y as int,
                    w as int,
                    h as int,
                ) {
                    c
                } else {
                    old(canvas).buffer@[m]
                },
            forall|m: int| k <= m < n ==> #[trigger] canvas.buffer@[m] == old(canvas).buffer@[m],
        decreases n - k,
    {
        let i = (k % bw) as i128;
        let j = (k / bw) as i128;
        if x as i128 <= i && i < x as i128 + w as i128 && y as i128 <= j && j < y as i128 + h as i128 {
            canvas.buffer.set(k, c);
        }
        k = k + 1;
    }
}

/// The seven rows of a character in the 5x7 font, high bit on the left; an
/// unknown character shows as a box.
pub open spec fn glyph_spec(ch: char) -> Seq<u8> {
    if ch == '0' {
        seq![0b01110, 0b10001, 0b10011, 0b10101, 0b11001, 0b10001, 0b01110]
    } else if ch == '1' {
        seq![0b00100, 0b01100, 0b00100, 0b00100, 0b00100, 0b00100, 0b01110]
    } else if ch == '2' {
        seq![0b01110, 0b10001, 0b00001, 0b00110, 0b01000, 0b10000, 0b11111]
    } else if ch == '3' {
        seq![0b01110, 0b10001, 0b00001, 0b00110, 0b00001, 0b10001, 0b01110]
    } else if ch == '4' {
        seq![0b00010, 0b00110, 0b01010, 0b10010, 0b11111, 0b00010, 0b00010]
    } else if ch == '5' {
        seq![0b11111, 0b10000, 0b11110, 0b00001, 0b00001, 0b10001, 0b01110]
    } else if ch == '6' {
        seq![0b01110, 0b10000, 0b11110, 0b10001, 0b10001, 0b10001, 0b01110]
    } else if ch == '7' {
        seq![0b11111, 0b00001, 0b00010, 0b00100, 0b01000, 0b01000, 0b01000]
    } else if ch == '8' {
        seq![0b01110, 0b10001, 0b10001, 0b01110, 0b10001, 0b10001, 0b01110]
    } else if ch == '9' {
        seq![0b01110, 0b10001, 0b10001, 0b01111, 0b00001, 0b00001, 0b01110]
    } else if ch == '+' {
        seq![0b00000, 0b00100, 0b00100, 0b11111, 0b00100, 0b00100, 0b00000]
    } else if ch == '-' {
        seq![0b00000, 0b00000, 0b00000, 0b11111, 0b00000, 0b00000, 0b00000]
    } else if ch == '*' {
        seq![0b00000, 0b10101, 0b01110, 0b11111, 0b01110, 0b10101, 0b00000]
    } else if ch == '/' {
        seq![0b00001, 0b00010, 0b00100, 0b01000, 0b10000, 0b00000, 0b00000]
    } else if ch == '=' {
        seq![0b00000, 0b00000, 0b11111, 0b00000, 0b11111, 0b00000, 0b00000]
    } else if ch == '.' {
        seq![0b00000, 0b00000, 0b00000, 0b00000, 0b00000, 0b01100, 0b01100]
    } else if ch == ' ' {
        seq![0b00000, 0b00000, 0b00000, 0b00000, 0b00000, 0b00000, 0b00000]
    } else if ch == 'C' {
        seq![0b01110, 0b10001, 0b10000, 0b10000, 0b10000, 0b10001, 0b01110]
    } else if ch == 'E' {
        seq![0b11111, 0b10000, 0b10000, 0b11110, 0b10000, 0b10000, 0b11111]
    } else if ch == 'R' {
        seq![0b11110, 0b10001, 0b10001, 0b11110, 0b10100, 0b10010, 0b10001]
    } else if ch == 'K' {
        seq![0b10001, 0b10010, 0b10100, 0b11000, 0b10100, 0b10010, 0b10001]
    } else if ch == 'n' {
        seq![0b00000, 0b00000, 0b10110, 0b11001, 0b10001, 0b10001, 0b10001]
    } else if ch == 'o' {
        seq![0b00000, 0b00000, 0b01110, 0b10001, 0b10001, 0b10001, 0b01110]
    } else if ch == 't' {
        seq![0b01000, 0b01000, 0b11100, 0b01000, 0b01000, 0b01001, 0b00110]
    } else if ch == 'e' {
        seq![0b00000, 0b00000, 0b01110, 0b10001, 0b11111, 0b10000, 0b01110]
    } else if ch == 'a' {
        seq![0b00000, 0b00000, 0b01110, 0b00001, 0b01111, 0b10001, 0b01111]
    } else if ch == 'l' {
        seq![0b01100, 0b00100, 0b00100, 0b00100, 0b00100, 0b00100, 0b01110]
    } else if ch == 'c' {
        seq![0b00000, 0b00000, 0b01110, 0b10000, 0b10000, 0b10001, 0b01110]
    } else if ch == 'u' {
        seq![0b00000, 0b00000, 0b10001, 0b10001, 0b10001, 0b10011, 0b01101]
    } else if ch == 'r' {
        seq![0b00000, 0b00000, 0b10110, 0b11001, 0b10000, 0b10000, 0b10000]
    } else {
        seq![0b11111, 0b10001, 0b10001, 0b10001, 0b10001, 0b10001, 0b11111]
    }
}

/// The 5x7 font: the seven rows of a character, high bit on the left.
pub fn get_glyph(ch: char) -> (r: [u8; 7])
    ensures
        r@ == glyph_spec(ch),
{
    let r =     if ch == '0' {
            [0b01110, 0b10001, 0b10011, 0b10101, 0b11001, 0b10001, 0b01110]
        } else if ch == '1' {
            [0b00100, 0b01100, 0b00100, 0b00100, 0b00100, 0b00100, 0b01110]
        } else if ch == '2' {
            [0b01110, 0b10001, 0b00001, 0b00110, 0b01000, 0b10000, 0b11111]
        } else if ch == '3' {
            [0b01110, 0b10001, 0b00001, 0b00110, 0b00001, 0b10001, 0b01110]
        } else if ch == '4' {
            [0b00010, 0b00110, 0b01010, 0b10010, 0b11111, 0b00010, 0b00010]
        } else if ch == '5' {
            [0b11111, 0b10000, 0b11110, 0b00001, 0b00001, 0b10001, 0b01110]
        } else if ch == '6' {
            [0b01110, 0b10000, 0b11110, 0b10001, 0b10001, 0b10001, 0b01110]
        } else if ch == '7' {
            [0b11111, 0b00001, 0b00010, 0b00100, 0b01000, 0b01000, 0b01000]
        } else if ch == '8' {
            [0b01110, 0b10001, 0b10001, 0b01110, 0b10001, 0b10001, 0b01110]
        } else if ch == '9' {
            [0b01110, 0b10001, 0b10001, 0b01111, 0b00001, 0b00001, 0b01110]
        } else if ch == '+' {
            [0b00000, 0b00100, 0b00100, 0b11111, 0b00100, 0b00100, 0b00000]
        } else if ch == '-' {
            [0b00000, 0b00000, 0b00000, 0b11111, 0b00000, 0b00000, 0b00000]
        } else if ch == '*' {
            [0b00000, 0b10101, 0b01110, 0b11111, 0b01110, 0b10101, 0b00000]
        } else if ch == '/' {
            [0b00001, 0b00010, 0b00100, 0b01000, 0b10000, 0b00000, 0b00000]
        } else if ch == '=' {
            [0b00000, 0b00000, 0b11111, 0b00000, 0b11111, 0b00000, 0b00000]
        } else if ch == '.' {
            [0b00000, 0b00000, 0b00000, 0b00000, 0b00000, 0b01100, 0b01100]
        } else if ch == ' ' {
            [0b00000, 0b00000, 0b00000, 0b00000, 0b00000, 0b00000, 0b00000]
        } else if ch == 'C' {
            [0b01110, 0b10001, 0b10000, 0b10000, 0b10000, 0b10001, 0b01110]
        } else if ch == 'E' {
            [0b11111, 0b10000, 0b10000, 0b11110, 0b10000, 0b10000, 0b11111]
        } else if ch == 'R' {
            [0b11110, 0b10001, 0b10001, 0b11110, 0b10100, 0b10010, 0b10001]
        } else if ch == 'K' {
            [0b10001, 0b10010, 0b10100, 0b11000, 0b10100, 0b10010, 0b10001]
        } else if ch == 'n' {
            [0b00000, 0b00000, 0b10110, 0b11001, 0b10001, 0b10001, 0b10001]
        } else if ch == 'o' {
            [0b00000, 0b00000, 0b01110, 0b10001, 0b10001, 0b10001, 0b01110]
        } else if ch == 't' {
            [0b01000, 0b01000, 0b11100, 0b01000, 0b01000, 0b01001, 0b00110]
        } else if ch == 'e' {
            [0b00000, 0b00000, 0b01110, 0b10001, 0b11111, 0b10000, 0b01110]
        } else if ch == 'a' {
            [0b00000, 0b00000, 0b01110, 0b00001, 0b01111, 0b10001, 0b01111]
        } else if ch == 'l' {
            [0b01100, 0b00100, 0b00100, 0b00100, 0b00100, 0b00100, 0b01110]
        } else if ch == 'c' {
            [0b00000, 0b00000, 0b01110, 0b10000, 0b10000, 0b10001, 0b01110]
        } else if ch == 'u' {
            [0b00000, 0b00000, 0b10001, 0b10001, 0b10001, 0b10011, 0b01101]
        } else if ch == 'r' {
            [0b00000, 0b00000, 0b10110, 0b11001, 0b10000, 0b10000, 0b10000]
        } else {
            [0b11111, 0b10001, 0b10001, 0b10001, 0b10001, 0b10001, 0b11111]
        };
    assert(r@ =~= glyph_spec(ch));
    r
}

/// The pixel at row `row`, column `col` of a character's glyph is lit.
pub open spec fn glyph_bit(ch: char, row: int, col: int) -> bool {
    glyph_spec(ch)[row] & (1u8 << (4 - col) as u8) != 0
}

/// Pixel (`i`, `j`) is lit by `text` drawn at (`x`, `y`): characters are five
/// pixels wide and one apart.
pub open spec fn text_lit(text: Seq<char>, x: int, y: int, i: int, j: int) -> bool {
    let dx = i - x;
    let row = j - y;
    &&& 0 <= dx
    &&& dx / 6 < text.len()
    &&& dx % 6 < 5
    &&& 0 <= row < 7
    &&& glyph_bit(text[dx / 6], row, dx % 6)
}

/// Draws `text` at (`x`, `y`) in the 5x7 font; what falls outside the canvas
/// is clipped.
pub fn ui_draw_text(canvas: &mut Canvas, x: i64, y: i64, text: &str, color: i64)
    requires
        old(canvas).wf(),
    ensures
        final(canvas).wf(),
        final(canvas).width == old(canvas).width,
        final(canvas).height == old(canvas).height,
        forall|m: int|
            0 <= m < old(canvas).buffer@.len() ==> #[trigger] final(canvas).buffer@[m] == if text_lit(
                text@,
                x as int,
                y as int,
                m % old(canvas).width as int,
                m / old(canvas).width as int,
            ) {
                color_of(color)
            } else {
                old(canvas).buffer@[m]
            },
{
    let c = color as u32;
    let n = canvas.buffer.len();
    let bw = canvas.width;
    if bw == 0 {
        assert(n == 0) by (nonlinear_arith)
            requires
                n == bw * canvas.height,
                bw == 0,
        ;
        return;
    }
    let len = text.unicode_len();
    let mut k: usize = 0;
    while k < n
        invariant
            n == canvas.buffer@.len(),
            n == old(canvas).buffer@.len(),
            bw == canvas.width,
            bw > 0,
            len == text@.len(),
            canvas.width == old(canvas).width,
            canvas.height == old(canvas).height,
            k <= n,
            forall|m: int|
                0 <= m < k ==> #[trigger] canvas.buffer@[m] == if text_lit(
                    text@,
                    x as int,
                    y as int,
                    m % bw as int,
                    m / bw as int,
                ) {
                    c
                } else {
                    old(canvas).buffer@[m]
                },
            forall|m: int| k <= m < n ==> #[trigger] canvas.buffer@[m] == old(canvas).buffer@[m],
        decreases n - k,
    {
        let dx = (k % bw) as i128 - x as i128;
        let row = (k / bw) as i128 - y as i128;
        if 0 <= dx && dx / 6 < len as i128 && dx % 6 < 5 && 0 <= row && row < 7 {
            let ch = text.get_char((dx / 6) as usize);
            let g = get_glyph(ch);
            let col = (dx % 6) as u8;
            if g[row as usize] & (1u8 << (4 - col)) != 0 {
                canvas.buffer.set(k, c);
            }
        }
        k = k + 1;
    }
}


/// Every pixel kept its colour or took `color`.
pub open spec fn painted_with(old_buf: Seq<u32>, new_buf: Seq<u32>, colors: Set<u32>) -> bool {
    &&& new_buf.len() == old_buf.len()
    &&& forall|m: int| 0 <= m < new_buf.len() ==> #[trigger] new_buf[m] == old_buf[m] || colors.contains(new_buf[m])
}

/// The values in ascending order.
pub open spec fn ascending(s: Seq<i64>) -> bool {
    forall|a: int, b: int| 0 <= a < b < s.len() ==> s[a] <= s[b]
}

/// Sorts the values in place, ascending.
pub fn sort_values(v: &mut Vec<i64>)
    ensures
        ascending(final(v)@),
        final(v)@.to_multiset() == old(v)@.to_multiset(),
{
    let n = v.len();
    let mut i: usize = 1;
    if n == 0 {
        return;
    }
    while i < n
        invariant
            n == v@.len(),
            1 <= i <= n,
            ascending(v@.subrange(0, i as int)),
            v@.to_multiset() == old(v)@.to_multiset(),
        decreases n - i,
    {
        let mut j: usize = i;
        assert forall|a: int, b: int| 0 <= a < b <= i && b != j implies v@[a] <= v@[b] by {
            assert(v@.subrange(0, i as int)[a] == v@[a]);
            assert(v@.subrange(0, i as int)[b] == v@[b]);
        }
        while j > 0 && v[j - 1] > v[j]
            invariant
                n == v@.len(),
                1 <= i < n,
                j <= i,
                forall|a: int, b: int| 0 <= a < b <= i && b != j ==> v@[a] <= v@[b],
                forall|a: int, b: int| 0 <= a < j && j < b <= i ==> v@[a] <= v@[b],
                v@.to_multiset() == old(v)@.to_multiset(),
            decreases j,
        {
            let a = v[j - 1];
            let b = v[j];
            let ghost before = v@;
            v.set(j - 1, b);
            v.set(j, a);
            proof {
                assert(v@ == before.update(j - 1, b).update(j as int, a));
                lemma_swap_multiset(before, j - 1, j as int);
            }
            j = j - 1;
        }
        assert forall|a: int, b: int| 0 <= a < b < i + 1 implies #[trigger] v@[a] <= #[trigger] v@[b] by {
            if b == j {
                assert(v@[a] <= v@[j - 1]);
            }
        }
        assert(ascending(v@.subrange(0, i + 1)));
        i = i + 1;
    }
    assert(v@.subrange(0, n as int) =~= v@);
}

proof fn lemma_update_multiset(s: Seq<i64>, i: int, x: i64)
    requires
        0 <= i < s.len(),
    ensures
        s.update(i, x).to_multiset() == s.to_multiset().remove(s[i]).insert(x),
{
    assert(s.update(i, x) =~= s.remove(i).insert(i, x));
    vstd::seq_lib::to_multiset_remove(s, i);
    vstd::seq_lib::to_multiset_insert(s.remove(i), i, x);
}

proof fn lemma_swap_multiset(s: Seq<i64>, a: int, b: int)
    requires
        0 <= a < b < s.len(),
    ensures
        s.update(a, s[b]).update(b, s[a]).to_multiset() == s.to_multiset(),
{
    let t = s.update(a, s[b]);
    lemma_update_multiset(s, a, s[b]);
    lemma_update_multiset(t, b, s[a]);
    vstd::seq_lib::to_multiset_contains(s, s[a]);
    assert(s.contains(s[a]));
    assert(t.update(b, s[a]).to_multiset() =~= s.to_multiset());
}


/// The largest coordinate magnitude a polygon vertex may have.
pub const COORD_LIMIT: i64 = 1_099_511_627_776;

/// Every vertex lies within `COORD_LIMIT` on both axes.
pub open spec fn vertices_bounded(pts: Seq<(i64, i64)>) -> bool {
    forall|k: int|
        0 <= k < pts.len() ==> -COORD_LIMIT <= (#[trigger] pts[k]).0 <= COORD_LIMIT && -COORD_LIMIT
            <= pts[k].1 <= COORD_LIMIT
}

proof fn lemma_pixel_index(row: int, col: int, width: int, height: int)
    requires
        0 <= row < height,
        0 <= col < width,
    ensures
        0 <= row * width + col < width * height,
{
    assert(row * width + col < width * height) by (nonlinear_arith)
        requires
            0 <= row < height,
            0 <= col < width,
    ;
    assert(0 <= row * width) by (nonlinear_arith)
        requires
            0 <= row,
            0 <= col < width,
    ;
}

/// Where the edge from `p` to `q` crosses the horizontal line `y`, truncated
/// toward zero and held to `-1..=width`; `None` when it does not cross (an
/// edge holds its lower end, not its upper one).
pub fn edge_crossing(p: (i64, i64), q: (i64, i64), y: i64, width: usize) -> (r: Option<i64>)
    requires
        -COORD_LIMIT <= p.0 <= COORD_LIMIT,
        -COORD_LIMIT <= p.1 <= COORD_LIMIT,
        -COORD_LIMIT <= q.0 <= COORD_LIMIT,
        -COORD_LIMIT <= q.1 <= COORD_LIMIT,
        -COORD_LIMIT <= y <= COORD_LIMIT,
        width <= i64::MAX,
    ensures
        r.is_some() <==> (p.1 != q.1 && (if p.1 < q.1 {
            p.1 <= y < q.1
        } else {
            q.1 <= y < p.1
        })),
        r matches Some(x) ==> -1 <= x <= width,
{
    let (x0, y0) = p;
    let (x1, y1) = q;
    let (lo, hi, xa, xb) = if y0 < y1 {
        (y0, y1, x0, x1)
    } else {
        (y1, y0, x1, x0)
    };
    if !(lo <= y && y < hi && lo != hi) {
        return None;
    }
    let den = (hi - lo) as i128;
    let a = xa as i128;
    let d = (xb - xa) as i128;
    let t = (y - lo) as i128;
    assert(-COORD_LIMIT * 2 <= d <= COORD_LIMIT * 2);
    assert(0 < den <= COORD_LIMIT * 2);
    assert(0 <= t <= COORD_LIMIT * 2);
    assert(-COORD_LIMIT * COORD_LIMIT * 2 <= a * den <= COORD_LIMIT * COORD_LIMIT * 2) by (nonlinear_arith)
        requires
            -COORD_LIMIT <= a <= COORD_LIMIT,
            0 < den <= COORD_LIMIT * 2,
    ;
    assert(-COORD_LIMIT * COORD_LIMIT * 4 <= t * d <= COORD_LIMIT * COORD_LIMIT * 4) by (nonlinear_arith)
        requires
            -COORD_LIMIT * 2 <= d <= COORD_LIMIT * 2,
            0 <= t <= COORD_LIMIT * 2,
    ;
    let num = a * den + t * d;
    let x = match num.checked_div(den) {
        Some(v) => v,
        None => 0,
    };
    if x < -1 {
        Some(-1)
    } else if x > width as i128 {
        Some(width as i64)
    } else {
        Some(x as i64)
    }
}

/// Scanline fill of a convex polygon given by its vertices in order; pixels
/// outside the frame are clipped.
pub fn fill_poly(buffer: &mut Vec<u32>, width: usize, height: usize, pts: &Vec<(i64, i64)>, color: u32)
    requires
        old(buffer)@.len() == width * height,
        width <= i64::MAX,
        height <= COORD_LIMIT,
        vertices_bounded(pts@),
    ensures
        painted_with(old(buffer)@, final(buffer)@, set![color]),
{
    let n = pts.len();
    let total = buffer.len();
    if n == 0 || width == 0 || height == 0 {
        return;
    }
    let mut min_y = pts[0].1;
    let mut max_y = pts[0].1;
    let mut e: usize = 1;
    while e < n
        invariant
            n == pts@.len(),
            1 <= e <= n,
            vertices_bounded(pts@),
            -COORD_LIMIT <= min_y <= COORD_LIMIT,
            -COORD_LIMIT <= max_y <= COORD_LIMIT,
        decreases n - e,
    {
        if pts[e].1 < min_y {
            min_y = pts[e].1;
        }
        if pts[e].1 > max_y {
            max_y = pts[e].1;
        }
        e = e + 1;
    }
    let first: i64 = if min_y < 0 {
        0
    } else {
        min_y
    };
    let last: i64 = if max_y > height as i64 - 1 {
        height as i64 - 1
    } else {
        max_y
    };
    let mut row: i64 = first;
    while row <= last
        invariant
            n == pts@.len(),
            n > 0,
            vertices_bounded(pts@),
            0 <= first <= row,
            last < height,
            width > 0,
            width <= i64::MAX,
            row <= COORD_LIMIT + 1,
            last <= COORD_LIMIT,
            buffer@.len() == width * height,
            total == width * height,
            painted_with(old(buffer)@, buffer@, set![color]),
        decreases last - row + 1,
    {
        let mut xs: Vec<i64> = Vec::new();
        let mut e: usize = 0;
        while e < n
            invariant
                n == pts@.len(),
                e <= n,
                vertices_bounded(pts@),
                0 <= row <= COORD_LIMIT,
                width <= i64::MAX,
                forall|m: int| 0 <= m < xs@.len() ==> -1 <= #[trigger] xs@[m] <= width,
            decreases n - e,
        {
            let nx = if e + 1 == n {
                0
            } else {
                e + 1
            };
            match edge_crossing(pts[e], pts[nx], row, width) {
                Some(x) => xs.push(x),
                None => {},
            }
            e = e + 1;
        }
        let ghost unsorted = xs@;
        sort_values(&mut xs);
        assert forall|m: int| 0 <= m < xs@.len() implies -1 <= #[trigger] xs@[m] <= width by {
            vstd::seq_lib::to_multiset_contains(xs@, xs@[m]);
            vstd::seq_lib::to_multiset_contains(unsorted, xs@[m]);
            assert(xs@.contains(xs@[m]));
        }
        let mut k: usize = 0;
        while k < xs.len() && xs.len() - k >= 2
            invariant
                0 <= row <= last,
                last < height,
                width > 0,
                width <= i64::MAX,
                buffer@.len() == width * height,
                total == width * height,
                k <= xs@.len(),
                painted_with(old(buffer)@, buffer@, set![color]),
                forall|m: int| 0 <= m < xs@.len() ==> -1 <= #[trigger] xs@[m] <= width,
            decreases xs@.len() - k,
        {
            let x0: i64 = if xs[k] < 0 {
                0
            } else {
                xs[k]
            };
            let x1: i64 = if xs[k + 1] > width as i64 - 1 {
                width as i64 - 1
            } else {
                xs[k + 1]
            };
            let mut col: i64 = x0;
            while col <= x1
                invariant
                    0 <= x0 <= col,
                    x1 < width,
                    width <= i64::MAX,
                    0 <= row <= last,
                    last < height,
                    buffer@.len() == width * height,
                    total == width * height,
                    painted_with(old(buffer)@, buffer@, set![color]),
                decreases x1 - col + 1,
            {
                proof {
                    lemma_pixel_index(row as int, col as int, width as int, height as int);
                }
                let idx = (row as usize) * width + (col as usize);
                buffer.set(idx, color);
                col = col + 1;
            }
            k = k + 2;
        }
        row = row + 1;
    }
}


/// The drawing order of a voxel: larger keys are further back.
pub open spec fn depth_key(v: (i32, i32, i32)) -> int {
    v.0 - v.1 * 2 + v.2
}

pub fn depth_key_of(v: (i32, i32, i32)) -> (r: i64)
    ensures
        r == depth_key(v),
{
    v.0 as i64 - (v.1 as i64) * 2 + v.2 as i64
}

/// Sorts voxels by ascending depth key, keeping the order of equal keys.
pub fn sort_voxels(v: &mut Vec<(i32, i32, i32)>)
    ensures
        forall|a: int, b: int| 0 <= a < b < final(v)@.len() ==> depth_key(final(v)@[a]) <= depth_key(final(v)@[b]),
        final(v)@.to_multiset() == old(v)@.to_multiset(),
{
    let n = v.len();
    if n == 0 {
        return;
    }
    let mut i: usize = 1;
    while i < n
        invariant
            n == v@.len(),
            1 <= i <= n,
            forall|a: int, b: int| 0 <= a < b < i ==> depth_key(#[trigger] v@[a]) <= depth_key(#[trigger] v@[b]),
            v@.to_multiset() == old(v)@.to_multiset(),
        decreases n - i,
    {
        let mut j: usize = i;
        while j > 0 && depth_key_of(v[j - 1]) > depth_key_of(v[j])
            invariant
                n == v@.len(),
                1 <= i < n,
                j <= i,
                forall|a: int, b: int| 0 <= a < b <= i && b != j ==> depth_key(#[trigger] v@[a]) <= depth_key(#[trigger] v@[b]),
                forall|a: int, b: int| 0 <= a < j && j < b <= i ==> depth_key(#[trigger] v@[a]) <= depth_key(#[trigger] v@[b]),
                v@.to_multiset() == old(v)@.to_multiset(),
            decreases j,
        {
            let a = v[j - 1];
            let b = v[j];
            let ghost before = v@;
            v.set(j - 1, b);
            v.set(j, a);
            proof {
                assert(v@ == before.update(j - 1, b).update(j as int, a));
                lemma_swap_multiset_voxels(before, j - 1, j as int);
            }
            j = j - 1;
        }
        assert forall|a: int, b: int| 0 <= a < b < i + 1 implies depth_key(#[trigger] v@[a]) <= depth_key(#[trigger] v@[b]) by {
            if b == j {
                assert(depth_key(v@[a]) <= depth_key(v@[j - 1]));
            }
        }
        i = i + 1;
    }
}

proof fn lemma_update_multiset_voxels(s: Seq<(i32, i32, i32)>, i: int, x: (i32, i32, i32))
    requires
        0 <= i < s.len(),
    ensures
        s.update(i, x).to_multiset() == s.to_multiset().remove(s[i]).insert(x),
{
    assert(s.update(i, x) =~= s.remove(i).insert(i, x));
    vstd::seq_lib::to_multiset_remove(s, i);
    vstd::seq_lib::to_multiset_insert(s.remove(i), i, x);
}

proof fn lemma_swap_multiset_voxels(s: Seq<(i32, i32, i32)>, a: int, b: int)
    requires
        0 <= a < b < s.len(),
    ensures
        s.update(a, s[b]).update(b, s[a]).to_multiset() == s.to_multiset(),
{
    let t = s.update(a, s[b]);
    lemma_update_multiset_voxels(s, a, s[b]);
    lemma_update_multiset_voxels(t, b, s[a]);
    vstd::seq_lib::to_multiset_contains(s, s[a]);
    assert(s.contains(s[a]));
    assert(t.update(b, s[a]).to_multiset() =~= s.to_multiset());
}

/// The background of a voxel scene.
pub const SCENE_BACKGROUND: u32 = 0x0d1b2a;
/// The top face of a voxel.
pub const TOP_FACE: u32 = 0x5b9bd5;
/// The left face of a voxel.
pub const LEFT_FACE: u32 = 0x2e6ea8;
/// The right face of a voxel.
pub const RIGHT_FACE: u32 = 0x1a4a7c;
/// Half the width of a voxel tile, in pixels.
pub const TILE_HALF_WIDTH: i64 = 14;
/// Half the height of a voxel's top rhombus, in pixels.
pub const TILE_HALF_HEIGHT: i64 = 7;

/// The largest frame side a scene may have.
pub const SCENE_SIDE_LIMIT: usize = 67_108_864;

/// The colours an isometric frame is made of.
pub open spec fn scene_colors() -> Set<u32> {
    set![SCENE_BACKGROUND, TOP_FACE, LEFT_FACE, RIGHT_FACE]
}

fn quad(a: (i64, i64), b: (i64, i64), c: (i64, i64), d: (i64, i64)) -> (r: Vec<(i64, i64)>)
    ensures
        r@ == seq![a, b, c, d],
{
    let mut r: Vec<(i64, i64)> = Vec::new();
    r.push(a);
    r.push(b);
    r.push(c);
    r.push(d);
    assert(r@ =~= seq![a, b, c, d]);
    r
}

/// Renders the voxels in isometric projection, back to front, each as a top,
/// a left and a right face over the scene background.
pub fn iso_render(buffer: &mut Vec<u32>, width: usize, height: usize, voxels: &Vec<(i32, i32, i32)>)
    requires
        old(buffer)@.len() == width * height,
        width <= SCENE_SIDE_LIMIT,
        height <= SCENE_SIDE_LIMIT,
    ensures
        final(buffer)@.len() == old(buffer)@.len(),
        forall|m: int| 0 <= m < final(buffer)@.len() ==> scene_colors().contains(#[trigger] final(buffer)@[m]),
        voxels@.len() == 0 ==> final(buffer)@ == Seq::new(old(buffer)@.len(), |_i: int| SCENE_BACKGROUND),
{
    let n = buffer.len();
    let mut k: usize = 0;
    while k < n
        invariant
            n == buffer@.len(),
            n == old(buffer)@.len(),
            k <= n,
            forall|m: int| 0 <= m < k ==> #[trigger] buffer@[m] == SCENE_BACKGROUND,
        decreases n - k,
    {
        buffer.set(k, SCENE_BACKGROUND);
        k = k + 1;
    }
    let cx = (width / 2) as i64;
    let cy = (height as i64) * 5 / 8;
    let tw = TILE_HALF_WIDTH;
    let ts = TILE_HALF_HEIGHT;
    let mut sorted: Vec<(i32, i32, i32)> = Vec::new();
    let mut i: usize = 0;
    while i < voxels.len()
        invariant
            i <= voxels@.len(),
            sorted@ == voxels@.subrange(0, i as int),
        decreases voxels@.len() - i,
    {
        sorted.push(voxels[i]);
        i = i + 1;
        assert(sorted@ =~= voxels@.subrange(0, i as int));
    }
    let ghost unsorted = sorted@;
    sort_voxels(&mut sorted);
    proof {
        vstd::seq_lib::to_multiset_len(sorted@);
        vstd::seq_lib::to_multiset_len(unsorted);
    }
    assert(sorted@.len() == voxels@.len());
    assert(buffer@ =~= Seq::new(old(buffer)@.len(), |_i: int| SCENE_BACKGROUND));
    let ghost blank = buffer@;
    let mut i: usize = 0;
    while i < sorted.len()
        invariant
            i <= sorted@.len(),
            buffer@.len() == width * height,
            n == buffer@.len(),
            width <= SCENE_SIDE_LIMIT,
            height <= SCENE_SIDE_LIMIT,
            0 <= cx <= SCENE_SIDE_LIMIT,
            0 <= cy <= SCENE_SIDE_LIMIT,
            tw == TILE_HALF_WIDTH,
            ts == TILE_HALF_HEIGHT,
            forall|m: int| 0 <= m < buffer@.len() ==> scene_colors().contains(#[trigger] buffer@[m]),
            i == 0 ==> buffer@ == blank,
            blank == Seq::new(old(buffer)@.len(), |_i: int| SCENE_BACKGROUND),
            sorted@.len() == voxels@.len(),
        decreases sorted@.len() - i,
    {
        let (vx, vy, vz) = sorted[i];
        let sx = cx + (vx as i64 - vz as i64) * tw;
        let sy = cy + (vx as i64 + vz as i64) * ts - (vy as i64) * ts * 2;
        let top = quad((sx, sy - ts), (sx + tw, sy), (sx, sy + ts), (sx - tw, sy));
        let left = quad((sx - tw, sy), (sx, sy + ts), (sx, sy + ts * 3), (sx - tw, sy + ts * 2));
        let right = quad((sx, sy + ts), (sx + tw, sy), (sx + tw, sy + ts * 2), (sx, sy + ts * 3));
        let ghost b0 = buffer@;
        fill_poly(buffer, width, height, &top, TOP_FACE);
        let ghost b1 = buffer@;
        assert forall|m: int| 0 <= m < b1.len() implies scene_colors().contains(#[trigger] b1[m]) by {
            assert(b1[m] == b0[m] || set![TOP_FACE].contains(b1[m]));
        }
        fill_poly(buffer, width, height, &left, LEFT_FACE);
        let ghost b2 = buffer@;
        assert forall|m: int| 0 <= m < b2.len() implies scene_colors().contains(#[trigger] b2[m]) by {
            assert(b2[m] == b1[m] || set![LEFT_FACE].contains(b2[m]));
        }
        fill_poly(buffer, width, height, &right, RIGHT_FACE);
        let ghost b3 = buffer@;
        assert forall|m: int| 0 <= m < b3.len() implies scene_colors().contains(#[trigger] b3[m]) by {
            assert(b3[m] == b2[m] || set![RIGHT_FACE].contains(b3[m]));
        }
        i = i + 1;
    }
}

} // verus!
