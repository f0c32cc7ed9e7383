use vstd::prelude::*;
use crate::client::{Client, LayoutMode};

verus! {

/// The layout settings: the mode, how many clients share the master column,
/// the gap around windows and the border width. `master_ratio_bits` holds the
/// bits of the floating-point share of the width that the master column takes
/// (`f64::to_bits`); the library carries it and never computes with it.
#[derive(Clone, Copy, Debug, PartialEq, Eq, Structural)]
pub struct LayoutEngine {
    pub mode: LayoutMode,
    pub master_count: usize,
    pub master_ratio_bits: u64,
    pub gap: u32,
    pub border_width: u32,
}

/// A rectangle of the screen.
#[derive(Clone, Copy, Debug, PartialEq, Eq, Structural)]
pub struct Area {
    pub x: i32,
    pub y: i32,
    pub width: i32,
    pub height: i32,
}

/// Where one client goes: the index of the client, its position and size.
#[derive(Clone, Copy, Debug, PartialEq, Eq, Structural)]
pub struct Placement {
    pub client_index: usize,
    pub x: i32,
    pub y: i32,
    pub width: u32,
    pub height: u32,
}

/// The bits of the `f64` value 0.55, the default master share.
pub const DEFAULT_MASTER_RATIO_BITS: u64 = 0x3fe1_9999_9999_999a;

pub open spec fn in_i32(v: int) -> bool {
    i32::MIN <= v <= i32::MAX
}

/// The value of `gap as i32`.
pub open spec fn gap_as_i32(gap: u32) -> int {
    if gap <= i32::MAX {
        gap as int
    } else {
        gap - 0x1_0000_0000
    }
}

/// The value of `v as u32` for an `i32` value `v`.
pub open spec fn i32_as_u32(v: int) -> int {
    if v < 0 {
        v + 0x1_0000_0000
    } else {
        v
    }
}

/// `a.saturating_sub(b)` for unsigned values.
pub open spec fn sat_sub(a: int, b: int) -> int {
    if a >= b {
        a - b
    } else {
        0
    }
}

pub open spec fn max_int(a: int, b: int) -> int {
    if a >= b {
        a
    } else {
        b
    }
}

/// Integer division rounding toward zero, as `/` on `i32` does.
pub open spec fn trunc_div(a: int, b: int) -> int {
    if a >= 0 {
        a / b
    } else {
        -((-a) / b)
    }
}

/// The indices of the clients that take part in a layout: those that are not
/// fullscreen, in order.
pub open spec fn visible_of(clients: Seq<Client>) -> Seq<usize>
    decreases clients.len(),
{
    if clients.len() == 0 {
        seq![]
    } else {
        let v = visible_of(clients.drop_last());
        if clients.last().fullscreen {
            v
        } else {
            v.push((clients.len() - 1) as usize)
        }
    }
}

/// The clients that take part in a layout are exactly those that are not
/// fullscreen, each once and in order: so each of them gets exactly one
/// placement, and no fullscreen client gets one.
pub proof fn lemma_visible(clients: Seq<Client>)
    requires
        clients.len() <= usize::MAX,
    ensures
        visible_of(clients).len() <= clients.len(),
        forall|i: int| 0 <= i < clients.len() && !clients[i].fullscreen ==> visible_of(clients).contains(i as usize),
        forall|k: int|
            0 <= k < visible_of(clients).len() ==> 0 <= #[trigger] visible_of(clients)[k] < clients.len()
                && !clients[visible_of(clients)[k] as int].fullscreen,
        forall|k: int, l: int|
            0 <= k < l < visible_of(clients).len() ==> visible_of(clients)[k] < visible_of(clients)[l],
    decreases clients.len(),
{
    if clients.len() > 0 {
        let prev = clients.drop_last();
        lemma_visible(prev);
        let v = visible_of(clients);
        let pv = visible_of(prev);
        assert forall|i: int| 0 <= i < clients.len() && !clients[i].fullscreen implies v.contains(i as usize) by {
            if i < clients.len() - 1 {
                assert(prev[i] == clients[i]);
                assert(pv.contains(i as usize));
                let k = choose|k: int| 0 <= k < pv.len() && pv[k] == i as usize;
                if !clients.last().fullscreen {
                    assert(v[k] == pv[k]);
                }
                assert(v[k] == i as usize);
            } else {
                assert(v[v.len() - 1] == i as usize);
            }
        }
    }
}

/// The placement that fills the area, less the gap on each side (monocle
/// mode, and tiling mode with one client).
pub open spec fn full_placement(area: Area, g: int, idx: usize) -> Placement {
    Placement {
        client_index: idx,
        x: (area.x + g) as i32,
        y: (area.y + g) as i32,
        width: sat_sub(i32_as_u32(area.width as int), i32_as_u32(g * 2)) as u32,
        height: sat_sub(i32_as_u32(area.height as int), i32_as_u32(g * 2)) as u32,
    }
}

/// The arithmetic of `full_placement` stays within `i32`.
pub open spec fn full_fits(area: Area, g: int) -> bool {
    in_i32(area.x + g) && in_i32(area.y + g) && in_i32(g * 2)
}


/// The height of each master window: what is left of the area's height once
/// the gaps are taken out, shared among the master windows.
pub open spec fn master_height(area: Area, g: int, master_n: int) -> int {
    trunc_div(area.height - g * (master_n + 1), master_n)
}

/// The height of each window of the stack column.
pub open spec fn stack_height(area: Area, g: int, n: int, master_n: int) -> int {
    trunc_div(area.height - g * (n - master_n + 1), n - master_n)
}

/// The width of the stack column: what the master column and the gaps leave,
/// but at least 100.
pub open spec fn stack_width(area: Area, g: int, master_w: int) -> int {
    max_int(area.width - g * 2 - master_w - g, 100)
}

/// Where the tiling layout puts the visible client at position `pos` (of `n`),
/// whose index is `idx`: the first `master_n` go one above the other into the
/// master column, `master_w` wide; the others into the stack column at its
/// right.
pub open spec fn tile_placement(
    area: Area,
    g: int,
    n: int,
    master_n: int,
    master_w: int,
    pos: int,
    idx: usize,
) -> Placement {
    if pos < master_n {
        let mh = master_height(area, g, master_n);
        Placement {
            client_index: idx,
            x: (area.x + g) as i32,
            y: (area.y + g + pos * (mh + g)) as i32,
            width: max_int(master_w, 1) as u32,
            height: max_int(mh, 1) as u32,
        }
    } else {
        let sh = stack_height(area, g, n, master_n);
        Placement {
            client_index: idx,
            x: (area.x + g + master_w + g) as i32,
            y: (area.y + g + (pos - master_n) * (sh + g)) as i32,
            width: max_int(stack_width(area, g, master_w), 1) as u32,
            height: max_int(sh, 1) as u32,
        }
    }
}

/// Every intermediate `i32` value in computing `tile_placement` for `pos` is
/// within range (the layout overflows, and panics, otherwise).
pub open spec fn tile_fits(area: Area, g: int, n: int, master_n: int, master_w: int, pos: int) -> bool {
    if pos < master_n {
        let mh = master_height(area, g, master_n);
        &&& in_i32(g * (master_n + 1))
        &&& in_i32(area.height - g * (master_n + 1))
        &&& in_i32(area.x + g)
        &&& in_i32(area.y + g)
        &&& in_i32(mh + g)
        &&& in_i32(pos * (mh + g))
        &&& in_i32(area.y + g + pos * (mh + g))
    } else {
        let sh = stack_height(area, g, n, master_n);
        &&& in_i32(g * (n - master_n + 1))
        &&& in_i32(area.height - g * (n - master_n + 1))
        &&& in_i32(area.x + g)
        &&& in_i32(area.x + g + master_w)
        &&& in_i32(area.x + g + master_w + g)
        &&& in_i32(area.y + g)
        &&& in_i32(sh + g)
        &&& in_i32((pos - master_n) * (sh + g))
        &&& in_i32(area.y + g + (pos - master_n) * (sh + g))
    }
}

/// The arithmetic of `stack_width` stays within `i32`.
pub open spec fn stack_width_fits(area: Area, g: int, master_w: int) -> bool {
    &&& in_i32(g * 2)
    &&& in_i32(area.width - g * 2)
    &&& in_i32(area.width - g * 2 - master_w)
    &&& in_i32(area.width - g * 2 - master_w - g)
}

pub open spec fn min_nat(a: nat, b: nat) -> nat {
    if a <= b {
        a
    } else {
        b
    }
}

/// The tiling layout of the visible clients `vis`.
pub open spec fn tiling_placements(area: Area, g: int, vis: Seq<usize>, master_count: nat, master_w: int) -> Seq<Placement> {
    let n = vis.len();
    let master_n = min_nat(master_count, n);
    if n == 1 {
        seq![full_placement(area, g, vis[0])]
    } else {
        Seq::new(n, |pos: int| tile_placement(area, g, n as int, master_n as int, master_w, pos, vis[pos]))
    }
}

/// The tiling layout of `n` visible clients computes within `i32`.
pub open spec fn tiling_fits(area: Area, g: int, n: nat, master_count: nat, master_w: int) -> bool {
    let master_n = min_nat(master_count, n);
    &&& n < i32::MAX
    &&& n == 1 ==> full_fits(area, g)
    &&& n >= 2 ==> stack_width_fits(area, g, master_w)
    &&& n >= 2 ==> forall|pos: int| 0 <= pos < n ==> #[trigger] tile_fits(area, g, n as int, master_n as int, master_w, pos)
}

fn in_i32_check(v: i128) -> (b: bool)
    ensures
        b == in_i32(v as int),
{
    -0x8000_0000i128 <= v && v <= 0x7fff_ffffi128
}

fn full_fits_check(area: &Area, g: i32) -> (b: bool)
    ensures
        b == full_fits(*area, g as int),
{
    let g = g as i128;
    in_i32_check(area.x as i128 + g) && in_i32_check(area.y as i128 + g) && in_i32_check(g * 2)
}

fn stack_width_fits_check(area: &Area, g: i32, master_w: i32) -> (b: bool)
    ensures
        b == stack_width_fits(*area, g as int, master_w as int),
{
    let g = g as i128;
    let w = area.width as i128;
    let m = master_w as i128;
    in_i32_check(g * 2) && in_i32_check(w - g * 2) && in_i32_check(w - g * 2 - m) && in_i32_check(w - g * 2 - m - g)
}

fn tile_fits_check(area: &Area, g: i32, n: usize, master_n: usize, master_w: i32, pos: usize) -> (b: bool)
    requires
        n < i32::MAX,
        master_n <= n,
        pos < n,
    ensures
        b == tile_fits(*area, g as int, n as int, master_n as int, master_w as int, pos as int),
{
    let gi = g as i128;
    let x = area.x as i128;
    let y = area.y as i128;
    let h = area.height as i128;
    let p = pos as i128;
    if pos < master_n {
        let m = master_n as i128;
        assert(-0x8000_0000 * 0x8000_0000 <= gi * (m + 1) <= 0x8000_0000 * 0x8000_0000) by (nonlinear_arith)
            requires
                -0x8000_0000 <= gi <= 0x8000_0000,
                1 <= m + 1 <= 0x8000_0000,
        ;
        let reserve = gi * (m + 1);
        if !(in_i32_check(reserve) && in_i32_check(h - reserve) && in_i32_check(x + gi) && in_i32_check(y + gi)) {
            return false;
        }
        let mh = (h - reserve) / m;
        assert(mh == trunc_div(h - reserve, m as int));
        assert(-0x8000_0000 <= mh <= 0x8000_0000) by (nonlinear_arith)
            requires
                mh == trunc_div(h - reserve, m as int),
                -0x8000_0000 <= h - reserve <= 0x8000_0000,
                m >= 1,
        ;
        if !in_i32_check(mh + gi) {
            return false;
        }
        assert(-0x8000_0000 * 0x8000_0000 <= p * (mh + gi) <= 0x8000_0000 * 0x8000_0000) by (nonlinear_arith)
            requires
                -0x8000_0000 <= mh + gi <= 0x8000_0000,
                0 <= p <= 0x8000_0000,
        ;
        in_i32_check(p * (mh + gi)) && in_i32_check(y + gi + p * (mh + gi))
    } else {
        let sn = (n - master_n) as i128;
        let mw = master_w as i128;
        assert(-0x8000_0000 * 0x8000_0000 <= gi * (sn + 1) <= 0x8000_0000 * 0x8000_0000) by (nonlinear_arith)
            requires
                -0x8000_0000 <= gi <= 0x8000_0000,
                1 <= sn + 1 <= 0x8000_0000,
        ;
        let reserve = gi * (sn + 1);
        if !(in_i32_check(reserve) && in_i32_check(h - reserve) && in_i32_check(x + gi) && in_i32_check(x + gi + mw)
            && in_i32_check(x + gi + mw + gi) && in_i32_check(y + gi)) {
            return false;
        }
        let sh = (h - reserve) / sn;
        assert(sh == trunc_div(h - reserve, sn as int));
        assert(-0x8000_0000 <= sh <= 0x8000_0000) by (nonlinear_arith)
            requires
                sh == trunc_div(h - reserve, sn as int),
                -0x8000_0000 <= h - reserve <= 0x8000_0000,
                sn >= 1,
        ;
        if !in_i32_check(sh + gi) {
            return false;
        }
        let si = (pos - master_n) as i128;
        assert(-0x8000_0000 * 0x8000_0000 <= si * (sh + gi) <= 0x8000_0000 * 0x8000_0000) by (nonlinear_arith)
            requires
                -0x8000_0000 <= sh + gi <= 0x8000_0000,
                0 <= si <= 0x8000_0000,
        ;
        in_i32_check(si * (sh + gi)) && in_i32_check(y + gi + si * (sh + gi))
    }
}

fn gap_to_i32(gap: u32) -> (r: i32)
    ensures
        r == gap_as_i32(gap),
{
    if gap <= 0x7fff_ffff {
        gap as i32
    } else {
        (gap as i64 - 0x1_0000_0000i64) as i32
    }
}

fn i32_to_u32(v: i32) -> (r: u32)
    ensures
        r == i32_as_u32(v as int),
{
    if v < 0 {
        (v as i64 + 0x1_0000_0000i64) as u32
    } else {
        v as u32
    }
}

fn full_placement_exec(area: &Area, g: i32, idx: usize) -> (p: Placement)
    requires
        full_fits(*area, g as int),
    ensures
        p == full_placement(*area, g as int, idx),
{
    let w = i32_to_u32(area.width).saturating_sub(i32_to_u32(g * 2));
    let h = i32_to_u32(area.height).saturating_sub(i32_to_u32(g * 2));
    Placement { client_index: idx, x: area.x + g, y: area.y + g, width: w, height: h }
}

fn tiling_exec(area: &Area, g: i32, vis: &Vec<usize>, master_count: usize, master_w: i32) -> (ps: Vec<Placement>)
    requires
        vis@.len() >= 1,
        tiling_fits(*area, g as int, vis@.len(), master_count as nat, master_w as int),
    ensures
        ps@ == tiling_placements(*area, g as int, vis@, master_count as nat, master_w as int),
{
    let n = vis.len();
    let master_n = if master_count <= n { master_count } else { n };
    let mut placements: Vec<Placement> = Vec::with_capacity(n);
    if n == 1 {
        placements.push(full_placement_exec(area, g, vis[0]));
        assert(placements@ =~= tiling_placements(*area, g as int, vis@, master_count as nat, master_w as int));
        return placements;
    }
    let stack_w0 = area.width - g * 2 - master_w - g;
    let stack_w = if stack_w0 >= 100 { stack_w0 } else { 100 };
    let mut pos: usize = 0;
    assert forall|q: int| 0 <= q < n implies #[trigger] tile_fits(*area, g as int, n as int, master_n as int, master_w as int, q) by {
        assert(tile_fits(*area, g as int, vis@.len() as int, min_nat(master_count as nat, vis@.len()) as int, master_w as int, q));
    }
    while pos < n
        invariant
            n == vis@.len(),
            n >= 2,
            n < i32::MAX,
            master_n == min_nat(master_count as nat, n as nat),
            stack_w == stack_width(*area, g as int, master_w as int),
            forall|q: int| 0 <= q < n ==> #[trigger] tile_fits(*area, g as int, n as int, master_n as int, master_w as int, q),
            0 <= pos <= n,
            placements@.len() == pos,
            forall|k: int| 0 <= k < pos ==> placements@[k] == tile_placement(*area, g as int, n as int, master_n as int, master_w as int, k, vis@[k]),
        decreases n - pos,
    {
        assert(tile_fits(*area, g as int, n as int, master_n as int, master_w as int, pos as int));
        let idx = vis[pos];
        if pos < master_n {
            let master_h = (area.height - g * (master_n as i32 + 1)) / master_n as i32;
            let w = if master_w >= 1 { master_w } else { 1 };
            let h = if master_h >= 1 { master_h } else { 1 };
            placements.push(Placement {
                client_index: idx,
                x: area.x + g,
                y: area.y + g + pos as i32 * (master_h + g),
                width: w as u32,
                height: h as u32,
            });
        } else {
            let stack_i = pos - master_n;
            let stack_n = n - master_n;
            let stack_h = (area.height - g * (stack_n as i32 + 1)) / stack_n as i32;
            let w = if stack_w >= 1 { stack_w } else { 1 };
            let h = if stack_h >= 1 { stack_h } else { 1 };
            placements.push(Placement {
                client_index: idx,
                x: area.x + g + master_w + g,
                y: area.y + g + stack_i as i32 * (stack_h + g),
                width: w as u32,
                height: h as u32,
            });
        }
        pos = pos + 1;
    }
    assert(placements@ =~= tiling_placements(*area, g as int, vis@, master_count as nat, master_w as int));
    placements
}


/// The placement that floating mode gives a client: where the client is.
pub open spec fn floating_placement(c: Client, idx: usize) -> Placement {
    Placement { client_index: idx, x: c.x, y: c.y, width: c.width, height: c.height }
}

/// The indices of the clients that are not fullscreen, in order.
pub fn visible_indices(clients: &Vec<Client>) -> (vis: Vec<usize>)
    ensures
        vis@ == visible_of(clients@),
{
    let mut vis: Vec<usize> = Vec::new();
    let mut i: usize = 0;
    assert(clients@.take(0) =~= Seq::<Client>::empty());
    while i < clients.len()
        invariant
            0 <= i <= clients@.len(),
            vis@ == visible_of(clients@.take(i as int)),
        decreases clients@.len() - i,
    {
        assert(clients@.take(i as int + 1).drop_last() =~= clients@.take(i as int));
        if !clients[i].fullscreen {
            vis.push(i);
        }
        i = i + 1;
    }
    assert(clients@.take(i as int) =~= clients@);
    vis
}

impl LayoutEngine {
    /// Tiling, one master window taking 0.55 of the width, gap 4, border 2.
    pub fn new() -> (e: Self)
        ensures
            e == (LayoutEngine {
                mode: LayoutMode::Tiling,
                master_count: 1,
                master_ratio_bits: DEFAULT_MASTER_RATIO_BITS,
                gap: 4,
                border_width: 2,
            }),
    {
        LayoutEngine {
            mode: LayoutMode::Tiling,
            master_count: 1,
            master_ratio_bits: DEFAULT_MASTER_RATIO_BITS,
            gap: 4,
            border_width: 2,
        }
    }

    /// The placements of `clients` in `area`. In tiling mode with two or more
    /// visible clients the master column is `master_w` wide (the caller scales
    /// the width that `master_reserve` leaves by the master share).
    pub open spec fn arrangement(self, clients: Seq<Client>, area: Area, master_w: int) -> Seq<Placement> {
        let vis = visible_of(clients);
        let g = gap_as_i32(self.gap);
        if vis.len() == 0 {
            seq![]
        } else {
            match self.mode {
                LayoutMode::Floating => Seq::new(vis.len(), |k: int| floating_placement(clients[vis[k] as int], vis[k])),
                LayoutMode::Monocle => Seq::new(vis.len(), |k: int| full_placement(area, g, vis[k])),
                LayoutMode::Tiling => tiling_placements(area, g, vis, self.master_count as nat, master_w),
            }
        }
    }

    /// The layout of `clients` in `area` computes within `i32`.
    pub open spec fn arrangement_fits(self, clients: Seq<Client>, area: Area, master_w: int) -> bool {
        let n = visible_of(clients).len();
        let g = gap_as_i32(self.gap);
        match self.mode {
            LayoutMode::Floating => true,
            LayoutMode::Monocle => n >= 1 ==> full_fits(area, g),
            LayoutMode::Tiling => n >= 1 ==> tiling_fits(area, g, n, self.master_count as nat, master_w),
        }
    }

    /// Places the clients that are not fullscreen, in order: floating mode
    /// keeps each where it is, monocle mode gives each the whole area less the
    /// gaps, tiling mode splits the area into a master and a stack column.
    pub fn arrange(&self, clients: &Vec<Client>, area: &Area, _sel_index: Option<usize>, master_w: i32) -> (ps: Vec<Placement>)
        requires
            self.arrangement_fits(clients@, *area, master_w as int),
        ensures
            ps@ == self.arrangement(clients@, *area, master_w as int),
            ps@.len() == visible_of(clients@).len(),
            forall|k: int| 0 <= k < ps@.len() ==> (#[trigger] ps@[k]).client_index == visible_of(clients@)[k],
    {
        let visible = visible_indices(clients);
        let _count = clients.len();
        if visible.len() == 0 {
            return Vec::new();
        }
        let g = gap_to_i32(self.gap);
        let ps = match self.mode {
            LayoutMode::Floating => self.arrange_floating(clients, &visible),
            LayoutMode::Monocle => self.arrange_monocle(area, &visible),
            LayoutMode::Tiling => tiling_exec(area, g, &visible, self.master_count, master_w),
        };
        proof {
            if self.mode == LayoutMode::Tiling {
                if visible@.len() == 1 {
                    assert(ps@[0].client_index == visible@[0]);
                }
            }
        }
        ps
    }

    fn arrange_floating(&self, clients: &Vec<Client>, visible: &Vec<usize>) -> (ps: Vec<Placement>)
        requires
            visible@ == visible_of(clients@),
            clients@.len() <= usize::MAX,
        ensures
            ps@ == Seq::new(visible@.len(), |k: int| floating_placement(clients@[visible@[k] as int], visible@[k])),
    {
        proof {
            lemma_visible(clients@);
        }
        let mut ps: Vec<Placement> = Vec::new();
        let mut k: usize = 0;
        while k < visible.len()
            invariant
                visible@ == visible_of(clients@),
                forall|j: int| 0 <= j < visible@.len() ==> 0 <= #[trigger] visible@[j] < clients@.len(),
                0 <= k <= visible@.len(),
                ps@ =~= Seq::new(k as nat, |j: int| floating_placement(clients@[visible@[j] as int], visible@[j])),
            decreases visible@.len() - k,
        {
            let i = visible[k];
            let c = &clients[i];
            ps.push(Placement { client_index: i, x: c.x, y: c.y, width: c.width, height: c.height });
            k = k + 1;
        }
        ps
    }

    fn arrange_monocle(&self, area: &Area, visible: &Vec<usize>) -> (ps: Vec<Placement>)
        requires
            visible@.len() >= 1 ==> full_fits(*area, gap_as_i32(self.gap)),
        ensures
            ps@ == Seq::new(visible@.len(), |k: int| full_placement(*area, gap_as_i32(self.gap), visible@[k])),
    {
        let g = gap_to_i32(self.gap);
        let mut ps: Vec<Placement> = Vec::new();
        let mut k: usize = 0;
        while k < visible.len()
            invariant
                g == gap_as_i32(self.gap),
                visible@.len() >= 1 ==> full_fits(*area, g as int),
                0 <= k <= visible@.len(),
                ps@ =~= Seq::new(k as nat, |j: int| full_placement(*area, g as int, visible@[j])),
            decreases visible@.len() - k,
        {
            ps.push(full_placement_exec(area, g, visible[k]));
            k = k + 1;
        }
        ps
    }

    /// Whether the layout of `clients` in `area` computes within `i32` (where
    /// it does not, laying the clients out overflows).
    pub fn arrangement_fits_check(&self, clients: &Vec<Client>, area: &Area, master_w: i32) -> (b: bool)
        ensures
            b == self.arrangement_fits(clients@, *area, master_w as int),
    {
        let visible = visible_indices(clients);
        let n = visible.len();
        let g = gap_to_i32(self.gap);
        match self.mode {
            LayoutMode::Floating => true,
            LayoutMode::Monocle => n == 0 || full_fits_check(area, g),
            LayoutMode::Tiling => {
                if n == 0 {
                    return true;
                }
                if n >= 0x7fff_ffff {
                    return false;
                }
                if n == 1 {
                    return full_fits_check(area, g);
                }
                if !stack_width_fits_check(area, g, master_w) {
                    return false;
                }
                let master_n = if self.master_count <= n { self.master_count } else { n };
                let mut pos: usize = 0;
                while pos < n
                    invariant
                        n == visible_of(clients@).len(),
                        g == gap_as_i32(self.gap),
                        self.mode == LayoutMode::Tiling,
                        2 <= n < i32::MAX,
                        master_n == min_nat(self.master_count as nat, n as nat),
                        0 <= pos <= n,
                        forall|q: int| 0 <= q < pos ==> #[trigger] tile_fits(*area, g as int, n as int, master_n as int, master_w as int, q),
                    decreases n - pos,
                {
                    if !tile_fits_check(area, g, n, master_n, master_w, pos) {
                        assert(!tile_fits(*area, g as int, visible_of(clients@).len() as int,
                            min_nat(self.master_count as nat, visible_of(clients@).len()) as int, master_w as int, pos as int));
                        return false;
                    }
                    pos = pos + 1;
                }
                assert forall|q: int| 0 <= q < n implies #[trigger] tile_fits(*area, g as int, visible_of(clients@).len() as int,
                    min_nat(self.master_count as nat, visible_of(clients@).len()) as int, master_w as int, q) by {
                    assert(tile_fits(*area, g as int, n as int, master_n as int, master_w as int, q));
                }
                true
            },
        }
    }

    /// How much of the area's width the gaps around the master column take:
    /// the gap times one more than the number of master windows among
    /// `visible_count` visible clients; `None` when that overflows `i32`. The
    /// master column is this much less than the area's width, scaled by the
    /// master share.
    pub fn master_reserve(&self, visible_count: usize) -> (r: Option<i32>)
        requires
            visible_count < i32::MAX,
        ensures
            ({
                let v = gap_as_i32(self.gap) * (min_nat(self.master_count as nat, visible_count as nat) + 1);
                if in_i32(v) { r == Some(v as i32) } else { r is None }
            }),
    {
        let g = gap_to_i32(self.gap) as i128;
        let master_n = if self.master_count <= visible_count { self.master_count } else { visible_count };
        let m = master_n as i128;
        assert(-0x8000_0000 * 0x8000_0000 <= g * (m + 1) <= 0x8000_0000 * 0x8000_0000) by (nonlinear_arith)
            requires
                -0x8000_0000 <= g <= 0x8000_0000,
                1 <= m + 1 <= 0x8000_0000,
        ;
        let v = g * (m + 1);
        if in_i32_check(v) {
            Some(v as i32)
        } else {
            None
        }
    }
}

/// With one visible client, tiling gives it the whole area less the gaps,
/// just as monocle mode does, whatever the master count, share and width.
pub proof fn lemma_single_tiled_client_fills(e: LayoutEngine, clients: Seq<Client>, area: Area, master_w: int)
    requires
        e.mode == LayoutMode::Tiling,
        visible_of(clients).len() == 1,
    ensures
        e.arrangement(clients, area, master_w) == seq![full_placement(area, gap_as_i32(e.gap), visible_of(clients)[0])],
        e.arrangement(clients, area, master_w) == (LayoutEngine { mode: LayoutMode::Monocle, ..e }).arrangement(clients, area, master_w),
{
    let m = LayoutEngine { mode: LayoutMode::Monocle, ..e };
    assert(m.arrangement(clients, area, master_w) =~= seq![full_placement(area, gap_as_i32(e.gap), visible_of(clients)[0])]);
}

proof fn lemma_trunc_div_nonneg(a: int, b: int)
    requires
        a >= 0,
        b >= 1,
    ensures
        trunc_div(a, b) >= 0,
{
    vstd::arithmetic::div_mod::lemma_div_pos_is_pos(a, b);
}

/// In tiling and monocle mode, when the gap is not negative and the area is
/// tall enough for the gaps around every visible client, no placement starts
/// above the area (so, with the area below the bar, no client covers the
/// bar).
pub proof fn lemma_placements_start_in_area(e: LayoutEngine, clients: Seq<Client>, area: Area, master_w: int)
    requires
        e.mode != LayoutMode::Floating,
        gap_as_i32(e.gap) >= 0,
        area.height >= gap_as_i32(e.gap) * (visible_of(clients).len() + 1),
        e.arrangement_fits(clients, area, master_w),
    ensures
        forall|k: int| 0 <= k < e.arrangement(clients, area, master_w).len() ==>
            (#[trigger] e.arrangement(clients, area, master_w)[k]).y >= area.y,
{
    let g = gap_as_i32(e.gap);
    let vis = visible_of(clients);
    let n = vis.len();
    let ps = e.arrangement(clients, area, master_w);
    if n >= 2 && e.mode == LayoutMode::Tiling {
        let mn = min_nat(e.master_count as nat, n);
        assert forall|k: int| 0 <= k < ps.len() implies (#[trigger] ps[k]).y >= area.y by {
            assert(tile_fits(area, g, n as int, mn as int, master_w, k));
            if k < mn {
                assert(g * (mn + 1) <= g * (n + 1)) by (nonlinear_arith)
                    requires
                        g >= 0,
                        mn <= n,
                ;
                lemma_trunc_div_nonneg(area.height - g * (mn + 1), mn as int);
                let mh = master_height(area, g, mn as int);
                assert(k * (mh + g) >= 0) by (nonlinear_arith)
                    requires
                        k >= 0,
                        mh >= 0,
                        g >= 0,
                ;
            } else {
                let sn = n - mn;
                assert(g * (sn + 1) <= g * (n + 1)) by (nonlinear_arith)
                    requires
                        g >= 0,
                        sn <= n,
                ;
                lemma_trunc_div_nonneg(area.height - g * (sn + 1), sn as int);
                let sh = stack_height(area, g, n as int, mn as int);
                assert((k - mn) * (sh + g) >= 0) by (nonlinear_arith)
                    requires
                        k - mn >= 0,
                        sh >= 0,
                        g >= 0,
                ;
            }
        }
    }
}

/// The placements `lo..hi` of `ps` make one column of `area`: all equally
/// high, at least one pixel each; the first starts the gap `g` below the
/// area's top edge and each of the others the gap below the one before, so
/// that none overlaps another; the last ends the gap above the area's bottom
/// edge, higher by less than one pixel per window (what an even split of the
/// height rounds off).
pub open spec fn stacked_column(ps: Seq<Placement>, area: Area, g: int, lo: int, hi: int) -> bool {
    &&& lo < hi ==> ps[lo].y == area.y + g
    &&& forall|k: int| lo <= k < hi ==> (#[trigger] ps[k]).height >= 1 && ps[k].height == ps[lo].height
    &&& forall|k: int, l: int| #![trigger ps[k], ps[l]] lo <= k && l == k + 1 && l < hi ==> ps[l].y == ps[k].y + ps[k].height + g
    &&& forall|k: int, l: int| #![trigger ps[k], ps[l]] lo <= k < l < hi ==> ps[k].y + ps[k].height <= ps[l].y
    &&& lo < hi ==> area.y + area.height - g - (hi - lo) < ps[hi - 1].y + ps[hi - 1].height
    &&& lo < hi ==> ps[hi - 1].y + ps[hi - 1].height <= area.y + area.height - g
}

proof fn lemma_even_split(num: int, c: int)
    requires
        c >= 1,
        num >= c,
    ensures
        num / c >= 1,
        c * (num / c) <= num < c * (num / c) + c,
{
    vstd::arithmetic::div_mod::lemma_fundamental_div_mod(num, c);
    vstd::arithmetic::div_mod::lemma_mod_bound(num, c);
    vstd::arithmetic::div_mod::lemma_div_is_ordered(c, num, c);
    vstd::arithmetic::div_mod::lemma_div_by_self(c);
}

proof fn lemma_column_from_offsets(ps: Seq<Placement>, area: Area, g: int, lo: int, hi: int, h: int)
    requires
        0 <= lo <= hi <= ps.len(),
        g >= 0,
        h >= 1,
        forall|k: int| lo <= k < hi ==> (#[trigger] ps[k]).y == area.y + g + (k - lo) * (h + g) && ps[k].height == h,
        lo < hi ==> (hi - lo) * h <= area.height - g * (hi - lo + 1) < (hi - lo) * h + (hi - lo),
    ensures
        stacked_column(ps, area, g, lo, hi),
{
    assert forall|k: int, l: int| #![trigger ps[k], ps[l]] lo <= k && l == k + 1 && l < hi implies ps[l].y == ps[k].y + ps[k].height + g by {
        assert((l - lo) * (h + g) == (k - lo) * (h + g) + (h + g)) by (nonlinear_arith)
            requires
                l == k + 1,
        ;
    }
    assert forall|k: int, l: int| #![trigger ps[k], ps[l]] lo <= k < l < hi implies ps[k].y + ps[k].height <= ps[l].y by {
        assert((l - lo) * (h + g) >= (k - lo) * (h + g) + (h + g)) by (nonlinear_arith)
            requires
                k < l,
                h + g >= 0,
        ;
    }
    if lo < hi {
        let c = hi - lo;
        let last = ps[hi - 1];
        assert(last.y + last.height == area.y + c * h + c * g) by (nonlinear_arith)
            requires
                last.y == area.y + g + (hi - 1 - lo) * (h + g),
                last.height == h,
                c == hi - lo,
        ;
        assert(g * (c + 1) == c * g + g) by (nonlinear_arith);
        assert(area.y + area.height - g - c < last.y + last.height);
        assert(last.y + last.height <= area.y + area.height - g);
        assert(ps[lo].y == area.y + g + (lo - lo) * (h + g));
        assert((lo - lo) * (h + g) == 0) by (nonlinear_arith);
    }
}

/// In tiling mode with two or more visible clients, when the gap is not
/// negative and the area has room for every gap and a pixel of every window,
/// the master windows make one column and the stack windows another: in each,
/// the windows share the height left by the gaps evenly, one below the other
/// without overlap, and the last ends within the area. The master column
/// starts a gap right of the area's left edge and is `master_w` wide; the
/// stack column starts a gap right of it and, unless held at its least width
/// of 100, ends a gap left of the area's right edge.
pub proof fn lemma_tiling_columns(e: LayoutEngine, clients: Seq<Client>, area: Area, master_w: int)
    requires
        e.mode == LayoutMode::Tiling,
        visible_of(clients).len() >= 2,
        gap_as_i32(e.gap) >= 0,
        area.height >= (gap_as_i32(e.gap) + 1) * (visible_of(clients).len() + 1),
        e.arrangement_fits(clients, area, master_w),
        in_i32(master_w),
    ensures
        ({
            let ps = e.arrangement(clients, area, master_w);
            let n = visible_of(clients).len() as int;
            let mn = min_nat(e.master_count as nat, n as nat) as int;
            let g = gap_as_i32(e.gap);
            &&& stacked_column(ps, area, g, 0, mn)
            &&& stacked_column(ps, area, g, mn, n)
            &&& forall|k: int| 0 <= k < mn ==> (#[trigger] ps[k]).x == area.x + g
                && (master_w >= 1 ==> ps[k].width == master_w)
            &&& forall|k: int| mn <= k < n ==> (#[trigger] ps[k]).x == area.x + g + master_w + g
                && (area.width - g * 3 - master_w >= 100 ==> ps[k].x + ps[k].width == area.x + area.width - g)
        }),
{
    let g = gap_as_i32(e.gap);
    let vis = visible_of(clients);
    let n = vis.len() as int;
    let mn = min_nat(e.master_count as nat, n as nat) as int;
    let ps = e.arrangement(clients, area, master_w);
    assert(ps.len() == n);
    let sn = n - mn;
    assert forall|k: int| 0 <= k < mn implies (#[trigger] ps[k]).x == area.x + g
        && (master_w >= 1 ==> ps[k].width == master_w) by {
        assert(tile_fits(area, g, n, mn, master_w, k));
    }
    assert forall|k: int| mn <= k < n implies (#[trigger] ps[k]).x == area.x + g + master_w + g
        && (area.width - g * 3 - master_w >= 100 ==> ps[k].x + ps[k].width == area.x + area.width - g) by {
        assert(tile_fits(area, g, n, mn, master_w, k));
    }
    if mn >= 1 {
        assert(area.height - g * (mn + 1) >= mn) by (nonlinear_arith)
            requires
                area.height >= (g + 1) * (n + 1),
                1 <= mn <= n,
                g >= 0,
        ;
        lemma_even_split(area.height - g * (mn + 1), mn);
        let mh = master_height(area, g, mn);
        assert forall|k: int| 0 <= k < mn implies (#[trigger] ps[k]).y == area.y + g + (k - 0) * (mh + g) && ps[k].height == mh by {
            assert(tile_fits(area, g, n, mn, master_w, k));
        }
        lemma_column_from_offsets(ps, area, g, 0, mn, mh);
    } else {
        lemma_column_from_offsets(ps, area, g, 0, mn, 1);
    }
    if sn >= 1 {
        assert(area.height - g * (sn + 1) >= sn) by (nonlinear_arith)
            requires
                area.height >= (g + 1) * (n + 1),
                1 <= sn <= n,
                g >= 0,
        ;
        lemma_even_split(area.height - g * (sn + 1), sn);
        let sh = stack_height(area, g, n, mn);
        assert forall|k: int| mn <= k < n implies (#[trigger] ps[k]).y == area.y + g + (k - mn) * (sh + g) && ps[k].height == sh by {
            assert(tile_fits(area, g, n, mn, master_w, k));
        }
        lemma_column_from_offsets(ps, area, g, mn, n, sh);
    } else {
        lemma_column_from_offsets(ps, area, g, mn, n, 1);
    }
}

} // verus!
