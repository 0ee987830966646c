//! The tile grid: terrain, occupancy and the level text it is built from.

use vstd::prelude::*;
use crate::AppState;

verus! {

/// Width of one tile in pixels.
pub const TILE_W: u32 = 64;

/// Height of one tile in pixels.
pub const TILE_H: u32 = 32;

/// The kinds of ground a tile can have.
#[derive(Debug, Copy, Clone, PartialEq, Eq, Hash, Structural)]
pub enum TerrainType {
    Grass,
    Water,
}

impl TerrainType {
    /// The index of this terrain's picture in the terrain texture.
    pub open spec fn spec_texture_index(self) -> u32 {
        match self {
            TerrainType::Grass => 0,
            TerrainType::Water => 1,
        }
    }

    /// The index of this terrain's picture in the terrain texture.
    pub fn texture_index(self) -> (r: u32)
        ensures
            r == self.spec_texture_index(),
    {
        match self {
            TerrainType::Grass => 0,
            TerrainType::Water => 1,
        }
    }
}

/// The ground of one tile.
#[derive(Debug, Copy, Clone, PartialEq, Eq, Hash, Structural)]
pub struct Terrain {
    pub terrain_type: TerrainType,
    pub is_buildable: bool,
}

impl Terrain {
    /// Grass, on which one can build.
    pub open spec fn grass() -> Terrain {
        Terrain { terrain_type: TerrainType::Grass, is_buildable: true }
    }

    /// Water, on which one cannot build.
    pub open spec fn water() -> Terrain {
        Terrain { terrain_type: TerrainType::Water, is_buildable: false }
    }

    /// The terrain that a character of a level text stands for: `G` is grass,
    /// `R` is water, and every other character is the default terrain.
    pub open spec fn of_char(c: char) -> Terrain {
        if c == 'R' {
            Terrain::water()
        } else {
            Terrain::grass()
        }
    }

    /// Grass, on which one can build.
    pub fn create_grass() -> (r: Terrain)
        ensures
            r == Terrain::grass(),
    {
        Terrain { terrain_type: TerrainType::Grass, is_buildable: true }
    }

    /// Water, on which one cannot build.
    pub fn create_water() -> (r: Terrain)
        ensures
            r == Terrain::water(),
    {
        Terrain { terrain_type: TerrainType::Water, is_buildable: false }
    }

    /// Reads one character of a level text.
    pub fn from_char(c: char) -> (r: Terrain)
        ensures
            r == Terrain::of_char(c),
    {
        match c {
            'G' => Terrain::create_grass(),
            'R' => Terrain::create_water(),
            _ => Terrain::default(),
        }
    }
}

impl Default for Terrain {
    /// The default terrain is grass.
    fn default() -> (r: Terrain)
        ensures
            r == Terrain::grass(),
    {
        Terrain { terrain_type: TerrainType::Grass, is_buildable: true }
    }
}

/// The coordinate of a tile on the grid.
#[derive(Debug, Copy, Clone, PartialEq, Eq, Hash, Structural)]
pub struct TilePos {
    pub x: u32,
    pub y: u32,
}

/// The identity of a building: its index in the list of buildings.
#[derive(Debug, Copy, Clone, PartialEq, Eq, Hash, Structural)]
pub struct BuildingId(pub usize);

/// The building that stands on a tile, if any.
#[derive(Debug, Copy, Clone, PartialEq, Eq, Hash)]
pub struct Occupied(pub Option<BuildingId>);

/// One tile of the grid.
#[derive(Debug, Copy, Clone, PartialEq, Eq, Hash)]
pub struct Tile {
    pub pos: TilePos,
    pub terrain: Terrain,
    pub occupied: Occupied,
}

impl Tile {
    /// A tile qualifies for a new building if its terrain allows building and
    /// nothing stands on it yet.
    pub open spec fn is_free(self) -> bool {
        self.terrain.is_buildable && self.occupied.0 is None
    }
}

/// Where a grid of the given height stores the tile of a coordinate.
spec fn slot_of(height: int, p: TilePos) -> int {
    p.x * height + p.y
}

/// The slots of the coordinates before `(x, y)`, column by column, are those
/// below `x * height + y`.
proof fn lemma_slot_before(height: int, p: TilePos, x: int, y: int)
    requires
        0 <= y <= height,
        p.y < height,
        p.x < x || (p.x == x && p.y < y),
    ensures
        0 <= slot_of(height, p) < x * height + y,
{
    let px = p.x as int;
    assert(0 <= px * height) by (nonlinear_arith)
        requires
            0 <= px,
            0 <= height,
    ;
    if px < x {
        assert(px * height + height <= x * height) by (nonlinear_arith)
            requires
                px < x,
                0 <= height,
        ;
    }
}

/// A rectangular grid of tiles, `width` tiles along x and `height` along y.
///
/// Every coordinate inside the rectangle has exactly one tile, and an occupied
/// tile always has buildable terrain.
#[derive(Debug, Clone, PartialEq, Eq)]
pub struct Grid {
    width: u32,
    height: u32,
    tiles: Vec<Tile>,
}

impl View for Grid {
    type V = Map<TilePos, Tile>;

    /// The tiles of the grid, by coordinate.
    closed spec fn view(&self) -> Map<TilePos, Tile> {
        Map::new(|p: TilePos| self.in_bounds(p), |p: TilePos| self.tiles@[self.slot(p)])
    }
}

impl Grid {
    /// The number of tiles along x.
    pub closed spec fn spec_width(&self) -> nat {
        self.width as nat
    }

    /// The number of tiles along y.
    pub closed spec fn spec_height(&self) -> nat {
        self.height as nat
    }

    /// Whether a coordinate lies inside the rectangle.
    pub open spec fn in_bounds(&self, p: TilePos) -> bool {
        p.x < self.spec_width() && p.y < self.spec_height()
    }

    /// Where the tile of a coordinate is stored.
    closed spec fn slot(&self, p: TilePos) -> int {
        slot_of(self.height as int, p)
    }

    /// The invariant of the grid.
    pub closed spec fn wf(&self) -> bool {
        &&& self.tiles@.len() == self.width * self.height
        &&& forall|p: TilePos|
            self.in_bounds(p) ==> {
                let t = #[trigger] self.tiles@[self.slot(p)];
                t.pos == p && (t.occupied.0 is Some ==> t.terrain.is_buildable)
            }
    }

    /// In a valid grid the tiles are those of the rectangle, each stored under
    /// its own coordinate, and none is occupied without being buildable.
    pub proof fn lemma_wf(&self)
        requires
            self.wf(),
        ensures
            forall|p: TilePos|
                #![trigger self@.contains_key(p)]
                #![trigger self.in_bounds(p)]
                self@.contains_key(p) <==> self.in_bounds(p),
            forall|p: TilePos| #[trigger]
                self@.contains_key(p) ==> self@[p].pos == p && (self@[p].occupied.0 is Some
                    ==> self@[p].terrain.is_buildable),
    {
        assert forall|p: TilePos| #[trigger] self@.contains_key(p) implies self@[p].pos == p && (
        self@[p].occupied.0 is Some ==> self@[p].terrain.is_buildable) by {
            assert(self.in_bounds(p));
            assert(self.tiles@[self.slot(p)].pos == p);
        }
    }

    /// The size of a grid fits a coordinate.
    pub proof fn lemma_dimensions(&self)
        ensures
            self.spec_width() <= u32::MAX,
            self.spec_height() <= u32::MAX,
    {
    }

    proof fn lemma_slot_in_range(&self, p: TilePos)
        requires
            self.wf(),
            self.in_bounds(p),
        ensures
            0 <= p.x * self.height <= self.slot(p) < self.tiles@.len() <= usize::MAX,
    {
        assert(self.tiles@.len() == self.tiles.len());
        let w = self.width as int;
        let h = self.height as int;
        let x = p.x as int;
        let y = p.y as int;
        assert(0 <= x * h) by (nonlinear_arith)
            requires
                0 <= x,
                0 <= h,
        ;
        assert(x * h + h <= w * h) by (nonlinear_arith)
            requires
                0 <= x < w,
                0 <= h,
        ;
    }

    proof fn lemma_slot_injective(&self, p: TilePos, q: TilePos)
        requires
            self.in_bounds(p),
            self.in_bounds(q),
            self.slot(p) == self.slot(q),
        ensures
            p == q,
    {
        let h = self.height as int;
        let (px, py) = (p.x as int, p.y as int);
        let (qx, qy) = (q.x as int, q.y as int);
        assert(px == qx) by (nonlinear_arith)
            requires
                px * h + py == qx * h + qy,
                0 <= py < h,
                0 <= qy < h,
                0 <= px,
                0 <= qx,
        ;
    }

    /// The number of tiles along x.
    pub fn width(&self) -> (r: u32)
        ensures
            r == self.spec_width(),
    {
        self.width
    }

    /// The number of tiles along y.
    pub fn height(&self) -> (r: u32)
        ensures
            r == self.spec_height(),
    {
        self.height
    }

    /// Whether the grid has a tile at `pos`.
    pub fn contains(&self, pos: TilePos) -> (r: bool)
        requires
            self.wf(),
        ensures
            r == self@.contains_key(pos),
            r == self.in_bounds(pos),
    {
        pos.x < self.width && pos.y < self.height
    }

    /// The tile at `pos`, if the grid has one.
    pub fn tile(&self, pos: TilePos) -> (r: Option<Tile>)
        requires
            self.wf(),
        ensures
            r == (if self@.contains_key(pos) {
                Some(self@[pos])
            } else {
                None
            }),
    {
        if pos.x < self.width && pos.y < self.height {
            proof {
                self.lemma_slot_in_range(pos);
            }
            let i: usize = pos.x as usize * self.height as usize + pos.y as usize;
            Some(self.tiles[i])
        } else {
            None
        }
    }

    /// Puts building `id` on the free tile at `pos`. Nothing else changes.
    pub fn occupy(&mut self, pos: TilePos, id: BuildingId)
        requires
            old(self).wf(),
            old(self)@.contains_key(pos),
            old(self)@[pos].is_free(),
        ensures
            final(self).wf(),
            final(self).spec_width() == old(self).spec_width(),
            final(self).spec_height() == old(self).spec_height(),
            final(self)@ == old(self)@.insert(
                pos,
                Tile {
                    pos: pos,
                    terrain: old(self)@[pos].terrain,
                    occupied: Occupied(Some(id)),
                },
            ),
    {
        proof {
            self.lemma_slot_in_range(pos);
        }
        let i: usize = pos.x as usize * self.height as usize + pos.y as usize;
        let before: Tile = self.tiles[i];
        let after = Tile { pos: before.pos, terrain: before.terrain, occupied: Occupied(Some(id)) };
        self.tiles.set(i, after);
        proof {
            assert forall|p: TilePos| self.in_bounds(p) implies {
                let t = #[trigger] self.tiles@[self.slot(p)];
                t.pos == p && (t.occupied.0 is Some ==> t.terrain.is_buildable)
            } by {
                assert(old(self).in_bounds(p));
                if self.slot(p) == self.slot(pos) {
                    self.lemma_slot_injective(p, pos);
                } else {
                    old(self).lemma_slot_in_range(p);
                    assert(self.tiles@[self.slot(p)] == old(self).tiles@[old(self).slot(p)]);
                }
            }
            assert forall|p: TilePos| self.in_bounds(p) && p != pos implies self.tiles@[self.slot(
                p,
            )] == old(self).tiles@[old(self).slot(p)] by {
                old(self).lemma_slot_in_range(p);
                if self.slot(p) == self.slot(pos) {
                    self.lemma_slot_injective(p, pos);
                }
            }
            assert(self@ =~= old(self)@.insert(pos, after));
        }
    }
}

/// A level as it is stored: the terrain as text, one line per x coordinate and one
/// character per tile, and the size of the map.
#[derive(Debug, Clone)]
pub struct Level {
    pub map: String,
    pub width: u32,
    pub height: u32,
}

/// The index of the first line feed in `s`, or the length of `s` if it has none.
pub open spec fn first_newline(s: Seq<char>) -> int
    decreases s.len(),
{
    if s.len() == 0 || s[0] == '\n' {
        0
    } else {
        1 + first_newline(s.skip(1))
    }
}

/// A line without the carriage return at its end, if it has one.
pub open spec fn strip_cr(line: Seq<char>) -> Seq<char> {
    if line.len() > 0 && line.last() == '\r' {
        line.drop_last()
    } else {
        line
    }
}

/// The lines of a text. A line ends with a line feed, or with a carriage return
/// and a line feed; neither belongs to the line. The last line needs no line
/// ending, and a text that ends with one has no empty line after it.
pub open spec fn text_lines(text: Seq<char>) -> Seq<Seq<char>>
    decreases text.len(),
{
    if text.len() == 0 {
        Seq::empty()
    } else {
        let n = first_newline(text);
        if n < 0 || n >= text.len() {
            seq![text]
        } else {
            seq![strip_cr(text.take(n))] + text_lines(text.skip(n + 1))
        }
    }
}

/// The terrain that one line of a level text stands for.
pub open spec fn terrain_line(line: Seq<char>) -> Seq<Terrain> {
    line.map_values(|c: char| Terrain::of_char(c))
}

/// The terrain that a level text stands for, line by line.
pub open spec fn terrain_rows(text: Seq<char>) -> Seq<Seq<Terrain>> {
    text_lines(text).map_values(|line: Seq<char>| terrain_line(line))
}

/// Rows of terrain as sequences.
pub open spec fn rows_view(rows: Seq<Vec<Terrain>>) -> Seq<Seq<Terrain>> {
    rows.map_values(|row: Vec<Terrain>| row@)
}

proof fn lemma_first_newline(s: Seq<char>, n: int)
    requires
        0 <= n <= s.len(),
        forall|j: int| 0 <= j < n ==> s[j] != '\n',
        n == s.len() || s[n] == '\n',
    ensures
        first_newline(s) == n,
    decreases n,
{
    if n > 0 {
        lemma_first_newline(s.skip(1), n - 1);
    }
}

/// Reads the terrain of a level from its text.
pub fn parse_terrain(text: &str) -> (rows: Vec<Vec<Terrain>>)
    ensures
        rows_view(rows@) == terrain_rows(text@),
{
    let mut rows: Vec<Vec<Terrain>> = Vec::new();
    let mut cur: Vec<Terrain> = Vec::new();
    let mut ends_cr = false;
    let ghost mut start: int = 0;
    proof {
        assert(text@.skip(0) =~= text@);
        assert(rows_view(rows@) + terrain_rows(text@) =~= terrain_rows(text@));
    }
    for c in it: text.chars()
        invariant
            it.seq() == text@,
            0 <= start <= it.index(),
            forall|j: int| start <= j < it.index() ==> text@[j] != '\n',
            cur@ == terrain_line(text@.subrange(start, it.index() as int)),
            ends_cr == (it.index() > start && text@[it.index() - 1] == '\r'),
            terrain_rows(text@) == rows_view(rows@) + terrain_rows(text@.skip(start)),
    {
        let ghost i = it.index() as int;
        let ghost line = text@.subrange(start, i);
        if c == '\n' {
            if ends_cr {
                cur.pop();
            }
            proof {
                let rest = text@.skip(start);
                lemma_first_newline(rest, i - start);
                assert(rest.take(i - start) =~= line);
                assert(rest.skip(i - start + 1) =~= text@.skip(i + 1));
                assert(cur@ =~= terrain_line(strip_cr(line)));
                assert(terrain_rows(rest) =~= seq![cur@] + terrain_rows(text@.skip(i + 1)));
                assert(rows_view(rows@.push(cur)) =~= rows_view(rows@).push(cur@));
                assert(rows_view(rows@).push(cur@) + terrain_rows(text@.skip(i + 1)) =~= rows_view(
                    rows@,
                ) + terrain_rows(rest));
            }
            rows.push(cur);
            cur = Vec::new();
            ends_cr = false;
            proof {
                start = i + 1;
                assert(text@.subrange(start, i + 1) =~= Seq::empty());
            }
        } else {
            cur.push(Terrain::from_char(c));
            ends_cr = c == '\r';
            proof {
                assert(text@.subrange(start, i + 1) =~= line.push(c));
                assert(cur@ =~= terrain_line(line.push(c)));
            }
        }
    }
    proof {
        let rest = text@.skip(start);
        lemma_first_newline(rest, rest.len() as int);
        assert(text@.subrange(start, text@.len() as int) =~= rest);
    }
    if cur.len() > 0 {
        proof {
            let rest = text@.skip(start);
            assert(terrain_rows(rest) =~= seq![cur@]);
            assert(rows_view(rows@.push(cur)) =~= rows_view(rows@).push(cur@));
        }
        rows.push(cur);
    } else {
        proof {
            assert(terrain_rows(text@.skip(start)) =~= Seq::empty());
        }
    }
    rows
}

/// The length of the first of some rows, or 0 if there are none.
pub open spec fn first_row_len(rows: Seq<Seq<Terrain>>) -> nat {
    if rows.len() == 0 {
        0
    } else {
        rows[0].len()
    }
}

/// Whether rows of terrain can fill a grid: no row is shorter than the first,
/// and the number of rows and the length of the first fit a coordinate.
pub open spec fn rows_fit(rows: Seq<Seq<Terrain>>) -> bool {
    &&& rows.len() <= u32::MAX
    &&& first_row_len(rows) <= u32::MAX
    &&& forall|x: int| 0 <= x < rows.len() ==> (#[trigger] rows[x]).len() >= first_row_len(rows)
}

/// The tile at `p` of a grid on which nothing is built yet, with the terrain of
/// its place in the rows.
pub open spec fn fresh_tile(rows: Seq<Seq<Terrain>>, p: TilePos) -> Tile {
    Tile { pos: p, terrain: rows[p.x as int][p.y as int], occupied: Occupied(None) }
}

impl Grid {
    /// Whether this is the grid that rows of terrain describe before anything is
    /// built: row `x` gives the tiles with that x coordinate, as many of each row
    /// as the first row has, and no tile is occupied.
    pub open spec fn is_fresh_from(&self, rows: Seq<Seq<Terrain>>) -> bool {
        &&& self.wf()
        &&& self.spec_width() == rows.len()
        &&& self.spec_height() == first_row_len(rows)
        &&& forall|p: TilePos| #[trigger]
            self@.contains_key(p) ==> self@[p] == fresh_tile(rows, p)
    }

    /// Builds the grid that rows of terrain describe, if they can fill one.
    pub fn from_rows(rows: &Vec<Vec<Terrain>>) -> (r: Option<Grid>)
        ensures
            r is Some <==> rows_fit(rows_view(rows@)),
            r matches Some(g) ==> g.is_fresh_from(rows_view(rows@)),
    {
        let ghost view = rows_view(rows@);
        let n = rows.len();
        if n > 0xffff_ffff {
            return None;
        }
        let c = if n == 0 {
            0
        } else {
            rows[0].len()
        };
        assert(c == first_row_len(view));
        if c > 0xffff_ffff {
            return None;
        }
        let mut k: usize = 0;
        while k < n
            invariant
                k <= n == rows@.len(),
                view == rows_view(rows@),
                c == first_row_len(view),
                forall|x: int| 0 <= x < k ==> (#[trigger] view[x]).len() >= c,
            decreases n - k,
        {
            if rows[k].len() < c {
                assert(view[k as int].len() < c);
                return None;
            }
            k = k + 1;
        }
        let mut tiles: Vec<Tile> = Vec::new();
        let mut x: usize = 0;
        while x < n
            invariant
                x <= n == rows@.len(),
                n <= u32::MAX,
                c <= u32::MAX,
                view == rows_view(rows@),
                forall|x: int| 0 <= x < n ==> (#[trigger] view[x]).len() >= c,
                tiles@.len() == x * c,
                forall|p: TilePos|
                    p.x < x && p.y < c ==> (#[trigger] tiles@[slot_of(c as int, p)]) == fresh_tile(view, p),
            decreases n - x,
        {
            let mut y: usize = 0;
            while y < c
                invariant
                    x < n == rows@.len(),
                    n <= u32::MAX,
                    y <= c <= u32::MAX,
                    view == rows_view(rows@),
                    view[x as int].len() >= c,
                    tiles@.len() == x * c + y,
                    forall|p: TilePos|
                        (p.x < x && p.y < c) || (p.x == x && p.y < y) ==> (
                        #[trigger] tiles@[slot_of(c as int, p)]) == fresh_tile(view, p),
                decreases c - y,
            {
                let here = TilePos { x: x as u32, y: y as u32 };
                let tile = Tile { pos: here, terrain: rows[x][y], occupied: Occupied(None) };
                let ghost before = tiles@;
                tiles.push(tile);
                proof {
                    assert forall|p: TilePos|
                        (p.x < x && p.y < c) || (p.x == x && p.y < y + 1) implies (
                    #[trigger] tiles@[slot_of(c as int, p)]) == fresh_tile(view, p) by {
                        if p == here {
                            assert(slot_of(c as int, p) == x * c + y);
                        } else {
                            lemma_slot_before(c as int, p, x as int, y as int);
                            assert(tiles@[slot_of(c as int, p)] == before[slot_of(c as int, p)]);
                        }
                    }
                }
                y = y + 1;
            }
            proof {
                assert(x * c + c == (x + 1) * c) by (nonlinear_arith);
            }
            x = x + 1;
        }
        let grid = Grid { width: n as u32, height: c as u32, tiles };
        proof {
            assert forall|p: TilePos| grid.in_bounds(p) implies {
                let t = #[trigger] grid.tiles@[grid.slot(p)];
                t.pos == p && (t.occupied.0 is Some ==> t.terrain.is_buildable)
            } by {
                assert(grid.tiles@[slot_of(c as int, p)].pos == p);
            }
            assert(grid.wf());
            assert forall|p: TilePos| #[trigger] grid@.contains_key(p) implies grid@[p] == fresh_tile(view, p) by {
                assert(grid.in_bounds(p));
                assert(grid@[p] == grid.tiles@[slot_of(c as int, p)]);
            }
        }
        Some(grid)
    }
}

/// Builds the grid of a level once the level is there: line `x` of its text
/// gives the tiles with that x coordinate, one character each. With the grid
/// built the level is being played. There is no grid, and the state stays as it
/// is, while there is no level, and if a line of the text is shorter than the
/// first.
pub fn create_terrain_tilemap(state: &mut AppState, level: Option<&Level>) -> (r: Option<Grid>)
    ensures
        r is Some <==> (level matches Some(loaded) && rows_fit(terrain_rows(loaded.map@))),
        r matches Some(grid) ==> grid.is_fresh_from(terrain_rows(level->0.map@)),
        *final(state) == if r is Some {
            AppState::Level
        } else {
            *old(state)
        },
{
    if let Some(level) = level {
        let tiles = parse_terrain(level.map.as_str());
        let grid = Grid::from_rows(&tiles);
        if grid.is_some() {
            *state = AppState::Level;
        }
        grid
    } else {
        None
    }
}

} // verus!
