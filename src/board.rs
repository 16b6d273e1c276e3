use vstd::prelude::*;

verus! {

/// Number of columns of the board.
pub const WIDTH: usize = 7;

/// Number of rows of the board; row 0 is the top, row `HEIGHT - 1` the bottom.
pub const HEIGHT: usize = 6;

/// Number of consecutive pieces of one player that wins the game.
pub const WIN_NUM: usize = 4;

/// One of the two players.
#[derive(Clone, Copy, Debug, PartialEq, Eq, Structural)]
pub enum Player {
    First,
    Second,
}

impl Player {
    /// The opponent of this player.
    pub fn other(self) -> (r: Player)
        ensures
            r != self,
    {
        match self {
            Player::First => Player::Second,
            Player::Second => Player::First,
        }
    }
}


/// One of the four line families through a cell.
#[derive(Clone, Copy, Debug, PartialEq, Eq, Structural)]
pub enum Direction {
    /// Same column, `y` varying.
    Vertical,
    /// Same row, `x` varying.
    Horizontal,
    /// `x` and `y` increasing together.
    Descending,
    /// `x` increasing while `y` decreases.
    Ascending,
}

/// The coordinate `i` steps from `(x, y)` along `d`; a negative `i` steps backwards.
pub open spec fn step(d: Direction, x: int, y: int, i: int) -> (int, int) {
    match d {
        Direction::Vertical => (x, y + i),
        Direction::Horizontal => (x + i, y),
        Direction::Descending => (x + i, y + i),
        Direction::Ascending => (x + i, y - i),
    }
}

/// `(x, y)` lies on the board.
pub open spec fn in_grid(x: int, y: int) -> bool {
    0 <= x < WIDTH && 0 <= y < HEIGHT
}

/// Position of cell `(x, y)` in the column-major storage of the board.
pub open spec fn cell_index(x: int, y: int) -> int {
    x * HEIGHT + y
}

/// The game board: `WIDTH` columns of `HEIGHT` cells, each empty or owned by a player.
pub struct Board {
    cells: Vec<Option<Player>>,
}

impl View for Board {
    type V = Seq<Option<Player>>;

    /// The cells, column by column, each column from top to bottom.
    closed spec fn view(&self) -> Seq<Option<Player>> {
        self.cells@
    }
}

fn index_of(x: usize, y: usize) -> (r: usize)
    requires
        x < WIDTH,
        y < HEIGHT,
    ensures
        r == cell_index(x as int, y as int),
        r < WIDTH * HEIGHT,
{
    x * HEIGHT + y
}

impl Board {
    /// Content of cell `(x, y)`.
    pub open spec fn cell_spec(&self, x: int, y: int) -> Option<Player> {
        self@[cell_index(x, y)]
    }

    /// Cell `(x, y)` lies on the board and holds a piece of `p`.
    pub open spec fn owned_by(&self, x: int, y: int, p: Player) -> bool {
        in_grid(x, y) && self.cell_spec(x, y) == Some(p)
    }

    /// No piece floats: below an occupied cell every cell of its column is occupied.
    pub open spec fn settled(&self) -> bool {
        forall|x: int, y1: int, y2: int|
            0 <= x < WIDTH && 0 <= y1 < y2 < HEIGHT && (#[trigger] self.cell_spec(x, y1)) is Some
                ==> (#[trigger] self.cell_spec(x, y2)) is Some
    }

    /// The board holds exactly `WIDTH * HEIGHT` cells and no piece floats.
    pub open spec fn wf(&self) -> bool {
        self@.len() == WIDTH * HEIGHT && self.settled()
    }

    /// Every cell is empty.
    pub open spec fn empty(&self) -> bool {
        forall|x: int, y: int| in_grid(x, y) ==> (#[trigger] self.cell_spec(x, y)) is None
    }

    /// Column `x` has a free slot: its top cell is empty.
    pub open spec fn column_open(&self, x: int) -> bool {
        self.cell_spec(x, 0) is None
    }

    /// Every cell is occupied.
    pub open spec fn full(&self) -> bool {
        forall|x: int, y: int| in_grid(x, y) ==> (#[trigger] self.cell_spec(x, y)) is Some
    }

    /// Column `x` as a sequence of cells from top to bottom.
    pub open spec fn column(&self, x: int) -> Seq<Option<Player>> {
        Seq::new(HEIGHT as nat, |y: int| self.cell_spec(x, y))
    }

    /// `(x, y)` is the topmost occupied cell of column `x`.
    pub open spec fn is_top(&self, x: int, y: int) -> bool {
        &&& in_grid(x, y)
        &&& self.cell_spec(x, y) is Some
        &&& forall|j: int| 0 <= j < y ==> (#[trigger] self.cell_spec(x, j)) is None
    }

    /// The cell `i` steps from `(x, y)` along `d` lies on the board and belongs to `p`.
    pub open spec fn owned_at(&self, d: Direction, x: int, y: int, i: int, p: Player) -> bool {
        self.owned_by(step(d, x, y, i).0, step(d, x, y, i).1, p)
    }

    /// The window of `WIN_NUM` consecutive cells along `d` in which `(x, y)` stands at
    /// position `k` lies on the board and belongs wholly to `p`.
    pub open spec fn window_owned(&self, d: Direction, x: int, y: int, k: int, p: Player) -> bool {
        forall|i: int| -k <= i < WIN_NUM - k ==> #[trigger] self.owned_at(d, x, y, i, p)
    }

    /// Some window along `d` through `(x, y)` lies on the board and belongs wholly to `p`.
    pub open spec fn line_through(&self, d: Direction, x: int, y: int, p: Player) -> bool {
        exists|k: int| 0 <= k < WIN_NUM && #[trigger] self.window_owned(d, x, y, k, p)
    }

    /// `p` has `WIN_NUM` in a row through `(x, y)` in one of the four line families.
    pub open spec fn wins_through(&self, x: int, y: int, p: Player) -> bool {
        ||| self.line_through(Direction::Vertical, x, y, p)
        ||| self.line_through(Direction::Horizontal, x, y, p)
        ||| self.line_through(Direction::Descending, x, y, p)
        ||| self.line_through(Direction::Ascending, x, y, p)
    }

    /// The `n` cells that follow `(x, y)` along `d` all lie on the board and belong to `p`.
    pub open spec fn ahead(&self, d: Direction, x: int, y: int, n: int, p: Player) -> bool {
        forall|i: int| 1 <= i <= n ==> #[trigger] self.owned_at(d, x, y, i, p)
    }

    /// The `n` cells that precede `(x, y)` along `d` all lie on the board and belong to `p`.
    pub open spec fn behind(&self, d: Direction, x: int, y: int, n: int, p: Player) -> bool {
        forall|i: int| -n <= i <= -1 ==> #[trigger] self.owned_at(d, x, y, i, p)
    }

    /// An empty board.
    pub fn new() -> (r: Board)
        ensures
            r.wf(),
            r.empty(),
    {
        let mut cells: Vec<Option<Player>> = Vec::new();
        let mut i: usize = 0;
        while i < WIDTH * HEIGHT
            invariant
                i <= WIDTH * HEIGHT,
                cells@.len() == i,
                forall|j: int| 0 <= j < i ==> (#[trigger] cells@[j]) is None,
            decreases WIDTH * HEIGHT - i,
        {
            cells.push(None);
            i += 1;
        }
        Board { cells }
    }

    /// Content of cell `(x, y)`.
    pub fn cell(&self, x: usize, y: usize) -> (r: Option<Player>)
        requires
            self.wf(),
            x < WIDTH,
            y < HEIGHT,
        ensures
            r == self.cell_spec(x as int, y as int),
    {
        self.cells[index_of(x, y)]
    }

    /// The topmost occupied row of column `x`, found by scanning the column downwards.
    fn top_row(&self, x: usize) -> (r: usize)
        requires
            self.wf(),
            x < WIDTH,
            exists|y: int| 0 <= y < HEIGHT && (#[trigger] self.cell_spec(x as int, y)) is Some,
        ensures
            self.is_top(x as int, r as int),
    {
        let mut y: usize = 0;
        while self.cells[index_of(x, y)].is_none()
            invariant
                self.wf(),
                x < WIDTH,
                y < HEIGHT,
                exists|y0: int| 0 <= y0 < HEIGHT && (#[trigger] self.cell_spec(x as int, y0)) is Some,
                forall|j: int| 0 <= j < y ==> (#[trigger] self.cell_spec(x as int, j)) is None,
            decreases HEIGHT - y,
        {
            let ghost y0 = choose|y0: int| 0 <= y0 < HEIGHT && (#[trigger] self.cell_spec(x as int, y0)) is Some;
            assert(y0 != y);
            y += 1;
        }
        y
    }

    /// Whether the `WIN_NUM` cells along `d` in which `(x, y)` stands at position `k`
    /// all lie on the board and belong to `p`.
    fn window_matches(&self, d: Direction, x: usize, y: usize, k: usize, p: Player) -> (r: bool)
        requires
            self.wf(),
            x < WIDTH,
            y < HEIGHT,
            k < WIN_NUM,
        ensures
            r == self.window_owned(d, x as int, y as int, k as int, p),
    {
        let mut i: usize = 0;
        while i < WIN_NUM
            invariant
                self.wf(),
                x < WIDTH,
                y < HEIGHT,
                k < WIN_NUM,
                i <= WIN_NUM,
                forall|j: int| -k <= j < i - k ==> #[trigger] self.owned_at(d, x as int, y as int, j, p),
            decreases WIN_NUM - i,
        {
            let off: i64 = i as i64 - k as i64;
            let (cx, cy): (i64, i64) = match d {
                Direction::Vertical => (x as i64, y as i64 + off),
                Direction::Horizontal => (x as i64 + off, y as i64),
                Direction::Descending => (x as i64 + off, y as i64 + off),
                Direction::Ascending => (x as i64 + off, y as i64 - off),
            };
            assert(step(d, x as int, y as int, i - k) == (cx as int, cy as int));
            if cx < 0 || cx >= WIDTH as i64 || cy < 0 || cy >= HEIGHT as i64 {
                assert(!self.owned_at(d, x as int, y as int, i - k, p));
                return false;
            }
            match self.cells[index_of(cx as usize, cy as usize)] {
                Some(q) => {
                    if q != p {
                        assert(!self.owned_at(d, x as int, y as int, i - k, p));
                        return false;
                    }
                },
                None => {
                    assert(!self.owned_at(d, x as int, y as int, i - k, p));
                    return false;
                },
            }
            i += 1;
        }
        true
    }

    /// Whether some window along `d` through `(x, y)` lies on the board and belongs
    /// wholly to `p`, trying the window offsets in turn.
    fn line_matches(&self, d: Direction, x: usize, y: usize, p: Player) -> (r: bool)
        requires
            self.wf(),
            x < WIDTH,
            y < HEIGHT,
        ensures
            r == self.line_through(d, x as int, y as int, p),
    {
        let mut k: usize = 0;
        while k < WIN_NUM
            invariant
                self.wf(),
                x < WIDTH,
                y < HEIGHT,
                k <= WIN_NUM,
                forall|j: int| 0 <= j < k ==> !#[trigger] self.window_owned(d, x as int, y as int, j, p),
            decreases WIN_NUM - k,
        {
            if self.window_matches(d, x, y, k, p) {
                return true;
            }
            k += 1;
        }
        false
    }

    /// Whether the owner of the topmost piece of column `x` has `WIN_NUM` in a row through
    /// that piece: vertically, horizontally, or along either diagonal.
    pub fn has_won(&self, x: usize) -> (r: bool)
        requires
            self.wf(),
            x < WIDTH,
            exists|y: int| 0 <= y < HEIGHT && (#[trigger] self.cell_spec(x as int, y)) is Some,
        ensures
            forall|y: int|
                #[trigger] self.is_top(x as int, y) ==> (r == self.wins_through(
                    x as int,
                    y,
                    self.cell_spec(x as int, y)->Some_0,
                )),
    {
        let y = self.top_row(x);
        let turn = self.cells[index_of(x, y)].unwrap();
        proof {
            assert forall|y1: int| #[trigger] self.is_top(x as int, y1) implies y1 == y by {
                if y1 < y {
                    assert(self.cell_spec(x as int, y1) is None);
                } else if y1 > y {
                    assert(self.cell_spec(x as int, y as int) is None);
                }
            }
        }
        self.line_matches(Direction::Vertical, x, y, turn)
            || self.line_matches(Direction::Horizontal, x, y, turn)
            || self.line_matches(Direction::Descending, x, y, turn)
            || self.line_matches(Direction::Ascending, x, y, turn)
    }

    /// The lowest empty row of column `x`: the empty cell with the highest `y`.
    pub fn get_y(&self, x: usize) -> (r: usize)
        requires
            self.wf(),
            x < WIDTH,
            exists|y: int| 0 <= y < HEIGHT && (#[trigger] self.cell_spec(x as int, y)) is None,
        ensures
            r < HEIGHT,
            self.cell_spec(x as int, r as int) is None,
            forall|j: int| r < j < HEIGHT ==> (#[trigger] self.cell_spec(x as int, j)) is Some,
    {
        let mut y: usize = HEIGHT - 1;
        while self.cells[index_of(x, y)].is_some()
            invariant
                self.wf(),
                x < WIDTH,
                y < HEIGHT,
                exists|y0: int| 0 <= y0 < HEIGHT && (#[trigger] self.cell_spec(x as int, y0)) is None,
                forall|j: int| y < j < HEIGHT ==> (#[trigger] self.cell_spec(x as int, j)) is Some,
            decreases y,
        {
            let ghost y0 = choose|y0: int| 0 <= y0 < HEIGHT && (#[trigger] self.cell_spec(x as int, y0)) is None;
            assert(y0 != y);
            y -= 1;
        }
        y
    }

    /// Drops a piece of `p` into column `x`: it lands on the lowest empty cell, whose row
    /// is returned. A full column is left as it is and gives `None`.
    pub fn place(&mut self, x: usize, p: Player) -> (r: Option<usize>)
        requires
            old(self).wf(),
            x < WIDTH,
        ensures
            final(self).wf(),
            final(self).settled(),
            !old(self).column_open(x as int) ==> r is None && final(self)@ == old(self)@,
            old(self).column_open(x as int) ==> ({
                &&& r is Some
                &&& r->Some_0 < HEIGHT
                &&& old(self).cell_spec(x as int, r->Some_0 as int) is None
                &&& r->Some_0 + 1 < HEIGHT ==> old(self).cell_spec(x as int, r->Some_0 + 1) is Some
                &&& final(self)@ == old(self)@.update(cell_index(x as int, r->Some_0 as int), Some(p))
                &&& forall|i: int, j: int|
                    in_grid(i, j) ==> #[trigger] final(self).cell_spec(i, j) == (if i == x && j == r->Some_0 {
                        Some(p)
                    } else {
                        old(self).cell_spec(i, j)
                    })
            }),
    {
        if !self.in_bounds(x) {
            return None;
        }
        let y = self.get_y(x);
        let i = index_of(x, y);
        let ghost before = self@;
        self.cells.set(i, Some(p));
        proof {
            let b = *old(self);
            assert forall|x1: int, y1: int, y2: int|
                0 <= x1 < WIDTH && 0 <= y1 < y2 < HEIGHT && (#[trigger] self.cell_spec(x1, y1)) is Some
                implies (#[trigger] self.cell_spec(x1, y2)) is Some by {
                if x1 == x && y2 == y {
                    assert(b.cell_spec(x1, y1) is Some);
                } else if x1 == x && y1 == y {
                    assert(b.cell_spec(x1, y2) is Some);
                } else if x1 == x {
                    assert(b.cell_spec(x1, y1) is Some);
                } else {
                    assert(b.cell_spec(x1, y1) is Some);
                }
            }
        }
        Some(y)
    }

    /// Whether every cell of the board is occupied.
    pub fn is_full(&self) -> (r: bool)
        requires
            self.wf(),
        ensures
            r == self.full(),
    {
        let mut x: usize = 0;
        while x < WIDTH
            invariant
                self.wf(),
                x <= WIDTH,
                forall|i: int, j: int| 0 <= i < x && 0 <= j < HEIGHT ==> (#[trigger] self.cell_spec(i, j)) is Some,
            decreases WIDTH - x,
        {
            let mut y: usize = 0;
            while y < HEIGHT
                invariant
                    self.wf(),
                    x < WIDTH,
                    y <= HEIGHT,
                    forall|i: int, j: int| 0 <= i < x && 0 <= j < HEIGHT ==> (#[trigger] self.cell_spec(i, j)) is Some,
                    forall|j: int| 0 <= j < y ==> (#[trigger] self.cell_spec(x as int, j)) is Some,
                decreases HEIGHT - y,
            {
                if self.cells[index_of(x, y)].is_none() {
                    assert(self.cell_spec(x as int, y as int) is None);
                    return false;
                }
                y += 1;
            }
            x += 1;
        }
        true
    }

    /// The columns of the board, left to right, each from top to bottom.
    pub fn iter(&self) -> (r: Vec<Vec<Option<Player>>>)
        requires
            self.wf(),
        ensures
            r@.len() == WIDTH,
            forall|x: int| 0 <= x < WIDTH ==> (#[trigger] r@[x])@ == self.column(x),
    {
        let mut cols: Vec<Vec<Option<Player>>> = Vec::new();
        let mut x: usize = 0;
        while x < WIDTH
            invariant
                self.wf(),
                x <= WIDTH,
                cols@.len() == x,
                forall|i: int| 0 <= i < x ==> (#[trigger] cols@[i])@ == self.column(i),
            decreases WIDTH - x,
        {
            let mut col: Vec<Option<Player>> = Vec::new();
            let mut y: usize = 0;
            while y < HEIGHT
                invariant
                    self.wf(),
                    x < WIDTH,
                    y <= HEIGHT,
                    col@.len() == y,
                    forall|j: int| 0 <= j < y ==> #[trigger] col@[j] == self.cell_spec(x as int, j),
                decreases HEIGHT - y,
            {
                col.push(self.cells[index_of(x, y)]);
                y += 1;
            }
            assert(col@ =~= self.column(x as int));
            cols.push(col);
            x += 1;
        }
        cols
    }

    /// Whether column `x` still has a free slot.
    pub fn in_bounds(&self, x: usize) -> (r: bool)
        requires
            self.wf(),
            x < WIDTH,
        ensures
            r == self.column_open(x as int),
    {
        self.cells[index_of(x, 0)].is_none()
    }
}


impl Default for Board {
    fn default() -> (r: Board)
        ensures
            r.wf(),
            r.empty(),
    {
        Board::new()
    }
}

/// The zero-based column for a one-based choice, or `None` when the choice names no column.
pub fn column_from_choice(choice: usize) -> (r: Option<usize>)
    ensures
        r == (if 1 <= choice <= WIDTH {
            Some((choice - 1) as usize)
        } else {
            None::<usize>
        }),
{
    if choice >= 1 && choice <= WIDTH {
        Some(choice - 1)
    } else {
        None
    }
}

/// The board is full exactly when no column has a free slot.
pub proof fn lemma_full_iff_no_open_column(b: &Board)
    requires
        b.wf(),
    ensures
        b.full() <==> forall|x: int| 0 <= x < WIDTH ==> !#[trigger] b.column_open(x),
{
    if forall|x: int| 0 <= x < WIDTH ==> !#[trigger] b.column_open(x) {
        assert forall|x: int, y: int| in_grid(x, y) implies (#[trigger] b.cell_spec(x, y)) is Some by {
            assert(!b.column_open(x));
            if y > 0 {
                assert(b.cell_spec(x, 0) is Some);
            }
        }
    }
    if b.full() {
        assert forall|x: int| 0 <= x < WIDTH implies !#[trigger] b.column_open(x) by {
            assert(b.cell_spec(x, 0) is Some);
        }
    }
}

/// A piece that, on every line through it, has fewer than `WIN_NUM - 1` pieces of its
/// owner in a row beside it (both sides together, counting only cells on the board) wins
/// nothing: a window that leaves the board never counts.
pub proof fn lemma_short_runs_do_not_win(b: &Board, x: int, y: int)
    requires
        b.wf(),
        b.is_top(x, y),
        forall|d: Direction, a: int, c: int|
            0 <= a && 0 <= c && #[trigger] b.ahead(d, x, y, a, b.cell_spec(x, y)->Some_0) && #[trigger] b.behind(
                d,
                x,
                y,
                c,
                b.cell_spec(x, y)->Some_0,
            ) ==> a + c < WIN_NUM - 1,
    ensures
        !b.wins_through(x, y, b.cell_spec(x, y)->Some_0),
{
    let p = b.cell_spec(x, y)->Some_0;
    assert forall|d: Direction| !#[trigger] b.line_through(d, x, y, p) by {
        if b.line_through(d, x, y, p) {
            let k = choose|k: int| 0 <= k < WIN_NUM && #[trigger] b.window_owned(d, x, y, k, p);
            assert(b.ahead(d, x, y, WIN_NUM - 1 - k, p));
            assert(b.behind(d, x, y, k, p));
        }
    }
    assert(!b.line_through(Direction::Vertical, x, y, p));
    assert(!b.line_through(Direction::Horizontal, x, y, p));
    assert(!b.line_through(Direction::Descending, x, y, p));
    assert(!b.line_through(Direction::Ascending, x, y, p));
}

} // verus!
