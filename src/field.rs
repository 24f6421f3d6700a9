use vstd::prelude::*;

verus! {

/// The one way a coordinate can be refused by a grid.
#[derive(Clone, Copy, Debug, PartialEq, Eq, Structural)]
pub enum FieldError {
    CellOutOfBound { size: usize, row: usize, col: usize },
}

/// A position on a square grid, given by its row and column.
#[derive(Copy, Clone, Debug, PartialEq, Eq, Structural)]
pub struct FieldCoordinate {
    pub row: usize,
    pub col: usize,
}

impl FieldCoordinate {
    /// The coordinate of row `row` and column `col`.
    pub fn new(row: usize, col: usize) -> (r: Self)
        ensures
            r.row == row,
            r.col == col,
    {
        FieldCoordinate { row, col }
    }
}

impl From<FieldCoordinate> for (usize, usize) {
    fn from(coord: FieldCoordinate) -> (r: (usize, usize)) {
        (coord.row, coord.col)
    }
}

impl vstd::std_specs::convert::FromSpecImpl<FieldCoordinate> for (usize, usize) {
    open spec fn obeys_from_spec() -> bool {
        true
    }

    open spec fn from_spec(coord: FieldCoordinate) -> (usize, usize) {
        (coord.row, coord.col)
    }
}

/// Whether `(row, col)` names a cell of a grid with `size` rows and columns.
pub open spec fn in_bounds(size: nat, row: int, col: int) -> bool {
    0 <= row < size && 0 <= col < size
}

/// Where the cell `(row, col)` sits in the row-major cell sequence.
pub open spec fn flat_index(size: nat, row: int, col: int) -> int {
    row * size + col
}

/// A valid cell sits inside the cell sequence.
pub proof fn lemma_flat_index_in_range(size: nat, row: int, col: int)
    requires
        in_bounds(size, row, col),
    ensures
        0 <= flat_index(size, row, col) < size * size,
{
    assert(0 <= row * size + col < size * size) by (nonlinear_arith)
        requires
            0 <= row < size,
            0 <= col < size,
    ;
}

/// A cell of one of the first `rows` rows sits before the start of row `rows`.
pub proof fn lemma_flat_index_below_row(size: nat, row: int, col: int, rows: int)
    requires
        0 <= row < rows,
        0 <= col < size,
    ensures
        0 <= flat_index(size, row, col) < rows * size,
{
    assert(0 <= row * size + col < rows * size) by (nonlinear_arith)
        requires
            0 <= row < rows,
            0 <= col < size,
    ;
}

/// A square grid of `size * size` cells, stored row by row.
#[derive(Debug, PartialEq, Eq)]
pub struct Field<T> {
    field: Vec<T>,
    size: usize,
}

impl<T> View for Field<T> {
    type V = Seq<T>;

    closed spec fn view(&self) -> Seq<T> {
        self.field@
    }
}

impl<T> Field<T> {
    /// The number of rows, which is also the number of columns.
    pub closed spec fn spec_size(&self) -> nat {
        self.size as nat
    }

    /// The cell sequence holds exactly one cell per position.
    pub open spec fn wf(&self) -> bool {
        &&& self@.len() == self.spec_size() * self.spec_size()
        &&& self.spec_size() * self.spec_size() <= usize::MAX
    }

    /// The content of the cell at `(row, col)`.
    pub open spec fn cell(&self, row: int, col: int) -> T {
        self@[flat_index(self.spec_size(), row, col)]
    }

    /// The error that refuses `coord` on this grid.
    pub open spec fn out_of_bound(&self, coord: FieldCoordinate) -> FieldError {
        FieldError::CellOutOfBound { size: self.spec_size() as usize, row: coord.row, col: coord.col }
    }

    /// The number of rows, which is also the number of columns.
    pub fn size(&self) -> (r: usize)
        ensures
            r == self.spec_size(),
    {
        self.size
    }

    /// Builds a grid whose cell `(row, col)` is `generator(row, col)`, filled row by row.
    pub fn from_indexes<F>(size: usize, generator: F) -> (r: Self) where F: Fn(usize, usize) -> T
        requires
            size * size <= usize::MAX,
            forall|row: usize, col: usize|
                in_bounds(size as nat, row as int, col as int) ==> #[trigger] call_requires(
                    generator,
                    (row, col),
                ),
        ensures
            r.wf(),
            r.spec_size() == size,
            forall|row: int, col: int|
                in_bounds(size as nat, row, col) ==> call_ensures(
                    generator,
                    (row as usize, col as usize),
                    #[trigger] r.cell(row, col),
                ),
    {
        let mut contents: Vec<T> = Vec::new();
        let mut row: usize = 0;
        while row < size
            invariant
                row <= size,
                size * size <= usize::MAX,
                contents@.len() == row * size,
                forall|r: usize, c: usize|
                    in_bounds(size as nat, r as int, c as int) ==> #[trigger] call_requires(
                        generator,
                        (r, c),
                    ),
                forall|r: usize, c: usize|
                    r < row && c < size ==> call_ensures(
                        generator,
                        (r, c),
                        #[trigger] contents@[flat_index(size as nat, r as int, c as int)],
                    ),
            decreases size - row,
        {
            let mut col: usize = 0;
            while col < size
                invariant
                    row < size,
                    col <= size,
                    size * size <= usize::MAX,
                    contents@.len() == row * size + col,
                    forall|r: usize, c: usize|
                        in_bounds(size as nat, r as int, c as int) ==> #[trigger] call_requires(
                            generator,
                            (r, c),
                        ),
                    forall|r: usize, c: usize|
                        (r < row && c < size || r == row && c < col) ==> call_ensures(
                            generator,
                            (r, c),
                            #[trigger] contents@[flat_index(size as nat, r as int, c as int)],
                        ),
                decreases size - col,
            {
                proof {
                    lemma_flat_index_in_range(size as nat, row as int, col as int);
                }
                assert(call_requires(generator, (row, col)));
                let value = generator(row, col);
                let ghost before = contents@;
                contents.push(value);
                assert forall|r: usize, c: usize|
                    (r < row && c < size || r == row && c < col + 1) implies call_ensures(
                        generator,
                        (r, c),
                        #[trigger] contents@[flat_index(size as nat, r as int, c as int)],
                    ) by {
                    if r < row {
                        lemma_flat_index_below_row(size as nat, r as int, c as int, row as int);
                        assert(contents@[flat_index(size as nat, r as int, c as int)]
                            == before[flat_index(size as nat, r as int, c as int)]);
                    } else if c < col {
                        assert(contents@[flat_index(size as nat, r as int, c as int)]
                            == before[flat_index(size as nat, r as int, c as int)]);
                    }
                }
                col += 1;
            }
            assert(row * size + size == (row + 1) * size) by (nonlinear_arith);
            row += 1;
        }
        let r = Field { field: contents, size };
        assert forall|row: int, col: int| in_bounds(size as nat, row, col) implies call_ensures(
            generator,
            (row as usize, col as usize),
            #[trigger] r.cell(row, col),
        ) by {
            let (ru, cu) = (row as usize, col as usize);
            assert(ru < size && cu < size);
        }
        r
    }

    /// Builds a grid from its rows; the number of rows is the size of the grid.
    pub fn from_nested_slices(field: Vec<Vec<T>>) -> (r: Self)
        requires
            forall|i: int| 0 <= i < field@.len() ==> (#[trigger] field@[i])@.len() == field@.len(),
            field@.len() * field@.len() <= usize::MAX,
        ensures
            r.wf(),
            r.spec_size() == field@.len(),
            forall|row: int, col: int|
                in_bounds(r.spec_size(), row, col) ==> #[trigger] r.cell(row, col)
                    == field@[row]@[col],
    {
        let size = field.len();
        let ghost rows0 = field@;
        let mut rows = field;
        let mut contents: Vec<T> = Vec::new();
        let mut done: usize = 0;
        while done < size
            invariant
                done <= size,
                size == rows0.len(),
                size * size <= usize::MAX,
                forall|i: int| 0 <= i < rows0.len() ==> (#[trigger] rows0[i])@.len() == size,
                rows@ == rows0.subrange(done as int, size as int),
                contents@.len() == done * size,
                forall|r: int, c: int|
                    0 <= r < done && 0 <= c < size ==> #[trigger] contents@[flat_index(
                        size as nat,
                        r,
                        c,
                    )] == rows0[r]@[c],
            decreases size - done,
        {
            let mut row = rows.remove(0);
            assert(row@ == rows0[done as int]@);
            let ghost before = contents@;
            contents.append(&mut row);
            assert forall|r: int, c: int| 0 <= r < done + 1 && 0 <= c < size implies #[trigger] contents@[flat_index(
                size as nat,
                r,
                c,
            )] == rows0[r]@[c] by {
                if r < done {
                    lemma_flat_index_below_row(size as nat, r, c, done as int);
                }
            }
            assert(done * size + size == (done + 1) * size) by (nonlinear_arith);
            done += 1;
        }
        Field { field: contents, size }
    }

    /// A read-only view of the cell at `coord`, or the error that names the refused coordinate.
    pub fn get<'a>(&'a self, coord: FieldCoordinate) -> (r: Result<FieldCell<'a, T>, FieldError>)
        requires
            self.wf(),
        ensures
            in_bounds(self.spec_size(), coord.row as int, coord.col as int) <==> r is Ok,
            r matches Ok(c) ==> c.grid() == *self && c.position() == coord,
            r matches Err(e) ==> e == self.out_of_bound(coord),
    {
        let FieldCoordinate { row, col } = coord;
        if row >= self.size || col >= self.size {
            return Err(FieldError::CellOutOfBound { size: self.size, row, col });
        }
        Ok(FieldCell { field: self, coord: FieldCoordinate { row, col } })
    }

    /// A read-write view of the cell at `coord`, or the error that names the refused coordinate.
    /// While the view lives the grid is reached only through it; a refused coordinate leaves
    /// the grid as it was.
    pub fn get_mut<'a>(&'a mut self, coord: FieldCoordinate) -> (r: Result<
        FieldCellMut<'a, T>,
        FieldError,
    >)
        requires
            old(self).wf(),
        ensures
            in_bounds(old(self).spec_size(), coord.row as int, coord.col as int) <==> r is Ok,
            r matches Ok(c) ==> *c.field == *old(self) && c.coord == coord && c.wf()
                && *final(self) == *final(c.field),
            r matches Err(e) ==> e == old(self).out_of_bound(coord) && *final(self) == *old(self),
    {
        let FieldCoordinate { row, col } = coord;
        if row >= self.size || col >= self.size {
            return Err(FieldError::CellOutOfBound { size: self.size, row, col });
        }
        Ok(FieldCellMut { field: self, coord: FieldCoordinate { row, col } })
    }

    /// The cell at `coord`, which the caller has already checked against the grid.
    fn get_raw_ref(&self, coord: FieldCoordinate) -> (r: &T)
        requires
            self.wf(),
            in_bounds(self.spec_size(), coord.row as int, coord.col as int),
        ensures
            *r == self.cell(coord.row as int, coord.col as int),
    {
        proof {
            lemma_flat_index_in_range(self.spec_size(), coord.row as int, coord.col as int);
        }
        &self.field[coord.row * self.size + coord.col]
    }

    /// Replaces the content of the cell at `coord`.
    fn set(&mut self, coord: FieldCoordinate, value: T)
        requires
            old(self).wf(),
            in_bounds(old(self).spec_size(), coord.row as int, coord.col as int),
        ensures
            final(self).wf(),
            final(self).spec_size() == old(self).spec_size(),
            final(self)@ == old(self)@.update(
                flat_index(old(self).spec_size(), coord.row as int, coord.col as int),
                value,
            ),
    {
        proof {
            lemma_flat_index_in_range(self.spec_size(), coord.row as int, coord.col as int);
        }
        let i = coord.row * self.size + coord.col;
        self.field.set(i, value);
    }
}

impl<T> AsRef<[T]> for Field<T> {
    fn as_ref(&self) -> &[T] {
        self.field.as_slice()
    }
}

impl<T> AsMut<[T]> for Field<T> {
    fn as_mut(&mut self) -> &mut [T] {
        self.field.as_mut_slice()
    }
}

impl<T: Default> Field<T> {
    /// Builds a grid of `size * size` cells, each holding `T`'s default value.
    pub fn default_field(size: usize) -> (r: Self)
        requires
            size * size <= usize::MAX,
        ensures
            r.wf(),
            r.spec_size() == size,
            forall|row: int, col: int|
                in_bounds(size as nat, row, col) ==> call_ensures(
                    T::default,
                    (),
                    #[trigger] r.cell(row, col),
                ),
    {
        let total = size * size;
        let mut contents: Vec<T> = Vec::new();
        let mut i: usize = 0;
        while i < total
            invariant
                i <= total,
                total == size * size,
                contents@.len() == i,
                forall|j: int| 0 <= j < i ==> call_ensures(T::default, (), #[trigger] contents@[j]),
            decreases total - i,
        {
            contents.push(T::default());
            i += 1;
        }
        let r = Field { field: contents, size };
        assert forall|row: int, col: int| in_bounds(size as nat, row, col) implies call_ensures(
            T::default,
            (),
            #[trigger] r.cell(row, col),
        ) by {
            lemma_flat_index_in_range(size as nat, row, col);
        }
        r
    }
}

/// The eight compass directions, in the order in which neighbours are enumerated.
#[derive(Clone, Copy, Debug, PartialEq, Eq, Structural, PartialOrd, Ord)]
pub enum Direction {
    UpLeft,
    Up,
    UpRight,
    Right,
    DownRight,
    Down,
    DownLeft,
    Left,
}

/// The direction at place `i` of the enumeration order.
pub open spec fn direction_at(i: int) -> Direction {
    if i == 0 {
        Direction::UpLeft
    } else if i == 1 {
        Direction::Up
    } else if i == 2 {
        Direction::UpRight
    } else if i == 3 {
        Direction::Right
    } else if i == 4 {
        Direction::DownRight
    } else if i == 5 {
        Direction::Down
    } else if i == 6 {
        Direction::DownLeft
    } else {
        Direction::Left
    }
}

impl Direction {
    /// The change of row and of column that one step in this direction makes.
    pub open spec fn delta(self) -> (int, int) {
        match self {
            Direction::UpLeft => (-1, -1),
            Direction::Up => (-1, 0),
            Direction::UpRight => (-1, 1),
            Direction::Right => (0, 1),
            Direction::DownRight => (1, 1),
            Direction::Down => (1, 0),
            Direction::DownLeft => (1, -1),
            Direction::Left => (0, -1),
        }
    }

    /// The position one step away from `(row, col)` in this direction, possibly off any grid.
    pub open spec fn step(self, row: int, col: int) -> (int, int) {
        (row + self.delta().0, col + self.delta().1)
    }

    /// The coordinate one step away from `coord`, or `None` where that step would leave
    /// the range of `usize` (a step above row 0 or left of column 0 among them).
    pub fn change_coords(&self, coord: FieldCoordinate) -> (r: Option<FieldCoordinate>)
        ensures
            ({
                let p = self.step(coord.row as int, coord.col as int);
                match r {
                    Some(c) => c.row == p.0 && c.col == p.1,
                    None => !(0 <= p.0 <= usize::MAX && 0 <= p.1 <= usize::MAX),
                }
            }),
    {
        let FieldCoordinate { row, col } = coord;
        let (row, col) = match self {
            Direction::UpLeft => (row.checked_sub(1), col.checked_sub(1)),
            Direction::Up => (row.checked_sub(1), Some(col)),
            Direction::UpRight => (row.checked_sub(1), col.checked_add(1)),
            Direction::Right => (Some(row), col.checked_add(1)),
            Direction::DownRight => (row.checked_add(1), col.checked_add(1)),
            Direction::Down => (row.checked_add(1), Some(col)),
            Direction::DownLeft => (row.checked_add(1), col.checked_sub(1)),
            Direction::Left => (Some(row), col.checked_sub(1)),
        };
        match (row, col) {
            (Some(row), Some(col)) => Some(FieldCoordinate::new(row, col)),
            _ => None,
        }
    }
}

fn direction_at_index(i: usize) -> (r: Direction)
    ensures
        r == direction_at(i as int),
{
    if i == 0 {
        Direction::UpLeft
    } else if i == 1 {
        Direction::Up
    } else if i == 2 {
        Direction::UpRight
    } else if i == 3 {
        Direction::Right
    } else if i == 4 {
        Direction::DownRight
    } else if i == 5 {
        Direction::Down
    } else if i == 6 {
        Direction::DownLeft
    } else {
        Direction::Left
    }
}

/// The in-bounds positions among the steps from `(row, col)` in the first `k` directions,
/// in enumeration order.
pub open spec fn neighbour_coords(size: nat, row: int, col: int, k: nat) -> Seq<(int, int)>
    decreases k,
{
    if k == 0 {
        Seq::empty()
    } else {
        let prev = neighbour_coords(size, row, col, (k - 1) as nat);
        let p = direction_at(k - 1).step(row, col);
        if in_bounds(size, p.0, p.1) {
            prev.push(p)
        } else {
            prev
        }
    }
}

/// The in-bounds neighbours of `(row, col)` over all eight directions.
pub open spec fn neighbours_of(size: nat, row: int, col: int) -> Seq<(int, int)> {
    neighbour_coords(size, row, col, 8)
}

/// Neighbour counts: a cell away from every edge has eight neighbours, a corner cell of a
/// grid of at least two rows has three, and any other cell on an edge has five.
pub proof fn lemma_neighbour_count(size: nat, row: int, col: int)
    requires
        in_bounds(size, row, col),
    ensures
        0 < row < size - 1 && 0 < col < size - 1 ==> neighbours_of(size, row, col).len() == 8,
        size >= 2 && (row == 0 || row == size - 1) && (col == 0 || col == size - 1)
            ==> neighbours_of(size, row, col).len() == 3,
        (row == 0 || row == size - 1) && 0 < col < size - 1 ==> neighbours_of(
            size,
            row,
            col,
        ).len() == 5,
        (col == 0 || col == size - 1) && 0 < row < size - 1 ==> neighbours_of(
            size,
            row,
            col,
        ).len() == 5,
{
    reveal_with_fuel(neighbour_coords, 9);
}

/// A read-only view of one valid cell of a grid.
pub struct FieldCell<'a, T> {
    field: &'a Field<T>,
    coord: FieldCoordinate,
}

impl<'a, T> FieldCell<'a, T> {
    #[verifier::type_invariant]
    spec fn inv(&self) -> bool {
        self.field.wf() && in_bounds(
            self.field.spec_size(),
            self.coord.row as int,
            self.coord.col as int,
        )
    }

    /// The grid the view reads.
    pub closed spec fn grid(&self) -> Field<T> {
        *self.field
    }

    /// The coordinate of the cell the view reads.
    pub closed spec fn position(&self) -> FieldCoordinate {
        self.coord
    }

    /// The value of the viewed cell.
    pub open spec fn spec_value(&self) -> T {
        self.grid().cell(self.position().row as int, self.position().col as int)
    }

    pub fn coordinate(&self) -> (r: FieldCoordinate)
        ensures
            r == self.position(),
    {
        self.coord
    }

    /// The value of the viewed cell.
    pub fn value(&self) -> (r: &'a T)
        ensures
            *r == self.spec_value(),
    {
        proof {
            use_type_invariant(self);
        }
        let field: &'a Field<T> = self.field;
        field.get_raw_ref(self.coord)
    }

    /// The view of the neighbouring cell in `direction`, where there is one.
    pub fn get_neighbour(&self, direction: Direction) -> (r: Option<FieldCell<'a, T>>)
        ensures
            ({
                let p = direction.step(self.position().row as int, self.position().col as int);
                &&& in_bounds(self.grid().spec_size(), p.0, p.1) <==> r is Some
                &&& r matches Some(c) ==> c.grid() == self.grid() && c.position().row == p.0
                    && c.position().col == p.1
            }),
    {
        proof {
            use_type_invariant(self);
        }
        let field: &'a Field<T> = self.field;
        match direction.change_coords(self.coord) {
            Some(coord) => match field.get(coord) {
                Ok(cell) => Some(cell),
                Err(_) => None,
            },
            None => None,
        }
    }

    /// The views of all neighbouring cells, in the enumeration order of `Direction`.
    pub fn neighbours(&self) -> (r: Vec<FieldCell<'a, T>>)
        ensures
            ({
                let nb = neighbours_of(
                    self.grid().spec_size(),
                    self.position().row as int,
                    self.position().col as int,
                );
                &&& r@.len() == nb.len()
                &&& forall|i: int|
                    0 <= i < r@.len() ==> (#[trigger] r@[i]).grid() == self.grid() && r@[i].position().row
                        == nb[i].0 && r@[i].position().col == nb[i].1
            }),
    {
        let ghost size = self.grid().spec_size();
        let ghost row = self.position().row as int;
        let ghost col = self.position().col as int;
        let mut result: Vec<FieldCell<'a, T>> = Vec::new();
        let mut k: usize = 0;
        while k < 8
            invariant
                k <= 8,
                size == self.grid().spec_size(),
                row == self.position().row,
                col == self.position().col,
                result@.len() == neighbour_coords(size, row, col, k as nat).len(),
                forall|i: int|
                    0 <= i < result@.len() ==> (#[trigger] result@[i]).grid() == self.grid()
                        && result@[i].position().row == neighbour_coords(size, row, col, k as nat)[i].0
                        && result@[i].position().col == neighbour_coords(size, row, col, k as nat)[i].1,
            decreases 8 - k,
        {
            let direction = direction_at_index(k);
            match self.get_neighbour(direction) {
                Some(cell) => {
                    result.push(cell);
                },
                None => {},
            }
            k += 1;
        }
        result
    }
}

impl<'a, T> std::ops::Deref for FieldCell<'a, T> {
    type Target = T;

    fn deref(&self) -> &T {
        self.value()
    }
}

/// A read-write view of one cell of a grid, holding the grid's only live borrow. Its fields
/// are public so that contracts can tie the grid seen through the view to the grid the
/// view hands back when it ends; `wf` says that the view stands on a valid cell.
pub struct FieldCellMut<'a, T> {
    pub field: &'a mut Field<T>,
    pub coord: FieldCoordinate,
}

impl<'a, T> FieldCellMut<'a, T> {
    /// The view stands on a valid cell of a well-formed grid.
    pub open spec fn wf(&self) -> bool {
        self.field.wf() && in_bounds(
            self.field.spec_size(),
            self.coord.row as int,
            self.coord.col as int,
        )
    }

    /// The current value of the viewed cell.
    pub open spec fn spec_value(&self) -> T {
        self.field.cell(self.coord.row as int, self.coord.col as int)
    }

    /// The value of the viewed cell.
    pub fn value(&self) -> (r: &T)
        requires
            self.wf(),
        ensures
            *r == self.spec_value(),
    {
        self.field.get_raw_ref(self.coord)
    }

    /// Replaces the value of the viewed cell, leaving every other cell as it was.
    pub fn set(&mut self, value: T)
        requires
            old(self).wf(),
        ensures
            final(self).wf(),
            final(self).coord == old(self).coord,
            final(self).field.spec_size() == old(self).field.spec_size(),
            final(self).field@ == old(self).field@.update(
                flat_index(
                    old(self).field.spec_size(),
                    old(self).coord.row as int,
                    old(self).coord.col as int,
                ),
                value,
            ),
            *final(final(self).field) == *final(old(self).field),
    {
        self.field.set(self.coord, value);
    }

    /// The read-write view of the neighbouring cell in `direction`, where there is one.
    pub fn get_neighbours(&'a mut self, direction: Direction) -> (r: Option<FieldCellMut<'a, T>>)
        requires
            old(self).wf(),
        ensures
            ({
                let p = direction.step(old(self).coord.row as int, old(self).coord.col as int);
                &&& in_bounds(old(self).field.spec_size(), p.0, p.1) <==> r is Some
                &&& r matches Some(c) ==> *c.field == *old(self).field && c.coord.row == p.0
                    && c.coord.col == p.1 && c.wf() && *final(self).field == *final(c.field)
                &&& r is None ==> *final(self).field == *old(self).field
                &&& final(self).coord == old(self).coord
                &&& *final(final(self).field) == *final(old(self).field)
            }),
    {
        match direction.change_coords(self.coord) {
            Some(coord) => match self.field.get_mut(coord) {
                Ok(cell) => Some(cell),
                Err(_) => None,
            },
            None => None,
        }
    }

    /// Gives up the right to write, keeping the view on the same cell.
    pub fn into_cell(self) -> (r: FieldCell<'a, T>)
        requires
            self.wf(),
        ensures
            r.grid() == *old(self.field),
            *final(self.field) == *old(self.field),
            r.position() == self.coord,
    {
        let FieldCellMut { field, coord } = self;
        FieldCell { field, coord }
    }
}

} // verus!
