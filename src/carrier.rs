//! Carrier bookkeeping: which pieces a carrier takes, which of its ten berths
//! a newly carried piece parks in, and the lists kept on both sides.
//!
//! Berths lie on a grid of two rows and five columns; berth `b` is in row
//! `b % 2` and column `b / 2`.
use vstd::prelude::*;

verus! {

pub const BERTHS: usize = 10;

pub const BERTH_COLUMNS: usize = 5;

#[derive(Clone)]
pub struct CarrierProperties {
    /// How many more pieces fit on board.
    pub space_remaining: u32,
    /// Ids of the pieces on board.
    pub carrying: Vec<u32>,
    /// Tags of the kinds taken on board.
    pub does_accept: Vec<char>,
    /// Whether the piece keeps updating while it is carried.
    pub can_update: bool,
    /// Whether the piece is being carried now.
    pub is_carried: bool,
    /// The berth it occupies while carried.
    pub berth: usize,
    /// The id of the piece carrying it.
    pub carrier: u32,
}

pub open spec fn abs_diff(a: int, b: int) -> int {
    if a >= b {
        a - b
    } else {
        b - a
    }
}

/// Whether berth `b` is taken by one of `occupied`.
pub open spec fn berth_taken(occupied: Seq<usize>, b: int) -> bool {
    exists|i: int| 0 <= i < occupied.len() && occupied[i] == b
}

/// Whether column `c` of `row` is taken.
pub open spec fn col_taken(occupied: Seq<usize>, row: int, c: int) -> bool {
    berth_taken(occupied, row + 2 * c)
}

/// Column `c` of `row` is free, and no free column of that row lies nearer
/// to `col`, nor as near and further left.
pub open spec fn nearest_in_row(occupied: Seq<usize>, row: int, col: int, c: int) -> bool {
    &&& 0 <= c < BERTH_COLUMNS
    &&& !col_taken(occupied, row as int, c as int)
    &&& forall|d: int|
        0 <= d < BERTH_COLUMNS && !col_taken(occupied, row as int, d as int) ==> abs_diff(col, c) <= abs_diff(
            col,
            d,
        )
    &&& forall|d: int|
        0 <= d < c && !col_taken(occupied, row as int, d as int) ==> abs_diff(col, c) < abs_diff(col, d)
}

pub open spec fn row_has_free(occupied: Seq<usize>, row: int) -> bool {
    exists|d: int| 0 <= d < BERTH_COLUMNS && !col_taken(occupied, row as int, d as int)
}

/// The berth chosen for a piece that arrives nearest to row `row` and
/// column `col`: that berth if it is free; else the nearest free column of
/// the same row; else the nearest free column of the other row.
pub open spec fn berth_choice(occupied: Seq<usize>, row: int, col: int, b: int) -> bool {
    if !col_taken(occupied, row as int, col as int) {
        b == row + 2 * col
    } else if row_has_free(occupied, row) {
        b % 2 == row && nearest_in_row(occupied, row, col, b / 2)
    } else if row_has_free(occupied, 1 - row) {
        b % 2 == 1 - row && nearest_in_row(occupied, 1 - row, col, b / 2)
    } else {
        b == 1 - row
    }
}

fn taken_map(occupied: &Vec<usize>) -> (map: Vec<bool>)
    ensures
        map@.len() == BERTHS,
        forall|b: int| 0 <= b < BERTHS ==> map@[b] == berth_taken(occupied@, b),
{
    let mut map: Vec<bool> = Vec::new();
    let mut b: usize = 0;
    while b < BERTHS
        invariant
            b <= BERTHS,
            map@.len() == b,
            forall|i: int| 0 <= i < b ==> !map@[i],
        decreases BERTHS - b,
    {
        map.push(false);
        b = b + 1;
    }
    let mut k: usize = 0;
    while k < occupied.len()
        invariant
            k <= occupied@.len(),
            map@.len() == BERTHS,
            forall|i: int|
                0 <= i < BERTHS ==> map@[i] == (exists|j: int| 0 <= j < k && occupied@[j] == i),
        decreases occupied@.len() - k,
    {
        let v = occupied[k];
        if v < BERTHS {
            map.set(v, true);
        }
        assert forall|i: int| 0 <= i < BERTHS implies map@[i] == (exists|j: int|
            0 <= j < k + 1 && occupied@[j] == i) by {
            if occupied@[k as int] == i {
                assert(0 <= k < k + 1 && occupied@[k as int] == i);
            }
        }
        k = k + 1;
    }
    map
}

/// Searches `row` for the free column nearest to `col`, the leftmost among
/// equally near ones. Returns the distance (5 when the row is full) and the
/// column.
fn nearest_free(map: &Vec<bool>, occupied: Ghost<Seq<usize>>, row: usize, col: usize) -> (r: (
    usize,
    usize,
))
    requires
        map@.len() == BERTHS,
        forall|b: int| 0 <= b < BERTHS ==> map@[b] == berth_taken(occupied@, b),
        row < 2,
        col < BERTH_COLUMNS,
    ensures
        r.0 <= BERTH_COLUMNS,
        r.0 == BERTH_COLUMNS <==> !row_has_free(occupied@, row as int),
        r.0 < BERTH_COLUMNS ==> nearest_in_row(occupied@, row as int, col as int, r.1 as int)
            && r.0 == abs_diff(col as int, r.1 as int),
{
    let mut best_d: usize = BERTH_COLUMNS;
    let mut best_m: usize = 0;
    let mut c: usize = 0;
    while c < BERTH_COLUMNS
        invariant
            map@.len() == BERTHS,
            forall|b: int| 0 <= b < BERTHS ==> map@[b] == berth_taken(occupied@, b),
            row < 2,
            col < BERTH_COLUMNS,
            c <= BERTH_COLUMNS,
            best_d <= BERTH_COLUMNS,
            best_d == BERTH_COLUMNS <==> (forall|d: int|
                0 <= d < c ==> col_taken(occupied@, row as int, d as int)),
            best_d < BERTH_COLUMNS ==> {
                &&& best_m < c
                &&& !col_taken(occupied@, row as int, best_m as int)
                &&& best_d == abs_diff(col as int, best_m as int)
                &&& forall|d: int|
                    0 <= d < c && !col_taken(occupied@, row as int, d as int) ==> best_d <= abs_diff(
                        col as int,
                        d,
                    )
                &&& forall|d: int|
                    0 <= d < best_m && !col_taken(occupied@, row as int, d as int) ==> best_d
                        < abs_diff(col as int, d)
            },
        decreases BERTH_COLUMNS - c,
    {
        assert(map@[row + 2 * c] == col_taken(occupied@, row as int, c as int));
        if !map[row + 2 * c] {
            let m: usize = if col >= c {
                col - c
            } else {
                c - col
            };
            if m < best_d {
                best_d = m;
                best_m = c;
            }
        }
        c = c + 1;
    }
    if best_d == BERTH_COLUMNS {
        assert forall|d: int| 0 <= d < BERTH_COLUMNS implies col_taken(occupied@, row as int, d as int) by {}
    } else {
        assert(row_has_free(occupied@, row as int)) by {
            assert(0 <= best_m < BERTH_COLUMNS && !col_taken(occupied@, row as int, best_m as int));
        }
    }
    (best_d, best_m)
}

/// The berth that a newly carried piece takes, given the berths of the
/// pieces already on board, the row it arrives on (1 for the far side,
/// else 0) and the column nearest to it (clamped to the last one).
pub fn choose_berth(occupied: &Vec<usize>, row: usize, col: usize) -> (b: usize)
    requires
        row < 2,
    ensures
        b < BERTHS,
        berth_choice(
            occupied@,
            row as int,
            (if col < BERTH_COLUMNS { col } else { (BERTH_COLUMNS - 1) as usize }) as int,
            b as int,
        ),
{
    let col: usize = if col < BERTH_COLUMNS {
        col
    } else {
        BERTH_COLUMNS - 1
    };
    let map = taken_map(occupied);
    assert(map@[row + 2 * col] == col_taken(occupied@, row as int, col as int));
    if !map[row + 2 * col] {
        return row + 2 * col;
    }
    let (d, m) = nearest_free(&map, Ghost(occupied@), row, col);
    if d < BERTH_COLUMNS {
        assert((row + 2 * m) / 2 == m && (row + 2 * m) % 2 == row);
        return row + 2 * m;
    }
    let other: usize = 1 - row;
    let (d2, m2) = nearest_free(&map, Ghost(occupied@), other, col);
    if d2 < BERTH_COLUMNS {
        assert((other + 2 * m2) / 2 == m2 && (other + 2 * m2) % 2 == other);
        other + 2 * m2
    } else {
        other
    }
}

impl CarrierProperties {
    /// Properties of a piece that carries nothing and is not carried.
    pub fn empty() -> (r: Self)
        ensures
            r.space_remaining == 0,
            r.carrying@ == Seq::<u32>::empty(),
            r.does_accept@ == Seq::<char>::empty(),
            !r.can_update,
            !r.is_carried,
            r.berth == 0,
            r.carrier == 0,
    {
        CarrierProperties {
            space_remaining: 0,
            carrying: Vec::new(),
            does_accept: Vec::new(),
            can_update: false,
            is_carried: false,
            berth: 0,
            carrier: 0,
        }
    }

    /// Whether a piece with tag `thing` would be taken on board now.
    pub fn will_carry(&self, thing: char) -> (r: bool)
        ensures
            r == (self.does_accept@.contains(thing) && self.space_remaining > 0),
    {
        let mut i: usize = 0;
        let mut found = false;
        while i < self.does_accept.len()
            invariant
                i <= self.does_accept@.len(),
                found == (exists|j: int| 0 <= j < i && self.does_accept@[j] == thing),
            decreases self.does_accept@.len() - i,
        {
            if self.does_accept[i] == thing {
                found = true;
            }
            i = i + 1;
        }
        found && self.space_remaining > 0
    }

    /// Takes the piece `id` on board.
    pub fn take_on_board(&mut self, id: u32)
        requires
            old(self).space_remaining > 0,
        ensures
            final(self).space_remaining == old(self).space_remaining - 1,
            final(self).carrying@ == old(self).carrying@.push(id),
            final(self).does_accept@ == old(self).does_accept@,
            final(self).can_update == old(self).can_update,
            final(self).is_carried == old(self).is_carried,
            final(self).berth == old(self).berth,
            final(self).carrier == old(self).carrier,
    {
        self.carrying.push(id);
        self.space_remaining = self.space_remaining - 1;
    }

    /// Marks this piece as carried by `carrier` in `berth`.
    pub fn board(&mut self, carrier: u32, berth: usize)
        ensures
            final(self).is_carried,
            final(self).carrier == carrier,
            final(self).berth == berth,
            final(self).space_remaining == old(self).space_remaining,
            final(self).carrying@ == old(self).carrying@,
            final(self).does_accept@ == old(self).does_accept@,
            final(self).can_update == old(self).can_update,
    {
        self.is_carried = true;
        self.carrier = carrier;
        self.berth = berth;
    }

    /// Frees the berth of a piece that leaves: one more place on board.
    pub fn release_one(&mut self)
        requires
            old(self).space_remaining < u32::MAX,
        ensures
            final(self).space_remaining == old(self).space_remaining + 1,
            final(self).carrying@ == old(self).carrying@,
            final(self).does_accept@ == old(self).does_accept@,
            final(self).can_update == old(self).can_update,
            final(self).is_carried == old(self).is_carried,
            final(self).berth == old(self).berth,
            final(self).carrier == old(self).carrier,
    {
        self.space_remaining = self.space_remaining + 1;
    }

    /// Removes from the list of pieces on board every id for which
    /// `still_carried` (index for index) is false, keeping the order of the rest.
    pub fn forget_released(&mut self, still_carried: &Vec<bool>)
        requires
            still_carried@.len() == old(self).carrying@.len(),
        ensures
            final(self).carrying@ == kept(old(self).carrying@, still_carried@),
            final(self).space_remaining == old(self).space_remaining,
            final(self).does_accept@ == old(self).does_accept@,
            final(self).can_update == old(self).can_update,
            final(self).is_carried == old(self).is_carried,
            final(self).berth == old(self).berth,
            final(self).carrier == old(self).carrier,
    {
        let mut out: Vec<u32> = Vec::new();
        let mut i: usize = 0;
        while i < self.carrying.len()
            invariant
                i <= self.carrying@.len(),
                self.carrying@ == old(self).carrying@,
                still_carried@.len() == self.carrying@.len(),
                out@ == kept(self.carrying@.subrange(0, i as int), still_carried@.subrange(0, i as int)),
            decreases self.carrying@.len() - i,
        {
            proof {
                assert(self.carrying@.subrange(0, i + 1).drop_last() =~= self.carrying@.subrange(0, i as int));
                assert(still_carried@.subrange(0, i + 1).drop_last() =~= still_carried@.subrange(0, i as int));
            }
            if still_carried[i] {
                out.push(self.carrying[i]);
            }
            i = i + 1;
        }
        proof {
            assert(self.carrying@.subrange(0, i as int) =~= self.carrying@);
            assert(still_carried@.subrange(0, i as int) =~= still_carried@);
        }
        self.carrying = out;
    }
}

/// The ids of `ids` whose flag in `keep` is set, in order.
pub open spec fn kept(ids: Seq<u32>, keep: Seq<bool>) -> Seq<u32>
    decreases ids.len(),
{
    if ids.len() == 0 || keep.len() == 0 {
        Seq::empty()
    } else if keep.last() {
        kept(ids.drop_last(), keep.drop_last()).push(ids.last())
    } else {
        kept(ids.drop_last(), keep.drop_last())
    }
}

} // verus!
