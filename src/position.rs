use vstd::prelude::*;

verus! {

/// A cell of the grid, by integer coordinates. Any pair is a position;
/// whether it lies on a given grid is a separate question.
#[derive(Clone, Copy, Debug, PartialEq, Eq, Structural, Hash)]
pub struct Position {
    pub x: i32,
    pub y: i32,
}

/// Number of distinct values of an `i32`.
pub open spec fn coordinate_span() -> int {
    0x1_0000_0000
}

/// The key under which a position is stored in a hash index: the two
/// coordinates, shifted to be non-negative, side by side in one `u64`.
pub open spec fn cell_key(p: Position) -> u64 {
    ((p.x as int + 0x8000_0000) * coordinate_span() + (p.y as int + 0x8000_0000)) as u64
}

/// The position stored under a key: the inverse of `cell_key`.
pub open spec fn key_cell(k: u64) -> Position {
    Position {
        x: (k as int / coordinate_span() - 0x8000_0000) as i32,
        y: (k as int % coordinate_span() - 0x8000_0000) as i32,
    }
}

proof fn lemma_cell_key_bounds(p: Position)
    ensures
        0 <= (p.x as int + 0x8000_0000) * coordinate_span() + (p.y as int + 0x8000_0000)
            <= u64::MAX,
{
    let hi = p.x as int + 0x8000_0000;
    let lo = p.y as int + 0x8000_0000;
    assert(0 <= hi * 0x1_0000_0000 <= 0xFFFF_FFFF * 0x1_0000_0000) by (nonlinear_arith)
        requires
            0 <= hi <= 0xFFFF_FFFF,
    ;
}

/// Decoding a key gives back the position it was made from.
pub proof fn lemma_key_cell_inverse(p: Position)
    ensures
        key_cell(cell_key(p)) == p,
{
    lemma_cell_key_bounds(p);
    let hi = p.x as int + 0x8000_0000;
    let lo = p.y as int + 0x8000_0000;
    let k = hi * coordinate_span() + lo;
    vstd::arithmetic::div_mod::lemma_fundamental_div_mod_converse(k, coordinate_span(), hi, lo);
}

/// Distinct positions have distinct keys.
pub proof fn lemma_cell_key_injective(p: Position, q: Position)
    ensures
        cell_key(p) == cell_key(q) <==> p == q,
{
    lemma_key_cell_inverse(p);
    lemma_key_cell_inverse(q);
}

/// Every key is the key of the position it decodes to.
pub proof fn lemma_cell_key_onto(k: u64)
    ensures
        cell_key(key_cell(k)) == k,
{
    let n = coordinate_span();
    let hi = k as int / n;
    let lo = k as int % n;
    vstd::arithmetic::div_mod::lemma_fundamental_div_mod(k as int, n);
    assert(hi < n) by {
        vstd::arithmetic::div_mod::lemma_div_is_ordered(k as int, u64::MAX as int, n);
    }
}

/// Computes `cell_key(p)`.
pub fn key_of(p: Position) -> (k: u64)
    ensures
        k == cell_key(p),
{
    proof {
        lemma_cell_key_bounds(p);
    }
    let hi: u64 = (p.x as i64 + 0x8000_0000i64) as u64;
    let lo: u64 = (p.y as i64 + 0x8000_0000i64) as u64;
    assert(hi * 0x1_0000_0000 <= 0xFFFF_FFFF * 0x1_0000_0000) by (nonlinear_arith)
        requires
            hi <= 0xFFFF_FFFF,
    ;
    hi * 0x1_0000_0000 + lo
}

/// Computes `key_cell(k)`.
pub fn cell_of(k: u64) -> (p: Position)
    ensures
        p == key_cell(k),
        cell_key(p) == k,
{
    proof {
        lemma_cell_key_onto(k);
        vstd::arithmetic::div_mod::lemma_div_is_ordered(k as int, u64::MAX as int, coordinate_span());
    }
    let hi: u64 = k / 0x1_0000_0000;
    let lo: u64 = k % 0x1_0000_0000;
    Position { x: (hi as i64 - 0x8000_0000i64) as i32, y: (lo as i64 - 0x8000_0000i64) as i32 }
}

} // verus!
