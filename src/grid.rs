use vstd::prelude::*;

verus! {

/// Where the pixel at column `x` and row `y` sits in a row-major image of the given width.
pub open spec fn pixel_index(width: nat, x: nat, y: nat) -> nat {
    x + y * width
}

/// A pixel inside the grid has an index below the pixel count.
pub proof fn lemma_index_in_grid(width: nat, height: nat, x: nat, y: nat)
    requires
        x < width,
        y < height,
    ensures
        pixel_index(width, x, y) < width * height,
{
    assert(x + y * width < width * height) by (nonlinear_arith)
        requires
            x < width,
            y < height,
    ;
}

/// Column and row are recovered from a row-major index by division, and the next
/// index is one more.
pub proof fn lemma_row_major(width: nat, x: nat, y: nat)
    requires
        x < width,
    ensures
        pixel_index(width, x, y) % width == x,
        pixel_index(width, x, y) / width == y,
        x + 1 == width ==> pixel_index(width, 0, y + 1) == pixel_index(width, x, y) + 1,
        x + 1 < width ==> pixel_index(width, x + 1, y) == pixel_index(width, x, y) + 1,
{
    vstd::arithmetic::div_mod::lemma_fundamental_div_mod_converse(
        (x + y * width) as int,
        width as int,
        y as int,
        x as int,
    );
    assert((y + 1) * width == y * width + width) by (nonlinear_arith);
}

/// Distinct pixels of the grid have distinct indices.
pub proof fn lemma_index_injective(width: nat, x: nat, y: nat, x2: nat, y2: nat)
    requires
        x < width,
        x2 < width,
        x != x2 || y != y2,
    ensures
        pixel_index(width, x, y) != pixel_index(width, x2, y2),
{
    lemma_row_major(width, x, y);
    lemma_row_major(width, x2, y2);
}

/// Rows follow one another: the row after `y` starts `width` pixels later.
pub proof fn lemma_next_row(width: nat, y: nat)
    ensures
        (y + 1) * width == y * width + width,
{
    assert((y + 1) * width == y * width + width) by (nonlinear_arith);
}

} // verus!
