//! Pictures as rows of four-byte pixels.

use vstd::prelude::*;

verus! {

/// Graphics buffers have rows of a multiple of this many bytes.
pub const ROW_ALIGN: usize = 256;

/// `n` rounded up to a multiple of [`ROW_ALIGN`].
pub open spec fn aligned(n: int) -> int {
    (n + ROW_ALIGN - 1) / (ROW_ALIGN as int) * ROW_ALIGN
}

/// The bytes that a row of `width` pixels takes in a graphics buffer.
pub fn padded_row_bytes(width: usize) -> (r: usize)
    requires
        width * 4 + 255 <= usize::MAX,
    ensures
        r == aligned(width * 4),
        r >= width * 4,
        r % 256 == 0,
{
    let raw: usize = width * 4;
    (raw + 255) / 256 * 256
}

/// The row that begins at `from` in `data`.
pub open spec fn row(data: Seq<u8>, from: int, row_bytes: int) -> Seq<u8> {
    data.subrange(from, from + row_bytes)
}

/// The first `rows` rows of `row_bytes` each, without what fills them up to
/// `stride`.
pub open spec fn packed(data: Seq<u8>, stride: int, row_bytes: int, rows: int) -> Seq<u8>
    decreases rows,
{
    if rows <= 0 {
        Seq::empty()
    } else {
        packed(data, stride, row_bytes, rows - 1) + row(data, (rows - 1) * stride, row_bytes)
    }
}

/// Copy rows of `row_bytes` out of a buffer whose rows are `stride` bytes
/// apart.
pub fn pack_rows(data: &[u8], stride: usize, row_bytes: usize, rows: usize) -> (out: Vec<u8>)
    requires
        row_bytes <= stride,
        rows * stride <= data@.len(),
    ensures
        out@ == packed(data@, stride as int, row_bytes as int, rows as int),
        out@.len() == rows * row_bytes,
{
    let n: usize = data.len();
    let mut out: Vec<u8> = Vec::new();
    let mut y: usize = 0;
    let mut from: usize = 0;
    assert(out@ =~= Seq::empty());
    assert(0 * row_bytes == 0) by (nonlinear_arith);
    assert(0 * stride == 0) by (nonlinear_arith);
    while y < rows
        invariant
            y <= rows,
            row_bytes <= stride,
            rows * stride <= n,
            n == data@.len(),
            from == y * stride,
            out@ == packed(data@, stride as int, row_bytes as int, y as int),
            out@.len() == y * row_bytes,
        decreases rows - y,
    {
        assert((y + 1) * stride == y * stride + stride) by (nonlinear_arith);
        assert((y + 1) * stride <= rows * stride) by (nonlinear_arith)
            requires
                y + 1 <= rows,
        ;
        assert((y + 1) * row_bytes == y * row_bytes + row_bytes) by (nonlinear_arith);
        let ghost before = out@;
        let mut x: usize = 0;
        while x < row_bytes
            invariant
                x <= row_bytes <= stride,
                from + stride <= n,
                n == data@.len(),
                out@ == before + data@.subrange(from as int, from + x),
            decreases row_bytes - x,
        {
            out.push(data[from + x]);
            x = x + 1;
            assert(data@.subrange(from as int, from + x) =~= data@.subrange(
                from as int,
                from + x - 1,
            ).push(data@[from + x - 1]));
            assert(before + data@.subrange(from as int, from + x) =~= (before + data@.subrange(
                from as int,
                from + x - 1,
            )).push(data@[from + x - 1]));
        }
        y = y + 1;
        from = from + stride;
    }
    out
}

/// Where the rows of a buffer lie one behind the other, packing them changes
/// nothing.
pub proof fn lemma_dense_rows_are_kept(data: Seq<u8>, row_bytes: int, rows: int)
    requires
        0 <= row_bytes,
        0 <= rows,
        rows * row_bytes <= data.len(),
    ensures
        packed(data, row_bytes, row_bytes, rows) == data.take(rows * row_bytes),
    decreases rows,
{
    if rows > 0 {
        assert((rows - 1) * row_bytes + row_bytes == rows * row_bytes) by (nonlinear_arith);
        assert(0 <= (rows - 1) * row_bytes) by (nonlinear_arith)
            requires
                rows >= 1,
                row_bytes >= 0,
        ;
        lemma_dense_rows_are_kept(data, row_bytes, rows - 1);
        assert(data.take((rows - 1) * row_bytes) + row(
            data,
            (rows - 1) * row_bytes,
            row_bytes,
        ) =~= data.take(rows * row_bytes));
    } else {
        assert(rows * row_bytes == 0) by (nonlinear_arith)
            requires
                rows == 0,
        ;
        assert(data.take(rows * row_bytes) =~= Seq::empty());
    }
}

/// An even size of at least two pixels.
pub open spec fn even_size(x: u32) -> u32 {
    if x < 2 {
        2
    } else {
        (x - x % 2) as u32
    }
}

/// `x` brought to an even size of at least two pixels.
pub fn even_dim(x: u32) -> (r: u32)
    ensures
        r == even_size(x),
        r >= 2,
        r % 2 == 0,
{
    if x < 2 {
        2
    } else {
        x - x % 2
    }
}

/// `pixels` black pixels that hide what is behind them.
pub open spec fn black(pixels: int) -> Seq<u8> {
    Seq::new(
        (4 * pixels) as nat,
        |i: int|
            if i % 4 == 3 {
                255u8
            } else {
                0u8
            },
    )
}

/// A black picture.
pub fn black_canvas(width: u32, height: u32) -> (out: Vec<u8>)
    requires
        width * height * 4 <= usize::MAX,
    ensures
        out@ == black(width * height),
{
    let pixels: usize = width as usize * height as usize;
    let mut out: Vec<u8> = Vec::new();
    let mut i: usize = 0;
    while i < pixels
        invariant
            i <= pixels,
            pixels * 4 <= usize::MAX,
            out@ == black(i as int),
        decreases pixels - i,
    {
        let ghost before = out@;
        out.push(0);
        out.push(0);
        out.push(0);
        out.push(255);
        i = i + 1;
        assert(out@ =~= black(i as int)) by {
            assert forall|k: int| 0 <= k < 4 * i implies out@[k] == black(i as int)[k] by {
                if k < 4 * (i - 1) {
                    assert(out@[k] == before[k]);
                }
            }
        }
    }
    out
}

} // verus!
