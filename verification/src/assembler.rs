//! Output assembly: building output buffers from a decoded frame's planes.
//!
//! For each plane the assembler decides between aliasing the decoded
//! memory (zero-copy) and copying row by row into a freshly sized region:
//! aliasing is taken when the host understands per-plane stride metadata or
//! when the destination stride equals the source stride; otherwise each row
//! is copied, `min(source stride, destination stride)` bytes per row, and
//! any excess destination bytes of a row are left unspecified.

use vstd::prelude::*;

use crate::frame::Frame;
use crate::frame::Plane;
use vstd::arithmetic::mul::lemma_mul_inequality;
use vstd::arithmetic::mul::lemma_mul_is_commutative;
use vstd::arithmetic::mul::lemma_mul_is_distributive_add_other_way;

verus! {

/// The smaller of two integers.
pub open spec fn min_int(a: int, b: int) -> int {
    if a <= b {
        a
    } else {
        b
    }
}

/// The padding-free bytes of the first `rows` rows of a plane's data:
/// `row_bytes` bytes out of every `stride`.
pub open spec fn packed_rows(data: Seq<u8>, stride: int, row_bytes: int, rows: int) -> Seq<u8>
    decreases rows,
{
    if rows <= 0 {
        Seq::empty()
    } else {
        packed_rows(data, stride, row_bytes, rows - 1) + data.subrange(
            (rows - 1) * stride,
            (rows - 1) * stride + row_bytes,
        )
    }
}

/// A plane's sample bytes with the row padding removed.
pub open spec fn packed_plane(p: Plane) -> Seq<u8> {
    packed_rows(p.data@, p.stride as int, p.row_bytes(), p.height as int)
}

/// Length of the packed form: `rows * row_bytes`.
pub proof fn lemma_packed_rows_len(data: Seq<u8>, stride: int, row_bytes: int, rows: int)
    requires
        0 <= row_bytes <= stride,
        rows * stride <= data.len(),
    ensures
        packed_rows(data, stride, row_bytes, rows).len() == if rows <= 0 {
            0
        } else {
            rows * row_bytes
        },
    decreases rows,
{
    if rows > 0 {
        lemma_mul_is_distributive_add_other_way(stride, rows - 1, 1);
        lemma_packed_rows_len(data, stride, row_bytes, rows - 1);
        lemma_mul_is_distributive_add_other_way(row_bytes, rows - 1, 1);
    }
}

/// Where each sample byte of the packed form comes from: position
/// `r * row_bytes + c` holds the data byte at `r * stride + c`.
pub proof fn lemma_packed_rows_index(
    data: Seq<u8>,
    stride: int,
    row_bytes: int,
    rows: int,
    r: int,
    c: int,
)
    requires
        0 <= row_bytes <= stride,
        rows * stride <= data.len(),
        0 <= r < rows,
        0 <= c < row_bytes,
    ensures
        packed_rows(data, stride, row_bytes, rows)[r * row_bytes + c] == data[r * stride + c],
    decreases rows,
{
    lemma_packed_rows_len(data, stride, row_bytes, rows);
    lemma_mul_is_distributive_add_other_way(stride, rows - 1, 1);
    lemma_mul_is_distributive_add_other_way(row_bytes, rows - 1, 1);
    if r < rows - 1 {
        lemma_packed_rows_index(data, stride, row_bytes, rows - 1, r, c);
        lemma_packed_rows_len(data, stride, row_bytes, rows - 1);
        lemma_mul_inequality(r + 1, rows - 1, row_bytes);
        lemma_mul_is_distributive_add_other_way(row_bytes, r, 1);
    } else {
        lemma_packed_rows_len(data, stride, row_bytes, rows - 1);
    }
}

/// Extract a plane's sample bytes without the per-row padding: for each of
/// the plane's rows, its first `width * bytes_per_sample` bytes.
pub fn extract_plane_data(plane: &Plane) -> (r: Vec<u8>)
    requires
        plane.wf(),
    ensures
        r@ == packed_plane(*plane),
        r@.len() == plane.height as int * plane.row_bytes(),
        forall|row: int, col: int|
            0 <= row < plane.height as int && 0 <= col < plane.row_bytes()
                ==> #[trigger] r@[row * plane.row_bytes() + col] == plane.data@[row * plane.stride
                + col],
{
    let row_bytes: usize = (plane.width as usize) * (plane.bytes_per_sample as usize);
    let stride: usize = plane.stride as usize;
    let height: usize = plane.height as usize;
    let ghost gdata: Seq<u8> = plane.data@;
    let dlen: usize = plane.data.len();
    proof {
        lemma_mul_is_commutative(stride as int, height as int);
        lemma_packed_rows_len(gdata, stride as int, row_bytes as int, height as int);
    }
    let mut out: Vec<u8> = Vec::new();
    let mut row: usize = 0;
    while row < height
        invariant
            row <= height,
            row_bytes == plane.row_bytes(),
            stride == plane.stride,
            height == plane.height,
            plane.wf(),
            gdata == plane.data@,
            dlen == gdata.len(),
            height as int * stride as int == gdata.len(),
            out@ == packed_rows(gdata, stride as int, row_bytes as int, row as int),
            out@.len() == row as int * row_bytes as int,
        decreases height - row,
    {
        proof {
            lemma_mul_inequality(row as int + 1, height as int, stride as int);
            lemma_mul_is_distributive_add_other_way(stride as int, row as int, 1);
            lemma_mul_is_distributive_add_other_way(row_bytes as int, row as int, 1);
            lemma_packed_rows_len(gdata, stride as int, row_bytes as int, row as int + 1);
        }
        let base: usize = row * stride;
        let mut c: usize = 0;
        while c < row_bytes
            invariant
                c <= row_bytes,
                base == row as int * stride as int,
                base + stride <= gdata.len(),
                row_bytes <= stride,
                gdata == plane.data@,
                dlen == gdata.len(),
                out@ == packed_rows(gdata, stride as int, row_bytes as int, row as int)
                    + gdata.subrange(base as int, base + c),
            decreases row_bytes - c,
        {
            let b = plane.data[base + c];
            out.push(b);
            c = c + 1;
            proof {
                assert(gdata.subrange(base as int, base + c as int) =~= gdata.subrange(
                    base as int,
                    base + c - 1,
                ).push(gdata[base + c - 1]));
                assert(out@ =~= packed_rows(gdata, stride as int, row_bytes as int, row as int)
                    + gdata.subrange(base as int, base + c));
            }
        }
        row = row + 1;
        proof {
            assert(out@ =~= packed_rows(gdata, stride as int, row_bytes as int, row as int));
        }
    }
    proof {
        assert forall|r: int, col: int|
            0 <= r < height as int && 0 <= col < row_bytes as int implies #[trigger] out@[r
            * (row_bytes as int) + col] == gdata[r * (stride as int) + col] by {
            lemma_packed_rows_index(
                gdata,
                stride as int,
                row_bytes as int,
                height as int,
                r,
                col,
            );
        }
    }
    out
}

/// Remove the padding of a three-plane frame: the packed luma and the two
/// packed chroma planes.
pub fn remove_padding(frame: &Frame) -> (r: (Vec<u8>, Vec<u8>, Vec<u8>))
    requires
        frame.wf(),
        frame.planes.len() == 3,
    ensures
        r.0@ == packed_plane(frame.planes[0]),
        r.1@ == packed_plane(frame.planes[1]),
        r.2@ == packed_plane(frame.planes[2]),
{
    let y_plane_data = extract_plane_data(&frame.planes[0]);
    let u_plane_data = extract_plane_data(&frame.planes[1]);
    let v_plane_data = extract_plane_data(&frame.planes[2]);
    (y_plane_data, u_plane_data, v_plane_data)
}

/// One sample byte was carried over from the plane's data into a row-copied
/// output region of stride `dest`.
pub open spec fn cell_copied(out: Seq<u8>, p: Plane, dest: int, r: int, c: int) -> bool {
    out[r * dest + c] == p.data@[r * p.stride + c]
}

/// The copied form of a plane: `dest * height` bytes, each row's first
/// `min(stride, dest)` bytes carried over from the plane's row.  Nothing is
/// said of the remaining bytes of a row: padding is not guaranteed to be
/// initialized.
pub open spec fn plane_copy_ok(out: Seq<u8>, p: Plane, dest: int) -> bool {
    &&& out.len() == dest * p.height as int
    &&& forall|r: int, c: int|
        0 <= r < p.height as int && 0 <= c < min_int(p.stride as int, dest)
            ==> #[trigger] cell_copied(out, p, dest, r, c)
}

/// One plane of an assembled output buffer: either the decoded plane's
/// memory taken as it is (zero-copy), or a row-by-row copy with the
/// destination stride.
pub struct AssembledPlane {
    /// Whether the plane's memory is the decoded picture's own (so the
    /// picture must stay alive as long as this buffer).
    pub aliased: bool,
    /// The plane's bytes in the output buffer.
    pub bytes: Vec<u8>,
}

/// What one assembled plane guarantees relative to its source plane: the
/// alias/copy decision, and the bytes it holds under each decision.
pub open spec fn assembled_ok(ap: AssembledPlane, p: Plane, dest: int, meta: bool) -> bool {
    &&& ap.aliased == (meta || dest == p.stride as int)
    &&& (ap.aliased ==> ap.bytes@ == p.data@)
    &&& (!ap.aliased ==> plane_copy_ok(ap.bytes@, p, dest))
}

/// Size in bytes of a plane's assembled memory: the source memory when
/// aliased, `dest * height` when copied.
pub open spec fn assembled_size(p: Plane, dest: int, meta: bool) -> int {
    if meta || dest == p.stride as int {
        p.data@.len() as int
    } else {
        dest * p.height as int
    }
}

/// Decide between aliasing and copying for one plane, and produce its
/// output bytes.
///
/// The memory is aliased exactly when the host understands stride metadata
/// or the destination stride equals the source stride; otherwise each row
/// is copied.
pub fn assemble_plane(plane: &Plane, dest_stride: u32, video_meta_supported: bool) -> (r:
    AssembledPlane)
    requires
        plane.wf(),
        dest_stride as int * plane.height as int <= usize::MAX as int,
    ensures
        assembled_ok(r, *plane, dest_stride as int, video_meta_supported),
        r.bytes@.len() == assembled_size(*plane, dest_stride as int, video_meta_supported),
{
    if video_meta_supported || dest_stride == plane.stride {
        AssembledPlane { aliased: true, bytes: crate::frame::copy_bytes(&plane.data) }
    } else {
        let dest: usize = dest_stride as usize;
        let stride: usize = plane.stride as usize;
        let height: usize = plane.height as usize;
        let chunk_len: usize = if stride < dest {
            stride
        } else {
            dest
        };
        let dlen: usize = plane.data.len();
        proof {
            lemma_mul_is_commutative(dest as int, height as int);
            lemma_mul_is_commutative(stride as int, height as int);
        }
        let total: usize = dest * height;
        let mut out: Vec<u8> = vec![0u8; total];
        let mut row: usize = 0;
        while row < height
            invariant
                row <= height,
                dest == dest_stride,
                stride == plane.stride,
                height == plane.height,
                chunk_len == min_int(stride as int, dest as int),
                plane.wf(),
                dlen == plane.data@.len(),
                out@.len() == dest as int * height as int,
                total == out@.len(),
                height as int * dest as int == out@.len(),
                height as int * stride as int == plane.data@.len(),
                forall|r: int, c: int|
                    0 <= r < row as int && 0 <= c < chunk_len as int ==> #[trigger] cell_copied(
                        out@,
                        *plane,
                        dest as int,
                        r,
                        c,
                    ),
            decreases height - row,
        {
            proof {
                lemma_mul_inequality(row as int + 1, height as int, dest as int);
                lemma_mul_is_distributive_add_other_way(dest as int, row as int, 1);
                lemma_mul_inequality(row as int + 1, height as int, stride as int);
                lemma_mul_is_distributive_add_other_way(stride as int, row as int, 1);
            }
            let out_base: usize = row * dest;
            let src_base: usize = row * stride;
            let mut c: usize = 0;
            while c < chunk_len
                invariant
                    c <= chunk_len,
                    chunk_len == min_int(stride as int, dest as int),
                    out_base == row as int * dest as int,
                    src_base == row as int * stride as int,
                    out_base + dest <= out@.len(),
                    src_base + stride <= plane.data@.len(),
                    stride == plane.stride,
                    dest == dest_stride,
                    dlen == plane.data@.len(),
                    total == out@.len(),
                    out@.len() == dest as int * height as int,
                    forall|r: int, cc: int|
                        0 <= r < row as int && 0 <= cc < chunk_len as int ==> #[trigger]
                        cell_copied(out@, *plane, dest as int, r, cc),
                    forall|cc: int|
                        0 <= cc < c as int ==> #[trigger] cell_copied(
                            out@,
                            *plane,
                            dest as int,
                            row as int,
                            cc,
                        ),
                decreases chunk_len - c,
            {
                let b = plane.data[src_base + c];
                let ghost prev: Seq<u8> = out@;
                out.set(out_base + c, b);
                c = c + 1;
                proof {
                    assert forall|r: int, cc: int|
                        0 <= r < row as int && 0 <= cc < chunk_len as int implies #[trigger]
                    cell_copied(out@, *plane, dest as int, r, cc) by {
                        assert(cell_copied(prev, *plane, dest as int, r, cc));
                        lemma_mul_inequality(r + 1, row as int, dest as int);
                        lemma_mul_is_distributive_add_other_way(dest as int, r, 1);
                        assert(r * (dest as int) + cc < out_base as int);
                    }
                    assert forall|cc: int| 0 <= cc < c as int implies #[trigger] cell_copied(
                        out@,
                        *plane,
                        dest as int,
                        row as int,
                        cc,
                    ) by {
                        if cc < c - 1 {
                            assert(cell_copied(prev, *plane, dest as int, row as int, cc));
                        } else {
                            assert(out@[out_base + c - 1] == plane.data@[src_base + c - 1]);
                        }
                    }
                }
            }
            row = row + 1;
            proof {
                assert forall|r: int, cc: int|
                    0 <= r < row as int && 0 <= cc < chunk_len as int implies #[trigger]
                cell_copied(out@, *plane, dest as int, r, cc) by {
                    if r < row as int - 1 {
                        assert(cell_copied(out@, *plane, dest as int, r, cc));
                    } else {
                        assert(cell_copied(out@, *plane, dest as int, row as int - 1, cc));
                    }
                }
            }
        }
        AssembledPlane { aliased: false, bytes: out }
    }
}

/// Zero-copy/copy equivalence: within the valid (non-padding) region, an
/// aliased plane and a row-copied plane hold the same sample bytes.  The
/// sample at row `row`, byte `col` sits at `row * stride + col` of the
/// aliased memory and at `row * dest + col` of the copied region, and the
/// two bytes are equal.
pub proof fn lemma_alias_copy_equivalence(
    p: Plane,
    dest: int,
    aliased: Seq<u8>,
    copied: Seq<u8>,
    row: int,
    col: int,
)
    requires
        p.wf(),
        p.row_bytes() <= dest,
        aliased == p.data@,
        plane_copy_ok(copied, p, dest),
        0 <= row < p.height as int,
        0 <= col < p.row_bytes(),
    ensures
        aliased[row * p.stride as int + col] == copied[row * dest + col],
{
    assert(cell_copied(copied, p, dest, row, col));
}

} // verus!
