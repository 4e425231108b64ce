use vstd::prelude::*;

verus! {

/// An IEEE-754 double-precision bit pattern encodes a finite value exactly
/// when its exponent field (bits 52..63) is not all ones.
pub open spec fn is_finite_bits(b: u64) -> bool {
    (b >> 52u64) & 0x7ffu64 != 0x7ffu64
}

/// The bit patterns of strictly positive finite doubles occupy exactly the
/// range `0x1 ..= 0x7FEF_FFFF_FFFF_FFFF`: the sign bit is clear, the value
/// is not `+0.0`, and the exponent field is not all ones (infinity, NaN).
pub open spec fn is_positive_finite_bits(b: u64) -> bool {
    1u64 <= b <= 0x7fef_ffff_ffff_ffffu64
}

/// Runtime check for [`is_positive_finite_bits`]; the harness uses it to
/// validate a time step before discretizing.
pub fn positive_finite_bits(b: u64) -> (r: bool)
    ensures
        r == is_positive_finite_bits(b),
{
    1u64 <= b && b <= 0x7fef_ffff_ffff_ffffu64
}

/// Mathematical view of a matrix: its shape and its entries in column-major
/// order. Each entry is the IEEE-754 bit pattern of a 64-bit value; the view
/// never interprets the bits.
#[verifier::ext_equal]
pub ghost struct MatV {
    pub rows: nat,
    pub cols: nat,
    pub data: Seq<u64>,
}

impl MatV {
    /// The data length matches the shape.
    pub open spec fn wf(self) -> bool {
        self.data.len() == self.rows * self.cols
    }

    /// Entry in row `i`, column `j` (column-major storage).
    pub open spec fn entry(self, i: int, j: int) -> u64 {
        self.data[j * self.rows + i]
    }

    pub open spec fn is_square(self) -> bool {
        self.rows == self.cols
    }

    /// Every entry encodes a finite value.
    pub open spec fn all_finite(self) -> bool {
        forall|k: int| 0 <= k < self.data.len() ==> is_finite_bits(#[trigger] self.data[k])
    }
}

/// Dense matrix of 64-bit entries, stored column-major. The entries are the
/// bit patterns of IEEE-754 double-precision values; the verified code treats
/// them as opaque 64-bit words.
#[derive(Debug)]
pub struct Mat {
    pub rows: usize,
    pub cols: usize,
    pub data: Vec<u64>,
}

impl View for Mat {
    type V = MatV;

    open spec fn view(&self) -> MatV {
        MatV { rows: self.rows as nat, cols: self.cols as nat, data: self.data@ }
    }
}

impl Mat {
    pub open spec fn wf(&self) -> bool {
        self@.wf()
    }

    /// Builds a matrix from its column-major entries; fails exactly when the
    /// data length does not match the shape.
    pub fn from_column_major(rows: usize, cols: usize, data: Vec<u64>) -> (r: Option<Mat>)
        ensures
            match r {
                Some(m) => m.wf() && m@.rows == rows && m@.cols == cols && m@.data == data@,
                None => data@.len() != rows * cols,
            },
    {
        let n = data.len();
        match rows.checked_mul(cols) {
            Some(len) => {
                if len == n {
                    Some(Mat { rows, cols, data })
                } else {
                    None
                }
            },
            None => None,
        }
    }

    pub fn nrows(&self) -> (r: usize)
        ensures
            r == self@.rows,
    {
        self.rows
    }

    pub fn ncols(&self) -> (r: usize)
        ensures
            r == self@.cols,
    {
        self.cols
    }

    /// Reads the entry in row `i`, column `j`.
    pub fn get(&self, i: usize, j: usize) -> (r: u64)
        requires
            self.wf(),
            i < self@.rows,
            j < self@.cols,
        ensures
            r == self@.entry(i as int, j as int),
    {
        let n = self.data.len();
        proof {
            lemma_index_in_bounds(self@.rows, self@.cols, i as int, j as int);
            assert(j * self@.rows + i < n);
        }
        self.data[j * self.rows + i]
    }

    /// Decides whether every entry encodes a finite value.
    pub fn all_entries_finite(&self) -> (r: bool)
        ensures
            r == self@.all_finite(),
    {
        let n = self.data.len();
        let mut k: usize = 0;
        while k < n
            invariant
                k <= n,
                n == self@.data.len(),
                forall|t: int| 0 <= t < k ==> is_finite_bits(#[trigger] self@.data[t]),
            decreases n - k,
        {
            let v = self.data[k];
            if (v >> 52u64) & 0x7ffu64 == 0x7ffu64 {
                assert(!is_finite_bits(self@.data[k as int]));
                return false;
            }
            k += 1;
        }
        true
    }
}

/// Column-major index arithmetic stays inside the data array.
proof fn lemma_index_in_bounds(rows: nat, cols: nat, i: int, j: int)
    requires
        0 <= i < rows,
        0 <= j < cols,
    ensures
        0 <= j * rows + i < rows * cols,
{
    assert(0 <= j * rows + i < rows * cols) by (nonlinear_arith)
        requires
            0 <= i < rows,
            0 <= j < cols,
    ;
}

} // verus!
