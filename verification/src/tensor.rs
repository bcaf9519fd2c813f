//! Tensors: the wire form carried in requests and results, and the engine
//! form buffered inside a session.
//!
//! A tensor is a list of dimensions plus a flat byte payload, row-major.  A
//! payload is coherent when it holds exactly one 4-byte element per cell of
//! the shape, i.e. `data.len() == 4 * product(dimensions)`.
use vstd::prelude::*;

verus! {

/// Type tag of 32-bit IEEE-754 elements, the only type this engine computes.
pub const TENSOR_TYPE_F32: u8 = 0;

/// Element type tag of a wire tensor.
#[derive(Clone, Copy, Debug, Default, PartialEq, Eq, Structural)]
pub struct TensorType {
    pub ttype: u8,
}

/// Wire tensor: dimensions and a flat little-endian byte payload.
///
/// The layout is row-major, the only layout this engine serves, so no
/// layout flag travels with the tensor; likewise one element-type tag
/// stands in place of a per-dimension type list, since every payload holds
/// one element type throughout.
#[derive(Clone, Debug, PartialEq, Eq)]
pub struct Tensor {
    pub tensor_type: TensorType,
    pub dimensions: Vec<u32>,
    pub data: Vec<u8>,
}

/// Engine tensor: what one buffered input or computed output holds, with
/// dimensions in the native machine width.
#[derive(Clone, Debug, PartialEq, Eq)]
pub struct TensorData {
    pub dims: Vec<usize>,
    pub data: Vec<u8>,
}

/// Mathematical content of a `TensorData`.
pub ghost struct TensorDataView {
    pub dims: Seq<usize>,
    pub data: Seq<u8>,
}

impl View for TensorData {
    type V = TensorDataView;

    open spec fn view(&self) -> TensorDataView {
        TensorDataView { dims: self.dims@, data: self.data@ }
    }
}

/// Number of cells of a shape with `u32` dimensions.
pub open spec fn product_u32(dims: Seq<u32>) -> nat
    decreases dims.len(),
{
    if dims.len() == 0 {
        1
    } else {
        (dims[0] as nat) * product_u32(dims.drop_first())
    }
}

/// Number of cells of a shape with `usize` dimensions.
pub open spec fn product_usize(dims: Seq<usize>) -> nat
    decreases dims.len(),
{
    if dims.len() == 0 {
        1
    } else {
        (dims[0] as nat) * product_usize(dims.drop_first())
    }
}

/// Widening every dimension keeps the cell count.
pub proof fn lemma_product_widen(dims: Seq<u32>)
    ensures
        product_usize(dims.map_values(|d: u32| d as usize)) == product_u32(dims),
    decreases dims.len(),
{
    let mapped = dims.map_values(|d: u32| d as usize);
    if dims.len() == 0 {
    } else {
        lemma_product_widen(dims.drop_first());
        assert(mapped.drop_first() =~= dims.drop_first().map_values(|d: u32| d as usize));
    }
}

impl TensorDataView {
    /// The payload holds exactly one 4-byte element per cell.
    pub open spec fn coherent(self) -> bool {
        self.data.len() == 4 * product_usize(self.dims)
    }
}

impl Tensor {
    /// The payload holds exactly one 4-byte element per cell of the shape.
    pub open spec fn spec_coherent(&self) -> bool {
        self.data@.len() == 4 * product_u32(self.dimensions@)
    }

    /// A tensor carrying no cells and no bytes, the filler of error results.
    pub fn empty() -> (r: Tensor)
        ensures
            r.dimensions@ == Seq::<u32>::empty(),
            r.data@ == Seq::<u8>::empty(),
            r.tensor_type.ttype == TENSOR_TYPE_F32,
    {
        Tensor { tensor_type: TensorType { ttype: TENSOR_TYPE_F32 }, dimensions: Vec::new(), data: Vec::new() }
    }

    /// The shape in native machine width, dimension for dimension.
    pub fn shape(&self) -> (r: Vec<usize>)
        ensures
            r@ == self.dimensions@.map_values(|d: u32| d as usize),
    {
        let mut out: Vec<usize> = Vec::new();
        let mut i: usize = 0;
        while i < self.dimensions.len()
            invariant
                i <= self.dimensions@.len(),
                out@ == self.dimensions@.take(i as int).map_values(|d: u32| d as usize),
            decreases self.dimensions@.len() - i,
        {
            out.push(self.dimensions[i] as usize);
            assert(out@ =~= self.dimensions@.take(i + 1).map_values(|d: u32| d as usize));
            i = i + 1;
        }
        assert(self.dimensions@.take(self.dimensions@.len() as int) =~= self.dimensions@);
        out
    }

    /// Decides payload coherence: whether `data` holds exactly one 4-byte
    /// element per cell of the shape.
    pub fn check_coherent(&self) -> (r: bool)
        ensures
            r == self.spec_coherent(),
    {
        let mut cells: usize = 1;
        let mut i: usize = 0;
        let ghost dims = self.dimensions@;
        while i < self.dimensions.len()
            invariant
                i <= dims.len(),
                dims == self.dimensions@,
                cells == product_u32(dims.take(i as int)),
            decreases dims.len() - i,
        {
            let d = self.dimensions[i];
            proof {
                lemma_product_take_push(dims, i as int);
            }
            cells = match cells.checked_mul(d as usize) {
                Some(c) => c,
                None => {
                    // The running cell count has outgrown the machine word;
                    // only a later zero dimension can still make the exact
                    // product representable.
                    return self.decide_large(i + 1);
                },
            };
            i = i + 1;
        }
        assert(dims.take(dims.len() as int) =~= dims);
        let dlen = self.data.len();
        if cells > usize::MAX / 4 {
            proof {
                if self.data@.len() == 4 * product_u32(dims) {
                    assert(4 * product_u32(dims) > usize::MAX);
                }
            }
            false
        } else {
            dlen == 4 * cells
        }
    }

    /// After an overflowing prefix, the exact product can still be zero if a
    /// later dimension is zero; scan the rest for one.
    fn decide_large(&self, from: usize) -> (r: bool)
        requires
            from <= self.dimensions@.len(),
            product_u32(self.dimensions@.take(from as int)) > usize::MAX,
        ensures
            r == self.spec_coherent(),
    {
        let mut i: usize = from;
        let ghost dims = self.dimensions@;
        while i < self.dimensions.len()
            invariant
                from <= i <= dims.len(),
                dims == self.dimensions@,
                product_u32(dims.take(i as int)) > usize::MAX,
            decreases dims.len() - i,
        {
            let d = self.dimensions[i];
            proof {
                lemma_product_take_push(dims, i as int);
            }
            if d == 0 {
                proof {
                    assert(dims[i as int] == 0);
                    assert(product_u32(dims.take(i as int + 1)) == product_u32(
                        dims.take(i as int),
                    ) * 0);
                    lemma_product_take_zero(dims, i as int + 1);
                }
                return self.data.len() == 0;
            }
            proof {
                let p = product_u32(dims.take(i as int));
                assert(p * d >= p * 1) by (nonlinear_arith)
                    requires d >= 1, p >= 0;
            }
            i = i + 1;
        }
        assert(dims.take(dims.len() as int) =~= dims);
        // Every dimension from the overflow point on was positive, so the
        // exact cell count exceeds what any machine-length payload can match.
        let dlen = self.data.len();
        proof {
            assert(dlen <= usize::MAX);
            if self.data@.len() == 4 * product_u32(dims) {
                assert(4 * product_u32(dims) > usize::MAX);
            }
        }
        false
    }
}

impl TensorData {
    /// Copies a shape and a payload into an engine tensor.
    pub fn from_parts(dims: &[usize], data: &[u8]) -> (r: TensorData)
        ensures
            r@.dims == dims@,
            r@.data == data@,
    {
        TensorData { dims: vstd::slice::slice_to_vec(dims), data: vstd::slice::slice_to_vec(data) }
    }
}

/// The views of a buffer of engine tensors, in order.
pub open spec fn views_of(s: Seq<TensorData>) -> Seq<TensorDataView> {
    s.map_values(|t: TensorData| t@)
}

/// Every tensor of the buffer is coherent.
pub open spec fn all_coherent(s: Seq<TensorData>) -> bool {
    forall|i: int| 0 <= i < s.len() ==> (#[trigger] s[i])@.coherent()
}

/// A `u32` shape in native machine width.
pub open spec fn widen_dims(dims: Seq<u32>) -> Seq<usize> {
    dims.map_values(|d: u32| d as usize)
}

impl Tensor {
    /// The engine form of this tensor: native-width shape plus the payload.
    pub fn to_data(&self) -> (r: TensorData)
        ensures
            r@.dims == widen_dims(self.dimensions@),
            r@.data == self.data@,
            self.spec_coherent() ==> r@.coherent(),
    {
        proof {
            lemma_product_widen(self.dimensions@);
        }
        TensorData { dims: self.shape(), data: self.data.clone() }
    }
}

/// A copy of a tensor buffer, view for view.
pub fn dup_tensors(v: &Vec<TensorData>) -> (r: Vec<TensorData>)
    ensures
        views_of(r@) == views_of(v@),
        r@.len() == v@.len(),
{
    let mut out: Vec<TensorData> = Vec::new();
    let mut i: usize = 0;
    while i < v.len()
        invariant
            i <= v@.len(),
            out@.len() == i,
            views_of(out@) == views_of(v@).take(i as int),
        decreases v@.len() - i,
    {
        let t = &v[i];
        out.push(TensorData { dims: t.dims.clone(), data: t.data.clone() });
        assert(views_of(out@) =~= views_of(v@).take(i + 1));
        i = i + 1;
    }
    assert(views_of(v@).take(v@.len() as int) =~= views_of(v@));
    out
}

/// A copy of an optional tensor buffer, view for view.
pub fn dup_opt_tensors(v: &Option<Vec<TensorData>>) -> (r: Option<Vec<TensorData>>)
    ensures
        r is Some <==> v is Some,
        match (r, v) {
            (Some(a), Some(b)) => views_of(a@) == views_of(b@),
            _ => true,
        },
{
    match v {
        Some(b) => Some(dup_tensors(b)),
        None => None,
    }
}

/// One more dimension multiplies the cell count.
pub proof fn lemma_product_take_push(dims: Seq<u32>, i: int)
    requires
        0 <= i < dims.len(),
    ensures
        product_u32(dims.take(i + 1)) == product_u32(dims.take(i)) * dims[i],
    decreases i,
{
    assert(product_u32(Seq::<u32>::empty()) == 1);
    if i == 0 {
        assert(dims.take(0) =~= Seq::<u32>::empty());
        let t1 = dims.take(1);
        assert(t1.drop_first() =~= Seq::<u32>::empty());
        assert(t1[0] == dims[0]);
        assert(product_u32(t1) == (dims[0] as nat) * product_u32(Seq::<u32>::empty()));
    } else {
        lemma_product_take_push(dims.drop_first(), i - 1);
        assert(dims.take(i + 1).drop_first() =~= dims.drop_first().take(i));
        assert(dims.take(i).drop_first() =~= dims.drop_first().take(i - 1));
        assert(dims.take(i + 1)[0] == dims[0]);
        assert(dims.take(i)[0] == dims[0]);
        assert(dims.drop_first()[i - 1] == dims[i]);
        let p = product_u32(dims.drop_first().take(i - 1));
        let d0 = dims[0] as nat;
        let di = dims[i] as nat;
        assert(product_u32(dims.take(i + 1)) == d0 * (p * di));
        assert(product_u32(dims.take(i)) == d0 * p);
        assert(d0 * (p * di) == (d0 * p) * di) by (nonlinear_arith);
    }
}

/// A zero dimension in the prefix collapses the whole cell count to zero.
pub proof fn lemma_product_take_zero(dims: Seq<u32>, i: int)
    requires
        0 < i <= dims.len(),
        product_u32(dims.take(i)) == 0,
    ensures
        product_u32(dims) == 0,
    decreases dims.len() - i,
{
    if i == dims.len() {
        assert(dims.take(i) =~= dims);
    } else {
        lemma_product_take_push(dims, i);
        lemma_product_take_zero(dims, i + 1);
    }
}

} // verus!
