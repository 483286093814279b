//! The integer side of drawing quads: the scissor rectangle, the batches the
//! instances are drawn in, the vertices and indices of a batch, the layout of
//! the instance buffer, and when the target height has to be uploaded again.
use vstd::prelude::*;

verus! {

/// The most quads drawn by one draw call.
pub const MAX_INSTANCES: usize = 100_000;

/// A rectangle of pixels on the target, measured from its top left corner.
#[derive(Clone, Copy, Debug, PartialEq, Eq, Structural)]
pub struct PixelBounds {
    pub x: u32,
    pub y: u32,
    pub width: u32,
    pub height: u32,
}

/// A scissor box as the graphics library takes it, measured from the bottom
/// left corner of the target.
#[derive(Clone, Copy, Debug, PartialEq, Eq, Structural)]
pub struct Scissor {
    pub x: i32,
    pub y: i32,
    pub width: i32,
    pub height: i32,
}

/// The scissor box for `bounds` on a target `target_height` pixels high: the
/// vertical position is flipped to count from the bottom.
pub fn scissor(bounds: PixelBounds, target_height: u32) -> (s: Scissor)
    requires
        bounds.y + bounds.height <= target_height,
    ensures
        s.x == bounds.x as i32,
        s.y == (target_height - (bounds.y + bounds.height)) as i32,
        s.width == bounds.width as i32,
        s.height == bounds.height as i32,
{
    Scissor {
        x: bounds.x as i32,
        y: (target_height - (bounds.y + bounds.height)) as i32,
        width: bounds.width as i32,
        height: bounds.height as i32,
    }
}

/// The instances `[start, end)` of batch `k` out of `total` instances.
pub open spec fn batch_bounds(k: int, total: int) -> (int, int) {
    (k * MAX_INSTANCES, if (k + 1) * MAX_INSTANCES < total {
        (k + 1) * MAX_INSTANCES
    } else {
        total
    })
}

/// The batches `total` instances are drawn in: consecutive ranges of at most
/// [`MAX_INSTANCES`] instances, from the first instance to the last.
pub fn instance_batches(total: usize) -> (b: Vec<(usize, usize)>)
    requires
        total <= usize::MAX - MAX_INSTANCES,
    ensures
        b.len() * MAX_INSTANCES >= total,
        b.len() > 0 ==> (b.len() - 1) * MAX_INSTANCES < total,
        forall|k: int|
            0 <= k < b.len() ==> (#[trigger] b@[k]).0 == batch_bounds(k, total as int).0
                && b@[k].1 == batch_bounds(k, total as int).1,
{
    let mut b: Vec<(usize, usize)> = Vec::new();
    let mut i: usize = 0;
    while i < total
        invariant
            total <= usize::MAX - MAX_INSTANCES,
            i == b.len() * MAX_INSTANCES,
            i <= total + MAX_INSTANCES,
            b.len() > 0 ==> (b.len() - 1) * MAX_INSTANCES < total,
            forall|k: int|
                0 <= k < b.len() ==> (#[trigger] b@[k]).0 == batch_bounds(k, total as int).0
                    && b@[k].1 == batch_bounds(k, total as int).1,
        decreases total + MAX_INSTANCES - i,
    {
        let end = if i + MAX_INSTANCES < total {
            i + MAX_INSTANCES
        } else {
            total
        };
        b.push((i, end));
        i = i + MAX_INSTANCES;
    }
    b
}

/// Which corner of its quad the `c`-th index of the quad names: the quad is
/// drawn as the triangles (0, 1, 2) and (2, 1, 3).
pub open spec fn corner_of_index(c: int) -> int {
    if c == 0 {
        0
    } else if c == 1 {
        1
    } else if c == 2 {
        2
    } else if c == 3 {
        2
    } else if c == 4 {
        1
    } else {
        3
    }
}

/// The `j`-th index of a batch: quad `j / 6`, whose four vertices start at
/// `4 * (j / 6)`.
pub open spec fn quad_index(j: int) -> int {
    4 * (j / 6) + corner_of_index(j % 6)
}

/// The data of one batch of quads, ready to be uploaded.
pub struct QuadBatch<T> {
    /// Four vertices per quad, each the quad with the corner it stands for.
    pub vertices: Vec<(T, u8)>,
    /// Six indices per quad into `vertices`.
    pub indices: Vec<i32>,
    /// `indices` as bytes, four per index.
    pub index_bytes: Vec<u8>,
    /// The number of indices.
    pub index_count: i32,
}

proof fn lemma_div_by_block(j: int, d: int, k: int)
    requires
        d > 0,
        k * d <= j < k * d + d,
    ensures
        j / d == k,
        j % d == j - k * d,
{
    vstd::arithmetic::div_mod::lemma_fundamental_div_mod_converse(j, d, k, j - k * d);
}

/// The six indices of each of `amount` quads.
fn batch_indices(amount: usize) -> (indices: Vec<i32>)
    requires
        amount <= MAX_INSTANCES,
    ensures
        indices.len() == 6 * amount,
        forall|j: int| 0 <= j < indices.len() ==> #[trigger] indices@[j] == quad_index(j),
{
    let mut indices: Vec<i32> = Vec::new();
    let mut k: usize = 0;
    while k < amount
        invariant
            k <= amount <= MAX_INSTANCES,
            indices.len() == 6 * k,
            forall|j: int| 0 <= j < indices.len() ==> #[trigger] indices@[j] == quad_index(j),
        decreases amount - k,
    {
        let base: i32 = (k * 4) as i32;
        indices.push(base);
        indices.push(base + 1);
        indices.push(base + 2);
        indices.push(base + 2);
        indices.push(base + 1);
        indices.push(base + 3);
        proof {
            assert forall|j: int| 6 * k <= j < 6 * k + 6 implies #[trigger] indices@[j] == quad_index(j) by {
                lemma_div_by_block(j, 6, k as int);
            }
        }
        k += 1;
    }
    indices
}

/// Byte `i` (0 for the least significant) of the two's-complement encoding of
/// `v`.
pub open spec fn byte_of(v: i32, i: int) -> u8 {
    let d: int = if i == 0 {
        1
    } else if i == 1 {
        256
    } else if i == 2 {
        65536
    } else {
        16777216
    };
    (((v as u32) as int / d) % 256) as u8
}

/// The four bytes of `v`, least significant first.
pub open spec fn le_bytes(v: i32) -> Seq<u8> {
    seq![byte_of(v, 0), byte_of(v, 1), byte_of(v, 2), byte_of(v, 3)]
}

/// The four bytes of `v`, most significant first.
pub open spec fn be_bytes(v: i32) -> Seq<u8> {
    seq![byte_of(v, 3), byte_of(v, 2), byte_of(v, 1), byte_of(v, 0)]
}

/// `bytes` holds each of `indices` in four bytes, in order, all in the same
/// byte order: least significant first when `little`, else most significant
/// first.
pub open spec fn encodes_indices(bytes: Seq<u8>, indices: Seq<i32>, little: bool) -> bool {
    &&& bytes.len() == 4 * indices.len()
    &&& forall|k: int|
        0 <= k < indices.len() ==> bytes.subrange(4 * k, 4 * k + 4) == if little {
            le_bytes(#[trigger] indices[k])
        } else {
            be_bytes(indices[k])
        }
}

/// `bytemuck::cast_slice` from `i32` to `u8`, copied: the memory of the
/// indices, four bytes per index in the machine's byte order, which is either
/// least or most significant byte first.
#[verifier::external_body]
fn cast_index_bytes(indices: &[i32]) -> (bytes: Vec<u8>)
    ensures
        encodes_indices(bytes@, indices@, true) || encodes_indices(bytes@, indices@, false),
{
    bytemuck::cast_slice::<i32, u8>(indices).to_vec()
}

/// The vertices, indices and index bytes of the batch of instances
/// `[start, end)`: each quad is four vertices, one per corner, drawn as two
/// triangles.
pub fn prepare_batch<T: Copy>(instances: &[T], start: usize, end: usize) -> (batch: QuadBatch<T>)
    requires
        start <= end <= instances.len(),
        end - start <= MAX_INSTANCES,
    ensures
        batch.vertices.len() == 4 * (end - start),
        forall|j: int|
            0 <= j < batch.vertices.len() ==> #[trigger] batch.vertices@[j] == (
                instances@[start + j / 4],
                (j % 4) as u8,
            ),
        batch.indices.len() == 6 * (end - start),
        forall|j: int|
            0 <= j < batch.indices.len() ==> #[trigger] batch.indices@[j] == quad_index(j),
        encodes_indices(batch.index_bytes@, batch.indices@, true) || encodes_indices(
            batch.index_bytes@,
            batch.indices@,
            false,
        ),
        batch.index_count == batch.indices.len(),
{
    let amount = end - start;
    let mut vertices: Vec<(T, u8)> = Vec::new();
    let mut q: usize = start;
    while q < end
        invariant
            start <= q <= end <= instances.len(),
            vertices.len() == 4 * (q - start),
            forall|j: int|
                0 <= j < vertices.len() ==> #[trigger] vertices@[j] == (
                    instances@[start + j / 4],
                    (j % 4) as u8,
                ),
        decreases end - q,
    {
        let instance = instances[q];
        vertices.push((instance, 0u8));
        vertices.push((instance, 1u8));
        vertices.push((instance, 2u8));
        vertices.push((instance, 3u8));
        proof {
            let k = (q - start) as int;
            assert forall|j: int| 4 * k <= j < 4 * k + 4 implies #[trigger] vertices@[j] == (
                instances@[start + j / 4],
                (j % 4) as u8,
            ) by {
                lemma_div_by_block(j, 4, k);
            }
        }
        q += 1;
    }
    let indices = batch_indices(amount);
    let slice = indices.as_slice();
    let index_bytes = cast_index_bytes(slice);
    assert(slice@ == indices@);
    let index_count = indices.len() as i32;
    QuadBatch { vertices, indices, index_bytes, index_count }
}

/// Every index of a batch of `amount` quads names one of its `4 * amount`
/// vertices.
pub proof fn lemma_indices_in_range(amount: int, j: int)
    requires
        0 <= j < 6 * amount,
    ensures
        0 <= quad_index(j) < 4 * amount,
{
    let k = j / 6;
    vstd::arithmetic::div_mod::lemma_fundamental_div_mod(j, 6);
    assert(0 <= j % 6 < 6);
    assert(k < amount) by (nonlinear_arith)
        requires
            j == 6 * k + j % 6,
            0 <= j % 6 < 6,
            j < 6 * amount,
    ;
    assert(0 <= k) by (nonlinear_arith)
        requires
            j == 6 * k + j % 6,
            0 <= j % 6 < 6,
            0 <= j,
    ;
}

/// The data of every batch fits the buffers made for [`MAX_INSTANCES`] quads:
/// a batch of at most that many quads has no more vertex bytes and no more
/// index bytes than the buffers hold, as long as the buffer sizes fit an
/// `i32`.
pub proof fn lemma_batch_fits_buffers(amount: int, quad_size: int)
    requires
        0 <= amount <= MAX_INSTANCES,
        0 <= quad_size,
        vertex_buffer_bytes(MAX_INSTANCES as int, quad_size) <= i32::MAX,
    ensures
        4 * amount * quad_size <= vertex_buffer_bytes(MAX_INSTANCES as int, quad_size) as i32,
        4 * (6 * amount) <= index_buffer_bytes(MAX_INSTANCES as int) as i32,
{
    assert(4 * amount * quad_size <= MAX_INSTANCES * 4 * quad_size) by (nonlinear_arith)
        requires
            0 <= amount <= MAX_INSTANCES,
            0 <= quad_size,
    ;
}

/// The number of components (floats) read by each of the eight vertex
/// attributes of a quad: position, size, color, border color, border radius,
/// border width, the corner id, and one more float after it.
pub open spec fn attribute_components(location: int) -> int {
    if location == 0 || location == 1 {
        2
    } else if location == 2 || location == 3 {
        4
    } else {
        1
    }
}

/// The byte offset of an attribute: the attributes follow one another, four
/// bytes per component.
pub open spec fn attribute_offset(location: int) -> int
    decreases location,
{
    if location <= 0 {
        0
    } else {
        attribute_offset(location - 1) + 4 * attribute_components(location - 1)
    }
}

/// A vertex attribute: where it is bound, how many floats it reads, and at
/// which byte of a vertex it starts.
#[derive(Clone, Copy, Debug, PartialEq, Eq, Structural)]
pub struct VertexAttribute {
    pub location: u32,
    pub components: i32,
    pub offset: i32,
}

/// The sizes of the buffers of `size` quads and the layout of a vertex.
pub struct InstanceBufferLayout {
    /// Bytes of the vertex buffer: four vertices per quad.
    pub vertex_bytes: i32,
    /// Bytes of the index buffer: six indices per quad, which is one and a
    /// half per vertex, four bytes each.
    pub index_bytes: i32,
    /// Bytes between consecutive vertices.
    pub stride: i32,
    pub attributes: Vec<VertexAttribute>,
}

/// Bytes of the vertex buffer of `size` quads, four vertices of `quad_size`
/// bytes each.
pub open spec fn vertex_buffer_bytes(size: int, quad_size: int) -> int {
    size * 4 * quad_size
}

/// Bytes of the index buffer of `size` quads: six indices of four bytes each.
pub open spec fn index_buffer_bytes(size: int) -> int {
    size * 6 * 4
}

/// The buffer sizes and vertex layout for `size` quads whose vertices are
/// `quad_size` bytes long.
pub fn instance_buffer_layout(size: usize, quad_size: usize) -> (layout: InstanceBufferLayout)
    requires
        size * 4 <= usize::MAX,
        size * 4 * quad_size <= usize::MAX,
        size * 6 * 4 <= usize::MAX,
    ensures
        layout.vertex_bytes == vertex_buffer_bytes(size as int, quad_size as int) as i32,
        layout.index_bytes == index_buffer_bytes(size as int) as i32,
        layout.stride == quad_size as i32,
        layout.attributes.len() == 8,
        forall|k: int|
            0 <= k < 8 ==> (#[trigger] layout.attributes@[k]).location == k
                && layout.attributes@[k].components == attribute_components(k)
                && layout.attributes@[k].offset == attribute_offset(k),
{
    let vertex_bytes = (size * 4 * quad_size) as i32;
    let index_buffer_size = size * 6;
    let index_bytes = (index_buffer_size * 4) as i32;
    let stride = quad_size as i32;
    let mut attributes: Vec<VertexAttribute> = Vec::new();
    attributes.push(VertexAttribute { location: 0, components: 2, offset: 0 });
    attributes.push(VertexAttribute { location: 1, components: 2, offset: 4 * 2 });
    attributes.push(VertexAttribute { location: 2, components: 4, offset: 4 * (2 + 2) });
    attributes.push(VertexAttribute { location: 3, components: 4, offset: 4 * (2 + 2 + 4) });
    attributes.push(VertexAttribute { location: 4, components: 1, offset: 4 * (2 + 2 + 4 + 4) });
    attributes.push(
        VertexAttribute { location: 5, components: 1, offset: 4 * (2 + 2 + 4 + 4 + 1) },
    );
    attributes.push(
        VertexAttribute { location: 6, components: 1, offset: 4 * (2 + 2 + 4 + 4 + 1 + 1) },
    );
    attributes.push(
        VertexAttribute { location: 7, components: 1, offset: 4 * (2 + 2 + 4 + 4 + 1 + 1 + 1) },
    );
    proof {
        reveal_with_fuel(attribute_offset, 9);
    }
    InstanceBufferLayout { vertex_bytes, index_bytes, stride, attributes }
}

/// The uniform values the quad program was last given that are integers: the
/// height of the target.
pub struct QuadUniforms {
    current_target_height: u32,
}

impl View for QuadUniforms {
    type V = u32;

    closed spec fn view(&self) -> u32 {
        self.current_target_height
    }
}

impl QuadUniforms {
    /// The program starts with a target height of 0.
    pub fn new() -> (r: Self)
        ensures
            r@ == 0,
    {
        QuadUniforms { current_target_height: 0 }
    }

    /// Notes that a draw targets `target_height`; returns whether the program
    /// must be given the new height, which is when it differs from the last.
    pub fn update_target_height(&mut self, target_height: u32) -> (upload: bool)
        ensures
            upload == (old(self)@ != target_height),
            final(self)@ == target_height,
    {
        if target_height != self.current_target_height {
            self.current_target_height = target_height;
            true
        } else {
            false
        }
    }
}

} // verus!
