use vstd::prelude::*;

verus! {

/// Byte offset of pixel `(x, y)` in an RGBA image `width` pixels wide, if
/// the pixel lies inside the `width` by `height` image.
pub open spec fn pixel_offset(width: int, height: int, x: int, y: int) -> Option<int> {
    if 0 <= x < width && 0 <= y < height { Some((y * width + x) * 4) } else { None }
}

/// Offset of the first byte of pixel `(x, y)`; `None` outside the image,
/// where drawing is skipped.
pub fn graph_pixel_offset(width: u32, height: u32, x: i32, y: i32) -> (offset: Option<usize>)
    requires
        (width as int) * (height as int) * 4 <= usize::MAX,
        width <= i32::MAX,
        height <= i32::MAX,
    ensures
        offset.is_some() == pixel_offset(width as int, height as int, x as int, y as int).is_some(),
        offset.is_some() ==> offset.unwrap() as int == pixel_offset(width as int, height as int, x as int, y as int).unwrap(),
        offset.is_some() ==> offset.unwrap() + 4 <= (width as int) * (height as int) * 4,
{
    if x < 0 || y < 0 || x >= width as i32 || y >= height as i32 {
        return None;
    }
    let (w, px, py) = (width as usize, x as usize, y as usize);
    proof {
        assert(py * w + px < w * (height as int)) by (nonlinear_arith)
            requires py < height, px < w;
        assert((py * w + px) * 4 + 4 <= w * (height as int) * 4) by (nonlinear_arith)
            requires py * w + px < w * (height as int);
    }
    Some((py * w + px) * 4)
}

/// Whether the mask cell at `(nx, ny)` counts as different from `inside`:
/// cells outside the mask count as different only from an inside cell.
pub open spec fn mask_differs(mask: Seq<bool>, size: int, nx: int, ny: int, inside: bool) -> bool {
    if nx < 0 || ny < 0 || nx >= size || ny >= size { inside } else { mask[ny * size + nx] != inside }
}

/// How far the edge search looks: 8 cells from an inside cell, 3 from an
/// outside one.
pub open spec fn search_radius(inside: bool) -> int {
    if inside { 8 } else { 3 }
}

/// `(dx, dy)` is an offset of the search square, other than the center,
/// whose cell differs.
pub open spec fn edge_offset(mask: Seq<bool>, size: int, x: int, y: int, inside: bool, dx: int, dy: int) -> bool {
    let r = search_radius(inside);
    &&& -r <= dx <= r
    &&& -r <= dy <= r
    &&& !(dx == 0 && dy == 0)
    &&& mask_differs(mask, size, x + dx, y + dy, inside)
}

/// The smallest squared distance from `(x, y)` to a differing cell of the
/// search square, or `None` when the square holds none. The distance to the
/// mask edge is the square root of this value.
pub fn mask_edge_squared_distance(mask: &Vec<bool>, size: u32, x: u32, y: u32, inside: bool) -> (best: Option<u32>)
    requires
        mask.len() >= (size as int) * (size as int),
    ensures
        best.is_none() ==> forall|dx: int, dy: int| !edge_offset(mask@, size as int, x as int, y as int, inside, dx, dy),
        best.is_some() ==> exists|dx: int, dy: int| edge_offset(mask@, size as int, x as int, y as int, inside, dx, dy)
            && dx * dx + dy * dy == best.unwrap(),
        best.is_some() ==> forall|dx: int, dy: int| edge_offset(mask@, size as int, x as int, y as int, inside, dx, dy)
            ==> best.unwrap() <= dx * dx + dy * dy,
{
    let r: i32 = if inside { 8 } else { 3 };
    let size_i = size as i64;
    let mut best: Option<u32> = None;
    let mut dy: i32 = -r;
    while dy <= r
        invariant
            r == search_radius(inside),
            size_i == size,
            mask.len() >= (size as int) * (size as int),
            -r <= dy <= r + 1,
            best.is_none() ==> forall|ex: int, ey: int| ey < dy ==> !edge_offset(mask@, size as int, x as int, y as int, inside, ex, ey),
            best.is_some() ==> exists|ex: int, ey: int| edge_offset(mask@, size as int, x as int, y as int, inside, ex, ey)
                && ex * ex + ey * ey == best.unwrap(),
            best.is_some() ==> forall|ex: int, ey: int| ey < dy && edge_offset(mask@, size as int, x as int, y as int, inside, ex, ey)
                ==> best.unwrap() <= ex * ex + ey * ey,
        decreases r + 1 - dy,
    {
        let mut dx: i32 = -r;
        while dx <= r
            invariant
                r == search_radius(inside),
                size_i == size,
                mask.len() >= (size as int) * (size as int),
                -r <= dy <= r,
                -r <= dx <= r + 1,
                best.is_none() ==> forall|ex: int, ey: int| (ey < dy || (ey == dy && ex < dx))
                    ==> !edge_offset(mask@, size as int, x as int, y as int, inside, ex, ey),
                best.is_some() ==> exists|ex: int, ey: int| edge_offset(mask@, size as int, x as int, y as int, inside, ex, ey)
                    && ex * ex + ey * ey == best.unwrap(),
                best.is_some() ==> forall|ex: int, ey: int| (ey < dy || (ey == dy && ex < dx))
                    && edge_offset(mask@, size as int, x as int, y as int, inside, ex, ey)
                    ==> best.unwrap() <= ex * ex + ey * ey,
            decreases r + 1 - dx,
        {
            if !(dx == 0 && dy == 0) {
                let nx = x as i64 + dx as i64;
                let ny = y as i64 + dy as i64;
                let different = if nx < 0 || ny < 0 || nx >= size_i || ny >= size_i {
                    inside
                } else {
                    proof {
                        assert((ny as int) * (size as int) + (nx as int) < (size as int) * (size as int)) by (nonlinear_arith)
                            requires 0 <= ny < size, 0 <= nx < size;
                        assert(0 <= (ny as int) * (size as int)) by (nonlinear_arith)
                            requires 0 <= ny, 0 <= size;
                    }
                    let row = (ny as usize) * (size as usize);
                    mask[row + nx as usize] != inside
                };
                assert(different == mask_differs(mask@, size as int, nx as int, ny as int, inside));
                if different {
                    proof {
                        assert(0 <= dx * dx <= 64) by (nonlinear_arith) requires -8 <= dx <= 8;
                        assert(0 <= dy * dy <= 64) by (nonlinear_arith) requires -8 <= dy <= 8;
                    }
                    let d = (dx * dx + dy * dy) as u32;
                    assert(edge_offset(mask@, size as int, x as int, y as int, inside, dx as int, dy as int));
                    assert(d == dx * dx + dy * dy);
                    match best {
                        Some(b) => {
                            if d < b {
                                best = Some(d);
                            }
                        },
                        None => {
                            best = Some(d);
                        },
                    }
                }
            }
            dx = dx + 1;
        }
        dy = dy + 1;
    }
    best
}

/// Shade of the graph background row `y`: bands 22 pixels high alternate
/// between 12 and 9.
pub fn graph_background_shade(y: u32) -> (shade: u8)
    ensures
        shade == (if (y / 22) % 2 == 0 { 12u8 } else { 9u8 }),
{
    if (y / 22) % 2 == 0 { 12 } else { 9 }
}

/// Rows of the five horizontal grid lines of the chronicle graph.
pub fn graph_gridline_rows(height: u32) -> (rows: Vec<i32>)
    requires
        32 <= height <= i32::MAX,
    ensures
        rows.len() == 5,
        forall|k: int| 0 <= k < 5 ==> #[trigger] rows@[k] == 16 + k * ((height - 32) / 4),
{
    let spacing = ((height - 32) / 4) as i32;
    let mut rows: Vec<i32> = Vec::new();
    let mut step: i32 = 0;
    while step <= 4
        invariant
            0 <= step <= 5,
            spacing == (height - 32) / 4,
            0 <= spacing <= (i32::MAX - 32) / 4,
            rows.len() == step,
            forall|k: int| 0 <= k < step ==> #[trigger] rows@[k] == 16 + k * spacing,
        decreases 5 - step,
    {
        proof {
            assert(step * spacing <= 4 * spacing) by (nonlinear_arith) requires 0 <= step <= 4, 0 <= spacing;
        }
        rows.push(16 + step * spacing);
        step = step + 1;
    }
    rows
}

/// Whether entry `j` is drawn before entry `i`: a smaller key, or an
/// equal key and a smaller index.
pub open spec fn precedes(keys: Seq<i64>, j: int, i: int) -> bool {
    j != i && (keys[j] < keys[i] || (keys[j] == keys[i] && j < i))
}

/// How many of the first `n` entries are drawn before entry `i`.
pub open spec fn count_preceding(keys: Seq<i64>, i: int, n: int) -> int
    decreases n,
{
    if n <= 0 { 0 } else { count_preceding(keys, i, n - 1) + if precedes(keys, n - 1, i) { 1int } else { 0 } }
}

/// The rank of entry `i` in drawing order.
pub open spec fn rank_of(keys: Seq<i64>, i: int) -> int {
    count_preceding(keys, i, keys.len() as int)
}

/// The rank of each entry when the entries are sorted by key, ties broken
/// by position: the drawing order of branch layers from the bottom up.
pub fn rank_by_key(keys: &Vec<i64>) -> (ranks: Vec<usize>)
    ensures
        ranks.len() == keys.len(),
        forall|i: int| 0 <= i < keys.len() ==> #[trigger] ranks@[i] as int == rank_of(keys@, i),
{
    let mut ranks: Vec<usize> = Vec::new();
    let mut i: usize = 0;
    while i < keys.len()
        invariant
            i <= keys.len(),
            ranks.len() == i,
            forall|k: int| 0 <= k < i ==> #[trigger] ranks@[k] as int == rank_of(keys@, k),
        decreases keys.len() - i,
    {
        let mut count: usize = 0;
        let mut j: usize = 0;
        while j < keys.len()
            invariant
                i < keys.len(),
                j <= keys.len(),
                count <= j,
                count as int == count_preceding(keys@, i as int, j as int),
            decreases keys.len() - j,
        {
            if j != i && (keys[j] < keys[i] || (keys[j] == keys[i] && j < i)) {
                count = count + 1;
            }
            j = j + 1;
        }
        ranks.push(count);
        i = i + 1;
    }
    ranks
}

proof fn lemma_count_preceding_bounds(keys: Seq<i64>, i: int, n: int)
    requires
        0 <= n <= keys.len(),
    ensures
        0 <= count_preceding(keys, i, n) <= n,
    decreases n,
{
    if n > 0 {
        lemma_count_preceding_bounds(keys, i, n - 1);
    }
}

proof fn lemma_count_preceding_monotone(keys: Seq<i64>, a: int, b: int, n: int)
    requires
        0 <= a < keys.len(),
        0 <= b < keys.len(),
        0 <= n <= keys.len(),
        precedes(keys, a, b),
    ensures
        count_preceding(keys, a, n) + (if a < n { 1int } else { 0 }) <= count_preceding(keys, b, n),
    decreases n,
{
    if n > 0 {
        lemma_count_preceding_monotone(keys, a, b, n - 1);
        let j = n - 1;
        if precedes(keys, j, a) {
            assert(precedes(keys, j, b));
        }
    }
}

/// Entries drawn before others get smaller ranks, and the ranks are
/// distinct and below the number of entries: a permutation of the drawing
/// positions.
pub proof fn lemma_ranks_follow_keys(keys: Seq<i64>, a: int, b: int)
    requires
        0 <= a < keys.len(),
        0 <= b < keys.len(),
    ensures
        0 <= rank_of(keys, a) < keys.len(),
        precedes(keys, a, b) ==> rank_of(keys, a) < rank_of(keys, b),
        keys[a] < keys[b] ==> rank_of(keys, a) < rank_of(keys, b),
        a != b ==> rank_of(keys, a) != rank_of(keys, b),
{
    lemma_count_preceding_bounds(keys, a, keys.len() as int);
    lemma_count_preceding_not_self(keys, a, keys.len() as int);
    if precedes(keys, a, b) {
        lemma_count_preceding_monotone(keys, a, b, keys.len() as int);
    }
    if a != b {
        if precedes(keys, b, a) {
            lemma_count_preceding_monotone(keys, b, a, keys.len() as int);
        } else {
            assert(precedes(keys, a, b));
            lemma_count_preceding_monotone(keys, a, b, keys.len() as int);
        }
    }
}

proof fn lemma_count_preceding_not_self(keys: Seq<i64>, a: int, n: int)
    requires
        0 <= a < keys.len(),
        a < n <= keys.len(),
    ensures
        count_preceding(keys, a, n) < n,
    decreases n,
{
    if n - 1 > a {
        lemma_count_preceding_not_self(keys, a, n - 1);
    } else {
        lemma_count_preceding_bounds(keys, a, n - 1);
    }
}

/// Multiplier of the miniature signature hash (the 64-bit FNV prime).
pub const SIGNATURE_PRIME: u64 = 1099511628211;

/// One step of the signature hash: multiply by the prime and add the next
/// quantized value, modulo 2^64.
pub open spec fn signature_step(acc: nat, value: nat) -> nat {
    ((acc * SIGNATURE_PRIME + value) % 0x1_0000_0000_0000_0000) as nat
}

/// The signature hash of a run of quantized values, from `seed`.
pub open spec fn signature_fold(seed: nat, values: Seq<u64>) -> nat
    decreases values.len(),
{
    if values.len() == 0 { seed } else { signature_step(signature_fold(seed, values.drop_last()), values.last() as nat) }
}

/// Signature of a species miniature: the species id with the section count
/// shifted 41 bits up, folded with the quantized shape values in the order
/// the caller lists them. Two miniatures with the same signature are drawn
/// from the same cached image.
pub open spec fn miniature_signature(species: u32, section_count: u8, values: Seq<u64>) -> nat {
    signature_fold(species as nat + section_count as nat * 0x200_0000_0000, values)
}

/// Hash of the species, section count and quantized shape values of a
/// miniature, used to tell when its image must be redrawn.
pub fn species_miniature_signature(species: u32, section_count: u8, values: &Vec<u64>) -> (signature: u64)
    ensures
        signature as nat == miniature_signature(species, section_count, values@),
{
    let s = species as u64;
    let c = section_count as u64;
    assert(s ^ (c << 41u64) == s + c * 0x200_0000_0000u64) by (bit_vector)
        requires s < 0x1_0000_0000u64, c < 0x100u64;
    let mut signature: u64 = s ^ (c << 41u64);
    let mut i: usize = 0;
    while i < values.len()
        invariant
            i <= values.len(),
            signature as nat == signature_fold(species as nat + section_count as nat * 0x200_0000_0000, values@.take(i as int)),
        decreases values.len() - i,
    {
        assert(values@.take(i + 1).drop_last() =~= values@.take(i as int));
        let ghost before = signature;
        let product = signature.wrapping_mul(SIGNATURE_PRIME);
        signature = product.wrapping_add(values[i]);
        proof {
            let m: int = 0x1_0000_0000_0000_0000;
            let a = before as int * SIGNATURE_PRIME as int;
            let q = values@[i as int] as int;
            assert(product as int == a % m);
            vstd::arithmetic::div_mod::lemma_add_mod_noop(a, q, m);
            vstd::arithmetic::div_mod::lemma_small_mod(q as nat, m as nat);
            vstd::arithmetic::div_mod::lemma_mod_twice(a + q, m);
            if product as int + q >= m {
                vstd::arithmetic::div_mod::lemma_mod_sub_multiples_vanish(product as int + q, m);
                vstd::arithmetic::div_mod::lemma_small_mod((product as int + q - m) as nat, m as nat);
            } else {
                vstd::arithmetic::div_mod::lemma_small_mod((product as int + q) as nat, m as nat);
            }
            assert(signature as int == (a + q) % m);
        }
        i = i + 1;
    }
    assert(values@.take(values.len() as int) =~= values@);
    signature
}

} // verus!
