use vstd::arithmetic::div_mod::{
    lemma_div_is_ordered, lemma_fundamental_div_mod, lemma_fundamental_div_mod_converse,
};
use vstd::arithmetic::mul::{lemma_mul_inequality, lemma_mul_is_commutative};
use vstd::prelude::*;
use vstd::string::StringSliceAdditionalSpecFns;

verus! {

/// Side of the square tiles that the image is cut into, in pixels.
pub const TILE_SIZE: u32 = 16;

/// Size of the rendered image, in pixels.
pub struct ImageConfig {
    pub width: u32,
    pub height: u32,
}

/// A rectangle of pixels rendered as one unit of work: columns
/// `x_start..x_end` and rows `y_start..y_end`.
#[derive(Clone, Copy, Debug, PartialEq, Eq, Structural)]
pub struct Tile {
    pub x_start: u32,
    pub y_start: u32,
    pub x_end: u32,
    pub y_end: u32,
}

/// Number of tiles needed to cover `len` pixels along one axis.
pub open spec fn tiles_along(len: nat) -> nat {
    ((len + TILE_SIZE - 1) / (TILE_SIZE as int)) as nat
}

/// Number of tiles of a `w` by `h` image.
pub open spec fn tile_count_of(w: nat, h: nat) -> nat {
    tiles_along(w) * tiles_along(h)
}

pub open spec fn min_nat(a: nat, b: nat) -> nat {
    if a <= b {
        a
    } else {
        b
    }
}

/// First column of tile `i` of an image `w` pixels wide; tiles are numbered
/// row by row.
pub open spec fn tile_x_start(w: nat, i: nat) -> nat {
    (i % tiles_along(w)) * TILE_SIZE as nat
}

/// First row of tile `i` of an image `w` pixels wide.
pub open spec fn tile_y_start(w: nat, i: nat) -> nat {
    (i / tiles_along(w)) * TILE_SIZE as nat
}

/// Column just past tile `i`: a full tile, cut at the image's right edge.
pub open spec fn tile_x_end(w: nat, i: nat) -> nat {
    min_nat(tile_x_start(w, i) + TILE_SIZE as nat, w)
}

/// Row just past tile `i`: a full tile, cut at the image's bottom edge.
pub open spec fn tile_y_end(w: nat, h: nat, i: nat) -> nat {
    min_nat(tile_y_start(w, i) + TILE_SIZE as nat, h)
}

/// Pixel (`x`, `y`) lies in tile `i` of a `w` by `h` image.
pub open spec fn in_tile(w: nat, h: nat, i: nat, x: nat, y: nat) -> bool {
    &&& tile_x_start(w, i) <= x < tile_x_end(w, i)
    &&& tile_y_start(w, i) <= y < tile_y_end(w, h, i)
}

/// The tile that holds pixel (`x`, `y`).
pub open spec fn tile_index_of(w: nat, x: nat, y: nat) -> nat {
    (y / (TILE_SIZE as nat)) * tiles_along(w) + x / (TILE_SIZE as nat)
}

/// `x` lies in block `k` of `TILE_SIZE` values exactly when `x / TILE_SIZE == k`.
proof fn lemma_block_of(x: nat, k: nat)
    requires
        k * TILE_SIZE <= x < k * TILE_SIZE + TILE_SIZE,
    ensures
        x / (TILE_SIZE as nat) == k,
{
    lemma_fundamental_div_mod_converse(x as int, TILE_SIZE as int, k as int, x - k * TILE_SIZE);
}

/// The blocks of an axis `len` pixels long all start inside it.
proof fn lemma_blocks_along(len: nat, k: nat)
    requires
        k < tiles_along(len),
    ensures
        k * TILE_SIZE < len,
{
    lemma_fundamental_div_mod((len + TILE_SIZE - 1) as int, TILE_SIZE as int);
    assert(k * TILE_SIZE < len) by (nonlinear_arith)
        requires
            k < tiles_along(len),
            tiles_along(len) * TILE_SIZE <= len + TILE_SIZE - 1,
            TILE_SIZE == 16,
    ;
}

/// A pixel of an axis lies in one of the axis's blocks.
proof fn lemma_pixel_block(len: nat, x: nat)
    requires
        x < len,
    ensures
        x / (TILE_SIZE as nat) < tiles_along(len),
{
    lemma_fundamental_div_mod(x as int, TILE_SIZE as int);
    lemma_block_of(x + TILE_SIZE as nat, x / (TILE_SIZE as nat) + 1);
    lemma_div_is_ordered(x + TILE_SIZE, len + TILE_SIZE - 1, TILE_SIZE as int);
}

/// Every tile of the image is a non-empty rectangle inside the image.
pub proof fn lemma_tile_inside_image(w: nat, h: nat, i: nat)
    requires
        i < tile_count_of(w, h),
    ensures
        tile_x_start(w, i) < tile_x_end(w, i) <= w,
        tile_y_start(w, i) < tile_y_end(w, h, i) <= h,
{
    let tx = tiles_along(w);
    let ty = tiles_along(h);
    assert(tx > 0 && i / tx < ty) by (nonlinear_arith)
        requires
            i < tx * ty,
    {
        if tx == 0 {
            assert(tx * ty == 0);
        } else {
            lemma_fundamental_div_mod(i as int, tx as int);
            let q = i / tx;
            let r = i % tx;
            if q >= ty {
                lemma_mul_inequality(ty as int, q as int, tx as int);
                lemma_mul_is_commutative(tx as int, ty as int);
                lemma_mul_is_commutative(tx as int, q as int);
            }
        }
    }
    lemma_fundamental_div_mod(i as int, tx as int);
    lemma_blocks_along(w, i % tx);
    lemma_blocks_along(h, i / tx);
}

/// The tiles partition the image: every pixel lies in exactly one tile.
pub proof fn lemma_tiles_partition_image(w: nat, h: nat, x: nat, y: nat)
    requires
        x < w,
        y < h,
    ensures
        tile_index_of(w, x, y) < tile_count_of(w, h),
        in_tile(w, h, tile_index_of(w, x, y), x, y),
        forall|j: nat| j < tile_count_of(w, h) && #[trigger] in_tile(w, h, j, x, y) ==> j
            == tile_index_of(w, x, y),
{
    let tx = tiles_along(w);
    let ty = tiles_along(h);
    let cx = x / (TILE_SIZE as nat);
    let cy = y / (TILE_SIZE as nat);
    let i = tile_index_of(w, x, y);
    lemma_pixel_block(w, x);
    lemma_pixel_block(h, y);
    assert(i < tx * ty) by (nonlinear_arith)
        requires
            i == cy * tx + cx,
            cx < tx,
            cy < ty,
    ;
    lemma_fundamental_div_mod_converse(i as int, tx as int, cy as int, cx as int);
    lemma_fundamental_div_mod(x as int, TILE_SIZE as int);
    lemma_fundamental_div_mod(y as int, TILE_SIZE as int);
    assert forall|j: nat| j < tile_count_of(w, h) && #[trigger] in_tile(w, h, j, x, y) implies j
        == i by {
        let jx = j % tx;
        let jy = j / tx;
        lemma_block_of(x, jx);
        lemma_block_of(y, jy);
        lemma_fundamental_div_mod(j as int, tx as int);
        assert(j == jy * tx + jx) by (nonlinear_arith)
            requires
                j == tx * jy + jx,
        ;
    }
}

impl ImageConfig {
    /// Number of pixels of the image.
    pub fn pixel_count(&self) -> (r: u64)
        ensures
            r == self.width * self.height,
    {
        let (w, h) = (self.width as u64, self.height as u64);
        assert(w * h <= u64::MAX) by (nonlinear_arith)
            requires
                w <= u32::MAX,
                h <= u32::MAX,
        ;
        w * h
    }

    /// Number of tile columns.
    pub fn tiles_x(&self) -> (r: u64)
        ensures
            r == tiles_along(self.width as nat),
    {
        (self.width as u64 + (TILE_SIZE as u64 - 1)) / TILE_SIZE as u64
    }

    /// Number of tile rows.
    pub fn tiles_y(&self) -> (r: u64)
        ensures
            r == tiles_along(self.height as nat),
    {
        (self.height as u64 + (TILE_SIZE as u64 - 1)) / TILE_SIZE as u64
    }

    /// Number of tiles.
    pub fn tile_count(&self) -> (r: u64)
        ensures
            r == tile_count_of(self.width as nat, self.height as nat),
    {
        let tx = self.tiles_x();
        let ty = self.tiles_y();
        assert(tx * ty <= u64::MAX) by (nonlinear_arith)
            requires
                tx <= u32::MAX,
                ty <= u32::MAX,
        ;
        tx * ty
    }

    /// The pixels of tile `index`; tiles are numbered row by row.
    pub fn tile(&self, index: u64) -> (r: Tile)
        requires
            index < tile_count_of(self.width as nat, self.height as nat),
        ensures
            r.x_start == tile_x_start(self.width as nat, index as nat),
            r.y_start == tile_y_start(self.width as nat, index as nat),
            r.x_end == tile_x_end(self.width as nat, index as nat),
            r.y_end == tile_y_end(self.width as nat, self.height as nat, index as nat),
    {
        proof {
            lemma_tile_inside_image(self.width as nat, self.height as nat, index as nat);
        }
        let tx = self.tiles_x();
        let x_start = (index % tx) * TILE_SIZE as u64;
        let y_start = (index / tx) * TILE_SIZE as u64;
        let x_limit = x_start + TILE_SIZE as u64;
        let y_limit = y_start + TILE_SIZE as u64;
        let x_end = if x_limit <= self.width as u64 {
            x_limit
        } else {
            self.width as u64
        };
        let y_end = if y_limit <= self.height as u64 {
            y_limit
        } else {
            self.height as u64
        };
        Tile {
            x_start: x_start as u32,
            y_start: y_start as u32,
            x_end: x_end as u32,
            y_end: y_end as u32,
        }
    }
}

/// One post-processing operation on a pixel's averaged radiance.
#[derive(Clone, Copy, Debug, PartialEq, Eq, Structural)]
pub enum PostStep {
    /// Reinhard tone mapping, `c / (c + 1)` per channel.
    Reinhard,
    /// Gamma correction with exponent 1 / 2.2.
    Gamma,
    /// Multiplication by the configured white-balance color.
    WhiteBalance,
}

/// The bytes of "reinhard".
pub open spec fn reinhard_bytes() -> Seq<u8> {
    seq![114u8, 101u8, 105u8, 110u8, 104u8, 97u8, 114u8, 100u8]
}

/// The post-processing steps, in the order they apply: the tone mapping
/// if one is named and known (only "reinhard" is), then gamma correction if
/// enabled, then white balance if a balance color is set.
pub open spec fn post_steps(tone_mapping: Option<Seq<u8>>, gamma: bool, white_balance: bool) -> Seq<
    PostStep,
> {
    let tone = if tone_mapping == Some(reinhard_bytes()) {
        seq![PostStep::Reinhard]
    } else {
        Seq::empty()
    };
    let gam = if gamma {
        seq![PostStep::Gamma]
    } else {
        Seq::empty()
    };
    let bal = if white_balance {
        seq![PostStep::WhiteBalance]
    } else {
        Seq::empty()
    };
    tone + gam + bal
}

fn is_reinhard(name: &str) -> (r: bool)
    ensures
        r == (name.spec_bytes() == reinhard_bytes()),
{
    let b = name.as_bytes();
    let expected: [u8; 8] = [114u8, 101u8, 105u8, 110u8, 104u8, 97u8, 114u8, 100u8];
    if b.len() != 8 {
        return false;
    }
    let mut k: usize = 0;
    while k < 8
        invariant
            k <= 8,
            b@.len() == 8,
            b@ == name.spec_bytes(),
            expected@ == reinhard_bytes(),
            forall|j: int| 0 <= j < k ==> b@[j] == reinhard_bytes()[j],
        decreases 8 - k,
    {
        if b[k] != expected[k] {
            return false;
        }
        k = k + 1;
    }
    proof {
        assert(b@ =~= reinhard_bytes());
    }
    true
}

/// The post-processing steps for a tone mapping name, a gamma switch and
/// whether a white-balance color is set, in the order they apply.
pub fn post_process_steps(tone_mapping: Option<&str>, gamma_correction: bool, white_balance: bool) -> (r:
    Vec<PostStep>)
    ensures
        r@ == post_steps(
            match tone_mapping {
                Some(t) => Some(t.spec_bytes()),
                None => None,
            },
            gamma_correction,
            white_balance,
        ),
{
    let mut steps: Vec<PostStep> = Vec::new();
    let tone = match tone_mapping {
        Some(name) => is_reinhard(name),
        None => false,
    };
    if tone {
        steps.push(PostStep::Reinhard);
    }
    if gamma_correction {
        steps.push(PostStep::Gamma);
    }
    if white_balance {
        steps.push(PostStep::WhiteBalance);
    }
    proof {
        let ghost t = match tone_mapping {
            Some(t) => Some(t.spec_bytes()),
            None => None::<Seq<u8>>,
        };
        assert(steps@ =~= post_steps(t, gamma_correction, white_balance));
    }
    steps
}

} // verus!
