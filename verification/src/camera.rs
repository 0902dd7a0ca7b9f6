//! The cells from which samples are drawn: the sub-pixels of a pixel, and
//! the cells of a light's disc.

use vstd::prelude::*;
use crate::material::Vector;
use vstd::arithmetic::div_mod::lemma_fundamental_div_mod_converse;

verus! {

/// One cell of a square grid.
#[derive(Clone, Copy, Debug, PartialEq, Eq, Structural)]
pub struct Cell {
    pub x: u32,
    pub y: u32,
}

/// The `k`-th cell of a grid of `n` by `n` cells: the cells are counted
/// along `y` first, then along `x`.
pub open spec fn cell_at(n: u32, k: int) -> Cell {
    Cell { x: (k / (n as int)) as u32, y: (k % (n as int)) as u32 }
}

/// The cell in column `x` and row `y` of the grid is the cell number
/// `x * n + y`, and these numbers are the numbers below `n * n`.
pub proof fn cell_numbers(n: u32, x: u32, y: u32)
    requires
        x < n,
        y < n,
    ensures
        0 <= x * n + y < n * n,
        cell_at(n, x * n + y) == (Cell { x, y }),
{
    lemma_fundamental_div_mod_converse(x * n + y, n as int, x as int, y as int);
    assert(0 <= x * n + y < n * n) by (nonlinear_arith)
        requires
            0 <= x < n,
            0 <= y < n,
    ;
}

/// Lists the cells of a grid of `n` by `n` cells, one sample being drawn
/// from each.
pub fn grid_cells(n: u32) -> (cells: Vec<Cell>)
    requires
        n * n <= usize::MAX,
    ensures
        cells@.len() == n * n,
        forall|k: int| 0 <= k < cells@.len() ==> cells@[k] == cell_at(n, k),
{
    let mut cells: Vec<Cell> = Vec::new();
    let mut x: u32 = 0;
    while x < n
        invariant
            x <= n,
            n * n <= usize::MAX,
            cells@.len() == x * n,
            forall|k: int| 0 <= k < cells@.len() ==> cells@[k] == cell_at(n, k),
        decreases n - x,
    {
        let mut y: u32 = 0;
        while y < n
            invariant
                x < n,
                y <= n,
                n * n <= usize::MAX,
                cells@.len() == x * n + y,
                forall|k: int| 0 <= k < cells@.len() ==> cells@[k] == cell_at(n, k),
            decreases n - y,
        {
            proof {
                cell_numbers(n, x, y);
            }
            cells.push(Cell { x, y });
            y += 1;
        }
        assert((x + 1) * n == x * n + n) by (nonlinear_arith);
        x += 1;
    }
    cells
}

/// A camera, as it is described: where it stands, what it looks at, which
/// way is up, how far before it the screen stands and how wide the screen
/// is; the size of the image in pixels; and the number of samples per pixel
/// and axis.
#[derive(Clone, Copy, Debug, PartialEq, Eq, Structural)]
pub struct Camera {
    pub position: Vector,
    pub look_at: Vector,
    pub up: Vector,
    pub screen_distance: u64,
    pub screen_width: u64,
    pub image_height: u32,
    pub image_width: u32,
    pub super_sampling_n: u32,
}

/// The cell of the screen through which one sample ray of a pixel goes.
#[derive(Clone, Copy, Debug, PartialEq, Eq, Structural)]
pub struct SubPixel {
    /// The cell's column, the screen being divided into `super_sampling_n`
    /// columns per pixel.
    pub column: u64,
    /// The cell's row, counted likewise.
    pub row: u64,
    /// Whether the ray goes through a point drawn at random from the cell.
    /// Where it does not, it goes through the cell's centre.
    pub jittered: bool,
}

impl Camera {
    pub fn new(
        position: Vector,
        look_at: Vector,
        up: Vector,
        screen_distance: u64,
        screen_width: u64,
        image_height: u32,
        image_width: u32,
        super_sampling_n: u32,
    ) -> (camera: Camera)
        ensures
            camera == (Camera {
                position,
                look_at,
                up,
                screen_distance,
                screen_width,
                image_height,
                image_width,
                super_sampling_n,
            }),
    {
        Camera {
            position,
            look_at,
            up,
            screen_distance,
            screen_width,
            image_height,
            image_width,
            super_sampling_n,
        }
    }

    /// The cell of the `k`-th sample of the pixel `(x, y)`. With one sample
    /// per pixel the ray goes through the pixel's centre, so that the image
    /// does not depend on chance.
    pub open spec fn sub_pixel(&self, x: u32, y: u32, k: int) -> SubPixel {
        let cell = cell_at(self.super_sampling_n, k);
        SubPixel {
            column: (self.super_sampling_n * x + cell.x) as u64,
            row: (self.super_sampling_n * y + cell.y) as u64,
            jittered: self.super_sampling_n != 1,
        }
    }

    /// Lists the cells through which the sample rays of the pixel `(x, y)`
    /// go: one for each cell of the grid that divides the pixel.
    pub fn construct_rays_through_pixel(&self, x: u32, y: u32) -> (samples: Vec<SubPixel>)
        requires
            self.super_sampling_n * self.super_sampling_n <= usize::MAX,
        ensures
            samples@.len() == self.super_sampling_n * self.super_sampling_n,
            forall|k: int| 0 <= k < samples@.len() ==> samples@[k] == self.sub_pixel(x, y, k),
    {
        let n: u32 = self.super_sampling_n;
        let cells = grid_cells(n);
        let total: usize = cells.len();
        let jittered: bool = n != 1;
        let mut samples: Vec<SubPixel> = Vec::new();
        let mut k: usize = 0;
        while k < total
            invariant
                k <= total,
                total == cells@.len(),
                n == self.super_sampling_n,
                jittered == (n != 1),
                forall|j: int| 0 <= j < cells@.len() ==> cells@[j] == cell_at(n, j),
                samples@.len() == k,
                forall|j: int| 0 <= j < k ==> samples@[j] == self.sub_pixel(x, y, j),
            decreases total - k,
        {
            let cell: Cell = cells[k];
            assert((n as u64) * (x as u64) + (cell.x as u64) <= u64::MAX) by (nonlinear_arith)
                requires
                    n <= 0xFFFF_FFFF,
                    x <= 0xFFFF_FFFF,
                    cell.x <= 0xFFFF_FFFF,
            ;
            assert((n as u64) * (y as u64) + (cell.y as u64) <= u64::MAX) by (nonlinear_arith)
                requires
                    n <= 0xFFFF_FFFF,
                    y <= 0xFFFF_FFFF,
                    cell.y <= 0xFFFF_FFFF,
            ;
            let column: u64 = (n as u64) * (x as u64) + (cell.x as u64);
            let row: u64 = (n as u64) * (y as u64) + (cell.y as u64);
            samples.push(SubPixel { column, row, jittered });
            k += 1;
        }
        samples
    }
}

/// With one sample per pixel nothing is left to chance: the one sample
/// of a pixel goes through the centre of the pixel's own cell.
pub proof fn one_sample_goes_through_the_centre(camera: Camera, x: u32, y: u32)
    requires
        camera.super_sampling_n == 1,
    ensures
        camera.super_sampling_n * camera.super_sampling_n == 1,
        camera.sub_pixel(x, y, 0) == (SubPixel { column: x as u64, row: y as u64, jittered: false }),
{
}

} // verus!
