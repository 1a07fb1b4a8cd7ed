//! From one frame to the batch that updates all lights.

use vstd::prelude::*;
use crate::color::Color;
use crate::config::RunConfig;
use crate::frame::Frame;
use crate::grid::{
    light_for_cell, mirrored, raster_col, raster_row, GridPosition, GRID_CELLS, GRID_SIDE,
};
use crate::reduce::{grid_averages, reduce_frame, uniform_frame_reduces_to_its_color};
use crate::shape::{shape_color, shaped};

verus! {

/// The color that one light is to take.
#[derive(Clone, Copy, Debug, PartialEq, Eq, Structural)]
pub struct CellUpdate {
    pub position: GridPosition,
    pub color: Color,
}

/// The update for the cell with raster index `index` when that cell averages
/// to `average`.
pub open spec fn update_for(index: int, average: Color, config: RunConfig) -> CellUpdate {
    CellUpdate {
        position: light_for_cell(raster_col(index), raster_row(index)),
        color: shaped(average, config.brightness, config.intensity),
    }
}

/// The batch for 64 averaged colors in raster order.
pub open spec fn updates_for(averages: Seq<Color>, config: RunConfig) -> Seq<CellUpdate> {
    Seq::new(GRID_CELLS as nat, |i: int| update_for(i, averages[i], config))
}

/// The batch that a frame gives rise to.
pub open spec fn frame_updates(frame: Frame, config: RunConfig) -> Seq<CellUpdate> {
    updates_for(grid_averages(frame, config.sample_step as int), config)
}

/// Shapes 64 averaged colors, given in raster order, and addresses each to
/// its light.
pub fn shape_cells(averages: &Vec<Color>, config: &RunConfig) -> (batch: Vec<CellUpdate>)
    requires
        averages@.len() == GRID_CELLS,
        config.wf(),
    ensures
        batch@ == updates_for(averages@, *config),
        batch@.len() == GRID_CELLS,
{
    let mut batch: Vec<CellUpdate> = Vec::with_capacity(64);
    let mut i: usize = 0;
    while i < 64
        invariant
            averages@.len() == GRID_CELLS,
            config.wf(),
            i <= 64,
            batch@.len() == i,
            forall|k: int| 0 <= k < i ==> batch@[k] == update_for(k, averages@[k], *config),
        decreases 64 - i,
    {
        let position = GridPosition::for_cell(i % 8, i / 8);
        let color = shape_color(averages[i], config.brightness, config.intensity);
        batch.push(CellUpdate { position, color });
        i = i + 1;
    }
    assert(batch@ =~= updates_for(averages@, *config));
    batch
}

/// Reduces a frame and shapes the result: the whole batch for one update of
/// the lights.
pub fn render_frame(frame: &Frame, config: &RunConfig) -> (batch: Vec<CellUpdate>)
    requires
        frame.wf(),
        config.wf(),
    ensures
        batch@ == frame_updates(*frame, *config),
        batch@.len() == GRID_CELLS,
{
    let averages = reduce_frame(frame, config.sample_step);
    shape_cells(&averages, config)
}

/// A batch holds one update for every light of the grid and no two for the
/// same light; the update for a light stands where the cell that it mirrors
/// stands in raster order.
pub proof fn batch_addresses_each_light_once(averages: Seq<Color>, config: RunConfig)
    ensures
        updates_for(averages, config).len() == GRID_CELLS,
        forall|i: int|
            0 <= i < GRID_CELLS ==> (#[trigger] updates_for(averages, config)[i]).position.wf(),
        forall|i: int, j: int|
            0 <= i < GRID_CELLS && 0 <= j < GRID_CELLS && i != j ==> (#[trigger] updates_for(
                averages,
                config,
            )[i]).position != (#[trigger] updates_for(averages, config)[j]).position,
        forall|col: int, row: int|
            0 <= col < GRID_SIDE && 0 <= row < GRID_SIDE ==> updates_for(averages, config)[8
                * mirrored(row) + mirrored(col)].position == (GridPosition {
                col: col as u8,
                row: row as u8,
            }),
{
}

/// A frame that shows one color everywhere sets every light to the shaped
/// form of that color.
pub proof fn uniform_frame_lights_uniformly(frame: Frame, c: Color, config: RunConfig)
    requires
        frame.wf(),
        config.wf(),
        forall|x: int, y: int|
            0 <= x < frame.width && 0 <= y < frame.height ==> frame.pixel_at(x, y) == c,
    ensures
        forall|i: int|
            0 <= i < GRID_CELLS ==> (#[trigger] frame_updates(frame, config)[i]).color == shaped(
                c,
                config.brightness,
                config.intensity,
            ),
{
    uniform_frame_reduces_to_its_color(frame, c, config.sample_step as int);
}

} // verus!
