//! Game objects: generational handles, the common object header and the
//! spatial cell grid.

pub mod cell_grid;
pub mod handle;
pub mod types;

pub use cell_grid::{CellGrid, CELL_GRID_SIZE};
pub use handle::ObjectHandle;
pub use types::ObjectHeader;
