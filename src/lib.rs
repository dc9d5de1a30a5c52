//! Scene bookkeeping for a real-time gallery renderer: draw ordering,
//! hot-reloadable shader handles, pipeline lifecycle, frame-slot
//! synchronisation, and the mesh formats it loads.
pub mod order;
pub mod shader;
pub mod pipeline;
pub mod scene;
pub mod frame;
pub mod obj;
pub mod env;
pub mod camera;
pub mod vertex;
pub mod art;
pub mod texture;
