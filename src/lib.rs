//! An immediate-mode overlay of markers and lines: callers submit them every
//! tick, the overlay reconciles them with a retained scene, deduplicates
//! materials, and resolves pointer hover and click against the markers.
pub mod arena;
pub mod color;
pub mod geometry;
pub mod gizmo;
pub mod interactions;
pub mod materials;
pub mod mesh;
pub mod overlay;
pub mod queue;

pub use arena::{ObjectArena, ObjectHandle};
pub use color::Color;
pub use geometry::{ray_hits, Dir3, Ray, Rotation, Scale3, Vec3i, FIXED_ONE, ROTATION_ONE};
pub use gizmo::{Gizmo, GizmoInteractions, HandlerId, Line, MeshId, Shape};
pub use interactions::{push_callbacks, Callback, PointerButton, REGISTRATION_MAX_AGE};
pub use materials::{MaterialCache, MaterialId};
pub use mesh::{build_line_mesh, LineMesh};
pub use overlay::{Overlay, Registration, RetainedObject, SpawnReport, Visual};
pub use queue::SubmissionQueue;
