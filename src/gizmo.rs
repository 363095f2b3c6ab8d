//! Markers ("gizmos"), their interaction bindings, and lines.
use crate::color::Color;
use crate::geometry::{Rotation, Scale3, Vec3i, FIXED_ONE};
use vstd::prelude::*;

verus! {

/// A mesh that the host registered for the caller.
#[derive(Clone, Copy, Debug, PartialEq, Eq, Structural)]
pub struct MeshId(pub u64);

/// The shape a marker is drawn with.
#[derive(Clone, Copy, Debug, PartialEq, Eq, Structural)]
pub enum Shape {
    Sphere,
    Cube,
    Box,
    Capsule,
    Torus,
    Custom(MeshId),
}

/// Names a callback in the host's callback table.
#[derive(Clone, Copy, Debug, PartialEq, Eq, Structural)]
pub struct HandlerId(pub u64);

/// The callbacks a marker runs when hovered or clicked. The isolated ones run
/// inline without access to shared state; the `system` ones run later with
/// exclusive access to all of it.
#[derive(Clone, Copy, Debug, PartialEq, Eq, Structural)]
pub struct GizmoInteractions {
    pub on_hover: Option<HandlerId>,
    pub on_click: Option<HandlerId>,
    pub on_hover_system: Option<HandlerId>,
    pub on_click_system: Option<HandlerId>,
}

impl GizmoInteractions {
    pub open spec fn is_empty(self) -> bool {
        self.on_hover is None && self.on_click is None && self.on_hover_system is None
            && self.on_click_system is None
    }

    pub fn none() -> (r: GizmoInteractions)
        ensures
            r.is_empty(),
    {
        GizmoInteractions { on_hover: None, on_click: None, on_hover_system: None, on_click_system: None }
    }

    pub fn has_any(&self) -> (r: bool)
        ensures
            r == !self.is_empty(),
    {
        self.on_hover.is_some() || self.on_click.is_some() || self.on_hover_system.is_some()
            || self.on_click_system.is_some()
    }
}

/// A point-like marker.
#[derive(Clone, Copy, Debug, PartialEq, Eq, Structural)]
pub struct Gizmo {
    pub translation: Vec3i,
    pub rotation: Rotation,
    pub scale: Scale3,
    pub color: Color,
    pub shape: Shape,
    pub interactions: GizmoInteractions,
}

impl Gizmo {
    /// A sphere of uniform scale `size` at `translation`, with the identity
    /// orientation and no interactions.
    pub fn new(translation: Vec3i, size: u32, color: Color) -> (g: Gizmo)
        ensures
            g.translation == translation,
            g.rotation == Rotation::identity_spec(),
            g.scale == (Scale3 { x: size, y: size, z: size }),
            g.color == color,
            g.shape == Shape::Sphere,
            g.interactions.is_empty(),
    {
        Gizmo {
            translation,
            rotation: Rotation::identity(),
            scale: Scale3::splat(size),
            color,
            shape: Shape::Sphere,
            interactions: GizmoInteractions::none(),
        }
    }

    /// A red sphere of unit size at `translation`.
    pub fn at(translation: Vec3i) -> (g: Gizmo)
        ensures
            g == Gizmo::new_spec(translation, FIXED_ONE as u32, Color { r: 255, g: 0, b: 0, a: 255 }),
    {
        Gizmo::new(translation, FIXED_ONE as u32, Color::red())
    }

    /// A sphere of diameter `diameter` at `position`.
    pub fn sphere(position: Vec3i, diameter: u32, color: Color) -> (g: Gizmo)
        ensures
            g == Gizmo::new_spec(position, diameter, color),
    {
        Gizmo::new(position, diameter, color)
    }

    /// A box with per-axis size `scale` at `position`.
    pub fn cuboid(position: Vec3i, scale: Scale3, color: Color) -> (g: Gizmo)
        ensures
            g == (Gizmo { scale, shape: Shape::Box, ..Gizmo::new_spec(position, 0, color) }),
    {
        Gizmo { scale, shape: Shape::Box, ..Gizmo::new(position, 0, color) }
    }

    /// A cube of edge `size` at `position`.
    pub fn cube(position: Vec3i, size: u32, color: Color) -> (g: Gizmo)
        ensures
            g == (Gizmo { shape: Shape::Cube, ..Gizmo::new_spec(position, size, color) }),
    {
        Gizmo { shape: Shape::Cube, ..Gizmo::new(position, size, color) }
    }

    /// The host-registered mesh `mesh`, scaled by `scale`, at `position`.
    pub fn mesh(position: Vec3i, scale: Scale3, mesh: MeshId, color: Color) -> (g: Gizmo)
        ensures
            g == (Gizmo {
                scale,
                shape: Shape::Custom(mesh),
                ..Gizmo::new_spec(position, 0, color)
            }),
    {
        Gizmo { scale, shape: Shape::Custom(mesh), ..Gizmo::new(position, 0, color) }
    }

    pub open spec fn new_spec(translation: Vec3i, size: u32, color: Color) -> Gizmo {
        Gizmo {
            translation,
            rotation: Rotation::identity_spec(),
            scale: Scale3 { x: size, y: size, z: size },
            color,
            shape: Shape::Sphere,
            interactions: GizmoInteractions {
                on_hover: None,
                on_click: None,
                on_hover_system: None,
                on_click_system: None,
            },
        }
    }

    pub fn with_position(self, translation: Vec3i) -> (g: Gizmo)
        ensures
            g == (Gizmo { translation, ..self }),
    {
        Gizmo { translation, ..self }
    }

    pub fn with_scale(self, scale: Scale3) -> (g: Gizmo)
        ensures
            g == (Gizmo { scale, ..self }),
    {
        Gizmo { scale, ..self }
    }

    pub fn with_rotation(self, rotation: Rotation) -> (g: Gizmo)
        ensures
            g == (Gizmo { rotation, ..self }),
    {
        Gizmo { rotation, ..self }
    }

    pub fn with_color(self, color: Color) -> (g: Gizmo)
        ensures
            g == (Gizmo { color, ..self }),
    {
        Gizmo { color, ..self }
    }

    pub fn with_shape(self, shape: Shape) -> (g: Gizmo)
        ensures
            g == (Gizmo { shape, ..self }),
    {
        Gizmo { shape, ..self }
    }

    /// Runs `handler` inline while the marker is hovered.
    pub fn on_hover(self, handler: HandlerId) -> (g: Gizmo)
        ensures
            g == (Gizmo {
                interactions: GizmoInteractions { on_hover: Some(handler), ..self.interactions },
                ..self
            }),
    {
        Gizmo {
            interactions: GizmoInteractions { on_hover: Some(handler), ..self.interactions },
            ..self
        }
    }

    /// Runs `handler` inline when the marker is clicked.
    pub fn on_click(self, handler: HandlerId) -> (g: Gizmo)
        ensures
            g == (Gizmo {
                interactions: GizmoInteractions { on_click: Some(handler), ..self.interactions },
                ..self
            }),
    {
        Gizmo {
            interactions: GizmoInteractions { on_click: Some(handler), ..self.interactions },
            ..self
        }
    }

    /// Runs `handler` with exclusive access to all shared state while the
    /// marker is hovered.
    pub fn on_hover_system(self, handler: HandlerId) -> (g: Gizmo)
        ensures
            g == (Gizmo {
                interactions: GizmoInteractions { on_hover_system: Some(handler), ..self.interactions },
                ..self
            }),
    {
        Gizmo {
            interactions: GizmoInteractions { on_hover_system: Some(handler), ..self.interactions },
            ..self
        }
    }

    /// Runs `handler` with exclusive access to all shared state when the
    /// marker is clicked.
    pub fn on_click_system(self, handler: HandlerId) -> (g: Gizmo)
        ensures
            g == (Gizmo {
                interactions: GizmoInteractions { on_click_system: Some(handler), ..self.interactions },
                ..self
            }),
    {
        Gizmo {
            interactions: GizmoInteractions { on_click_system: Some(handler), ..self.interactions },
            ..self
        }
    }
}

/// An open polyline through `points`, drawn in `color`.
#[derive(Debug)]
pub struct Line {
    pub points: Vec<Vec3i>,
    pub color: Color,
}

/// What a line is: its points and its color.
pub struct LineView {
    pub points: Seq<Vec3i>,
    pub color: Color,
}

impl View for Line {
    type V = LineView;

    open spec fn view(&self) -> LineView {
        LineView { points: self.points@, color: self.color }
    }
}

impl Line {
    pub fn new(points: Vec<Vec3i>, color: Color) -> (l: Line)
        ensures
            l@ == (LineView { points: points@, color }),
    {
        Line { points, color }
    }
}

} // verus!
