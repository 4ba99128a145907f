//! The structure of a small fixed-size linear-algebra library, verified
//! independently of the number type that fills it.
//!
//! Every function is generic over the component type; where components are
//! combined, the caller passes the operation on one component (`times`,
//! `plus`, `minus`, `negate`, or a determinant of the next smaller size) and
//! the contracts say which components meet, in what order and with what
//! sign.
//!
//! - `layout`: the row-major correspondence between a flat component list and
//!   the rows of a 2×2, 3×3 or 4×4 matrix, both ways.
//! - `componentwise`: one operation on every component or every entry.
//! - `products`: dot, cross, matrix-matrix and matrix-vector products, and
//!   integer powers; the identity law of the matrix product.
//! - `cofactor`: minors, cofactor signs, transposes, determinants (closed
//!   form, diagonal rule, Laplace expansion) and adjugates.
//! - `quaternion`: the Hamilton product, the conjugate, rotation by the
//!   sandwich `q · p · conj(q)` and rotation about a pivot.
//! - `camera`: the camera's orientation rows and the order of its uniform.
//! - `mesh`: moving every vertex of a triangle mesh.
//! - `controls`: which camera command a key event stands for.
pub mod camera;
pub mod cofactor;
pub mod componentwise;
pub mod controls;
pub mod layout;
pub mod mesh;
pub mod products;
pub mod quaternion;
