//! Classical numerical methods: the index, shape and decision logic of dense
//! linear solvers, eigenvalue iterations and scalar root finders.

pub mod layout;
pub mod shape;
pub mod magnitude;
pub mod iteration;
pub mod roots;
