//! Templates that generate the code of each kind of concept.
pub mod util;
pub mod wrapper;
pub mod tao;
pub mod form;
pub mod archetype;
pub mod attribute;
pub mod data;
pub mod flag;
pub mod attribute_property;
pub mod auto_init_kb;
pub mod archetype_module;
