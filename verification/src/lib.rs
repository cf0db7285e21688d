//! The OpenJDK side of the MMTk memory manager: what has to be decided between the collector and
//! the virtual machine.

pub mod address;
pub mod api;
pub mod budget;
pub mod klass;
pub mod nmethods;
pub mod object_scanning;
pub mod option_laws;
pub mod option_text;
pub mod options;
pub mod reports;
pub mod scanning_laws;
pub mod slots;
pub mod stale_write;
pub mod text;
pub mod text_laws;
pub mod visit_laws;
