pub mod arm7;
pub mod aux;
pub mod memory;
pub mod text;
