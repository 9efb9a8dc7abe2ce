pub mod errors;
pub mod money;
pub mod order;
pub mod pagination;
pub mod summary;
pub mod text;
pub mod window;
