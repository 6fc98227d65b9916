pub mod aggregate;
pub mod analyze;
pub mod doc;
pub mod fix;
pub mod laws;
pub mod mutate;
pub mod optimize;
pub mod rules;
pub mod score;
pub mod util;
pub mod validate;
