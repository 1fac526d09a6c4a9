pub mod architecture;
pub mod composition;
pub mod functions;
pub mod models;
pub mod secrets;
pub mod validation;
pub mod errors;
