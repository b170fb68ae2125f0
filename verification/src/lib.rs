pub mod app;
pub mod entities;
pub mod external_calls;
pub mod parser;
pub mod text;
pub mod ui;
