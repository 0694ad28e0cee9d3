pub mod error;
pub mod object;
pub mod textops;
pub mod width;
pub mod canvas;
pub mod renderer;
pub mod dsl;
pub mod cli;
pub mod pipeline;
