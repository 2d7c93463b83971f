pub mod building;
pub mod bytecode;
pub mod collect;
pub mod continuation;
pub mod conversation;
pub mod effects;
pub mod execute;
pub mod failing;
pub mod frame;
pub mod laws;
pub mod leaving;
pub mod model;
pub mod object;
pub mod request;
pub mod resume;
pub mod run;
pub mod statements;
pub mod text;
pub mod turns;
pub mod unwind;
