pub mod answer_laws;
pub mod answers;
pub mod handlers;
pub mod protocol;
pub mod tools;
