pub mod input;
pub mod keys;
pub mod laws;
pub mod layer;
pub mod protocol;
pub mod run;
pub mod scene;
pub mod seqs;
pub mod shell;
pub mod state;
pub mod table;
pub mod text;
