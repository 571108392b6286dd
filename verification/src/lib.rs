pub mod board;
pub mod moves;
pub mod piece;
pub mod position_key;
pub mod undo;
pub mod laws;
pub mod movegen;
pub mod perft;
pub mod text;
pub mod fen;
pub mod translate_move_uci;
pub mod engine;
pub mod requests;
pub mod move_facts;
pub mod generation_laws;
pub mod attack_laws;
pub mod perft_laws;
pub mod rule_laws;
