pub mod parser;
pub mod sequence_id;
