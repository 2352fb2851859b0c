pub mod return_char;
pub mod rust_symbol;
