pub mod csv_parser;
pub mod text;
pub mod url_parts;

pub use self::csv_parser::CsvParser;
