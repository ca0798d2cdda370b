//! What holds of the library as a whole: properties that tie several of its functions together.

pub mod answers;
pub mod calls;
pub mod description;
pub mod lookup;
pub mod quoting;
pub mod redaction;
pub mod schema;
pub mod settings;
pub mod table;
pub mod wording;
