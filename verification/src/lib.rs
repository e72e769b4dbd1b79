pub mod text;
pub mod dict;
pub mod value;
pub mod dates;
pub mod request;
pub mod frame;
pub mod quote;
pub mod history;
pub mod info;
pub mod search;
