//! Classification, normalisation and lookup keys of Chinese telephone
//! numbers, and the number kinds and mobile carriers with their text forms.
pub mod category;
pub mod phone;
pub mod text;
