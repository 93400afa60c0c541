pub mod fn_field;
pub mod impl_field;
