//! Rendering of template files by placeholder substitution.
//!
//! A structured value (a JSON document) is flattened into an ordered list of
//! named fields; each field's `%NAME%` placeholder is then replaced, field by
//! field, in the text of every template of a collection.  The library holds
//! the pure logic: flattening, substitution, destination resolution and
//! manifest interpretation.  Reading and writing files is left to callers.

pub mod evaluator;
pub mod fields;
pub mod json;
pub mod subst;
pub mod template;
pub mod templates;

pub use evaluator::Evaluator;
pub use fields::Field;
pub use fields::Fields;
pub use fields::fields_from_str;
pub use subst::replace_all_str;
