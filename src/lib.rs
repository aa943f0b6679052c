//! Plain-text forms for editing the records of a footage archive: typed
//! fields, forms made of them, and the codecs that turn each kind of record
//! into a form and a completed form back into a record.
//!
//! A form's text is a sequence of sections separated by `---` lines; each
//! section starts with its field's label, `Name:`. Reading a completed form
//! checks the number of sections, reads each section as its field's kind,
//! and then rebuilds the record, looking up the networks, affiliates,
//! broadcasts, master videos and people that it names in lists the caller
//! supplies.
pub mod text;
pub mod errors;
pub mod fields;
pub mod forms;
pub mod dates;
pub mod timestamps;
pub mod models;
pub mod people;
pub mod news;
pub mod masters;
pub mod videos;
pub mod nist;
pub mod helpers;
pub mod laws;
pub mod round_trip;
