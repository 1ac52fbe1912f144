//! Polls a student portal's rating page, compares it with the stored
//! baseline and composes change notifications.
pub mod text;
pub mod score;
pub mod markup;
pub mod records;
pub mod diff;
pub mod cycle;
pub mod portal;
