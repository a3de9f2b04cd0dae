//! Region selection for a screen-capture overlay: the interaction state
//! machine, the software painter of the overlay's frames, and the condensing
//! of dictionary results for text read from a capture.
pub mod selection;
pub mod router;
pub mod laws;
pub mod render;
pub mod dictionary;
pub mod extract;
pub mod adapter;
pub mod mediator;
pub mod json;
pub mod yomitan;
pub mod condense;
