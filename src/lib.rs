//! Article rendering for a read-later reader: an already-parsed markup tree
//! becomes a structured document of blocks and inline spans, and each image of
//! it loads through its own state machine. Beside it stand the reading list,
//! the login and add-bookmark dialogs as state machines, and the requests and
//! answers of the reading-list services.

pub mod add_bookmark;
pub mod article;
pub mod block;
pub mod document;
pub mod escape;
pub mod image;
pub mod inline;
pub mod instapaper;
pub mod locator;
pub mod login;
pub mod marker;
pub mod markup;
pub mod numeral;
pub mod pocket;
pub mod session;
pub mod text;
