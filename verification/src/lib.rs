//! View-state core of a desktop application: which page is shown, which one
//! was shown before it, how a page's container slides in or out, and how the
//! list of collections on screen follows the list that storage owns.

pub mod collection;
pub mod decimal;
pub mod layout;
pub mod navigation;
pub mod page;
pub mod sync;
pub mod transition;
