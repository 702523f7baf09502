//! A shared board of submitted links: one account holds the running count, the
//! submissions in the order they came, and the seed byte of its own address.

pub mod address;
pub mod error;
pub mod handlers;
pub mod laws;
pub mod state;

pub use address::Address;
pub use error::MoonError;
pub use handlers::{add_gif, add_gif_as, initialize, upvote_gif, GifApi, Initialize};
pub use state::{Account, BaseAccount, ItemStruct};
