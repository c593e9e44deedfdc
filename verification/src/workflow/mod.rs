//! Complete card management operations.
//!
//! Each function drives a [`crate::transport::Transport`] and, where a secure
//! channel is open, a backend. The contracts say which commands are sent, in
//! which order, and what is made of each possible answer.
pub mod applet;
pub mod card_status;
pub mod discover;
pub mod inventory;
pub mod keys;
pub mod load;
pub mod open_scp;
pub mod probe;
pub mod session;
pub mod ssd;
pub mod transmit;

pub use applet::{delete_applet, install_applet, DeleteAppletArgs, InstallAppletArgs};
pub use card_status::{get_card_status, set_card_status, SetCardStatusArgs};
pub use discover::discover_card;
pub use inventory::get_card_inventory;
pub use keys::{delete_sd_keyset, put_sd_keys, NewKeyset, PutSdKeysArgs};
pub use load::{load_package, LoadPackageArgs};
pub use open_scp::{open_scp, OpenScpArgs, SdKeys};
pub use probe::probe;
pub use ssd::{create_ssd, delete_ssd, CreateSsdArgs};
pub use transmit::transmit;
