pub mod ciphersuites;
pub mod credentials;
pub mod encode_util;
pub mod extensions;
pub mod key_package;
pub mod key_schedule;
pub mod proposal;
pub mod traits;
pub mod tree;
pub mod util;

pub mod prelude;
