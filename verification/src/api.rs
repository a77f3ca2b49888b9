//! What the routes answer.

pub mod login;
pub mod register;

pub use self::login::login;
pub use self::register::register;
