//! Management of a local pacman repository fed from the AUR: dependency
//! resolution, validation of package archives, the repository lock, and the
//! decision logic that drives add, remove, addpkg and update against a shared
//! repository.
pub mod text;
pub mod package_file;
pub mod order;
pub mod error;
pub mod resolve;
pub mod lock;
pub mod plan;
pub mod session;
