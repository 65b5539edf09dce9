pub mod cat;
pub mod copy_dir;
pub mod cp;
pub mod echo;
pub mod exit;
pub mod listing;
pub mod ls;
pub mod mkdir;
pub mod mv;
pub mod pwd;
pub mod rm;
pub mod touch;
pub mod transfer;
