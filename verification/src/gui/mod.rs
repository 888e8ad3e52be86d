//! The models behind the desktop window: the export log, the queue, the
//! chat list, the sign-in dialog and the settings form.

pub mod journal;
pub mod queue;
pub mod login;
pub mod list;
pub mod settings_form;
pub mod shell;
pub mod window;
pub mod when;
pub mod work;
