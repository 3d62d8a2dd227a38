pub mod ivy;
pub mod json;
pub mod regex_transpiler;
pub mod shared;
pub mod state;
pub mod text;
pub mod transpiler;
pub mod widget;
pub mod widgets;
pub mod server;
