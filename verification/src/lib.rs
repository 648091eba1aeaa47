//! Real-time core of a small LED-matrix shooter: button debouncing, input
//! classification and hand-off, the game state machine, and the row-multiplexed
//! display driver with pulse-width dimming.

pub mod debounce;
pub mod display;
pub mod game;
pub mod input;
pub mod shot_buffer;
pub mod shots;

pub use debounce::BtnState;
pub use debounce::Debouncer;
pub use display::DisplayMux;
pub use display::DisplayStep;
pub use game::GameState;
pub use game::RunState;
pub use input::BtnIds;
pub use input::InputEvent;
