pub mod ball;
pub mod text;
pub mod numeral;
pub mod square;
pub mod programmer;
pub mod sequencer;
pub mod timing;
pub mod program_editor;
pub mod square_menu;
pub mod library_gui;
pub mod frame;
pub mod renderer;
pub mod editor_view;
pub mod sample_manager;
pub mod audio_engine;
pub mod context_menu;
pub mod name_map;
pub mod library;
pub mod console;
