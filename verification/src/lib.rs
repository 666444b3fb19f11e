//! Clipboard history engine: a bounded, deduplicated, time-ordered record of
//! copied text, the rules by which a sampler feeds it, and the decisions of the
//! control surface around it.
//!
//! The library computes; storage, the clipboard and the user interface belong
//! to the program that drives it.

mod clock;
pub mod entry;
pub mod history;
pub mod history_laws;
pub mod launch;
pub mod lines;
pub mod paths;
pub mod sampler;
pub mod sampler_laws;
pub mod tray;

pub use entry::{ClipboardEntry, EntryView, Timestamp};
pub use history::{
    clear_history, get_history, load_history, persist, record, save_entry, Persisted,
    MAX_HISTORY_ENTRIES,
};
pub use launch::{
    create_auto_launch, flip_auto_launch, is_auto_launch_enabled, set_auto_launch, LaunchAction,
    LaunchSettings,
};
pub use lines::{check_single_line, frame_lines, split_lines};
pub use paths::{
    app_bundle_path, data_dir_under, get_data_dir, get_history_path, history_path_under,
    join_path,
};
pub use sampler::{Phase, Sampler, SamplerAction, SamplerEvent, POLL_INTERVAL_MILLIS};
pub use tray::{
    create_icon, create_tray_menu, menu_command, pixel_at, tray_click, MenuCommand, Rgba,
    TrayMenu, WindowAction, ICON_SIZE,
};
