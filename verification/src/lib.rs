//! The model behind an infinite canvas of images and text: the undo history
//! of its objects, the selection and how drags act on it, the editing
//! tools, the keyboard shortcuts, bookmarks of views, notifications, the
//! inspector panel, lexical path normalization, which files it shows and at
//! what level of detail, decoding images, GIF frames and thumbnails from
//! bytes read, how moved files are found again, and how images are packed
//! side by side.
//!
//! Objects are keyed by their 128-bit id. Geometry (positions, sizes,
//! transforms) belongs to the drawing layer and reaches this library only
//! as the decisions it feeds: which objects a click hit, which handle was
//! pressed, which rectangles lie inside a box.
pub mod bookmarks;
pub mod content;
pub mod decode;
pub mod images;
pub mod input;
pub mod inspect;
pub mod notifs;
pub mod operators;
pub mod paths;
pub mod select;
pub mod stack;
pub mod text;
pub mod tools;

pub use bookmarks::{apply_bookmark_action, new_bookmark_label_string, Bookmark, BookmarkAction};
pub use content::{calculate_hash, relative_to_root, FileInfo, MissingFiles};
pub use decode::{decode_gif, decode_image, delay_nanos, image_size, image_thumbnail};
pub use images::{
    gif_frame_index, is_image, is_image_ext, is_video, is_video_ext, load_plan,
    supported_extension, thumbnail_path, LoadPlan, LoadingState, Lod, TextureCache,
    MAX_DURATION_NANOS,
};
pub use input::{handle_input, InputOutcome, Keys};
pub use inspect::{Inspector, Tab};
pub use notifs::{Notification, Notifications, LIFETIME_NANOS};
pub use operators::{grown_side, pack_rects, try_pack, MAX_SIDE, PADDING};
pub use paths::{normalize_lexically, PathPart};
pub use select::{DragMode, DragState, Selection, SelectionState};
pub use stack::{History, Stack};
pub use text::{is_whitespace, push_decimal, text_contains, trims_to_empty};
pub use tools::{
    box_select_step, finish_box_select, typing_click, typing_commit, typing_escape, Tool,
    TypingCommit, TypingState,
};
