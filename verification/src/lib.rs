pub mod seqs;
pub mod text;
pub mod content;
pub mod status;
pub mod index;
pub mod timeline;
pub mod relative_time;
pub mod workspace;
pub mod settings;
pub mod selection;
pub mod xml;
pub mod lint;
pub mod task_list;
pub mod dock;
pub mod update_check;
pub mod session_view;
pub mod subscription;
