pub mod groups;
pub mod images;
pub mod jobs;
pub mod maintenance;
pub mod scan;
pub mod settings;
