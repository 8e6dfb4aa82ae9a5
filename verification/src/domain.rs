pub mod base64_image_url;
pub mod content;
pub mod description;
pub mod display_name;
pub mod image_url;
pub mod title;
pub mod username;
