//! The verified core of the asset explorer: the naming rules of exported artifacts, the rows a
//! visual asset is listed and exported as, the browse index, and the parsers of the game formats
//! the explorer reads on its own.

pub mod text;
pub mod order;
pub mod strmap;
pub mod page_files;
pub mod cache;
pub mod app;
pub mod model;
pub mod source;
pub mod texture;
pub mod material;
pub mod virtual_textures;
pub mod visual;
pub mod preview;
pub mod naming;
pub mod sort;
pub mod session;
pub mod building;
pub mod browse;
pub mod lsf;
pub mod lsx;
pub mod number;
pub mod mods;
pub mod banks;
pub mod paths;
pub mod merge;
pub mod export;
pub mod page_sizes;
pub mod archives;
pub mod staging;
pub mod vt_params;
