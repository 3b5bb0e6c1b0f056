//! Readers for the binary formats of the Wakfu client's animations, textures, map
//! environments and binary data tables.
pub mod buffer;
pub mod bytes;
pub mod error;
pub mod archive;
pub mod parse;
pub mod utils;
pub mod anm_action;
pub mod float_bits;
pub mod anm_shape;
pub mod anm_frame_data;
pub mod sprite_def;
pub mod anm_frame;
pub mod anm_frame_processor;
pub mod anm;
pub mod sprite_definition;
pub mod anm_sprite_definition;
pub mod interactive_anim;
pub mod tga;
pub mod tgam;
pub mod imageops;
pub mod pixels;
pub mod png;
pub mod sprite;
pub mod groups;
pub mod layer_manager;
pub mod anm_instance;
pub mod random_byte_buffer_reader;
pub mod binary_document;
pub mod binary_data;
pub mod binar_serial_part;
pub mod interactive_element_data;
pub mod environment;
pub mod frames;
pub mod light;
