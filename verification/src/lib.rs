//! Verified core of a desktop front end for a device bridge tool and a
//! screen mirroring tool.
//!
//! The library holds everything that can be stated and proved: parsing the
//! bridge tool's device listing, building the mirroring tool's argument
//! vector from a configuration, deciding the outcome of a wireless connect
//! attempt, planning the screenshot subcommands, and tracking the single
//! mirroring session handle.  The surrounding process plumbing (spawning the
//! external tools, capturing their output) lives outside the library and
//! hands plain values in and out.

mod config;
mod connect;
mod devices;
mod screenshot;
mod session;
mod text;

pub use connect::contains_at;
pub use connect::contains_seq;
pub use connect::contains_text;
pub use connect::address_of;
pub use connect::connect_args;
pub use connect::disconnect_args;
pub use connect::connect_outcome;
pub use connect::connect_error_message;
pub use connect::disconnect_error_message;
pub use session::Session;
pub use session::start_step;
pub use session::stop_step;
pub use session::lemma_second_start_supersedes;
pub use session::start_success_message;
pub use session::start_error_message;
pub use session::stop_outcome;
pub use screenshot::remote_capture_path;
pub use screenshot::select_args;
pub use screenshot::screencap_args_spec;
pub use screenshot::pull_args_spec;
pub use screenshot::rm_args_spec;
pub use screenshot::screencap_args;
pub use screenshot::pull_args;
pub use screenshot::rm_args;
pub use screenshot::capture_error_message;
pub use screenshot::pull_error_message;
pub use devices::devices_args;
pub use devices::devices_error_message;

pub use config::ScrcpyConfig;
pub use config::ConfigModel;
pub use config::default_config;
pub use config::build_args;
pub use config::scrcpy_args;
pub use config::device_args;
pub use config::video_args;
pub use config::audio_args;
pub use config::toggle_args;
pub use config::toggle_arg;
pub use config::record_args;
pub use config::arg_views;
pub use config::bit;
pub use config::count_from;
pub use config::count_where;
pub use config::lemma_count_concat;
pub use config::lemma_args_count;
pub use config::lemma_dec_str_len;
pub use config::lemma_no_selector_without_device;
pub use config::lemma_selector_first;
pub use config::lemma_max_size_flag_once;
pub use config::lemma_max_fps_flag_once;
pub use config::lemma_bit_rate_flag_once;
pub use config::lemma_codec_flag_once;
pub use config::lemma_audio_flag;
pub use config::lemma_toggle_flags;
pub use config::lemma_record_flag;
pub use config::selector_len;
pub use config::lemma_args_layout;
pub use devices::tok_step;
pub use devices::tok_fold;
pub use devices::line_step;
pub use devices::line_fold;
pub use devices::strip_cr;
pub use devices::devices_from;
pub use devices::lemma_blank_line_no_entry;
pub use devices::lemma_non_device_line_excluded;
pub use devices::lemma_header_ignored;
pub use devices::lemma_wellformed_listing;
pub use devices::lemma_only_online_devices;
pub use devices::device_line_count;
pub use devices::lemma_record_count;

pub use devices::Device;
pub use devices::DeviceModel;
pub use devices::parse_devices;
pub use devices::parse_listing;
pub use devices::parse_line;
pub use devices::is_device_line;
pub use devices::tokens;
pub use devices::lines_of;
pub use devices::name_of;
pub use devices::model_name;
pub use devices::is_model_token;
pub use devices::find_model_from;
pub use text::is_ws;
pub use text::dec_str;
pub use text::dec_digit;
