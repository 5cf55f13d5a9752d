//! Utah-Kernel / Utah-OS core logic: content-addressed storage, resonance messaging,
//! predictive scheduling, ghost suspend, display topology and the Glass-Forge UI.
pub mod hfs;
pub mod zero_point_net;
pub mod chrono_scheduler;
pub mod thermodynamic_virtualizer;
pub mod delta_wave_patch;
pub mod ghost_daemon;
pub mod kernel_config;
pub mod display;
pub mod ui;
pub mod utah_os;
pub mod system_calls;
