//! Desktop-state daemon library: the compositor's event protocol, the
//! application descriptors and their cache, icon lookup, and the tablet
//! preset bindings.
pub mod text;
pub mod keyed;
pub mod paths;
pub mod frames;
pub mod hyprland;
pub mod bus;
pub mod tablet;
pub mod desktop;
pub mod icons;
pub mod semver;
pub mod settings;
