//! Gentoo cross-compilation stage tooling: the parsers, naming rules and
//! bookkeeping behind building toolchains, stage3 trees and board images.
pub mod text;
pub mod arch;
pub mod conf;
pub mod error;
pub mod provider;
pub mod board;
pub mod bootloader;
pub mod hash;
pub mod cflags;
pub mod sandbox;
pub mod registry;
pub mod config;
pub mod num;
pub mod stage3;
pub mod image;
pub mod assemble;
pub mod build_step;
pub mod abi;
pub mod container;
pub mod commands;
pub mod store;
pub mod image_cmd;
pub mod update;
pub mod maint;
pub mod status;
pub mod package_list;
pub mod package_check;
pub mod binpkg_meta;
pub mod isa;
pub mod chroot;
pub mod manifest;
pub mod cache;
pub mod crossdev;
pub mod stage;
pub mod toolchain;
pub mod packages;
pub mod builder;
pub mod repositories;
pub mod bubblewrap;
pub mod ldconfig;
