//! Where a board's root filesystem comes from, and how a debootstrap
//! provider finishes it.
use vstd::prelude::*;
use crate::text::text_eq;

verus! {

/// The `ROOTFS_PROVIDER` of a board; absent means Gentoo.
#[derive(Debug, Clone, Copy, PartialEq, Eq, Structural)]
pub enum RootfsProvider {
    Gentoo,
    Debian,
    Ubuntu,
    Alpine,
    Fedora,
    Buildroot,
    OpenWrt,
    /// `none`: the board brings no root filesystem of its own.
    Empty,
}

/// The keys a debootstrap provider reads its suite and mirror from.
#[derive(Debug, Clone, Copy)]
pub struct Debootstrap {
    pub suite_key: &'static str,
    pub mirror_key: &'static str,
}

pub open spec fn spec_provider(v: Seq<char>) -> Option<RootfsProvider> {
    if v == "gentoo"@ {
        Some(RootfsProvider::Gentoo)
    } else if v == "debian"@ {
        Some(RootfsProvider::Debian)
    } else if v == "ubuntu"@ {
        Some(RootfsProvider::Ubuntu)
    } else if v == "alpine"@ {
        Some(RootfsProvider::Alpine)
    } else if v == "fedora"@ {
        Some(RootfsProvider::Fedora)
    } else if v == "buildroot"@ {
        Some(RootfsProvider::Buildroot)
    } else if v == "openwrt"@ {
        Some(RootfsProvider::OpenWrt)
    } else if v == "none"@ {
        Some(RootfsProvider::Empty)
    } else {
        None
    }
}

/// The suite and mirror keys of a debootstrap provider, `None` for the others.
pub open spec fn spec_debootstrap_keys(p: RootfsProvider) -> Option<(Seq<char>, Seq<char>)> {
    match p {
        RootfsProvider::Debian => Some(("DEBIAN_SUITE"@, "DEBIAN_MIRROR"@)),
        RootfsProvider::Ubuntu => Some(("UBUNTU_SUITE"@, "UBUNTU_MIRROR"@)),
        _ => None,
    }
}

impl RootfsProvider {
    /// The provider a `ROOTFS_PROVIDER` value names.
    pub fn parse(v: &str) -> (r: Option<RootfsProvider>)
        ensures
            r == spec_provider(v@),
    {
        if text_eq(v, "gentoo") {
            Some(RootfsProvider::Gentoo)
        } else if text_eq(v, "debian") {
            Some(RootfsProvider::Debian)
        } else if text_eq(v, "ubuntu") {
            Some(RootfsProvider::Ubuntu)
        } else if text_eq(v, "alpine") {
            Some(RootfsProvider::Alpine)
        } else if text_eq(v, "fedora") {
            Some(RootfsProvider::Fedora)
        } else if text_eq(v, "buildroot") {
            Some(RootfsProvider::Buildroot)
        } else if text_eq(v, "openwrt") {
            Some(RootfsProvider::OpenWrt)
        } else if text_eq(v, "none") {
            Some(RootfsProvider::Empty)
        } else {
            None
        }
    }

    /// Debian and Ubuntu bootstrap with debootstrap, each from its own keys.
    pub fn debootstrap(&self) -> (r: Option<Debootstrap>)
        ensures
            match r {
                Some(d) => spec_debootstrap_keys(*self) == Some((d.suite_key@, d.mirror_key@)),
                None => spec_debootstrap_keys(*self) is None,
            },
    {
        match self {
            RootfsProvider::Debian => Some(
                Debootstrap { suite_key: "DEBIAN_SUITE", mirror_key: "DEBIAN_MIRROR" },
            ),
            RootfsProvider::Ubuntu => Some(
                Debootstrap { suite_key: "UBUNTU_SUITE", mirror_key: "UBUNTU_MIRROR" },
            ),
            _ => None,
        }
    }
}

impl Default for RootfsProvider {
    fn default() -> (r: RootfsProvider)
        ensures
            r == RootfsProvider::Gentoo,
    {
        RootfsProvider::Gentoo
    }
}

/// `ROOTFS_SECOND_STAGE` of a debootstrap board; absent means chroot.
#[derive(Debug, Clone, Copy, PartialEq, Eq, Structural)]
pub enum SecondStage {
    /// At build time, through qemu-user.
    Chroot,
    /// On the board's first boot.
    FirstBoot,
}

pub open spec fn spec_second_stage(v: Seq<char>) -> Option<SecondStage> {
    if v == "chroot"@ {
        Some(SecondStage::Chroot)
    } else if v == "first-boot"@ {
        Some(SecondStage::FirstBoot)
    } else {
        None
    }
}

impl SecondStage {
    /// The second stage a `ROOTFS_SECOND_STAGE` value names.
    pub fn parse(v: &str) -> (r: Option<SecondStage>)
        ensures
            r == spec_second_stage(v@),
    {
        if text_eq(v, "chroot") {
            Some(SecondStage::Chroot)
        } else if text_eq(v, "first-boot") {
            Some(SecondStage::FirstBoot)
        } else {
            None
        }
    }
}

impl Default for SecondStage {
    fn default() -> (r: SecondStage)
        ensures
            r == SecondStage::Chroot,
    {
        SecondStage::Chroot
    }
}

} // verus!
