//! Where tools are installed and how their payloads are acquired.

use crate::embedded::{embedded_entries, has_embedded_binaries};
use crate::extract::{join_path, path_in};
use crate::text::{copy_text_opt, join2, str_opt, text_opt};
use crate::urls::candidates;
use include_dir::Dir;
use vstd::prelude::*;

verus! {

/// Where and how tools are installed.
#[derive(Debug, PartialEq, Eq)]
pub struct Site {
    /// The installation directory.
    pub bin_dir: String,
    /// The key of the running platform.
    pub platform: String,
    /// Whether executables carry the `.exe` extension. Where they do not,
    /// files have POSIX permissions.
    pub windows: bool,
}

/// Mathematical value of a [`Site`].
pub struct SiteView {
    pub bin_dir: Seq<char>,
    pub platform: Seq<char>,
    pub windows: bool,
}

impl View for Site {
    type V = SiteView;

    open spec fn view(&self) -> SiteView {
        SiteView { bin_dir: self.bin_dir@, platform: self.platform@, windows: self.windows }
    }
}

/// The canonical path of a tool: its name in the installation directory,
/// with `.exe` appended where executables carry that extension.
pub open spec fn canonical_of(site: SiteView, tool: Seq<char>) -> Seq<char> {
    if site.windows {
        path_in(site.bin_dir, tool + ".exe"@)
    } else {
        path_in(site.bin_dir, tool)
    }
}

impl Site {
    /// The canonical path of `tool`.
    pub fn canonical_path(&self, tool: &str) -> (path: String)
        ensures
            path@ == canonical_of(self@, tool@),
    {
        if self.windows {
            let name = join2(tool, ".exe");
            join_path(self.bin_dir.as_str(), name.as_str())
        } else {
            join_path(self.bin_dir.as_str(), tool)
        }
    }
}

/// How payloads are acquired. Which strategy is in use is a matter of how
/// the host was built, not of the run.
#[derive(Debug, PartialEq, Eq)]
pub enum Strategy {
    /// Payloads are downloaded: from the direct URL and, when `use_proxy`,
    /// through the user's proxy prefix, if one is configured, and the
    /// built-in ones.
    Network { use_proxy: bool, custom_proxy: Option<String> },
    /// Payloads are released from the binaries embedded in the build.
    /// `available` tells whether this build carries any.
    Embedded { available: bool },
}

/// Mathematical value of a [`Strategy`].
pub enum StrategyView {
    Network { use_proxy: bool, custom_proxy: Option<Seq<char>> },
    Embedded { available: bool },
}

impl View for Strategy {
    type V = StrategyView;

    open spec fn view(&self) -> StrategyView {
        match self {
            Strategy::Network { use_proxy, custom_proxy } => StrategyView::Network {
                use_proxy: *use_proxy,
                custom_proxy: text_opt(*custom_proxy),
            },
            Strategy::Embedded { available } => StrategyView::Embedded { available: *available },
        }
    }
}

impl Strategy {
    /// The download strategy.
    pub fn network(use_proxy: bool, custom_proxy: Option<&str>) -> (strategy: Self)
        ensures
            strategy@ == (StrategyView::Network { use_proxy, custom_proxy: str_opt(custom_proxy) }),
    {
        Strategy::Network {
            use_proxy,
            custom_proxy: match custom_proxy {
                Some(p) => Some(String::from_str(p)),
                None => None,
            },
        }
    }

    /// The strategy of a build that embeds its helpers in `dir`.
    pub fn embedded(dir: &Dir<'static>) -> (strategy: Self)
        ensures
            strategy@ == (StrategyView::Embedded {
                available: embedded_entries(*dir) > 0,
            }),
    {
        Strategy::Embedded { available: has_embedded_binaries(dir) }
    }
}

impl Clone for Strategy {
    fn clone(&self) -> (out: Self)
        ensures
            out@ == self@,
    {
        match self {
            Strategy::Network { use_proxy, custom_proxy } => Strategy::Network {
                use_proxy: *use_proxy,
                custom_proxy: copy_text_opt(custom_proxy),
            },
            Strategy::Embedded { available } => Strategy::Embedded { available: *available },
        }
    }
}

/// The URLs to try under a strategy, in order. An embedded payload has none.
pub open spec fn sources(strategy: StrategyView, url: Seq<char>) -> Seq<Seq<char>> {
    match strategy {
        StrategyView::Network { use_proxy, custom_proxy } => candidates(url, use_proxy, custom_proxy),
        StrategyView::Embedded { .. } => Seq::empty(),
    }
}

} // verus!
