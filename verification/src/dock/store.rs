//! When a layout is written out, where it goes, and what is read back.

use crate::dock::config::{config_of, config_text};
use crate::dock::kind::PanelKind;
use crate::dock::layout::Layout;
use crate::dock::model::LayoutView;
use vstd::prelude::*;

verus! {

/// What a saved layout comes to: the shipped one where there is none, or where
/// it is not one that can be read.
pub open spec fn loaded(saved: Option<Seq<char>>) -> LayoutView {
    match saved {
        Some(text) => match config_of(text) {
            Some(layout) => layout,
            None => LayoutView::shipped(),
        },
        None => LayoutView::shipped(),
    }
}

impl Layout {
    /// Read the saved layout, falling back to the default if anything is amiss.
    pub fn load_or_default(saved: Option<&str>) -> (r: Layout)
        ensures
            r@ == loaded(
                match saved {
                    Some(text) => Some(text@),
                    None => None,
                },
            ),
            r@.sound(),
    {
        match saved {
            Some(text) => match Layout::from_config(text) {
                Some(layout) => layout,
                None => Layout::default(),
            },
            None => Layout::default(),
        }
    }

    /// The text to write out, if the layout has changed since the last write.
    /// Nothing is written with a panel in the air.
    pub fn save_if_dirty(&mut self) -> (r: Option<String>)
        requires
            old(self)@.sound(),
        ensures
            (r is Some) == (old(self)@.dirty && old(self)@.drag is None),
            r matches Some(text) ==> text@ == config_text(old(self)@),
            final(self)@ == if r is Some {
                LayoutView { dirty: false, ..old(self)@ }
            } else {
                old(self)@
            },
            final(self)@.sound(),
    {
        if !self.dirty || self.drag.is_some() {
            return None;
        }
        let text = self.to_config();
        self.dirty = false;
        assert forall|k: PanelKind| #[trigger] self@.tally(k) <= 2 by {
            assert(self@.tally(k) == old(self)@.tally(k));
        }
        Some(text)
    }
}

/// Which desktop the file lives on.
#[derive(Clone, Copy, Debug, PartialEq, Eq, Structural)]
pub enum Platform {
    Windows,
    MacOs,
    Other,
}

/// Where files like this one are kept, as the environment has it.
#[derive(Debug)]
pub struct Places {
    pub appdata: Option<String>,
    pub home: Option<String>,
    pub xdg_config_home: Option<String>,
}

/// The directory the layout file is in: one the environment names, and what
/// comes under it.
pub open spec fn place_of(platform: Platform, places: Places) -> Option<(String, &'static str)> {
    match platform {
        Platform::Windows => match places.appdata {
            Some(base) => Some((base, "Umber")),
            None => None,
        },
        Platform::MacOs => match places.home {
            Some(base) => Some((base, "Library/Application Support/Umber")),
            None => None,
        },
        Platform::Other => match places.xdg_config_home {
            Some(base) => Some((base, "umber")),
            None => match places.home {
                Some(base) => Some((base, ".config/umber")),
                None => None,
            },
        },
    }
}

/// What the file is called.
pub const FILE: &'static str = "layout.conf";

/// Where the layout file lives. Without a place for it nothing is kept.
pub fn config_path(platform: Platform, places: Places) -> (r: Option<(String, &'static str)>)
    ensures
        r == place_of(platform, places),
{
    match platform {
        Platform::Windows => match places.appdata {
            Some(base) => Some((base, "Umber")),
            None => None,
        },
        Platform::MacOs => match places.home {
            Some(base) => Some((base, "Library/Application Support/Umber")),
            None => None,
        },
        Platform::Other => match places.xdg_config_home {
            Some(base) => Some((base, "umber")),
            None => match places.home {
                Some(base) => Some((base, ".config/umber")),
                None => None,
            },
        },
    }
}

/// What was saved is what comes back; where nothing was, or nothing that can be read, the
/// shipped arrangement stands.
pub proof fn a_layout_comes_back_or_the_shipped_one_does(saved: Option<Seq<char>>)
    ensures
        saved is None ==> loaded(saved) == LayoutView::shipped(),
        saved is Some && config_of(saved->0) is None ==> loaded(saved) == LayoutView::shipped(),
        saved is Some && config_of(saved->0) is Some ==> loaded(saved) == config_of(saved->0)->0,
{
}

/// The file is kept where each system keeps such files: under the roaming data, under
/// Application Support at home, or under the configuration's own home, which is `.config`
/// at home unless it is said to be elsewhere. Without such a place there is none.
pub proof fn a_layout_is_kept_where_the_system_says(places: Places)
    ensures
        place_of(Platform::Windows, places) == match places.appdata {
            Some(base) => Some((base, "Umber")),
            None => None,
        },
        place_of(Platform::MacOs, places) == match places.home {
            Some(base) => Some((base, "Library/Application Support/Umber")),
            None => None,
        },
        places.xdg_config_home matches Some(base) ==> place_of(Platform::Other, places) == Some(
            (base, "umber"),
        ),
        places.xdg_config_home is None && places.home is Some ==> place_of(Platform::Other, places)
            == Some((places.home->0, ".config/umber")),
        places.xdg_config_home is None && places.home is None ==> place_of(
            Platform::Other,
            places,
        ) is None,
{
}

} // verus!
