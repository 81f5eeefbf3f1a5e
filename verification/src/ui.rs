use vstd::prelude::*;

verus! {

/// Display mode of the info pane.
#[derive(Copy, Clone, Debug, PartialEq, Eq, Structural)]
pub enum InfoPaneMode {
    Normal,
    Large,
    Hidden,
}

impl InfoPaneMode {
    /// A visible pane hides; a hidden one returns at normal size.
    pub fn toggle_hidden(me: Self) -> (r: Self)
        ensures
            match me {
                InfoPaneMode::Normal => r == InfoPaneMode::Hidden,
                InfoPaneMode::Large => r == InfoPaneMode::Hidden,
                InfoPaneMode::Hidden => r == InfoPaneMode::Normal,
            },
    {
        match me {
            Self::Large | Self::Normal => Self::Hidden,
            Self::Hidden => Self::Normal,
        }
    }

    /// A large pane returns to normal; any other becomes large.
    pub fn toggle_large(me: Self) -> (r: Self)
        ensures
            match me {
                InfoPaneMode::Large => r == InfoPaneMode::Normal,
                InfoPaneMode::Normal => r == InfoPaneMode::Large,
                InfoPaneMode::Hidden => r == InfoPaneMode::Large,
            },
    {
        match me {
            Self::Large => Self::Normal,
            Self::Normal => Self::Large,
            Self::Hidden => Self::Large,
        }
    }
}

/// The info pane's application state.
pub struct InfoPaneApp {
    pub mode: InfoPaneMode,
}

impl InfoPaneApp {
    pub fn new() -> (r: Self)
        ensures
            r.mode == InfoPaneMode::Normal,
    {
        InfoPaneApp { mode: InfoPaneMode::Normal }
    }
}

/// Display mode of the minimap.
#[derive(Copy, Clone, Debug, PartialEq, Eq, Structural)]
pub enum MinimapMode {
    Normal,
    Large,
    Hidden,
}

impl MinimapMode {
    /// A visible minimap hides; a hidden one returns at normal size.
    pub fn toggle_hidden(me: Self) -> (r: Self)
        ensures
            match me {
                MinimapMode::Normal => r == MinimapMode::Hidden,
                MinimapMode::Large => r == MinimapMode::Hidden,
                MinimapMode::Hidden => r == MinimapMode::Normal,
            },
    {
        match me {
            Self::Large | Self::Normal => Self::Hidden,
            Self::Hidden => Self::Normal,
        }
    }

    /// A large minimap returns to normal; any other becomes large.
    pub fn toggle_large(me: Self) -> (r: Self)
        ensures
            match me {
                MinimapMode::Large => r == MinimapMode::Normal,
                MinimapMode::Normal => r == MinimapMode::Large,
                MinimapMode::Hidden => r == MinimapMode::Large,
            },
    {
        match me {
            Self::Large => Self::Normal,
            Self::Normal => Self::Large,
            Self::Hidden => Self::Large,
        }
    }
}

/// The minimap's application state.
pub struct MinimapApp {
    pub mode: MinimapMode,
}

impl MinimapApp {
    pub fn new() -> (r: Self)
        ensures
            r.mode == MinimapMode::Normal,
    {
        MinimapApp { mode: MinimapMode::Normal }
    }
}

} // verus!
