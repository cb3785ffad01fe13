//! Color themes and the styles made of them.
use vstd::prelude::*;

verus! {

/// A color.
#[derive(Clone, Copy, Debug, PartialEq, Eq, Structural)]
pub enum Color {
    Rgb(u8, u8, u8),
}

/// How text is drawn. What is not given stays as it is.
#[derive(Clone, Copy, Debug, PartialEq, Eq, Structural)]
pub struct Style {
    pub fg: Option<Color>,
    pub bg: Option<Color>,
    pub bold: bool,
}

/// A palette, as red, green and blue.
#[derive(Clone, Copy, Debug)]
pub struct Theme {
    /// The screen.
    pub bg: (u8, u8, u8),
    /// Panes.
    pub surface: (u8, u8, u8),
    /// Raised parts of panes.
    pub surface2: (u8, u8, u8),
    /// Borders.
    pub border: (u8, u8, u8),
    /// The border of the pane with focus.
    pub border_focus: (u8, u8, u8),
    /// Titles and the cursor.
    pub accent: (u8, u8, u8),
    /// A second accent.
    pub accent2: (u8, u8, u8),
    /// Text.
    pub fg: (u8, u8, u8),
    /// Secondary text.
    pub fg_dim: (u8, u8, u8),
    /// Highlighted text.
    pub fg_highlight: (u8, u8, u8),
    /// Times.
    pub timestamp: (u8, u8, u8),
    /// The mark of a message that is sent.
    pub status_sent: (u8, u8, u8),
    /// The mark of a message that is delivered.
    pub status_ok: (u8, u8, u8),
    /// The mark of a message that failed.
    pub status_err: (u8, u8, u8),
    /// Connected peers.
    pub peer_active: (u8, u8, u8),
    /// Other peers.
    pub peer_known: (u8, u8, u8),
    /// Own messages.
    pub my_msg: (u8, u8, u8),
    /// Messages of others.
    pub their_msg: (u8, u8, u8),
}

impl Theme {
    /// The dark blue palette, the default.
    pub open spec fn dark_hacker_colors() -> Theme {
        Theme {
            bg: (15, 17, 23),
            surface: (22, 27, 34),
            surface2: (30, 36, 46),
            border: (48, 54, 68),
            border_focus: (82, 175, 200),
            accent: (82, 175, 200),
            accent2: (52, 152, 175),
            fg: (210, 215, 225),
            fg_dim: (110, 120, 140),
            fg_highlight: (255, 255, 255),
            timestamp: (190, 150, 80),
            status_sent: (130, 140, 160),
            status_ok: (80, 200, 130),
            status_err: (210, 70, 90),
            peer_active: (80, 200, 130),
            peer_known: (130, 140, 160),
            my_msg: (82, 175, 200),
            their_msg: (210, 215, 225),
        }
    }

    /// The dark blue palette, the default.
    pub fn dark_hacker() -> (out: Self)
        ensures
            out == Self::dark_hacker_colors(),
    {
        Theme {
            bg: (15, 17, 23),
            surface: (22, 27, 34),
            surface2: (30, 36, 46),
            border: (48, 54, 68),
            border_focus: (82, 175, 200),
            accent: (82, 175, 200),
            accent2: (52, 152, 175),
            fg: (210, 215, 225),
            fg_dim: (110, 120, 140),
            fg_highlight: (255, 255, 255),
            timestamp: (190, 150, 80),
            status_sent: (130, 140, 160),
            status_ok: (80, 200, 130),
            status_err: (210, 70, 90),
            peer_active: (80, 200, 130),
            peer_known: (130, 140, 160),
            my_msg: (82, 175, 200),
            their_msg: (210, 215, 225),
        }
    }

    /// The dark green palette.
    pub open spec fn muted_forest_colors() -> Theme {
        Theme {
            bg: (20, 24, 20),
            surface: (28, 33, 28),
            surface2: (38, 44, 38),
            border: (55, 65, 55),
            border_focus: (120, 180, 120),
            accent: (120, 180, 120),
            accent2: (90, 140, 90),
            fg: (200, 210, 200),
            fg_dim: (130, 140, 130),
            fg_highlight: (240, 255, 240),
            timestamp: (180, 160, 100),
            status_sent: (140, 150, 140),
            status_ok: (100, 190, 100),
            status_err: (200, 80, 80),
            peer_active: (100, 190, 100),
            peer_known: (140, 150, 140),
            my_msg: (120, 180, 120),
            their_msg: (200, 210, 200),
        }
    }

    /// The dark green palette.
    pub fn muted_forest() -> (out: Self)
        ensures
            out == Self::muted_forest_colors(),
    {
        Theme {
            bg: (20, 24, 20),
            surface: (28, 33, 28),
            surface2: (38, 44, 38),
            border: (55, 65, 55),
            border_focus: (120, 180, 120),
            accent: (120, 180, 120),
            accent2: (90, 140, 90),
            fg: (200, 210, 200),
            fg_dim: (130, 140, 130),
            fg_highlight: (240, 255, 240),
            timestamp: (180, 160, 100),
            status_sent: (140, 150, 140),
            status_ok: (100, 190, 100),
            status_err: (200, 80, 80),
            peer_active: (100, 190, 100),
            peer_known: (140, 150, 140),
            my_msg: (120, 180, 120),
            their_msg: (200, 210, 200),
        }
    }

    /// The theme to use, and whether the file is to be written anew: the
    /// file's theme where it holds one, else the default, saved for the
    /// user to edit.
    pub fn load_or_default(stored: Option<Theme>) -> (out: (Theme, bool))
        ensures
            match stored {
                Some(theme) => out == (theme, false),
                None => out == (Self::dark_hacker_colors(), true),
            },
    {
        match stored {
            Some(theme) => (theme, false),
            None => (Self::dark_hacker(), true),
        }
    }

    /// The screen.
    pub fn get_bg(&self) -> (out: Color)
        ensures
            out == Color::Rgb(self.bg.0, self.bg.1, self.bg.2),
    {
        Color::Rgb(self.bg.0, self.bg.1, self.bg.2)
    }

    /// Panes.
    pub fn get_surface(&self) -> (out: Color)
        ensures
            out == Color::Rgb(self.surface.0, self.surface.1, self.surface.2),
    {
        Color::Rgb(self.surface.0, self.surface.1, self.surface.2)
    }

    /// Raised parts of panes.
    pub fn get_surface2(&self) -> (out: Color)
        ensures
            out == Color::Rgb(self.surface2.0, self.surface2.1, self.surface2.2),
    {
        Color::Rgb(self.surface2.0, self.surface2.1, self.surface2.2)
    }

    /// Borders.
    pub fn get_border(&self) -> (out: Color)
        ensures
            out == Color::Rgb(self.border.0, self.border.1, self.border.2),
    {
        Color::Rgb(self.border.0, self.border.1, self.border.2)
    }

    /// The border of the pane with focus.
    pub fn get_border_focus(&self) -> (out: Color)
        ensures
            out == Color::Rgb(self.border_focus.0, self.border_focus.1, self.border_focus.2),
    {
        Color::Rgb(self.border_focus.0, self.border_focus.1, self.border_focus.2)
    }

    /// Titles and the cursor.
    pub fn get_accent(&self) -> (out: Color)
        ensures
            out == Color::Rgb(self.accent.0, self.accent.1, self.accent.2),
    {
        Color::Rgb(self.accent.0, self.accent.1, self.accent.2)
    }

    /// Text.
    pub fn get_fg(&self) -> (out: Color)
        ensures
            out == Color::Rgb(self.fg.0, self.fg.1, self.fg.2),
    {
        Color::Rgb(self.fg.0, self.fg.1, self.fg.2)
    }

    /// Secondary text.
    pub fn get_fg_dim(&self) -> (out: Color)
        ensures
            out == Color::Rgb(self.fg_dim.0, self.fg_dim.1, self.fg_dim.2),
    {
        Color::Rgb(self.fg_dim.0, self.fg_dim.1, self.fg_dim.2)
    }

    /// Highlighted text.
    pub fn get_fg_highlight(&self) -> (out: Color)
        ensures
            out == Color::Rgb(self.fg_highlight.0, self.fg_highlight.1, self.fg_highlight.2),
    {
        Color::Rgb(self.fg_highlight.0, self.fg_highlight.1, self.fg_highlight.2)
    }

    /// Times.
    pub fn get_timestamp(&self) -> (out: Color)
        ensures
            out == Color::Rgb(self.timestamp.0, self.timestamp.1, self.timestamp.2),
    {
        Color::Rgb(self.timestamp.0, self.timestamp.1, self.timestamp.2)
    }

    /// The mark of a message that is sent.
    pub fn get_status_sent(&self) -> (out: Color)
        ensures
            out == Color::Rgb(self.status_sent.0, self.status_sent.1, self.status_sent.2),
    {
        Color::Rgb(self.status_sent.0, self.status_sent.1, self.status_sent.2)
    }

    /// The mark of a message that is delivered.
    pub fn get_status_ok(&self) -> (out: Color)
        ensures
            out == Color::Rgb(self.status_ok.0, self.status_ok.1, self.status_ok.2),
    {
        Color::Rgb(self.status_ok.0, self.status_ok.1, self.status_ok.2)
    }

    /// The mark of a message that failed.
    pub fn get_status_err(&self) -> (out: Color)
        ensures
            out == Color::Rgb(self.status_err.0, self.status_err.1, self.status_err.2),
    {
        Color::Rgb(self.status_err.0, self.status_err.1, self.status_err.2)
    }

    /// Connected peers.
    pub fn get_peer_active(&self) -> (out: Color)
        ensures
            out == Color::Rgb(self.peer_active.0, self.peer_active.1, self.peer_active.2),
    {
        Color::Rgb(self.peer_active.0, self.peer_active.1, self.peer_active.2)
    }

    /// Other peers.
    pub fn get_peer_known(&self) -> (out: Color)
        ensures
            out == Color::Rgb(self.peer_known.0, self.peer_known.1, self.peer_known.2),
    {
        Color::Rgb(self.peer_known.0, self.peer_known.1, self.peer_known.2)
    }

    /// Own messages.
    pub fn get_my_msg(&self) -> (out: Color)
        ensures
            out == Color::Rgb(self.my_msg.0, self.my_msg.1, self.my_msg.2),
    {
        Color::Rgb(self.my_msg.0, self.my_msg.1, self.my_msg.2)
    }

    /// Messages of others.
    pub fn get_their_msg(&self) -> (out: Color)
        ensures
            out == Color::Rgb(self.their_msg.0, self.their_msg.1, self.their_msg.2),
    {
        Color::Rgb(self.their_msg.0, self.their_msg.1, self.their_msg.2)
    }

    /// A border.
    pub open spec fn border_look(self) -> Style {
        Style {
            fg: Some(Color::Rgb(self.border.0, self.border.1, self.border.2)),
            bg: None,
            bold: false,
        }
    }

    /// A border.
    pub fn border_style(&self) -> (out: Style)
        ensures
            out == self.border_look(),
    {
        Style { fg: Some(self.get_border()), bg: None, bold: false }
    }

    /// The border of the pane with focus.
    pub open spec fn border_focused_look(self) -> Style {
        Style {
            fg: Some(Color::Rgb(self.border_focus.0, self.border_focus.1, self.border_focus.2)),
            bg: None,
            bold: false,
        }
    }

    /// The border of the pane with focus.
    pub fn border_focused_style(&self) -> (out: Style)
        ensures
            out == self.border_focused_look(),
    {
        Style { fg: Some(self.get_border_focus()), bg: None, bold: false }
    }

    /// A title.
    pub open spec fn title_look(self) -> Style {
        Style {
            fg: Some(Color::Rgb(self.accent.0, self.accent.1, self.accent.2)),
            bg: None,
            bold: true,
        }
    }

    /// A title.
    pub fn title_style(&self) -> (out: Style)
        ensures
            out == self.title_look(),
    {
        Style { fg: Some(self.get_accent()), bg: None, bold: true }
    }

    /// The body of a pane.
    pub open spec fn body_look(self) -> Style {
        Style {
            fg: Some(Color::Rgb(self.fg.0, self.fg.1, self.fg.2)),
            bg: Some(Color::Rgb(self.surface.0, self.surface.1, self.surface.2)),
            bold: false,
        }
    }

    /// The body of a pane.
    pub fn body_style(&self) -> (out: Style)
        ensures
            out == self.body_look(),
    {
        Style { fg: Some(self.get_fg()), bg: Some(self.get_surface()), bold: false }
    }

    /// Secondary text.
    pub open spec fn dim_look(self) -> Style {
        Style {
            fg: Some(Color::Rgb(self.fg_dim.0, self.fg_dim.1, self.fg_dim.2)),
            bg: None,
            bold: false,
        }
    }

    /// Secondary text.
    pub fn dim_style(&self) -> (out: Style)
        ensures
            out == self.dim_look(),
    {
        Style { fg: Some(self.get_fg_dim()), bg: None, bold: false }
    }

    /// Highlighted text.
    pub open spec fn highlight_look(self) -> Style {
        Style {
            fg: Some(Color::Rgb(self.fg_highlight.0, self.fg_highlight.1, self.fg_highlight.2)),
            bg: None,
            bold: true,
        }
    }

    /// Highlighted text.
    pub fn highlight_style(&self) -> (out: Style)
        ensures
            out == self.highlight_look(),
    {
        Style { fg: Some(self.get_fg_highlight()), bg: None, bold: true }
    }

    /// The input line.
    pub open spec fn input_look(self) -> Style {
        Style {
            fg: Some(Color::Rgb(self.fg.0, self.fg.1, self.fg.2)),
            bg: Some(Color::Rgb(self.surface2.0, self.surface2.1, self.surface2.2)),
            bold: false,
        }
    }

    /// The input line.
    pub fn input_style(&self) -> (out: Style)
        ensures
            out == self.input_look(),
    {
        Style { fg: Some(self.get_fg()), bg: Some(self.get_surface2()), bold: false }
    }

    /// The character under the cursor.
    pub open spec fn cursor_look(self) -> Style {
        Style {
            fg: Some(Color::Rgb(self.bg.0, self.bg.1, self.bg.2)),
            bg: Some(Color::Rgb(self.accent.0, self.accent.1, self.accent.2)),
            bold: false,
        }
    }

    /// The character under the cursor.
    pub fn cursor_style(&self) -> (out: Style)
        ensures
            out == self.cursor_look(),
    {
        Style { fg: Some(self.get_bg()), bg: Some(self.get_accent()), bold: false }
    }

    /// The status bar.
    pub open spec fn status_bar_look(self) -> Style {
        Style {
            fg: Some(Color::Rgb(self.fg_dim.0, self.fg_dim.1, self.fg_dim.2)),
            bg: Some(Color::Rgb(self.surface2.0, self.surface2.1, self.surface2.2)),
            bold: false,
        }
    }

    /// The status bar.
    pub fn status_bar_style(&self) -> (out: Style)
        ensures
            out == self.status_bar_look(),
    {
        Style { fg: Some(self.get_fg_dim()), bg: Some(self.get_surface2()), bold: false }
    }

    /// A connected peer.
    pub open spec fn peer_active_look(self) -> Style {
        Style {
            fg: Some(Color::Rgb(self.peer_active.0, self.peer_active.1, self.peer_active.2)),
            bg: None,
            bold: true,
        }
    }

    /// A connected peer.
    pub fn peer_active_style(&self) -> (out: Style)
        ensures
            out == self.peer_active_look(),
    {
        Style { fg: Some(self.get_peer_active()), bg: None, bold: true }
    }

    /// Another peer.
    pub open spec fn peer_known_look(self) -> Style {
        Style {
            fg: Some(Color::Rgb(self.peer_known.0, self.peer_known.1, self.peer_known.2)),
            bg: None,
            bold: false,
        }
    }

    /// Another peer.
    pub fn peer_known_style(&self) -> (out: Style)
        ensures
            out == self.peer_known_look(),
    {
        Style { fg: Some(self.get_peer_known()), bg: None, bold: false }
    }

    /// A time.
    pub open spec fn timestamp_look(self) -> Style {
        Style {
            fg: Some(Color::Rgb(self.timestamp.0, self.timestamp.1, self.timestamp.2)),
            bg: None,
            bold: false,
        }
    }

    /// A time.
    pub fn timestamp_style(&self) -> (out: Style)
        ensures
            out == self.timestamp_look(),
    {
        Style { fg: Some(self.get_timestamp()), bg: None, bold: false }
    }

    /// An own message.
    pub open spec fn msg_mine_look(self) -> Style {
        Style {
            fg: Some(Color::Rgb(self.my_msg.0, self.my_msg.1, self.my_msg.2)),
            bg: None,
            bold: false,
        }
    }

    /// An own message.
    pub fn msg_mine_style(&self) -> (out: Style)
        ensures
            out == self.msg_mine_look(),
    {
        Style { fg: Some(self.get_my_msg()), bg: None, bold: false }
    }

    /// A message of another.
    pub open spec fn msg_theirs_look(self) -> Style {
        Style {
            fg: Some(Color::Rgb(self.their_msg.0, self.their_msg.1, self.their_msg.2)),
            bg: None,
            bold: false,
        }
    }

    /// A message of another.
    pub fn msg_theirs_style(&self) -> (out: Style)
        ensures
            out == self.msg_theirs_look(),
    {
        Style { fg: Some(self.get_their_msg()), bg: None, bold: false }
    }

    /// The mark of a message that is sent.
    pub open spec fn status_sent_look(self) -> Style {
        Style {
            fg: Some(Color::Rgb(self.status_sent.0, self.status_sent.1, self.status_sent.2)),
            bg: None,
            bold: false,
        }
    }

    /// The mark of a message that is sent.
    pub fn status_sent_style(&self) -> (out: Style)
        ensures
            out == self.status_sent_look(),
    {
        Style { fg: Some(self.get_status_sent()), bg: None, bold: false }
    }

    /// The mark of a message that is delivered.
    pub open spec fn status_delivered_look(self) -> Style {
        Style {
            fg: Some(Color::Rgb(self.status_ok.0, self.status_ok.1, self.status_ok.2)),
            bg: None,
            bold: false,
        }
    }

    /// The mark of a message that is delivered.
    pub fn status_delivered_style(&self) -> (out: Style)
        ensures
            out == self.status_delivered_look(),
    {
        Style { fg: Some(self.get_status_ok()), bg: None, bold: false }
    }

    /// The mark of a message that failed.
    pub open spec fn status_failed_look(self) -> Style {
        Style {
            fg: Some(Color::Rgb(self.status_err.0, self.status_err.1, self.status_err.2)),
            bg: None,
            bold: false,
        }
    }

    /// The mark of a message that failed.
    pub fn status_failed_style(&self) -> (out: Style)
        ensures
            out == self.status_failed_look(),
    {
        Style { fg: Some(self.get_status_err()), bg: None, bold: false }
    }
}

impl Default for Theme {
    fn default() -> (out: Self)
        ensures
            out == Self::dark_hacker_colors(),
    {
        Theme::dark_hacker()
    }
}

} // verus!
