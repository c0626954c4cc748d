//! Application-level state: which screen is showing and which panel has
//! focus while connected.
use vstd::prelude::*;

verus! {

/// Which panel holds focus while a session is up.
#[derive(Debug, Clone, PartialEq, Eq, Structural)]
pub enum ConnectedFocus {
    Terminal,
    LLM,
}

/// The top-level screen: the connection listing, or a live session.
#[derive(Debug, Clone, PartialEq)]
pub enum AppState {
    Listing,
    Connected { connection_name: String, focus: ConnectedFocus },
}

/// The application shell: the current screen, the known connections, and
/// an error banner if one is up.
#[derive(Debug)]
pub struct App {
    pub state: AppState,
    pub connections: Vec<crate::ssh::SSHConnection>,
    pub error: Option<String>,
}

impl App {
    /// A fresh application on the listing screen.
    pub fn new(connections: Vec<crate::ssh::SSHConnection>) -> (a: App)
        ensures
            (a.state is Listing),
            (a.error is None),
            a.connections == connections,
    {
        App { state: AppState::Listing, connections, error: Option::None }
    }

    /// Enter a session: the terminal panel takes focus.
    pub fn connect(&mut self, name: String)
        ensures
            final(self).state == (AppState::Connected {
                connection_name: name,
                focus: ConnectedFocus::Terminal,
            }),
            final(self).connections == old(self).connections,
            final(self).error == old(self).error,
    {
        self.state = AppState::Connected { connection_name: name, focus: ConnectedFocus::Terminal };
    }

    /// Leave the session and return to the listing.
    pub fn disconnect(&mut self)
        ensures
            (final(self).state is Listing),
            final(self).connections == old(self).connections,
            final(self).error == old(self).error,
    {
        self.state = AppState::Listing;
    }

    /// Swap focus between the terminal and the assistant panel; outside a
    /// session nothing changes.
    pub fn cycle_focus(&mut self)
        ensures
            final(self).state == (match old(self).state {
                AppState::Connected { connection_name, focus } => AppState::Connected {
                    connection_name,
                    focus: match focus {
                        ConnectedFocus::Terminal => ConnectedFocus::LLM,
                        ConnectedFocus::LLM => ConnectedFocus::Terminal,
                    },
                },
                AppState::Listing => AppState::Listing,
            }),
            final(self).connections == old(self).connections,
            final(self).error == old(self).error,
    {
        let next = match &self.state {
            AppState::Connected { connection_name, focus } => AppState::Connected {
                connection_name: connection_name.clone(),
                focus: match focus {
                    ConnectedFocus::Terminal => ConnectedFocus::LLM,
                    ConnectedFocus::LLM => ConnectedFocus::Terminal,
                },
            },
            AppState::Listing => AppState::Listing,
        };
        self.state = next;
    }

    /// Raise the error banner.
    pub fn set_error(&mut self, msg: String)
        ensures
            final(self).error == Option::Some(msg),
            final(self).state == old(self).state,
            final(self).connections == old(self).connections,
    {
        self.error = Option::Some(msg);
    }

    /// Dismiss the error banner.
    pub fn clear_error(&mut self)
        ensures
            (final(self).error is None),
            final(self).state == old(self).state,
            final(self).connections == old(self).connections,
    {
        self.error = Option::None;
    }
}

} // verus!
