use vstd::prelude::*;

verus! {

/// Which queues a listing covers.
pub enum ListCommands {
    All,
    Active,
    Done,
}

/// A command a client may submit to the daemon.
pub enum ManagerCommands {
    /// Queue a url for download, optionally under another base name or into
    /// another directory.
    Add { url: String, custom_name: Option<String>, custom_download_path: Option<String> },
    /// Render one or all of the queues.
    List { subcommands: ListCommands },
    /// Accepted, with no effect on any job.
    Cancel { filename: String },
    /// Describe the job with the given name.
    Info { filename: String },
    /// Start the daemon; meaningless once it runs.
    Start { active_downloads: u16, download_path: String },
}

/// The command envelope exchanged between client and daemon.
pub struct Manager {
    pub subcommands: ManagerCommands,
}

/// What the client does with a command it was given.
pub enum ClientAction {
    /// Run the daemon in this process with these settings.
    StartDaemon { active_downloads: u16, download_path: String },
    /// Answer at once with this text; nothing is sent.
    Reply(String),
    /// Send the command to the running daemon and show its answer.
    Forward(Manager),
}

impl Manager {
    /// `Start` runs the daemon here, `Cancel` is answered locally with a
    /// fixed text, and every other command goes to the daemon.
    pub fn client_action(self) -> (r: ClientAction)
        ensures
            match self.subcommands {
                ManagerCommands::Start { active_downloads, download_path } => r matches ClientAction::StartDaemon { active_downloads: a, download_path: p }
                    && a == active_downloads && p@ == download_path@,
                ManagerCommands::Cancel { .. } => r matches ClientAction::Reply(t) && t@ == "cancel command [not working yet]"@,
                _ => r matches ClientAction::Forward(m) && m == self,
            },
    {
        match self.subcommands {
            ManagerCommands::Start { active_downloads, download_path } => ClientAction::StartDaemon {
                active_downloads,
                download_path,
            },
            ManagerCommands::Cancel { .. } => ClientAction::Reply(
                String::from_str("cancel command [not working yet]"),
            ),
            _ => ClientAction::Forward(self),
        }
    }
}

} // verus!
